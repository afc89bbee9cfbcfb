//! Statements about candidates, and what the statement table reports of them.
use crate::context::TableContext;
use crate::primitives::{CandidateReceipt, H256, ParaId, Signature, ValidatorIndex};
use vstd::prelude::*;

verus! {

/// A statement about a candidate, given in full or by its digest.
#[derive(Clone, Debug, PartialEq, Eq)]
pub enum GenericStatement<C, D> {
    /// Puts a candidate forward.
    Candidate(C),
    /// Says that a candidate is valid.
    Valid(D),
    /// Says that a candidate is invalid.
    Invalid(D),
}

/// A statement about a parachain candidate.
pub type Statement = GenericStatement<CandidateReceipt, H256>;

/// The digest of the candidate that a statement is about.
pub open spec fn digest_of(statement: Statement) -> H256 {
    match statement {
        GenericStatement::Candidate(receipt) => receipt.candidate_hash,
        GenericStatement::Valid(digest) => digest,
        GenericStatement::Invalid(digest) => digest,
    }
}

/// The digest of the candidate that the statement is about.
pub fn statement_digest(statement: &Statement) -> (digest: H256)
    ensures
        digest == digest_of(*statement),
{
    match statement {
        GenericStatement::Candidate(receipt) => receipt.hash(),
        GenericStatement::Valid(digest) => *digest,
        GenericStatement::Invalid(digest) => *digest,
    }
}

/// A statement, signed by the validator that makes it.
#[derive(Clone, Debug, PartialEq, Eq)]
pub struct SignedStatement {
    /// The statement.
    pub statement: Statement,
    /// The signature on it.
    pub signature: Signature,
    /// The validator that makes it.
    pub sender: ValidatorIndex,
}

/// The statement table's summary of a candidate on which a statement was imported.
#[derive(Clone, Copy, Debug, PartialEq, Eq)]
pub struct Summary {
    /// The digest of the candidate.
    pub candidate: H256,
    /// The parachain that the candidate belongs to.
    pub group_id: ParaId,
}

/// What the statement table holds of a candidate right after the import of a statement on it.
#[derive(Clone, Debug, PartialEq, Eq)]
pub struct TableReport {
    /// The summary that the import gave.
    pub summary: Summary,
    /// Whether the summary's candidate can be included.
    pub includable: bool,
    /// The receipt of the summary's candidate, where the table has it.
    pub receipt: Option<CandidateReceipt>,
}

impl TableReport {
    /// Asks the statement table about the candidate of a summary: `candidate_includable` whether
    /// it can be included, and `get_candidate` for its receipt. Where the import gave no
    /// summary, nothing is asked.
    pub fn gather<I, G>(
        summary: Option<Summary>,
        context: &TableContext,
        candidate_includable: I,
        get_candidate: G,
    ) -> (report: Option<TableReport>) where
        I: FnOnce(&H256, &TableContext) -> bool,
        G: FnOnce(&H256) -> Option<CandidateReceipt>,

        requires
            summary is Some ==> call_requires(
                candidate_includable,
                (&summary->Some_0.candidate, context),
            ) && call_requires(get_candidate, (&summary->Some_0.candidate,)),
        ensures
            match summary {
                Some(summary) => {
                    &&& report is Some
                    &&& report->Some_0.summary == summary
                    &&& call_ensures(
                        candidate_includable,
                        (&summary.candidate, context),
                        report->Some_0.includable,
                    )
                    &&& call_ensures(
                        get_candidate,
                        (&summary.candidate,),
                        report->Some_0.receipt,
                    )
                },
                None => report is None,
            },
    {
        match summary {
            Some(summary) => {
                let includable = candidate_includable(&summary.candidate, context);
                let receipt = get_candidate(&summary.candidate);
                Some(TableReport { summary, includable, receipt })
            },
            None => None,
        }
    }
}

/// How a validator vouched for a candidate, as the statement table records it.
#[derive(Clone, Debug, PartialEq, Eq)]
pub enum TableAttestation {
    /// By putting the candidate forward.
    Implicit(Signature),
    /// By saying that the candidate is valid.
    Explicit(Signature),
}

/// A candidate of the statement table that has enough votes.
#[derive(Clone, Debug, PartialEq, Eq)]
pub struct TableCandidate {
    /// The candidate.
    pub candidate: CandidateReceipt,
    /// Who vouched for it, and how.
    pub validity_votes: Vec<(ValidatorIndex, TableAttestation)>,
}

/// How a validator vouched for a candidate, as the relay chain expects it.
#[derive(Clone, Debug, PartialEq, Eq)]
pub enum ValidityAttestation {
    /// By putting the candidate forward.
    Implicit(Signature),
    /// By saying that the candidate is valid.
    Explicit(Signature),
}

/// A candidate with the votes that allow its inclusion.
#[derive(Clone, Debug, PartialEq, Eq)]
pub struct AttestedCandidate {
    /// The candidate.
    pub candidate: CandidateReceipt,
    /// Who vouched for it, and how.
    pub validity_votes: Vec<(ValidatorIndex, ValidityAttestation)>,
}

/// The relay chain's form of an attestation.
pub open spec fn attestation_of(attestation: TableAttestation) -> ValidityAttestation {
    match attestation {
        TableAttestation::Implicit(signature) => ValidityAttestation::Implicit(signature),
        TableAttestation::Explicit(signature) => ValidityAttestation::Explicit(signature),
    }
}

/// The relay chain's form of a list of votes.
pub open spec fn votes_of(votes: Seq<(ValidatorIndex, TableAttestation)>) -> Seq<
    (ValidatorIndex, ValidityAttestation),
> {
    votes.map_values(|vote: (ValidatorIndex, TableAttestation)| (vote.0, attestation_of(vote.1)))
}

/// Whether one candidate is the relay chain's form of the other.
pub open spec fn attests(attested: AttestedCandidate, candidate: TableCandidate) -> bool {
    attested.candidate == candidate.candidate && attested.validity_votes@ == votes_of(
        candidate.validity_votes@,
    )
}

/// The relay chain's form of the candidate.
pub fn attested(candidate: TableCandidate) -> (result: AttestedCandidate)
    ensures
        attests(result, candidate),
{
    let mut validity_votes: Vec<(ValidatorIndex, ValidityAttestation)> = Vec::new();
    let ghost votes = candidate.validity_votes@;
    for vote in iter: candidate.validity_votes
        invariant
            iter.seq() == votes,
            validity_votes@ == votes_of(votes.take(iter.index())),
    {
        let converted = match vote.1 {
            TableAttestation::Implicit(signature) => ValidityAttestation::Implicit(signature),
            TableAttestation::Explicit(signature) => ValidityAttestation::Explicit(signature),
        };
        validity_votes.push((vote.0, converted));
    }
    assert(votes.take(votes.len() as int) == votes);
    AttestedCandidate { candidate: candidate.candidate, validity_votes }
}

/// Whether each candidate of one list is the relay chain's form of that of another.
pub open spec fn all_attest(
    attested: Seq<AttestedCandidate>,
    candidates: Seq<TableCandidate>,
) -> bool {
    &&& attested.len() == candidates.len()
    &&& forall|i: int|
        0 <= i < attested.len() ==> attests(#[trigger] attested[i], candidates[i])
}

/// The relay chain's form of each of the candidates.
pub fn all_attested(candidates: Vec<TableCandidate>) -> (result: Vec<AttestedCandidate>)
    ensures
        all_attest(result@, candidates@),
{
    let mut result: Vec<AttestedCandidate> = Vec::new();
    let ghost all = candidates@;
    for candidate in iter: candidates
        invariant
            iter.seq() == all,
            result@.len() == iter.index(),
            forall|i: int| 0 <= i < result@.len() ==> attests(#[trigger] result@[i], all[i]),
    {
        result.push(attested(candidate));
    }
    result
}

} // verus!
