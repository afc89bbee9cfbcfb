//! The work of validating a candidate.
use crate::primitives::{
    BlockData, BlockId, CandidateReceipt, Collation, Extrinsic, H256, ParaId, PoVBlock,
};
use crate::statement::{GenericStatement, Statement};
use vstd::prelude::*;

verus! {

/// What validation found of a candidate.
#[derive(Clone, Debug, PartialEq, Eq)]
pub enum Validation {
    /// The candidate is valid, and yields the extrinsic data.
    Valid(PoVBlock, Extrinsic),
    /// The candidate is invalid.
    Invalid(PoVBlock),
}

/// How far the validation of a candidate has come.
#[derive(Clone, Debug, PartialEq, Eq)]
pub enum ValidationWork {
    /// It is done.
    Done(Validation),
    /// It was started.
    InProgress,
    /// It could not be started, for the given reason.
    Error(String),
}

/// How far the validation of a candidate has come, with the reason for an error as characters.
pub enum WorkState {
    /// It is done.
    Done(Validation),
    /// It was started.
    InProgress,
    /// It could not be started, for the given reason.
    Error(Seq<char>),
}

impl View for ValidationWork {
    type V = WorkState;

    open spec fn view(&self) -> WorkState {
        match *self {
            ValidationWork::Done(validation) => WorkState::Done(validation),
            ValidationWork::InProgress => WorkState::InProgress,
            ValidationWork::Error(reason) => WorkState::Error(reason@),
        }
    }
}

impl ValidationWork {
    /// Whether validation was started and is not done.
    pub fn is_in_progress(&self) -> (in_progress: bool)
        ensures
            in_progress == (self@ is InProgress),
    {
        match self {
            ValidationWork::InProgress => true,
            _ => false,
        }
    }

    /// Whether validation is done.
    pub fn is_done(&self) -> (done: bool)
        ensures
            done == (self@ is Done),
    {
        match self {
            ValidationWork::Done(_) => true,
            _ => false,
        }
    }
}

/// Whether a result of validation allows a statement to be made.
pub open spec fn supports(result: Validation, statement: Statement) -> bool {
    match statement {
        GenericStatement::Invalid(_) => result is Invalid,
        _ => result is Valid,
    }
}

/// Produced after validating a candidate.
pub struct Validated {
    statement: Statement,
    result: Validation,
}

impl Validated {
    #[verifier::type_invariant]
    spec fn supported(self) -> bool {
        supports(self.result, self.statement)
    }

    /// A statement about the validity of the candidate.
    pub closed spec fn said(self) -> Statement {
        self.statement
    }

    /// The result of validation.
    pub closed spec fn found(self) -> Validation {
        self.result
    }

    /// Note that we've validated a candidate with given hash and it is bad.
    pub fn known_bad(hash: H256, collation: PoVBlock) -> (validated: Self)
        ensures
            validated.said() == Statement::Invalid(hash),
            validated.found() == Validation::Invalid(collation),
    {
        Validated {
            statement: GenericStatement::Invalid(hash),
            result: Validation::Invalid(collation),
        }
    }

    /// Note that we've validated a candidate with given hash and it is good.
    /// Extrinsic data required.
    pub fn known_good(hash: H256, collation: PoVBlock, extrinsic: Extrinsic) -> (validated: Self)
        ensures
            validated.said() == Statement::Valid(hash),
            validated.found() == Validation::Valid(collation, extrinsic),
    {
        Validated {
            statement: GenericStatement::Valid(hash),
            result: Validation::Valid(collation, extrinsic),
        }
    }

    /// Note that we've collated a candidate.
    /// Extrinsic data required.
    pub fn collated_local(
        receipt: CandidateReceipt,
        collation: PoVBlock,
        extrinsic: Extrinsic,
    ) -> (validated: Self)
        ensures
            validated.said() == Statement::Candidate(receipt),
            validated.found() == Validation::Valid(collation, extrinsic),
    {
        Validated {
            statement: GenericStatement::Candidate(receipt),
            result: Validation::Valid(collation, extrinsic),
        }
    }

    /// Get a reference to the statement.
    pub fn statement(&self) -> (statement: &Statement)
        ensures
            *statement == self.said(),
    {
        &self.statement
    }

    /// Get a reference to the proof-of-validation block.
    pub fn pov_block(&self) -> (pov_block: &PoVBlock)
        ensures
            *pov_block == match self.found() {
                Validation::Valid(block, _) => block,
                Validation::Invalid(block) => block,
            },
    {
        match &self.result {
            Validation::Valid(block, _) => block,
            Validation::Invalid(block) => block,
        }
    }

    /// Get a reference to the extrinsic data, if any. There is some unless the statement is
    /// that the candidate is invalid.
    pub fn extrinsic(&self) -> (extrinsic: Option<&Extrinsic>)
        ensures
            extrinsic == match self.found() {
                Validation::Valid(_, data) => Some(&data),
                Validation::Invalid(_) => None,
            },
            extrinsic is None <==> self.said() is Invalid,
    {
        proof {
            use_type_invariant(self);
        }
        match &self.result {
            Validation::Valid(_, extrinsic) => Some(extrinsic),
            Validation::Invalid(_) => None,
        }
    }

    /// Take the statement and the result apart.
    pub fn into_parts(self) -> (parts: (Statement, Validation))
        ensures
            parts == (self.said(), self.found()),
            supports(parts.1, parts.0),
    {
        proof {
            use_type_invariant(&self);
        }
        (self.statement, self.result)
    }
}

/// What is to be stored so that others can fetch the block of a valid candidate.
#[derive(Clone, Copy, Debug, PartialEq, Eq)]
pub struct Data<'a> {
    /// The relay-chain parent of the candidate.
    pub relay_parent: H256,
    /// The parachain of the candidate.
    pub parachain_id: ParaId,
    /// The digest of the candidate.
    pub candidate_hash: H256,
    /// The block's data.
    pub block_data: &'a BlockData,
    /// The extrinsic data of the block.
    pub extrinsic: Option<&'a Extrinsic>,
}

/// A candidate that was found valid, before its data is stored.
#[derive(Clone, Debug, PartialEq, Eq)]
pub struct Unstored {
    /// The relay-chain parent of the candidate.
    pub relay_parent: H256,
    /// The parachain of the candidate.
    pub parachain_id: ParaId,
    /// The digest of the candidate.
    pub candidate_hash: H256,
    /// The block.
    pub pov_block: PoVBlock,
    /// The extrinsic data of the block.
    pub extrinsic: Extrinsic,
}

impl Unstored {
    /// What has to be stored.
    pub fn data(&self) -> (data: Data<'_>)
        ensures
            data == (Data {
                relay_parent: self.relay_parent,
                parachain_id: self.parachain_id,
                candidate_hash: self.candidate_hash,
                block_data: &self.pov_block.block_data,
                extrinsic: Some(&self.extrinsic),
            }),
    {
        Data {
            relay_parent: self.relay_parent,
            parachain_id: self.parachain_id,
            candidate_hash: self.candidate_hash,
            block_data: &self.pov_block.block_data,
            extrinsic: Some(&self.extrinsic),
        }
    }

    /// Goes on after the attempt to store the data: the candidate is stated to be valid only
    /// if its data could be stored.
    pub fn stored<E>(self, outcome: Result<(), E>) -> (validated: Result<Validated, E>)
        ensures
            match outcome {
                Ok(_) => {
                    &&& validated is Ok
                    &&& validated->Ok_0.said() == Statement::Valid(self.candidate_hash)
                    &&& validated->Ok_0.found() == Validation::Valid(
                        self.pov_block,
                        self.extrinsic,
                    )
                },
                Err(error) => validated == Err::<Validated, E>(error),
            },
    {
        match outcome {
            Ok(_) => Ok(
                Validated::known_good(self.candidate_hash, self.pov_block, self.extrinsic),
            ),
            Err(error) => Err(error),
        }
    }
}

/// What follows from validating a candidate.
pub enum Evaluation {
    /// The candidate is invalid, and is stated to be.
    Ready(Validated),
    /// The candidate is valid. Its data has to be stored before it is stated to be.
    MakeAvailable(Unstored),
}

/// Whether an evaluation is what follows from a verdict on a candidate.
pub open spec fn follows(
    evaluation: Evaluation,
    relay_parent: H256,
    collation: Collation,
    verdict: Result<Extrinsic, ()>,
) -> bool {
    match verdict {
        Ok(extrinsic) => evaluation == Evaluation::MakeAvailable(
            Unstored {
                relay_parent,
                parachain_id: collation.receipt.parachain_index,
                candidate_hash: collation.receipt.candidate_hash,
                pov_block: collation.pov,
                extrinsic,
            },
        ),
        Err(_) => {
            &&& evaluation is Ready
            &&& evaluation->Ready_0.said() == Statement::Invalid(collation.receipt.candidate_hash)
            &&& evaluation->Ready_0.found() == Validation::Invalid(collation.pov)
        },
    }
}

/// Draws the consequences of a verdict on a candidate.
pub fn conclude(
    relay_parent: H256,
    collation: Collation,
    verdict: Result<Extrinsic, ()>,
) -> (evaluation: Evaluation)
    ensures
        follows(evaluation, relay_parent, collation, verdict),
{
    let candidate_hash = collation.receipt.hash();
    match verdict {
        Err(_) => Evaluation::Ready(Validated::known_bad(candidate_hash, collation.pov)),
        Ok(extrinsic) => Evaluation::MakeAvailable(
            Unstored {
                relay_parent,
                parachain_id: collation.receipt.parachain_index,
                candidate_hash,
                pov_block: collation.pov,
                extrinsic,
            },
        ),
    }
}

/// Whether a result is what a verdict on a candidate leads to, once the data of a valid one was
/// handed to `make_available`.
pub open spec fn completes<M, E>(
    result: Result<Validated, E>,
    relay_parent: H256,
    collation: Collation,
    verdict: Result<Extrinsic, ()>,
    make_available: M,
) -> bool where M: FnOnce(Data<'_>) -> Result<(), E> {
    let candidate_hash = collation.receipt.candidate_hash;
    match verdict {
        Ok(extrinsic) => exists|outcome: Result<(), E>|
            {
                &&& #[trigger] call_ensures(
                    make_available,
                    (Data {
                        relay_parent,
                        parachain_id: collation.receipt.parachain_index,
                        candidate_hash,
                        block_data: &collation.pov.block_data,
                        extrinsic: Some(&extrinsic),
                    },),
                    outcome,
                )
                &&& match outcome {
                    Ok(_) => {
                        &&& result is Ok
                        &&& result->Ok_0.said() == Statement::Valid(candidate_hash)
                        &&& result->Ok_0.found() == Validation::Valid(collation.pov, extrinsic)
                    },
                    Err(error) => result == Err::<Validated, E>(error),
                }
            },
        Err(_) => {
            &&& result is Ok
            &&& result->Ok_0.said() == Statement::Invalid(candidate_hash)
            &&& result->Ok_0.found() == Validation::Invalid(collation.pov)
        },
    }
}

/// A candidate to validate, and the fetch of its block.
pub struct Work<Fetch> {
    /// The candidate.
    pub candidate_receipt: CandidateReceipt,
    /// The fetch of the candidate's block.
    pub fetch: Fetch,
}

/// Parachain validation work that waits for a way to validate.
pub struct ParachainWork<Fetch> {
    /// The candidate and the fetch.
    pub work: Work<Fetch>,
    /// The relay-chain parent of the candidate.
    pub relay_parent: H256,
    /// The most bytes that a block's data may have, if there is a limit.
    pub max_block_data_size: Option<u64>,
}

/// What a verdict is, of the outcome of checking a collation: the reason for a refusal is left
/// out.
pub open spec fn verdict_of<E>(outcome: Result<Extrinsic, E>) -> Result<Extrinsic, ()> {
    match outcome {
        Ok(extrinsic) => Ok(extrinsic),
        Err(_) => Err(()),
    }
}

impl<Fetch> ParachainWork<Fetch> {
    /// Prime the parachain work with the check of a collation against the chain, which is told
    /// of the limit on the size of a block's data.
    pub fn prime<V, E>(self, validate_collation: V) -> (primed: PrimedParachainWork<
        Fetch,
        impl FnOnce(&BlockId, &Collation) -> Result<Extrinsic, ()>,
    >) where V: FnOnce(&BlockId, &Collation, Option<u64>) -> Result<Extrinsic, E>
        ensures
            primed.inner == self,
            forall|id: &BlockId, collation: &Collation|
                call_requires(validate_collation, (id, collation, self.max_block_data_size))
                    ==> #[trigger] call_requires(primed.validate, (id, collation)),
            forall|id: &BlockId, collation: &Collation, verdict: Result<Extrinsic, ()>|
                #[trigger] call_ensures(primed.validate, (id, collation), verdict)
                    ==> exists|outcome: Result<Extrinsic, E>| #[trigger]
                    call_ensures(
                        validate_collation,
                        (id, collation, self.max_block_data_size),
                        outcome,
                    ) && verdict == verdict_of(outcome),
    {
        let max_block_data_size = self.max_block_data_size;
        let validate = move |id: &BlockId, collation: &Collation| -> (verdict: Result<
            Extrinsic,
            (),
        >)
            requires
                call_requires(validate_collation, (id, collation, max_block_data_size)),
            ensures
                exists|outcome: Result<Extrinsic, E>| #[trigger]
                    call_ensures(
                        validate_collation,
                        (id, collation, max_block_data_size),
                        outcome,
                    ) && verdict == verdict_of(outcome),
        {
            match validate_collation(id, collation, max_block_data_size) {
                Ok(extrinsic) => Ok(extrinsic),
                Err(_) => Err(()),
            }
        };
        PrimedParachainWork { inner: self, validate }
    }

    /// Prime the parachain work with a custom validation function.
    pub fn prime_with<F>(self, validate: F) -> (primed: PrimedParachainWork<Fetch, F>) where
        F: FnOnce(&BlockId, &Collation) -> Result<Extrinsic, ()>,

        ensures
            primed.inner == self,
            primed.validate == validate,
    {
        PrimedParachainWork { inner: self, validate }
    }
}

/// Primed statement producer.
pub struct PrimedParachainWork<Fetch, F> {
    /// The work.
    pub inner: ParachainWork<Fetch>,
    /// How to validate.
    pub validate: F,
}

impl<Fetch, F> PrimedParachainWork<Fetch, F> where
    F: FnOnce(&BlockId, &Collation) -> Result<Extrinsic, ()>,
 {
    /// Goes on once the candidate's block was fetched: validates the block against the
    /// candidate, on top of the relay-chain parent.
    pub fn evaluate(self, pov_block: PoVBlock) -> (evaluation: Evaluation)
        requires
            call_requires(
                self.validate,
                (
                    &BlockId(self.inner.relay_parent),
                    &(Collation { pov: pov_block, receipt: self.inner.work.candidate_receipt }),
                ),
            ),
        ensures
            exists|verdict: Result<Extrinsic, ()>| #[trigger]
                call_ensures(
                    self.validate,
                    (
                        &BlockId(self.inner.relay_parent),
                        &(Collation {
                            pov: pov_block,
                            receipt: self.inner.work.candidate_receipt,
                        }),
                    ),
                    verdict,
                ) && follows(
                    evaluation,
                    self.inner.relay_parent,
                    Collation { pov: pov_block, receipt: self.inner.work.candidate_receipt },
                    verdict,
                ),
    {
        let relay_parent = self.inner.relay_parent;
        let collation = Collation { pov: pov_block, receipt: self.inner.work.candidate_receipt };
        let verdict = (self.validate)(&BlockId::hash(relay_parent), &collation);
        conclude(relay_parent, collation, verdict)
    }

    /// Validates the fetched block, and stores the data of a valid candidate with
    /// `make_available` before the statement is made.
    pub fn complete<M, E>(self, pov_block: PoVBlock, make_available: M) -> (validated: Result<
        Validated,
        E,
    >) where M: FnOnce(Data<'_>) -> Result<(), E>
        requires
            call_requires(
                self.validate,
                (
                    &BlockId(self.inner.relay_parent),
                    &(Collation { pov: pov_block, receipt: self.inner.work.candidate_receipt }),
                ),
            ),
            forall|extrinsic: Extrinsic| #[trigger]
                call_ensures(
                    self.validate,
                    (
                        &BlockId(self.inner.relay_parent),
                        &(Collation {
                            pov: pov_block,
                            receipt: self.inner.work.candidate_receipt,
                        }),
                    ),
                    Ok(extrinsic),
                ) ==> call_requires(
                    make_available,
                    (Data {
                        relay_parent: self.inner.relay_parent,
                        parachain_id: self.inner.work.candidate_receipt.parachain_index,
                        candidate_hash: self.inner.work.candidate_receipt.candidate_hash,
                        block_data: &pov_block.block_data,
                        extrinsic: Some(&extrinsic),
                    },),
                ),
        ensures
            exists|verdict: Result<Extrinsic, ()>| #[trigger]
                call_ensures(
                    self.validate,
                    (
                        &BlockId(self.inner.relay_parent),
                        &(Collation {
                            pov: pov_block,
                            receipt: self.inner.work.candidate_receipt,
                        }),
                    ),
                    verdict,
                ) && completes(
                    validated,
                    self.inner.relay_parent,
                    Collation { pov: pov_block, receipt: self.inner.work.candidate_receipt },
                    verdict,
                    make_available,
                ),
    {
        match self.evaluate(pov_block) {
            Evaluation::Ready(validated) => Ok(validated),
            Evaluation::MakeAvailable(unstored) => {
                let outcome = make_available(unstored.data());
                unstored.stored(outcome)
            },
        }
    }
}

} // verus!
