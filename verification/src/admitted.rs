//! When each call may be made: what a caller owes is no more than is said here.
use crate::context::{GroupInfo, TableContext};
use crate::crypto::Pair;
use crate::digest_map::DigestMap;
use crate::includable::{survey, update_all, IncludabilitySender};
use crate::primitives::{
    BlockId, CandidateReceipt, Collation, Extrinsic, H256, ParaId, PoVBlock, SessionKey,
    ValidatorIndex,
};
use crate::statement::{
    all_attested, attested, statement_digest, SignedStatement, Statement, Summary, TableCandidate,
    TableReport,
};
use crate::table::{can_take_in, SharedTable, TableRouter, TableState};
use crate::table_outcomes::{is_first_word, lemma_listed};
use crate::work::{
    conclude, Data, ParachainWork, PrimedParachainWork, Unstored, Validated, ValidationWork,
};
use std::collections::HashMap;
use vstd::prelude::*;

verus! {

/// Any key can be looked for in a group, and any index and parachain in a context.
pub proof fn law_membership_can_be_asked(
    info: &GroupInfo,
    key: &SessionKey,
    context: &TableContext,
    authority: ValidatorIndex,
    group: &ParaId,
)
    ensures
        call_requires(GroupInfo::is_guarantor, (info, key)),
        call_requires(TableContext::is_member_of, (context, authority, group)),
        call_requires(TableContext::requisite_votes, (context, group)),
        call_requires(TableContext::local_id, (context,)),
        call_requires(TableContext::find_local_index, (context,)),
{
}

/// A context and a table can be made of any authorities, groups, key and parent.
pub proof fn law_anything_can_be_shared<S>(
    authorities: &[SessionKey],
    groups: HashMap<ParaId, GroupInfo>,
    seed: [u8; 32],
    key: Pair,
    message: &[u8],
    parent_hash: H256,
    max_block_data_size: Option<u64>,
)
    ensures
        call_requires(Pair::from_seed, (seed,)),
        call_requires(Pair::public, (&key,)),
        call_requires(Pair::sign, (&key, message)),
        call_requires(TableContext::new, (authorities, groups, key, parent_hash)),
        call_requires(
            SharedTable::<S>::new,
            (authorities, groups, key, parent_hash, max_block_data_size),
        ),
{
}

/// Every statement can be signed by a validator that has an index.
pub proof fn law_statements_can_be_signed<P>(
    context: &TableContext,
    index: ValidatorIndex,
    statement: Statement,
    payload: P,
) where P: FnOnce(&Statement, &H256) -> Vec<u8>
    requires
        context.index_mapping@.contains_key(index),
        context.index_mapping@[index] == context.key.public_key(),
        call_requires(payload, (&statement, &context.parent_hash)),
    ensures
        call_requires(TableContext::local_index, (context,)),
        call_requires(TableContext::sign_statement::<P>, (context, statement, payload)),
{
    assert(context.is_local(index));
}

/// Statements, candidates and verdicts of every kind can be converted and concluded from.
pub proof fn law_every_value_is_admitted<E>(
    statement: &Statement,
    candidate: TableCandidate,
    candidates: Vec<TableCandidate>,
    relay_parent: H256,
    collation: Collation,
    verdict: Result<Extrinsic, ()>,
    unstored: Unstored,
    outcome: Result<(), E>,
)
    ensures
        call_requires(statement_digest, (statement,)),
        call_requires(attested, (candidate,)),
        call_requires(all_attested, (candidates,)),
        call_requires(conclude, (relay_parent, collation, verdict)),
        call_requires(Unstored::data, (&unstored,)),
        call_requires(Unstored::stored::<E>, (unstored, outcome)),
{
}

/// Results of validation can be made of any digest, receipt, block and extrinsic data, and read.
pub proof fn law_results_can_be_made(
    hash: H256,
    receipt: CandidateReceipt,
    pov_block: PoVBlock,
    extrinsic: Extrinsic,
    validated: Validated,
    work: &ValidationWork,
)
    ensures
        call_requires(Validated::known_bad, (hash, pov_block)),
        call_requires(Validated::known_good, (hash, pov_block, extrinsic)),
        call_requires(Validated::collated_local, (receipt, pov_block, extrinsic)),
        call_requires(Validated::statement, (&validated,)),
        call_requires(Validated::pov_block, (&validated,)),
        call_requires(Validated::extrinsic, (&validated,)),
        call_requires(Validated::into_parts, (validated,)),
        call_requires(ValidationWork::is_in_progress, (work,)),
        call_requires(ValidationWork::is_done, (work,)),
{
}

/// A report can be gathered where the statement table can be asked about the candidate of the
/// summary, and always where there is no summary.
pub proof fn law_reports_can_be_gathered<I, G>(
    summary: Option<Summary>,
    context: &TableContext,
    candidate_includable: I,
    get_candidate: G,
) where I: FnOnce(&H256, &TableContext) -> bool, G: FnOnce(&H256) -> Option<CandidateReceipt>
    requires
        summary is Some ==> {
            &&& call_requires(candidate_includable, (&summary->Some_0.candidate, context))
            &&& call_requires(get_candidate, (&summary->Some_0.candidate,))
        },
    ensures
        call_requires(
            TableReport::gather::<I, G>,
            (summary, context, candidate_includable, get_candidate),
        ),
{
}

/// A map that is well-formed can be read and written at any digest.
pub proof fn law_maps_can_be_used<V>(map: &mut DigestMap<V>, digest: H256, value: V)
    requires
        old(map).wf(),
    ensures
        call_requires(DigestMap::<V>::get, (&*old(map), &digest)),
        call_requires(DigestMap::<V>::contains_key, (&*old(map), &digest)),
        call_requires(DigestMap::<V>::insert, (map, digest, value)),
{
}

/// Any list can be waited for, and a well-formed tracker can hear of any candidate.
pub proof fn law_anything_can_be_waited_for<S>(
    answers: Vec<(H256, bool)>,
    sender: S,
    tracker: &mut IncludabilitySender<S>,
    candidate: H256,
    includable: bool,
)
    requires
        old(tracker).wf(),
    ensures
        call_requires(IncludabilitySender::<S>::track, (answers, sender)),
        call_requires(IncludabilitySender::<S>::is_complete, (&*old(tracker),)),
        call_requires(IncludabilitySender::<S>::into_sender, (*old(tracker),)),
        call_requires(
            IncludabilitySender::<S>::update_candidate,
            (tracker, candidate, includable),
        ),
{
}

/// Any list of well-formed trackers can hear of any candidate.
pub proof fn law_all_trackers_can_be_told<S>(
    trackers: &mut Vec<IncludabilitySender<S>>,
    completed: &mut Vec<S>,
    candidate: &H256,
    includable: bool,
)
    requires
        forall|i: int| 0 <= i < old(trackers)@.len() ==> (#[trigger] old(trackers)@[i]).wf(),
    ensures
        call_requires(update_all::<S>, (trackers, completed, candidate, includable)),
{
}

/// Work can be validated wherever validation can be asked about the fetched block, and completed
/// where besides the data can be stored that validation accepts.
pub proof fn law_work_can_be_completed<Fetch, V, F, M, E>(
    work: ParachainWork<Fetch>,
    validate_collation: V,
    validate: F,
    pov_block: PoVBlock,
    make_available: M,
) where
    V: FnOnce(&BlockId, &Collation, Option<u64>) -> Result<Extrinsic, E>,
    F: FnOnce(&BlockId, &Collation) -> Result<Extrinsic, ()>,
    M: FnOnce(Data<'_>) -> Result<(), E>,

    requires
        call_requires(
            validate,
            (
                &BlockId(work.relay_parent),
                &(Collation { pov: pov_block, receipt: work.work.candidate_receipt }),
            ),
        ),
        forall|extrinsic: Extrinsic| #[trigger]
            call_ensures(
                validate,
                (
                    &BlockId(work.relay_parent),
                    &(Collation { pov: pov_block, receipt: work.work.candidate_receipt }),
                ),
                Ok(extrinsic),
            ) ==> call_requires(
                make_available,
                (Data {
                    relay_parent: work.relay_parent,
                    parachain_id: work.work.candidate_receipt.parachain_index,
                    candidate_hash: work.work.candidate_receipt.candidate_hash,
                    block_data: &pov_block.block_data,
                    extrinsic: Some(&extrinsic),
                },),
            ),
    ensures
        call_requires(ParachainWork::<Fetch>::prime::<V, E>, (work, validate_collation)),
        call_requires(ParachainWork::<Fetch>::prime_with::<F>, (work, validate)),
        call_requires(
            PrimedParachainWork::<Fetch, F>::evaluate,
            (PrimedParachainWork { inner: work, validate }, pov_block),
        ),
        call_requires(
            PrimedParachainWork::<Fetch, F>::complete::<M, E>,
            (PrimedParachainWork { inner: work, validate }, pov_block, make_available),
        ),
{
}

/// A well-formed table can always be read.
pub proof fn law_tables_can_be_read<S>(table: &SharedTable<S>, hash: &H256, index: ValidatorIndex)
    requires
        table.wf(),
    ensures
        call_requires(SharedTable::<S>::context, (table,)),
        call_requires(SharedTable::<S>::consensus_parent_hash, (table,)),
        call_requires(SharedTable::<S>::session_key, (table,)),
        call_requires(SharedTable::<S>::group_info, (table,)),
        call_requires(SharedTable::<S>::num_parachains, (table,)),
        call_requires(SharedTable::<S>::index_to_id, (table, index)),
        call_requires(SharedTable::<S>::validation_work, (table, hash)),
        call_requires(SharedTable::<S>::extrinsic_data, (table, hash)),
{
}

/// Candidates can be looked up and proposed wherever the statement table can be asked for them.
pub proof fn law_candidates_can_be_asked_for<'a, S, G, F, U, C>(
    table: &SharedTable<S>,
    digest: &H256,
    get_candidate: G,
    f: F,
    proposed_candidates: C,
) where
    G: FnOnce(&H256) -> Option<&'a CandidateReceipt>,
    F: FnOnce(Option<&CandidateReceipt>) -> U,
    C: FnOnce(&TableContext) -> Vec<TableCandidate>,

    requires
        call_requires(get_candidate, (digest,)),
        forall|candidate: Option<&CandidateReceipt>|
            call_ensures(get_candidate, (digest,), candidate) ==> #[trigger] call_requires(
                f,
                (candidate,),
            ),
        call_requires(proposed_candidates, (&table.validators(),)),
    ensures
        call_requires(
            SharedTable::<S>::with_candidate::<G, F, U>,
            (table, digest, get_candidate, f),
        ),
        call_requires(SharedTable::<S>::proposed_set::<C>, (table, proposed_candidates)),
{
}

/// Any list of candidates can be waited for wherever the statement table can be asked about each
/// of them, and who is done waiting can always be taken.
pub proof fn law_candidates_can_be_waited_for<S, C>(
    table: &mut SharedTable<S>,
    candidates: Vec<H256>,
    candidate_includable: C,
    answers: Vec<(H256, bool)>,
    sender: S,
) where C: Fn(&H256, &TableContext) -> bool
    requires
        old(table).wf(),
        forall|i: int|
            0 <= i < candidates@.len() ==> call_requires(
                candidate_includable,
                (&#[trigger] candidates@[i], &old(table).validators()),
            ),
    ensures
        call_requires(
            survey::<C>,
            (candidates, &old(table).validators(), candidate_includable),
        ),
        call_requires(
            SharedTable::<S>::track_includability::<C>,
            (table, candidates, candidate_includable, sender),
        ),
        call_requires(SharedTable::<S>::track_answers, (table, answers, sender)),
        call_requires(SharedTable::<S>::take_completed, (table,)),
{
}

/// Whether a report makes the table ask the router for no block that it may not fetch.
pub open spec fn fetches_what_it_may<S, R: TableRouter>(
    state: TableState<S>,
    context: TableContext,
    router: &R,
    report: Option<TableReport>,
) -> bool {
    is_first_word(state.validated, context, report) && report->Some_0.receipt is Some
        ==> router.may_fetch(&report->Some_0.receipt->Some_0)
}

/// Any report can be taken in by a validator that has an index, if the router may fetch the block
/// of the candidate that work is handed out on. That there is no summary can be taken in without
/// an index.
pub proof fn law_reports_can_be_taken_in<S, R: TableRouter>(
    table: &mut SharedTable<S>,
    index: ValidatorIndex,
    router: &R,
    report: Option<TableReport>,
)
    requires
        old(table).wf(),
        report is Some ==> {
            &&& old(table).validators().index_mapping@.contains_key(index)
            &&& old(table).validators().index_mapping@[index]
                == old(table).validators().key.public_key()
        },
        fetches_what_it_may(old(table)@, old(table).validators(), router, report),
    ensures
        call_requires(SharedTable::<S>::import_report::<R>, (table, router, report)),
{
    if report is Some {
        assert(old(table).validators().is_local(index));
        lemma_listed(old(table).validators(), report->Some_0.summary.group_id);
    }
}

/// Any statement can be imported by a validator that has an index, if the statement table can take
/// it in and the router may fetch the block of a candidate that work is handed out on.
pub proof fn law_statements_can_be_imported<S, T, R, C>(
    table: &mut SharedTable<S>,
    index: ValidatorIndex,
    router: &R,
    statements: T,
    statement: SignedStatement,
    consult: C,
) where
    R: TableRouter,
    C: FnOnce(&TableContext, T, SignedStatement) -> (T, Option<TableReport>),

    requires
        old(table).wf(),
        old(table).validators().index_mapping@.contains_key(index),
        old(table).validators().index_mapping@[index]
            == old(table).validators().key.public_key(),
        call_requires(consult, (&old(table).validators(), statements, statement)),
        forall|told: (T, Option<TableReport>)| #[trigger]
            call_ensures(consult, (&old(table).validators(), statements, statement), told)
                ==> fetches_what_it_may(old(table)@, old(table).validators(), router, told.1),
    ensures
        call_requires(
            SharedTable::<S>::import_remote_statement::<T, R, C>,
            (table, router, statements, statement, consult),
        ),
{
    let context = old(table).validators();
    assert(context.is_local(index));
    assert forall|told: (T, Option<TableReport>)| #[trigger]
        call_ensures(consult, (&context, statements, statement), told) implies can_take_in(
        old(table)@,
        context,
        router,
        told.1,
    ) by {
        if told.1 is Some {
            lemma_listed(context, told.1->Some_0.summary.group_id);
        }
    }
}

/// Any statements can be imported at once by a validator that has an index, if the statement table
/// can take in any statement at any time and the router may fetch any block.
pub proof fn law_many_statements_can_be_imported<S, T, R, C>(
    table: &mut SharedTable<S>,
    index: ValidatorIndex,
    router: &R,
    before: T,
    statements: Vec<SignedStatement>,
    consult: C,
) where
    R: TableRouter,
    C: Fn(&TableContext, T, SignedStatement) -> (T, Option<TableReport>),

    requires
        old(table).wf(),
        old(table).validators().index_mapping@.contains_key(index),
        old(table).validators().index_mapping@[index]
            == old(table).validators().key.public_key(),
        forall|held: T, statement: SignedStatement| #[trigger]
            call_requires(consult, (&old(table).validators(), held, statement)),
        forall|candidate: CandidateReceipt| #[trigger] router.may_fetch(&candidate),
    ensures
        call_requires(
            SharedTable::<S>::import_remote_statements::<T, R, C>,
            (table, router, before, statements, consult),
        ),
{
    assert(old(table).validators().is_local(index));
}

/// Every result can be signed and imported by a validator that has an index, if the statement
/// table can take in the signed statement.
pub proof fn law_results_can_be_imported<S, P, I>(
    table: &mut SharedTable<S>,
    index: ValidatorIndex,
    validated: Validated,
    payload: P,
    import_statement: I,
) where P: FnOnce(&Statement, &H256) -> Vec<u8>, I: FnOnce(&TableContext, &SignedStatement)
    requires
        old(table).wf(),
        old(table).validators().index_mapping@.contains_key(index),
        old(table).validators().index_mapping@[index]
            == old(table).validators().key.public_key(),
        call_requires(payload, (&validated.said(), &old(table).validators().parent_hash)),
        forall|signed: SignedStatement|
            signed.statement == validated.said() ==> #[trigger] call_requires(
                import_statement,
                (&old(table).validators(), &signed),
            ),
    ensures
        call_requires(
            SharedTable::<S>::import_validated::<P, I>,
            (table, validated, payload, import_statement),
        ),
{
    assert(old(table).validators().is_local(index));
}

} // verus!
