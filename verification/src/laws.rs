//! What holds of the table as a whole, whatever happens to it and in whatever order.
use crate::context::{index_mapping_of, TableContext};
use crate::includable::{all_updated, released, waiting, Tracker};
use crate::primitives::{Collation, Extrinsic, H256, PoVBlock, SessionKey, ValidatorIndex};
use crate::statement::{digest_of, SignedStatement, Statement, TableReport};
use crate::table::{
    handed_out, imports, imports_all, is_run, is_work_on, lemma_run_push, TableRouter, TableState,
};
use crate::work::{
    completes, follows, supports, Data, Evaluation, ParachainWork, Validated, Validation, WorkState,
};
use vstd::multiset::Multiset;
use vstd::prelude::*;

verus! {

/// What can happen to a table.
pub enum Event<S> {
    /// A remote statement was imported, with the given report.
    Report(Option<TableReport>),
    /// A candidate was validated locally.
    Validated(Validated),
    /// Someone began to wait.
    Track(Tracker<S>),
    /// The senders of those that wait no longer were taken.
    TakeCompleted,
}

/// Whether an event leads from one state to another.
pub open spec fn leads<S>(
    before: TableState<S>,
    event: Event<S>,
    after: TableState<S>,
    context: TableContext,
) -> bool {
    match event {
        Event::Report(report) => before.imported(after, context, report),
        Event::Validated(validated) => after == before.noted(validated),
        Event::Track(tracker) => after == before.tracking(tracker),
        Event::TakeCompleted => after == (TableState { completed: Seq::<S>::empty(), ..before }),
    }
}

/// Whether a list of states comes from a list of events.
pub open spec fn is_history<S>(
    states: Seq<TableState<S>>,
    events: Seq<Event<S>>,
    context: TableContext,
) -> bool {
    &&& states.len() == events.len() + 1
    &&& forall|i: int|
        0 <= i < events.len() ==> leads(#[trigger] states[i], events[i], states[i + 1], context)
}

/// Whether an event is a report on which work is handed out.
pub open spec fn hands_out<S>(state: TableState<S>, event: Event<S>, context: TableContext) -> bool {
    event is Report && state.dispatches(context, event->Report_0)
}

/// Whether an event is a report on the candidate.
pub open spec fn reports_on<S>(event: Event<S>, candidate: H256) -> bool {
    event is Report && event->Report_0 is Some && event->Report_0->Some_0.summary.candidate
        == candidate
}

/// Whether an event is the local validation of the candidate.
pub open spec fn validates<S>(event: Event<S>, candidate: H256) -> bool {
    event is Validated && digest_of(event->Validated_0.said()) == candidate
}

/// Whether the receipt that a report brings is that of the candidate that it is on.
pub open spec fn faithful(report: Option<TableReport>) -> bool {
    report is Some && report->Some_0.receipt is Some
        ==> report->Some_0.receipt->Some_0.candidate_hash == report->Some_0.summary.candidate
}

/// A batch of no statements changes nothing and hands out nothing.
pub proof fn law_no_statement_changes_nothing<S, T, R: TableRouter, C>(
    before: (TableState<S>, T),
    after: (TableState<S>, T),
    works: Seq<Option<ParachainWork<R::FetchValidationProof>>>,
    context: TableContext,
    max_block_data_size: Option<u64>,
    router: &R,
    consult: C,
) where C: FnOnce(&TableContext, T, SignedStatement) -> (T, Option<TableReport>)
    ensures
        imports_all(
            before,
            after,
            Seq::<SignedStatement>::empty(),
            works,
            context,
            max_block_data_size,
            router,
            consult,
        ) <==> before == after && works.len() == 0,
{
    if before == after && works.len() == 0 {
        let none = Seq::<SignedStatement>::empty();
        let states = seq![before];
        assert(is_run(states, none, works, context, max_block_data_size, router, consult));
    }
}

/// A batch is its statements imported one by one in the order given, each into the statement
/// table as the one before left it: to import one more statement with a batch is to import it
/// after the batch.
pub proof fn law_a_batch_is_imported_one_by_one<S, T, R: TableRouter, C>(
    before: (TableState<S>, T),
    after: (TableState<S>, T),
    statements: Seq<SignedStatement>,
    works: Seq<Option<ParachainWork<R::FetchValidationProof>>>,
    statement: SignedStatement,
    work: Option<ParachainWork<R::FetchValidationProof>>,
    context: TableContext,
    max_block_data_size: Option<u64>,
    router: &R,
    consult: C,
) where C: FnOnce(&TableContext, T, SignedStatement) -> (T, Option<TableReport>)
    ensures
        imports_all(
            before,
            after,
            statements.push(statement),
            works.push(work),
            context,
            max_block_data_size,
            router,
            consult,
        ) <==> exists|between: (TableState<S>, T)|
            {
                &&& #[trigger] imports_all(
                    before,
                    between,
                    statements,
                    works,
                    context,
                    max_block_data_size,
                    router,
                    consult,
                )
                &&& imports(
                    between,
                    after,
                    statement,
                    work,
                    context,
                    max_block_data_size,
                    router,
                    consult,
                )
            },
{
    let limit = max_block_data_size;
    let all = statements.push(statement);
    let out = works.push(work);
    if imports_all(before, after, all, out, context, limit, router, consult) {
        let states = choose|states: Seq<(TableState<S>, T)>|
            #[trigger] is_run(states, all, out, context, limit, router, consult)
                && states.first() == before && states.last() == after;
        let shorter = states.drop_last();
        let between = shorter.last();
        assert forall|i: int| 0 <= i < statements.len() implies imports(
            #[trigger] shorter[i],
            shorter[i + 1],
            statements[i],
            works[i],
            context,
            limit,
            router,
            consult,
        ) by {
            assert(imports(
                states[i],
                states[i + 1],
                all[i],
                out[i],
                context,
                limit,
                router,
                consult,
            ));
        }
        assert(is_run(shorter, statements, works, context, limit, router, consult));
        assert(imports_all(before, between, statements, works, context, limit, router, consult));
        let n = statements.len() as int;
        assert(imports(
            states[n],
            states[n + 1],
            all[n],
            out[n],
            context,
            limit,
            router,
            consult,
        ));
    }
    if exists|between: (TableState<S>, T)|
        #[trigger] imports_all(before, between, statements, works, context, limit, router, consult)
            && imports(between, after, statement, work, context, limit, router, consult) {
        let between = choose|between: (TableState<S>, T)|
            #[trigger] imports_all(
                before,
                between,
                statements,
                works,
                context,
                limit,
                router,
                consult,
            ) && imports(between, after, statement, work, context, limit, router, consult);
        let states = choose|states: Seq<(TableState<S>, T)>|
            #[trigger] is_run(states, statements, works, context, limit, router, consult)
                && states.first() == before && states.last() == between;
        lemma_run_push(
            states,
            statements,
            works,
            after,
            statement,
            work,
            context,
            limit,
            router,
            consult,
        );
        assert(states.push(after).first() == before);
        assert(states.push(after).last() == after);
    }
}

/// The states of this table, without those of the statement table.
pub open spec fn own_states<S, T>(states: Seq<(TableState<S>, T)>) -> Seq<TableState<S>> {
    states.map_values(|state: (TableState<S>, T)| state.0)
}

/// The events that reports are.
pub open spec fn as_events<S>(reports: Seq<Option<TableReport>>) -> Seq<Event<S>> {
    reports.map_values(|report: Option<TableReport>| Event::<S>::Report(report))
}

/// The import of many statements is a history of reports, each the one that `consult` gave, and
/// the works are those that the reports lead to.
pub proof fn law_a_batch_is_a_history<S, T, R: TableRouter, C>(
    states: Seq<(TableState<S>, T)>,
    statements: Seq<SignedStatement>,
    works: Seq<Option<ParachainWork<R::FetchValidationProof>>>,
    context: TableContext,
    max_block_data_size: Option<u64>,
    router: &R,
    consult: C,
) where C: FnOnce(&TableContext, T, SignedStatement) -> (T, Option<TableReport>)
    requires
        is_run(states, statements, works, context, max_block_data_size, router, consult),
    ensures
        exists|reports: Seq<Option<TableReport>>|
            {
                &&& #[trigger] is_history(own_states(states), as_events(reports), context)
                &&& reports.len() == statements.len()
                &&& forall|i: int|
                    0 <= i < reports.len() ==> call_ensures(
                        consult,
                        (&context, states[i].1, statements[i]),
                        (states[i + 1].1, #[trigger] reports[i]),
                    )
                &&& forall|i: int|
                    0 <= i < reports.len() ==> handed_out(
                        works[i],
                        states[i].0,
                        context,
                        router,
                        #[trigger] reports[i],
                        max_block_data_size,
                    )
            },
{
    let fits = |i: int, report: Option<TableReport>|
        {
            &&& call_ensures(
                consult,
                (&context, states[i].1, statements[i]),
                (states[i + 1].1, report),
            )
            &&& states[i].0.imported(states[i + 1].0, context, report)
            &&& handed_out(works[i], states[i].0, context, router, report, max_block_data_size)
        };
    let reports = Seq::new(
        statements.len(),
        |i: int| choose|report: Option<TableReport>| #[trigger] fits(i, report),
    );
    assert forall|i: int| 0 <= i < statements.len() implies #[trigger] fits(i, reports[i]) by {
        assert(imports(
            states[i],
            states[i + 1],
            statements[i],
            works[i],
            context,
            max_block_data_size,
            router,
            consult,
        ));
        let report = choose|report: Option<TableReport>|
            {
                &&& #[trigger] call_ensures(
                    consult,
                    (&context, states[i].1, statements[i]),
                    (states[i + 1].1, report),
                )
                &&& states[i].0.imported(states[i + 1].0, context, report)
                &&& handed_out(
                    works[i],
                    states[i].0,
                    context,
                    router,
                    report,
                    max_block_data_size,
                )
            };
        assert(fits(i, report));
    }
    let own = own_states(states);
    let events = as_events::<S>(reports);
    assert forall|i: int| 0 <= i < events.len() implies leads(
        #[trigger] own[i],
        events[i],
        own[i + 1],
        context,
    ) by {
        assert(fits(i, reports[i]));
    }
    assert(is_history(own_states(states), as_events::<S>(reports), context));
    assert forall|i: int| 0 <= i < reports.len() implies call_ensures(
        consult,
        (&context, states[i].1, statements[i]),
        (states[i + 1].1, #[trigger] reports[i]),
    ) && handed_out(
        works[i],
        states[i].0,
        context,
        router,
        reports[i],
        max_block_data_size,
    ) by {
        assert(fits(i, reports[i]));
    }
}

/// A candidate whose validation was started stays so.
pub proof fn law_started_stays_started<S>(
    states: Seq<TableState<S>>,
    events: Seq<Event<S>>,
    context: TableContext,
    candidate: H256,
    i: int,
    j: int,
)
    requires
        is_history(states, events, context),
        0 <= i <= j < states.len(),
        states[i].validated.contains_key(candidate),
    ensures
        states[j].validated.contains_key(candidate),
    decreases j - i,
{
    if i < j {
        law_started_stays_started(states, events, context, candidate, i, j - 1);
        assert(leads(states[j - 1], events[j - 1], states[j], context));
    }
}

/// Work on a candidate is handed out at most once.
pub proof fn law_work_is_handed_out_once<S>(
    states: Seq<TableState<S>>,
    events: Seq<Event<S>>,
    context: TableContext,
    candidate: H256,
    i: int,
    j: int,
)
    requires
        is_history(states, events, context),
        0 <= i < j < events.len(),
        reports_on(events[i], candidate),
        reports_on(events[j], candidate),
        hands_out(states[i], events[i], context),
    ensures
        !hands_out(states[j], events[j], context),
{
    assert(leads(states[i], events[i], states[i + 1], context));
    law_started_stays_started(states, events, context, candidate, i + 1, j);
}

/// Work on a candidate is not handed out after the candidate was validated locally.
pub proof fn law_no_work_after_local_validation<S>(
    states: Seq<TableState<S>>,
    events: Seq<Event<S>>,
    context: TableContext,
    candidate: H256,
    i: int,
    j: int,
)
    requires
        is_history(states, events, context),
        0 <= i < j < events.len(),
        validates(events[i], candidate),
        reports_on(events[j], candidate),
    ensures
        !hands_out(states[j], events[j], context),
{
    assert(leads(states[i], events[i], states[i + 1], context));
    law_started_stays_started(states, events, context, candidate, i + 1, j);
}

/// No two imports of a history hand out work on receipts with the same digest, if the statement
/// table brings the receipt of the candidate that it reports on.
pub proof fn law_one_work_per_receipt<S, R: TableRouter>(
    states: Seq<TableState<S>>,
    events: Seq<Event<S>>,
    context: TableContext,
    max_block_data_size: Option<u64>,
    i: int,
    first_router: &R,
    first: ParachainWork<R::FetchValidationProof>,
    j: int,
    second_router: &R,
    second: ParachainWork<R::FetchValidationProof>,
)
    requires
        is_history(states, events, context),
        0 <= i < j < events.len(),
        events[i] is Report && faithful(events[i]->Report_0),
        events[j] is Report && faithful(events[j]->Report_0),
        handed_out(
            Some(first),
            states[i],
            context,
            first_router,
            events[i]->Report_0,
            max_block_data_size,
        ),
        handed_out(
            Some(second),
            states[j],
            context,
            second_router,
            events[j]->Report_0,
            max_block_data_size,
        ),
    ensures
        first.work.candidate_receipt.candidate_hash
            != second.work.candidate_receipt.candidate_hash,
{
    let candidate = first.work.candidate_receipt.candidate_hash;
    if candidate == second.work.candidate_receipt.candidate_hash {
        law_work_is_handed_out_once(states, events, context, candidate, i, j);
    }
}

/// After the local validation of a candidate no import hands out work on a receipt with its
/// digest, if the statement table brings the receipt of the candidate that it reports on.
pub proof fn law_no_receipt_after_local_validation<S, R: TableRouter>(
    states: Seq<TableState<S>>,
    events: Seq<Event<S>>,
    context: TableContext,
    max_block_data_size: Option<u64>,
    candidate: H256,
    i: int,
    j: int,
    router: &R,
    work: ParachainWork<R::FetchValidationProof>,
)
    requires
        is_history(states, events, context),
        0 <= i < j < events.len(),
        validates(events[i], candidate),
        events[j] is Report && faithful(events[j]->Report_0),
        handed_out(
            Some(work),
            states[j],
            context,
            router,
            events[j]->Report_0,
            max_block_data_size,
        ),
    ensures
        work.work.candidate_receipt.candidate_hash != candidate,
{
    if work.work.candidate_receipt.candidate_hash == candidate {
        law_no_work_after_local_validation(states, events, context, candidate, i, j);
    }
}

/// The first report on a candidate of a parachain that the local validator guards hands out
/// work, if the statement table has the receipt and nobody validated the candidate before.
pub proof fn law_first_report_hands_out_work<S>(
    states: Seq<TableState<S>>,
    events: Seq<Event<S>>,
    context: TableContext,
    report: TableReport,
    j: int,
)
    requires
        is_history(states, events, context),
        states[0].validated == Map::<H256, WorkState>::empty(),
        0 <= j < events.len(),
        events[j] == Event::<S>::Report(Some(report)),
        report.receipt is Some,
        context.guards(context.key.public_key(), report.summary.group_id),
        forall|i: int|
            0 <= i < j ==> !reports_on(#[trigger] events[i], report.summary.candidate)
                && !validates(events[i], report.summary.candidate),
    ensures
        hands_out(states[j], events[j], context),
{
    lemma_untouched(states, events, context, report.summary.candidate, 0, j);
}

/// What is known of a candidate's validation changes only by a report on it or by its local
/// validation.
proof fn lemma_untouched<S>(
    states: Seq<TableState<S>>,
    events: Seq<Event<S>>,
    context: TableContext,
    candidate: H256,
    i: int,
    j: int,
)
    requires
        is_history(states, events, context),
        0 <= i <= j < states.len(),
        forall|k: int|
            i <= k < j ==> !reports_on(#[trigger] events[k], candidate) && !validates(
                events[k],
                candidate,
            ),
    ensures
        states[j].validated.contains_key(candidate) == states[i].validated.contains_key(candidate),
        states[i].validated.contains_key(candidate) ==> states[j].validated[candidate]
            == states[i].validated[candidate],
    decreases j - i,
{
    if i < j {
        lemma_untouched(states, events, context, candidate, i, j - 1);
        assert(leads(states[j - 1], events[j - 1], states[j], context));
        assert(!reports_on(events[j - 1], candidate));
    }
}

/// A validator gets no work on a candidate of a parachain that it does not guard, and does not
/// note that validation was started.
pub proof fn law_outsiders_get_no_work<S>(
    state: TableState<S>,
    context: TableContext,
    report: TableReport,
)
    requires
        !context.guards(context.key.public_key(), report.summary.group_id),
    ensures
        !state.dispatches(context, Some(report)),
        state.validated_after(context, Some(report)) == state.validated,
{
}

/// The result of a local validation stays until the candidate is validated locally again: there
/// is extrinsic data for a candidate found valid, and none for one found invalid.
pub proof fn law_local_validation_is_kept<S>(
    states: Seq<TableState<S>>,
    events: Seq<Event<S>>,
    context: TableContext,
    validated: Validated,
    i: int,
    j: int,
)
    requires
        is_history(states, events, context),
        0 <= i < j < states.len(),
        events[i] == Event::<S>::Validated(validated),
        forall|k: int|
            i < k < j ==> !validates(#[trigger] events[k], digest_of(validated.said())),
    ensures
        states[j].validated.contains_key(digest_of(validated.said())),
        states[j].validated[digest_of(validated.said())] == WorkState::Done(validated.found()),
        states[j].extrinsic_of(digest_of(validated.said())) == (match validated.found() {
            Validation::Valid(_, extrinsic) => Some(extrinsic),
            Validation::Invalid(_) => None,
        }),
    decreases j - i,
{
    if i + 1 < j {
        law_local_validation_is_kept(states, events, context, validated, i, j - 1);
    }
    assert(leads(states[j - 1], events[j - 1], states[j], context));
}

/// There is extrinsic data for every candidate that the local validator put forward or said to
/// be valid, right after it did.
pub proof fn law_extrinsic_data_after_validation<S>(state: TableState<S>, validated: Validated)
    requires
        supports(validated.found(), validated.said()),
    ensures
        state.noted(validated).extrinsic_of(digest_of(validated.said())) is Some
            <==> !(validated.said() is Invalid),
{
}

/// Whatever a piece of work comes to say is about the candidate that it was handed out for.
pub proof fn law_work_speaks_of_its_candidate<R: TableRouter>(
    work: ParachainWork<R::FetchValidationProof>,
    router: &R,
    report: TableReport,
    relay_parent: H256,
    max_block_data_size: Option<u64>,
    collation: Collation,
    verdict: Result<Extrinsic, ()>,
    evaluation: Evaluation,
)
    requires
        report.receipt is Some,
        report.receipt->Some_0.candidate_hash == report.summary.candidate,
        is_work_on(work, router, report.receipt->Some_0, relay_parent, max_block_data_size),
        collation.receipt == work.work.candidate_receipt,
        follows(evaluation, work.relay_parent, collation, verdict),
    ensures
        match evaluation {
            Evaluation::Ready(validated) => {
                &&& digest_of(validated.said()) == report.summary.candidate
                &&& validated.said() is Invalid
            },
            Evaluation::MakeAvailable(unstored) => {
                &&& unstored.candidate_hash == report.summary.candidate
                &&& unstored.parachain_id == report.receipt->Some_0.parachain_index
                &&& unstored.relay_parent == relay_parent
            },
        },
{
}

/// The statement that completed work comes to is on the candidate of the imported statement that
/// the work was handed out for, if the statement table reports on that candidate and brings its
/// receipt: that it is valid where validation accepted it, and that it is invalid else.
pub proof fn law_work_answers_the_statement<S, R: TableRouter, M, E>(
    statement: SignedStatement,
    report: TableReport,
    state: TableState<S>,
    context: TableContext,
    router: &R,
    max_block_data_size: Option<u64>,
    work: ParachainWork<R::FetchValidationProof>,
    pov_block: PoVBlock,
    verdict: Result<Extrinsic, ()>,
    make_available: M,
    result: Result<Validated, E>,
) where M: FnOnce(Data<'_>) -> Result<(), E>
    requires
        report.summary.candidate == digest_of(statement.statement),
        faithful(Some(report)),
        handed_out(Some(work), state, context, router, Some(report), max_block_data_size),
        completes(
            result,
            work.relay_parent,
            Collation { pov: pov_block, receipt: work.work.candidate_receipt },
            verdict,
            make_available,
        ),
        result is Ok,
    ensures
        verdict is Ok ==> result->Ok_0.said() == Statement::Valid(digest_of(statement.statement)),
        verdict is Err ==> result->Ok_0.said() == Statement::Invalid(
            digest_of(statement.statement),
        ),
{
}

/// Completed work speaks of its candidate, and says that the candidate is valid only after its
/// data was made available.
pub proof fn law_valid_candidates_are_available<M, E>(
    result: Result<Validated, E>,
    relay_parent: H256,
    collation: Collation,
    verdict: Result<Extrinsic, ()>,
    make_available: M,
) where M: FnOnce(Data<'_>) -> Result<(), E>
    requires
        completes(result, relay_parent, collation, verdict, make_available),
        result is Ok,
    ensures
        digest_of(result->Ok_0.said()) == collation.receipt.candidate_hash,
        !(result->Ok_0.said() is Candidate),
        result->Ok_0.said() is Valid ==> exists|data: Data<'_>, outcome: Result<(), E>|
            {
                &&& #[trigger] call_ensures(make_available, (data,), outcome)
                &&& outcome is Ok
                &&& data.relay_parent == relay_parent
                &&& data.candidate_hash == collation.receipt.candidate_hash
                &&& *data.block_data == collation.pov.block_data
            },
{
}

/// Nobody is kept waiting for candidates that can all be included.
pub proof fn law_those_that_wait_have_a_reason<S>(
    states: Seq<TableState<S>>,
    events: Seq<Event<S>>,
    context: TableContext,
    i: int,
)
    requires
        is_history(states, events, context),
        states[0].trackers == Seq::<Tracker<S>>::empty(),
        0 <= i < states.len(),
    ensures
        forall|tracker: Tracker<S>| #[trigger]
            states[i].trackers.contains(tracker) ==> !tracker.complete(),
    decreases i,
{
    if i > 0 {
        law_those_that_wait_have_a_reason(states, events, context, i - 1);
        let before = states[i - 1];
        let after = states[i];
        assert(leads(before, events[i - 1], after, context));
        assert forall|tracker: Tracker<S>| #[trigger]
            after.trackers.contains(tracker) implies !tracker.complete() by {
            match events[i - 1] {
                Event::Report(Some(report)) => {
                    let updated = all_updated(
                        before.trackers,
                        report.summary.candidate,
                        report.includable,
                    );
                    lemma_waiting_member(updated, after.trackers, tracker);
                },
                Event::Track(new) => {
                    if !new.complete() && tracker != new {
                        let k = after.trackers.index_of(tracker);
                        assert(before.trackers[k] == tracker);
                        assert(before.trackers.contains(tracker));
                    } else {
                        assert(before.trackers.contains(tracker) || tracker == new);
                    }
                },
                _ => {
                    assert(before.trackers.contains(tracker));
                },
            }
        }
    }
}

/// A list with the same elements as those that wait has only trackers that wait.
proof fn lemma_waiting_member<S>(
    updated: Seq<Tracker<S>>,
    trackers: Seq<Tracker<S>>,
    tracker: Tracker<S>,
)
    requires
        trackers.to_multiset() == waiting(updated).to_multiset(),
    ensures
        trackers.contains(tracker) <==> updated.contains(tracker) && !tracker.complete(),
{
    broadcast use vstd::seq_lib::group_to_multiset_ensures;

    let pending = |tracker: Tracker<S>| !tracker.complete();
    assert(trackers.contains(tracker) <==> trackers.to_multiset().count(tracker) > 0);
    assert(waiting(updated).contains(tracker) <==> waiting(updated).to_multiset().count(tracker)
        > 0);
    if waiting(updated).contains(tracker) {
        updated.lemma_filter_contains_rev(pending, tracker);
    }
    if updated.contains(tracker) && !tracker.complete() {
        updated.lemma_filter_contains(pending, updated.index_of(tracker));
    }
}

/// Who waits is told after a report if and only if all that it waits for can then be included.
pub proof fn law_told_when_all_are_includable<S>(
    before: TableState<S>,
    after: TableState<S>,
    context: TableContext,
    report: TableReport,
    tracker: Tracker<S>,
)
    requires
        before.imported(after, context, Some(report)),
        before.trackers.contains(tracker),
    ensures
        ({
            let updated = tracker.updated(report.summary.candidate, report.includable);
            let told = after.completed.skip(before.completed.len() as int);
            &&& updated.complete() ==> told.contains(tracker.sender)
            &&& !updated.complete() ==> after.trackers.contains(updated)
        }),
{
    let updated = tracker.updated(report.summary.candidate, report.includable);
    let all = all_updated(before.trackers, report.summary.candidate, report.includable);
    let k = before.trackers.index_of(tracker);
    assert(all[k] == updated);
    lemma_waiting_member(all, after.trackers, updated);
    let told = after.completed.skip(before.completed.len() as int);
    assert(told == released(all));
    if updated.complete() {
        let done = |tracker: Tracker<S>| tracker.complete();
        let sender = |tracker: Tracker<S>| tracker.sender;
        all.lemma_filter_contains(done, k);
        let n = all.filter(done).index_of(updated);
        assert(all.filter(done).map_values(sender)[n] == updated.sender);
        let length = all.filter(done).len();
        assert(released(all)[length - 1 - n] == updated.sender);
    }
}

/// The senders of a list of trackers.
pub open spec fn senders<S>(trackers: Seq<Tracker<S>>) -> Multiset<S> {
    trackers.map_values(|tracker: Tracker<S>| tracker.sender).to_multiset()
}

/// The senders that the table holds: of those that wait, and of those that are to be told.
pub open spec fn senders_held<S>(state: TableState<S>) -> Multiset<S> {
    senders(state.trackers).add(state.completed.to_multiset())
}

/// A report loses no sender and makes up none: who waited waits on or is to be told, once.
pub proof fn law_reports_keep_senders<S>(
    before: TableState<S>,
    after: TableState<S>,
    context: TableContext,
    report: Option<TableReport>,
)
    requires
        before.imported(after, context, report),
    ensures
        senders_held(after) == senders_held(before),
{
    if report is Some {
        let report = report->Some_0;
        let all = all_updated(before.trackers, report.summary.candidate, report.includable);
        let sender = |tracker: Tracker<S>| tracker.sender;
        assert(all.map_values(sender) == before.trackers.map_values(sender));
        lemma_partition(all);
        lemma_same_senders(after.trackers, waiting(all));
        vstd::seq_lib::lemma_multiset_commutative(before.completed, released(all));
        assert(senders_held(after) == senders_held(before));
    }
}

/// The senders that came in with the first events.
pub open spec fn senders_entered<S>(events: Seq<Event<S>>, n: int) -> Multiset<S>
    decreases n,
{
    if n <= 0 {
        Multiset::empty()
    } else {
        match events[n - 1] {
            Event::Track(tracker) => senders_entered(events, n - 1).insert(tracker.sender),
            _ => senders_entered(events, n - 1),
        }
    }
}

/// The senders that were taken in the first events, to be told.
pub open spec fn senders_taken<S>(
    states: Seq<TableState<S>>,
    events: Seq<Event<S>>,
    n: int,
) -> Multiset<S>
    decreases n,
{
    if n <= 0 {
        Multiset::empty()
    } else {
        match events[n - 1] {
            Event::TakeCompleted => senders_taken(states, events, n - 1).add(
                states[n - 1].completed.to_multiset(),
            ),
            _ => senders_taken(states, events, n - 1),
        }
    }
}

/// Every sender that came in is held by the table or was taken, once.
pub proof fn law_no_sender_is_lost<S>(
    states: Seq<TableState<S>>,
    events: Seq<Event<S>>,
    context: TableContext,
    n: int,
)
    requires
        is_history(states, events, context),
        0 <= n < states.len(),
    ensures
        senders_held(states[n]).add(senders_taken(states, events, n)) == senders_held(
            states[0],
        ).add(senders_entered(events, n)),
    decreases n,
{
    broadcast use vstd::seq_lib::group_to_multiset_ensures;

    if n > 0 {
        law_no_sender_is_lost(states, events, context, n - 1);
        let before = states[n - 1];
        let after = states[n];
        let sender = |tracker: Tracker<S>| tracker.sender;
        assert(leads(before, events[n - 1], after, context));
        match events[n - 1] {
            Event::Report(report) => {
                law_reports_keep_senders(before, after, context, report);
            },
            Event::Track(tracker) => {
                if !tracker.complete() {
                    assert(after.trackers.map_values(sender) == before.trackers.map_values(
                        sender,
                    ).push(tracker.sender));
                }
                assert(senders_held(after) == senders_held(before).insert(tracker.sender));
                assert(senders_held(after).add(senders_taken(states, events, n)) =~= senders_held(
                    before,
                ).add(senders_taken(states, events, n - 1)).insert(tracker.sender));
            },
            Event::TakeCompleted => {
                assert(after.completed.to_multiset() =~= Multiset::<S>::empty());
                assert(senders_held(after).add(senders_taken(states, events, n)) =~= senders_held(
                    before,
                ).add(senders_taken(states, events, n - 1)));
            },
            Event::Validated(_) => {},
        }
    }
}

/// Every sender is that of a tracker that waits or is released.
proof fn lemma_partition<S>(trackers: Seq<Tracker<S>>)
    ensures
        senders(trackers) == senders(waiting(trackers)).add(released(trackers).to_multiset()),
    decreases trackers.len(),
{
    broadcast use vstd::seq_lib::group_to_multiset_ensures;

    let pending = |tracker: Tracker<S>| !tracker.complete();
    let done = |tracker: Tracker<S>| tracker.complete();
    let sender = |tracker: Tracker<S>| tracker.sender;
    reveal(Seq::filter);
    trackers.filter(done).map_values(sender).lemma_reverse_to_multiset();
    if trackers.len() == 0 {
        assert(trackers.map_values(sender) == Seq::<S>::empty());
        assert(waiting(trackers).map_values(sender) == Seq::<S>::empty());
        assert(trackers.filter(done).map_values(sender) == Seq::<S>::empty());
    } else {
        let rest = trackers.drop_last();
        let last = trackers.last();
        lemma_partition(rest);
        rest.filter(done).map_values(sender).lemma_reverse_to_multiset();
        assert(trackers.map_values(sender) == rest.map_values(sender).push(last.sender));
        if last.complete() {
            assert(waiting(trackers) == waiting(rest));
            assert(trackers.filter(done) == rest.filter(done).push(last));
            assert(trackers.filter(done).map_values(sender) == rest.filter(done).map_values(
                sender,
            ).push(last.sender));
        } else {
            assert(waiting(trackers) == waiting(rest).push(last));
            assert(waiting(trackers).map_values(sender) == waiting(rest).map_values(sender).push(
                last.sender,
            ));
            assert(trackers.filter(done) == rest.filter(done));
        }
    }
}

/// Lists of the same trackers have the same senders.
proof fn lemma_same_senders<S>(a: Seq<Tracker<S>>, b: Seq<Tracker<S>>)
    requires
        a.to_multiset() == b.to_multiset(),
    ensures
        senders(a) == senders(b),
    decreases a.len(),
{
    broadcast use vstd::seq_lib::group_to_multiset_ensures;

    let sender = |tracker: Tracker<S>| tracker.sender;
    assert(a.len() == a.to_multiset().len());
    assert(b.len() == b.to_multiset().len());
    if a.len() == 0 {
        assert(a.map_values(sender) == b.map_values(sender));
    } else {
        let last = a.last();
        assert(a.contains(last));
        assert(a.to_multiset().count(last) > 0);
        assert(b.contains(last));
        let k = b.index_of(last);
        assert(a.remove(a.len() - 1) == a.drop_last());
        assert(a.drop_last().to_multiset() == a.to_multiset().remove(last));
        assert(b.remove(k).to_multiset() == b.to_multiset().remove(last));
        lemma_same_senders(a.drop_last(), b.remove(k));
        assert(a.map_values(sender) == a.drop_last().map_values(sender).push(last.sender));
        assert(b.map_values(sender).remove(k) == b.remove(k).map_values(sender));
        assert(b.map_values(sender)[k] == last.sender);
        assert(b.map_values(sender).to_multiset().count(last.sender) > 0) by {
            assert(b.map_values(sender).contains(last.sender));
        }
        assert(senders(b) == senders(b.remove(k)).insert(last.sender));
    }
}

/// Every authority is known by its position in the list, and no other index is known.
pub proof fn law_index_mapping(authorities: Seq<SessionKey>)
    requires
        authorities.len() <= 0x1_0000_0000,
    ensures
        forall|index: ValidatorIndex| #[trigger]
            index_mapping_of(authorities).contains_key(index) <==> index < authorities.len(),
        forall|index: ValidatorIndex|
            index < authorities.len() ==> #[trigger] index_mapping_of(authorities)[index]
                == authorities[index as int],
    decreases authorities.len(),
{
    if authorities.len() > 0 {
        let earlier = authorities.drop_last();
        law_index_mapping(earlier);
        assert forall|index: ValidatorIndex| #[trigger]
            index_mapping_of(authorities).contains_key(index) <==> index < authorities.len() by {
            assert(index_mapping_of(earlier).contains_key(index) <==> index < earlier.len());
        }
        assert forall|index: ValidatorIndex| index < authorities.len() implies #[trigger]
            index_mapping_of(authorities)[index] == authorities[index as int] by {
            if index < earlier.len() {
                assert(index_mapping_of(earlier)[index] == earlier[index as int]);
            }
        }
    }
}

/// Among distinct authorities the local validator has one index at most, and it has one if and
/// only if it is among them.
pub proof fn law_local_index(authorities: Seq<SessionKey>, context: TableContext)
    requires
        authorities.len() <= 0x1_0000_0000,
        context.index_mapping@ == index_mapping_of(authorities),
    ensures
        context.has_local_index() <==> authorities.contains(context.key.public_key()),
        authorities.no_duplicates() ==> forall|i: ValidatorIndex, j: ValidatorIndex|
            #![trigger context.is_local(i), context.is_local(j)]
            context.is_local(i) && context.is_local(j) ==> i == j,
{
    law_index_mapping(authorities);
    if authorities.contains(context.key.public_key()) {
        let i = authorities.index_of(context.key.public_key());
        assert(context.is_local(i as ValidatorIndex));
    }
}

} // verus!
