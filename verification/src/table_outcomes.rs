//! What each call on a shared table comes to, told from what the table held, what the call was
//! given and what it gave back.
use crate::context::{GroupInfo, TableContext};
use crate::crypto::{ed25519_signature, Pair};
use crate::includable::{
    all_updated, answered, flags_of, released, tracker_views, update_all, waiting,
    IncludabilitySender, Tracker,
};
use crate::laws::{law_reports_keep_senders, senders_held};
use crate::outcomes::{is_last_word, lemma_all_flags, lemma_flags, lemma_index_mapping};
use crate::primitives::{
    abbreviated, BlockId, CandidateReceipt, Collation, Extrinsic, H256, ParaId, PoVBlock,
    SessionKey, ValidatorIndex,
};
use crate::statement::{
    all_attest, attests, AttestedCandidate, GenericStatement, SignedStatement, Statement,
    TableAttestation, TableCandidate, TableReport, ValidityAttestation,
};
use crate::table::{handed_out, imports, is_run, SharedTable, TableRouter, TableState};
use crate::work::{
    completes, Data, ParachainWork, PrimedParachainWork, Validated, Validation, ValidationWork,
    WorkState,
};
use std::collections::HashMap;
use vstd::prelude::*;

verus! {

/// Whether all candidates that a tracker waits for are includable once it has heard of one.
pub open spec fn is_done_after<S>(tracker: Tracker<S>, candidate: H256, includable: bool) -> bool {
    forall|any: H256| #[trigger]
        tracker.flags.contains_key(any) ==> if any == candidate {
            includable
        } else {
            tracker.flags[any]
        }
}

/// Whether one tracker is the other after hearing of a candidate: it has the same sender and
/// tracks the same candidates, and only what is known of that one candidate is new.
pub open spec fn is_told<S>(
    before: Tracker<S>,
    after: Tracker<S>,
    candidate: H256,
    includable: bool,
) -> bool {
    &&& after.sender == before.sender
    &&& forall|any: H256| #[trigger]
        after.flags.contains_key(any) <==> before.flags.contains_key(any)
    &&& forall|any: H256| #[trigger]
        before.flags.contains_key(any) ==> after.flags[any] == if any == candidate {
            includable
        } else {
            before.flags[any]
        }
}

/// Whether the senders are those of the trackers that are done once they have heard of a
/// candidate, the last tracker first. The places are where those trackers stand.
pub open spec fn are_released<S>(
    senders: Seq<S>,
    places: Seq<int>,
    trackers: Seq<Tracker<S>>,
    candidate: H256,
    includable: bool,
) -> bool {
    &&& senders.len() == places.len()
    &&& forall|j: int, k: int|
        0 <= j < k < places.len() ==> #[trigger] places[j] > #[trigger] places[k]
    &&& forall|i: int| #[trigger]
        places.contains(i) <==> 0 <= i < trackers.len() && is_done_after(
            trackers[i],
            candidate,
            includable,
        )
    &&& forall|k: int|
        0 <= k < places.len() ==> #[trigger] senders[k] == trackers[places[k]].sender
}

/// Whether the trackers that are left are those that are not done once they have heard of a
/// candidate, each of them once. The places are where they stood.
pub open spec fn are_left<S>(
    left: Seq<Tracker<S>>,
    places: Seq<int>,
    trackers: Seq<Tracker<S>>,
    candidate: H256,
    includable: bool,
) -> bool {
    &&& left.len() == places.len()
    &&& places.no_duplicates()
    &&& forall|i: int| #[trigger]
        places.contains(i) <==> 0 <= i < trackers.len() && !is_done_after(
            trackers[i],
            candidate,
            includable,
        )
    &&& forall|k: int|
        0 <= k < left.len() ==> is_told(
            trackers[places[k]],
            #[trigger] left[k],
            candidate,
            includable,
        )
}

/// Whether the trackers and the senders to be told become what news of a candidate makes of them.
pub open spec fn are_told<S>(
    before: TableState<S>,
    after: TableState<S>,
    candidate: H256,
    includable: bool,
) -> bool {
    &&& before.completed.len() <= after.completed.len()
    &&& after.completed.take(before.completed.len() as int) == before.completed
    &&& exists|places: Seq<int>| #[trigger]
        are_released(
            after.completed.skip(before.completed.len() as int),
            places,
            before.trackers,
            candidate,
            includable,
        )
    &&& exists|places: Seq<int>| #[trigger]
        are_left(after.trackers, places, before.trackers, candidate, includable)
}

/// What hearing of a candidate makes of a tracker.
proof fn lemma_updated<S>(tracker: Tracker<S>, candidate: H256, includable: bool)
    ensures
        is_told(tracker, tracker.updated(candidate, includable), candidate, includable),
        tracker.updated(candidate, includable).complete() <==> is_done_after(
            tracker,
            candidate,
            includable,
        ),
{
    let updated = tracker.updated(candidate, includable);
    assert(is_told(tracker, updated, candidate, includable));
    if updated.complete() {
        assert forall|any: H256| #[trigger] tracker.flags.contains_key(any) implies if any
            == candidate {
            includable
        } else {
            tracker.flags[any]
        } by {
            assert(updated.flags.contains_key(any));
        }
    }
    if is_done_after(tracker, candidate, includable) {
        assert forall|any: H256| #[trigger]
            updated.flags.contains_key(any) implies updated.flags[any] by {
            assert(tracker.flags.contains_key(any));
        }
    }
}

/// Where the trackers stand whose senders are released.
proof fn lemma_released<S>(trackers: Seq<Tracker<S>>) -> (places: Seq<int>)
    ensures
        released(trackers).len() == places.len(),
        forall|j: int, k: int|
            0 <= j < k < places.len() ==> #[trigger] places[j] > #[trigger] places[k],
        forall|i: int| #[trigger]
            places.contains(i) <==> 0 <= i < trackers.len() && trackers[i].complete(),
        forall|k: int|
            0 <= k < places.len() ==> #[trigger] released(trackers)[k]
                == trackers[places[k]].sender,
    decreases trackers.len(),
{
    let done = |tracker: Tracker<S>| tracker.complete();
    let sender = |tracker: Tracker<S>| tracker.sender;
    reveal(Seq::filter);
    if trackers.len() == 0 {
        Seq::empty()
    } else {
        let rest = trackers.drop_last();
        let last = trackers.len() - 1;
        let earlier = lemma_released(rest);
        if trackers[last].complete() {
            let places = seq![last] + earlier;
            assert(trackers.filter(done) == rest.filter(done).push(trackers[last]));
            assert(released(trackers) == seq![trackers[last].sender] + released(rest));
            assert(places[0] == last);
            assert forall|k: int| 0 <= k < earlier.len() implies 0 <= #[trigger] earlier[k]
                < last by {
                assert(earlier.contains(earlier[k]));
            }
            assert forall|i: int| #[trigger]
                places.contains(i) <==> 0 <= i < trackers.len() && trackers[i].complete() by {
                if earlier.contains(i) {
                    let k = earlier.index_of(i);
                    assert(places[k + 1] == i);
                }
                if places.contains(i) && i != last {
                    let k = places.index_of(i);
                    assert(earlier[k - 1] == i);
                    assert(earlier.contains(i));
                }
            }
            assert forall|k: int| 0 <= k < places.len() implies #[trigger] released(trackers)[k]
                == trackers[places[k]].sender by {
                if k > 0 {
                    assert(places[k] == earlier[k - 1]);
                    assert(released(trackers)[k] == released(rest)[k - 1]);
                }
            }
            places
        } else {
            assert(trackers.filter(done) == rest.filter(done));
            assert forall|k: int| 0 <= k < earlier.len() implies 0 <= #[trigger] earlier[k]
                < last by {
                assert(earlier.contains(earlier[k]));
            }
            assert forall|i: int| #[trigger]
                earlier.contains(i) <==> 0 <= i < trackers.len() && trackers[i].complete() by {}
            earlier
        }
    }
}

/// Where the trackers stand that wait on.
proof fn lemma_waiting<S>(trackers: Seq<Tracker<S>>) -> (places: Seq<int>)
    ensures
        waiting(trackers).len() == places.len(),
        places.no_duplicates(),
        forall|i: int| #[trigger]
            places.contains(i) <==> 0 <= i < trackers.len() && !trackers[i].complete(),
        forall|k: int|
            0 <= k < places.len() ==> #[trigger] waiting(trackers)[k] == trackers[places[k]],
    decreases trackers.len(),
{
    let pending = |tracker: Tracker<S>| !tracker.complete();
    reveal(Seq::filter);
    if trackers.len() == 0 {
        Seq::empty()
    } else {
        let rest = trackers.drop_last();
        let last = trackers.len() - 1;
        let earlier = lemma_waiting(rest);
        assert forall|k: int| 0 <= k < earlier.len() implies 0 <= #[trigger] earlier[k] < last by {
            assert(earlier.contains(earlier[k]));
        }
        if trackers[last].complete() {
            assert(waiting(trackers) == waiting(rest));
            assert forall|i: int| #[trigger]
                earlier.contains(i) <==> 0 <= i < trackers.len() && !trackers[i].complete() by {}
            earlier
        } else {
            let places = earlier.push(last);
            assert(waiting(trackers) == waiting(rest).push(trackers[last]));
            assert forall|i: int| #[trigger]
                places.contains(i) <==> 0 <= i < trackers.len() && !trackers[i].complete() by {
                if earlier.contains(i) {
                    let k = earlier.index_of(i);
                    assert(places[k] == i);
                }
                if i == last {
                    assert(places[earlier.len() as int] == i);
                }
                if places.contains(i) && i != last {
                    let k = places.index_of(i);
                    assert(earlier[k] == i);
                }
            }
            places
        }
    }
}

/// Where each element of a list stands in another list of the same elements.
proof fn lemma_rearranged<A>(a: Seq<A>, b: Seq<A>) -> (places: Seq<int>)
    requires
        a.to_multiset() == b.to_multiset(),
    ensures
        places.len() == a.len() == b.len(),
        places.no_duplicates(),
        forall|i: int| #[trigger] places.contains(i) <==> 0 <= i < b.len(),
        forall|k: int| 0 <= k < a.len() ==> #[trigger] a[k] == b[places[k]],
    decreases a.len(),
{
    broadcast use vstd::seq_lib::group_to_multiset_ensures;

    assert(a.len() == a.to_multiset().len());
    assert(b.len() == b.to_multiset().len());
    if a.len() == 0 {
        Seq::empty()
    } else {
        let last = a.last();
        assert(a.contains(last));
        assert(a.to_multiset().count(last) > 0);
        assert(b.contains(last));
        let at = b.index_of(last);
        assert(a.remove(a.len() - 1) == a.drop_last());
        let rest = b.remove(at);
        let earlier = lemma_rearranged(a.drop_last(), rest);
        let shifted = earlier.map_values(|i: int| if i < at { i } else { i + 1 });
        let places = shifted.push(at);
        assert forall|k: int| 0 <= k < earlier.len() implies 0 <= #[trigger] earlier[k]
            < rest.len() by {
            assert(earlier.contains(earlier[k]));
        }
        assert forall|k: int| 0 <= k < a.len() implies #[trigger] a[k] == b[places[k]] by {
            if k < earlier.len() {
                assert(a.drop_last()[k] == rest[earlier[k]]);
            }
        }
        assert forall|i: int| #[trigger] places.contains(i) <==> 0 <= i < b.len() by {
            if places.contains(i) {
                let k = places.index_of(i);
                if k < earlier.len() {
                    assert(0 <= earlier[k] < rest.len());
                }
            }
            if i == at {
                assert(places[earlier.len() as int] == i);
            } else if 0 <= i < b.len() {
                let from = if i < at {
                    i
                } else {
                    i - 1
                };
                assert(earlier.contains(from));
                let k = earlier.index_of(from);
                assert(places[k] == i);
            }
        }
        assert(places.no_duplicates()) by {
            assert forall|j: int, k: int|
                0 <= j < places.len() && 0 <= k < places.len() && j != k implies places[j]
                != places[k] by {
                if j < earlier.len() && k < earlier.len() {
                    assert(earlier[j] != earlier[k]);
                }
            }
        }
        places
    }
}

/// What is said of the trackers in terms of lists holds of each of them.
proof fn lemma_heard<S>(
    before: TableState<S>,
    after: TableState<S>,
    candidate: H256,
    includable: bool,
)
    requires
        before.heard(after, candidate, includable),
    ensures
        are_told(before, after, candidate, includable),
{
    let trackers = before.trackers;
    let updated = all_updated(trackers, candidate, includable);
    assert forall|i: int| 0 <= i < trackers.len() implies is_told(
        trackers[i],
        #[trigger] updated[i],
        candidate,
        includable,
    ) && (updated[i].complete() <==> is_done_after(trackers[i], candidate, includable)) by {
        lemma_updated(trackers[i], candidate, includable);
    }
    let told = after.completed.skip(before.completed.len() as int);
    assert(after.completed.take(before.completed.len() as int) == before.completed);
    assert(told == released(updated));
    let done = lemma_released(updated);
    assert forall|i: int| #[trigger]
        done.contains(i) <==> 0 <= i < trackers.len() && is_done_after(
            trackers[i],
            candidate,
            includable,
        ) by {
        if 0 <= i < trackers.len() {
            assert(updated[i].complete() <==> is_done_after(trackers[i], candidate, includable));
        }
    }
    assert forall|k: int| 0 <= k < done.len() implies #[trigger] told[k]
        == trackers[done[k]].sender by {
        assert(done.contains(done[k]));
        assert(released(updated)[k] == updated[done[k]].sender);
    }
    assert(are_released(told, done, trackers, candidate, includable));

    let left = after.trackers;
    let pending = waiting(updated);
    let stay = lemma_waiting(updated);
    let order = lemma_rearranged(left, pending);
    let places = order.map_values(|k: int| stay[k]);
    assert forall|k: int| 0 <= k < left.len() implies 0 <= #[trigger] order[k] < stay.len() by {
        assert(order.contains(order[k]));
    }
    assert forall|i: int| #[trigger]
        places.contains(i) <==> 0 <= i < trackers.len() && !is_done_after(
            trackers[i],
            candidate,
            includable,
        ) by {
        if 0 <= i < trackers.len() {
            assert(updated[i].complete() <==> is_done_after(trackers[i], candidate, includable));
        }
        if places.contains(i) {
            let k = places.index_of(i);
            assert(stay.contains(stay[order[k]]));
        }
        if stay.contains(i) {
            let n = stay.index_of(i);
            assert(order.contains(n));
            let k = order.index_of(n);
            assert(places[k] == i);
        }
    }
    assert(places.no_duplicates()) by {
        assert forall|j: int, k: int|
            0 <= j < places.len() && 0 <= k < places.len() && j != k implies places[j]
            != places[k] by {
            assert(order[j] != order[k]);
            assert(stay[order[j]] != stay[order[k]]);
        }
    }
    assert forall|k: int| 0 <= k < left.len() implies is_told(
        trackers[places[k]],
        #[trigger] left[k],
        candidate,
        includable,
    ) by {
        assert(left[k] == pending[order[k]]);
        assert(stay.contains(stay[order[k]]));
        assert(pending[order[k]] == updated[places[k]]);
        assert(is_told(trackers[places[k]], updated[places[k]], candidate, includable));
    }
    assert(are_left(left, places, trackers, candidate, includable));
}

/// Every tracker of a list hears of a candidate. The senders of those that are then done are
/// released, the last tracker first, and the others stay.
pub proof fn law_all_trackers_are_told<S>(
    trackers: &mut Vec<IncludabilitySender<S>>,
    completed: &mut Vec<S>,
    candidate: &H256,
    includable: bool,
    before: TableState<S>,
    after: TableState<S>,
)
    requires
        call_ensures(update_all::<S>, (trackers, completed, candidate, includable), ()),
        before.completed == old(completed)@,
        before.trackers.len() == old(trackers)@.len(),
        forall|i: int|
            0 <= i < before.trackers.len() ==> #[trigger] before.trackers[i]
                == old(trackers)@[i]@,
        after.completed == final(completed)@,
        after.trackers.len() == final(trackers)@.len(),
        forall|i: int|
            0 <= i < after.trackers.len() ==> #[trigger] after.trackers[i]
                == final(trackers)@[i]@,
    ensures
        are_told(before, after, *candidate, includable),
{
    assert(before.trackers == tracker_views(old(trackers)@));
    assert(after.trackers == tracker_views(final(trackers)@));
    lemma_heard(before, after, *candidate, includable);
}

/// A new table holds what it was made with and knows nothing yet: no candidate was validated,
/// nobody waits and nobody is to be told.
pub proof fn law_new_table<S>(
    authorities: &[SessionKey],
    groups: HashMap<ParaId, GroupInfo>,
    key: Pair,
    parent_hash: H256,
    max_block_data_size: Option<u64>,
    table: SharedTable<S>,
)
    requires
        call_ensures(
            SharedTable::<S>::new,
            (authorities, groups, key, parent_hash, max_block_data_size),
            table,
        ),
    ensures
        table.wf(),
        table.limit() == max_block_data_size,
        table.validators().parent_hash == parent_hash,
        table.validators().key == key,
        table.validators().groups == groups,
        table@.trackers.len() == 0,
        table@.completed.len() == 0,
        forall|candidate: H256| !#[trigger] table@.validated.contains_key(candidate),
{
}

/// Every authority is known by its position, and no other index is known. Where there are more
/// authorities than indices, the last of those that share an index is known by it.
pub proof fn law_validators_by_index<S>(
    authorities: &[SessionKey],
    groups: HashMap<ParaId, GroupInfo>,
    key: Pair,
    parent_hash: H256,
    max_block_data_size: Option<u64>,
    table: SharedTable<S>,
    i: int,
    index: ValidatorIndex,
    id: Option<SessionKey>,
)
    requires
        call_ensures(
            SharedTable::<S>::new,
            (authorities, groups, key, parent_hash, max_block_data_size),
            table,
        ),
        call_ensures(SharedTable::<S>::index_to_id, (&table, index), id),
        index == i % 0x1_0000_0000,
    ensures
        0 <= i < authorities@.len() <= i + 0x1_0000_0000 ==> id == Some(authorities@[i]),
        authorities@.len() <= i < 0x1_0000_0000 ==> id is None,
{
    assert(authorities.len() == authorities@.len());
    lemma_index_mapping(authorities@, i);
}

/// A table tells what it was made with.
pub proof fn law_table_tells_its_setting<S>(
    authorities: &[SessionKey],
    groups: HashMap<ParaId, GroupInfo>,
    key: Pair,
    parent_hash: H256,
    max_block_data_size: Option<u64>,
    table: SharedTable<S>,
    context: &TableContext,
    hash: &H256,
    id: SessionKey,
    info: &HashMap<ParaId, GroupInfo>,
    count: usize,
)
    requires
        call_ensures(
            SharedTable::<S>::new,
            (authorities, groups, key, parent_hash, max_block_data_size),
            table,
        ),
        call_ensures(SharedTable::<S>::context, (&table,), context),
        call_ensures(SharedTable::<S>::consensus_parent_hash, (&table,), hash),
        call_ensures(SharedTable::<S>::session_key, (&table,), id),
        call_ensures(SharedTable::<S>::group_info, (&table,), info),
        call_ensures(SharedTable::<S>::num_parachains, (&table,), count),
    ensures
        context.parent_hash == parent_hash && context.key == key && context.groups == groups,
        *hash == parent_hash,
        id == key.public_key(),
        *info == groups,
        count == groups@.dom().len(),
{
}

/// Whether the local validator's key stands at some place of the list of guarantors of a
/// parachain.
pub open spec fn is_listed(context: TableContext, para: ParaId) -> bool {
    &&& context.groups@.contains_key(para)
    &&& exists|i: int|
        0 <= i < context.groups@[para].validity_guarantors@.len()
            && #[trigger] context.groups@[para].validity_guarantors@[i]
            == context.key.public_key()
}

/// Whether a report is the first that is heard of a candidate that the local validator has to
/// validate.
pub open spec fn is_first_word(
    validated: Map<H256, WorkState>,
    context: TableContext,
    report: Option<TableReport>,
) -> bool {
    &&& report is Some
    &&& is_listed(context, report->Some_0.summary.group_id)
    &&& !validated.contains_key(report->Some_0.summary.candidate)
}

/// Whether one record of validation becomes the other with a report. Only the record of the
/// report's candidate can be new, and only if there was none and the local validator has to
/// validate the candidate: that validation is in progress, or that the receipt is missing.
pub open spec fn is_recorded(
    before: Map<H256, WorkState>,
    after: Map<H256, WorkState>,
    context: TableContext,
    report: Option<TableReport>,
) -> bool {
    &&& forall|any: H256| #[trigger]
        after.contains_key(any) <==> before.contains_key(any) || (is_first_word(
            before,
            context,
            report,
        ) && any == report->Some_0.summary.candidate)
    &&& forall|any: H256| #[trigger] before.contains_key(any) ==> after[any] == before[any]
    &&& is_first_word(before, context, report) ==> after[report->Some_0.summary.candidate]
        == match report->Some_0.receipt {
        Some(_) => WorkState::InProgress,
        None => WorkState::Error(
            "Table inconsistency detected. Summary returned for candidate "@ + abbreviated(
                report->Some_0.summary.candidate,
            ) + " but receipt not present in table."@,
        ),
    }
}

/// Whether the work is what a report makes due: there is work if and only if the report is the
/// first that is heard of a candidate that the local validator has to validate, and brings its
/// receipt. The work is on that receipt, with a fetch that the router gave for it.
pub open spec fn is_due<R: TableRouter>(
    work: Option<ParachainWork<R::FetchValidationProof>>,
    before: Map<H256, WorkState>,
    context: TableContext,
    router: &R,
    report: Option<TableReport>,
    limit: Option<u64>,
) -> bool {
    &&& work is Some <==> is_first_word(before, context, report) && report->Some_0.receipt is Some
    &&& work is Some ==> {
        &&& work->Some_0.work.candidate_receipt == report->Some_0.receipt->Some_0
        &&& call_ensures(
            R::fetch_pov_block,
            (router, &report->Some_0.receipt->Some_0),
            work->Some_0.work.fetch,
        )
        &&& work->Some_0.relay_parent == context.parent_hash
        &&& work->Some_0.max_block_data_size == limit
    }
}

/// Whether one state becomes the other with a report, and the work is what the report makes due.
pub open spec fn is_taken_in<S, R: TableRouter>(
    before: TableState<S>,
    after: TableState<S>,
    work: Option<ParachainWork<R::FetchValidationProof>>,
    context: TableContext,
    router: &R,
    report: Option<TableReport>,
    limit: Option<u64>,
) -> bool {
    &&& is_recorded(before.validated, after.validated, context, report)
    &&& is_due(work, before.validated, context, router, report, limit)
    &&& match report {
        Some(report) => are_told(before, after, report.summary.candidate, report.includable),
        None => after == before,
    }
}

/// What a report makes of a state, seen one record and one tracker at a time.
proof fn lemma_taken_in<S, R: TableRouter>(
    before: TableState<S>,
    after: TableState<S>,
    work: Option<ParachainWork<R::FetchValidationProof>>,
    context: TableContext,
    router: &R,
    report: Option<TableReport>,
    limit: Option<u64>,
)
    requires
        before.imported(after, context, report),
        handed_out(work, before, context, router, report, limit),
    ensures
        is_taken_in(before, after, work, context, router, report, limit),
{
    if report is Some {
        let news = report->Some_0;
        lemma_heard(before, after, news.summary.candidate, news.includable);
        lemma_listed(context, news.summary.group_id);
        assert(before.starts(context, news) <==> is_first_word(before.validated, context, report));
    } else {
        assert(after == before);
    }
}

/// To guard a parachain is to be listed.
pub proof fn lemma_listed(context: TableContext, para: ParaId)
    ensures
        context.guards(context.key.public_key(), para) <==> is_listed(context, para),
{
    let key = context.key.public_key();
    if is_listed(context, para) {
        let list = context.groups@[para].validity_guarantors@;
        let i = choose|i: int| 0 <= i < list.len() && #[trigger] list[i] == key;
        assert(list.contains(key));
    }
}

/// What is reported of a statement changes the table as the report says, and hands out the work
/// that the report makes due. What the table knows of the validators stays.
pub proof fn law_reported_statement<S, R: TableRouter>(
    table: &mut SharedTable<S>,
    router: &R,
    report: Option<TableReport>,
    work: Option<ParachainWork<R::FetchValidationProof>>,
)
    requires
        call_ensures(SharedTable::<S>::import_report::<R>, (table, router, report), work),
    ensures
        final(table).wf(),
        final(table).validators() == old(table).validators(),
        final(table).limit() == old(table).limit(),
        is_taken_in(
            old(table)@,
            final(table)@,
            work,
            old(table).validators(),
            router,
            report,
            old(table).limit(),
        ),
{
    lemma_taken_in(
        old(table)@,
        final(table)@,
        work,
        old(table).validators(),
        router,
        report,
        old(table).limit(),
    );
}

/// The first report on a candidate that the table knows nothing of hands out work on its receipt,
/// wherever in the list of guarantors the local validator's key stands.
pub proof fn law_guarantors_get_work<S, R: TableRouter>(
    table: &mut SharedTable<S>,
    router: &R,
    report: TableReport,
    work: Option<ParachainWork<R::FetchValidationProof>>,
    i: int,
    known: Option<&ValidationWork>,
    noted: Option<&ValidationWork>,
)
    requires
        call_ensures(SharedTable::<S>::import_report::<R>, (table, router, Some(report)), work),
        call_ensures(
            SharedTable::<S>::validation_work,
            (&*old(table), &report.summary.candidate),
            known,
        ),
        call_ensures(
            SharedTable::<S>::validation_work,
            (&*final(table), &report.summary.candidate),
            noted,
        ),
        known is None,
        report.receipt is Some,
        old(table).validators().groups@.contains_key(report.summary.group_id),
        0 <= i
            < old(table).validators().groups@[report.summary.group_id].validity_guarantors@.len(),
        old(table).validators().groups@[report.summary.group_id].validity_guarantors@[i]
            == old(table).validators().key.public_key(),
    ensures
        work is Some,
        work->Some_0.work.candidate_receipt == report.receipt->Some_0,
        call_ensures(
            R::fetch_pov_block,
            (router, &report.receipt->Some_0),
            work->Some_0.work.fetch,
        ),
        work->Some_0.relay_parent == old(table).validators().parent_hash,
        work->Some_0.max_block_data_size == old(table).limit(),
        noted is Some && *noted->Some_0 == ValidationWork::InProgress,
{
    law_reported_statement(table, router, Some(report), work);
    assert(is_listed(old(table).validators(), report.summary.group_id));
}

/// A remote statement goes into the statement table as it is. What the statement table reports of
/// it changes the table as the report says, and hands out the work that the report makes due.
pub proof fn law_remote_statement<S, T, R, C>(
    table: &mut SharedTable<S>,
    router: &R,
    statements: T,
    statement: SignedStatement,
    consult: C,
    result: (T, Option<ParachainWork<R::FetchValidationProof>>),
) where
    R: TableRouter,
    C: FnOnce(&TableContext, T, SignedStatement) -> (T, Option<TableReport>),

    requires
        call_ensures(
            SharedTable::<S>::import_remote_statement::<T, R, C>,
            (table, router, statements, statement, consult),
            result,
        ),
    ensures
        final(table).wf(),
        final(table).validators() == old(table).validators(),
        final(table).limit() == old(table).limit(),
        exists|report: Option<TableReport>|
            {
                &&& #[trigger] call_ensures(
                    consult,
                    (&old(table).validators(), statements, statement),
                    (result.0, report),
                )
                &&& is_taken_in(
                    old(table)@,
                    final(table)@,
                    result.1,
                    old(table).validators(),
                    router,
                    report,
                    old(table).limit(),
                )
            },
{
    let context = old(table).validators();
    let limit = old(table).limit();
    let report = choose|report: Option<TableReport>|
        {
            &&& #[trigger] call_ensures(
                consult,
                (&context, statements, statement),
                (result.0, report),
            )
            &&& old(table)@.imported(final(table)@, context, report)
            &&& handed_out(result.1, old(table)@, context, router, report, limit)
        };
    lemma_taken_in(old(table)@, final(table)@, result.1, context, router, report, limit);
}

/// Whether the statements went into the statement table one after the other, each into what the
/// one before left, and each changed the table as its own report says.
pub open spec fn are_taken_in<S, T, R: TableRouter, C>(
    states: Seq<(TableState<S>, T)>,
    reports: Seq<Option<TableReport>>,
    statements: Seq<SignedStatement>,
    works: Seq<Option<ParachainWork<R::FetchValidationProof>>>,
    context: TableContext,
    limit: Option<u64>,
    router: &R,
    consult: C,
) -> bool where C: FnOnce(&TableContext, T, SignedStatement) -> (T, Option<TableReport>) {
    &&& states.len() == statements.len() + 1
    &&& reports.len() == statements.len()
    &&& works.len() == statements.len()
    &&& forall|i: int|
        0 <= i < statements.len() ==> call_ensures(
            consult,
            (&context, states[i].1, statements[i]),
            (states[i + 1].1, #[trigger] reports[i]),
        )
    &&& forall|i: int|
        0 <= i < statements.len() ==> is_taken_in(
            states[i].0,
            states[i + 1].0,
            works[i],
            context,
            router,
            #[trigger] reports[i],
            limit,
        )
}

/// Many remote statements are imported one after the other, in the order given, and each hands out
/// the work that its own report makes due.
pub proof fn law_remote_statements<S, T, R, C>(
    table: &mut SharedTable<S>,
    router: &R,
    before: T,
    statements: Vec<SignedStatement>,
    consult: C,
    result: (T, Vec<Option<ParachainWork<R::FetchValidationProof>>>),
) where
    R: TableRouter,
    C: Fn(&TableContext, T, SignedStatement) -> (T, Option<TableReport>),

    requires
        call_ensures(
            SharedTable::<S>::import_remote_statements::<T, R, C>,
            (table, router, before, statements, consult),
            result,
        ),
    ensures
        final(table).wf(),
        final(table).validators() == old(table).validators(),
        final(table).limit() == old(table).limit(),
        exists|states: Seq<(TableState<S>, T)>, reports: Seq<Option<TableReport>>|
            {
                &&& #[trigger] are_taken_in(
                    states,
                    reports,
                    statements@,
                    result.1@,
                    old(table).validators(),
                    old(table).limit(),
                    router,
                    consult,
                )
                &&& states[0] == (old(table)@, before)
                &&& states[statements@.len() as int] == (final(table)@, result.0)
            },
{
    let context = old(table).validators();
    let limit = old(table).limit();
    let all = statements@;
    let works = result.1@;
    let states = choose|states: Seq<(TableState<S>, T)>|
        #[trigger] is_run(states, all, works, context, limit, router, consult)
            && states.first() == (old(table)@, before) && states.last() == (
        final(table)@,
        result.0,
    );
    let fits = |i: int, report: Option<TableReport>|
        {
            &&& call_ensures(consult, (&context, states[i].1, all[i]), (states[i + 1].1, report))
            &&& is_taken_in(
                states[i].0,
                states[i + 1].0,
                works[i],
                context,
                router,
                report,
                limit,
            )
        };
    let reports = Seq::new(
        all.len(),
        |i: int| choose|report: Option<TableReport>| #[trigger] fits(i, report),
    );
    assert forall|i: int| 0 <= i < all.len() implies #[trigger] fits(i, reports[i]) by {
        assert(imports(
            states[i],
            states[i + 1],
            all[i],
            works[i],
            context,
            limit,
            router,
            consult,
        ));
        let report = choose|report: Option<TableReport>|
            {
                &&& #[trigger] call_ensures(
                    consult,
                    (&context, states[i].1, all[i]),
                    (states[i + 1].1, report),
                )
                &&& states[i].0.imported(states[i + 1].0, context, report)
                &&& handed_out(works[i], states[i].0, context, router, report, limit)
            };
        lemma_taken_in(
            states[i].0,
            states[i + 1].0,
            works[i],
            context,
            router,
            report,
            limit,
        );
        assert(fits(i, report));
    }
    assert forall|i: int| 0 <= i < all.len() implies call_ensures(
        consult,
        (&context, states[i].1, all[i]),
        (states[i + 1].1, #[trigger] reports[i]),
    ) && is_taken_in(
        states[i].0,
        states[i + 1].0,
        works[i],
        context,
        router,
        reports[i],
        limit,
    ) by {
        assert(fits(i, reports[i]));
    }
    assert(are_taken_in(states, reports, all, works, context, limit, router, consult));
}

/// How far the validation of a candidate has come is what the table has on record, and there is
/// extrinsic data if and only if validation is done and found the candidate valid.
pub proof fn law_records_are_told<S>(
    table: &SharedTable<S>,
    hash: &H256,
    work: Option<&ValidationWork>,
    data: Option<&Extrinsic>,
)
    requires
        call_ensures(SharedTable::<S>::validation_work, (table, hash), work),
        call_ensures(SharedTable::<S>::extrinsic_data, (table, hash), data),
    ensures
        work is Some <==> table@.validated.contains_key(*hash),
        work is Some ==> match *work->Some_0 {
            ValidationWork::Done(validation) => table@.validated[*hash] == WorkState::Done(
                validation,
            ),
            ValidationWork::InProgress => table@.validated[*hash] == WorkState::InProgress,
            ValidationWork::Error(reason) => table@.validated[*hash] == WorkState::Error(reason@),
        },
        forall|pov_block: PoVBlock, extrinsic: Extrinsic|
            work == Some(
                &(#[trigger] ValidationWork::Done(Validation::Valid(pov_block, extrinsic))),
            ) ==> data == Some(&extrinsic),
        data is Some ==> work is Some && *work->Some_0 is Done && work->Some_0->Done_0 is Valid
            && work->Some_0->Done_0->Valid_1 == *data->Some_0,
{
}

/// The result of local validation or collation is signed as it is, whatever it says. The signature
/// is the local key's, on what `payload` gave for that statement and the parent hash, and the
/// sender is an index that has the local key. That signed statement goes into the statement table.
pub proof fn law_validated_is_signed<S, P, I>(
    table: &mut SharedTable<S>,
    validated: Validated,
    payload: P,
    import_statement: I,
    signed: SignedStatement,
    statement: &Statement,
    id: Option<SessionKey>,
    own: SessionKey,
) where P: FnOnce(&Statement, &H256) -> Vec<u8>, I: FnOnce(&TableContext, &SignedStatement)
    requires
        call_ensures(
            SharedTable::<S>::import_validated::<P, I>,
            (table, validated, payload, import_statement),
            signed,
        ),
        call_ensures(Validated::statement, (&validated,), statement),
        call_ensures(SharedTable::<S>::index_to_id, (&*old(table), signed.sender), id),
        call_ensures(SharedTable::<S>::session_key, (&*old(table),), own),
    ensures
        signed.statement == *statement,
        exists|bytes: Vec<u8>|
            {
                &&& #[trigger] call_ensures(
                    payload,
                    (&signed.statement, &old(table).validators().parent_hash),
                    bytes,
                )
                &&& signed.signature.0 == ed25519_signature(
                    old(table).validators().key.secret(),
                    bytes@,
                )
            },
        id == Some(own),
        call_ensures(import_statement, (&old(table).validators(), &signed), ()),
{
}

/// The result of local validation or collation goes on record under the digest of its statement,
/// in place of what was there, and there is then extrinsic data for the candidate if there is some
/// in the result. No other record changes, and nobody is told.
pub proof fn law_validated_goes_on_record<S, P, I>(
    table: &mut SharedTable<S>,
    validated: Validated,
    payload: P,
    import_statement: I,
    signed: SignedStatement,
    statement: &Statement,
    digest: H256,
    pov_block: &PoVBlock,
    extrinsic: Option<&Extrinsic>,
    work: Option<&ValidationWork>,
    data: Option<&Extrinsic>,
    other: H256,
) where P: FnOnce(&Statement, &H256) -> Vec<u8>, I: FnOnce(&TableContext, &SignedStatement)
    requires
        call_ensures(
            SharedTable::<S>::import_validated::<P, I>,
            (table, validated, payload, import_statement),
            signed,
        ),
        call_ensures(Validated::statement, (&validated,), statement),
        call_ensures(Validated::pov_block, (&validated,), pov_block),
        call_ensures(Validated::extrinsic, (&validated,), extrinsic),
        digest == match *statement {
            GenericStatement::Candidate(receipt) => receipt.candidate_hash,
            GenericStatement::Valid(hash) => hash,
            GenericStatement::Invalid(hash) => hash,
        },
        call_ensures(SharedTable::<S>::validation_work, (&*final(table), &digest), work),
        call_ensures(SharedTable::<S>::extrinsic_data, (&*final(table), &digest), data),
    ensures
        final(table).wf(),
        final(table).validators() == old(table).validators(),
        final(table).limit() == old(table).limit(),
        final(table)@.trackers == old(table)@.trackers,
        final(table)@.completed == old(table)@.completed,
        work is Some && *work->Some_0 == ValidationWork::Done(
            match extrinsic {
                Some(extrinsic) => Validation::Valid(*pov_block, *extrinsic),
                None => Validation::Invalid(*pov_block),
            },
        ),
        data == extrinsic,
        other != digest ==> {
            &&& final(table)@.validated.contains_key(other)
                <==> old(table)@.validated.contains_key(other)
            &&& old(table)@.validated.contains_key(other) ==> final(table)@.validated[other]
                == old(table)@.validated[other]
        },
{
}

/// The closure is run on what the statement table has for the very digest that was given, and its
/// result is handed back.
pub proof fn law_closure_on_a_candidate<'a, S, G, F, U>(
    table: &SharedTable<S>,
    digest: &H256,
    get_candidate: G,
    f: F,
    result: U,
) where
    G: FnOnce(&H256) -> Option<&'a CandidateReceipt>,
    F: FnOnce(Option<&CandidateReceipt>) -> U,

    requires
        call_ensures(
            SharedTable::<S>::with_candidate::<G, F, U>,
            (table, digest, get_candidate, f),
            result,
        ),
    ensures
        exists|candidate: Option<&CandidateReceipt>|
            {
                &&& #[trigger] call_ensures(get_candidate, (digest,), candidate)
                &&& call_ensures(f, (candidate,), result)
            },
{
}

/// The candidates that can be proposed are those that the statement table gives, one for one and
/// in its order, each with its receipt and with every one of its votes as it is.
pub proof fn law_proposed_set<S, C>(
    table: &SharedTable<S>,
    proposed_candidates: C,
    proposed: Vec<AttestedCandidate>,
) where C: FnOnce(&TableContext) -> Vec<TableCandidate>
    requires
        call_ensures(SharedTable::<S>::proposed_set::<C>, (table, proposed_candidates), proposed),
    ensures
        exists|given: Vec<TableCandidate>|
            {
                &&& #[trigger] call_ensures(proposed_candidates, (&table.validators(),), given)
                &&& proposed@.len() == given@.len()
                &&& forall|i: int|
                    0 <= i < given@.len() ==> (#[trigger] proposed@[i]).candidate
                        == given@[i].candidate && proposed@[i].validity_votes@.len()
                        == given@[i].validity_votes@.len()
                &&& forall|i: int, k: int|
                    0 <= i < given@.len() && 0 <= k < given@[i].validity_votes@.len()
                        ==> {
                        let vote = #[trigger] proposed@[i].validity_votes@[k];
                        &&& vote.0 == given@[i].validity_votes@[k].0
                        &&& match given@[i].validity_votes@[k].1 {
                            TableAttestation::Implicit(signature) => vote.1
                                == ValidityAttestation::Implicit(signature),
                            TableAttestation::Explicit(signature) => vote.1
                                == ValidityAttestation::Explicit(signature),
                        }
                    }
            },
{
    let given = choose|given: Vec<TableCandidate>| #[trigger]
        call_ensures(proposed_candidates, (&table.validators(),), given) && all_attest(
            proposed@,
            given@,
        );
    assert forall|i: int| 0 <= i < given@.len() implies (#[trigger] proposed@[i]).candidate
        == given@[i].candidate && proposed@[i].validity_votes@.len()
        == given@[i].validity_votes@.len() by {
        assert(attests(proposed@[i], given@[i]));
    }
    assert forall|i: int, k: int|
        0 <= i < given@.len() && 0 <= k < given@[i].validity_votes@.len() implies {
        let vote = #[trigger] proposed@[i].validity_votes@[k];
        &&& vote.0 == given@[i].validity_votes@[k].0
        &&& match given@[i].validity_votes@[k].1 {
            TableAttestation::Implicit(signature) => vote.1 == ValidityAttestation::Implicit(
                signature,
            ),
            TableAttestation::Explicit(signature) => vote.1 == ValidityAttestation::Explicit(
                signature,
            ),
        }
    } by {
        assert(attests(proposed@[i], given@[i]));
    }
}

/// Whether one state becomes the other where someone begins to wait for a list of candidates, each
/// given with whether it is includable: the sender is to be told at once if all of them are, by
/// the last that is said of each, and waits on with every one of them else.
pub open spec fn is_waiting_for<S>(
    before: TableState<S>,
    after: TableState<S>,
    answers: Seq<(H256, bool)>,
    sender: S,
) -> bool {
    let all = forall|i: int| #[trigger] is_last_word(answers, i) ==> answers[i].1;
    &&& after.validated == before.validated
    &&& all ==> after.trackers == before.trackers && after.completed == before.completed.push(
        sender,
    )
    &&& !all ==> {
        &&& after.completed == before.completed
        &&& after.trackers.len() == before.trackers.len() + 1
        &&& after.trackers.drop_last() == before.trackers
        &&& after.trackers.last().sender == sender
        &&& forall|candidate: H256| #[trigger]
            after.trackers.last().flags.contains_key(candidate) <==> exists|i: int|
                0 <= i < answers.len() && (#[trigger] answers[i]).0 == candidate
        &&& forall|i: int| #[trigger]
            is_last_word(answers, i) ==> after.trackers.last().flags[answers[i].0]
                == answers[i].1
    }
}

/// What waiting for a list of candidates makes of a state.
proof fn lemma_waiting_for<S>(
    before: TableState<S>,
    after: TableState<S>,
    answers: Seq<(H256, bool)>,
    sender: S,
)
    requires
        after == before.tracking(Tracker { flags: flags_of(answers), sender }),
    ensures
        is_waiting_for(before, after, answers, sender),
{
    let tracker = Tracker { flags: flags_of(answers), sender };
    lemma_flags(answers);
    lemma_all_flags(answers);
    assert(tracker.flags == flags_of(answers));
    if tracker.complete() {
        assert forall|candidate: H256| #[trigger]
            flags_of(answers).contains_key(candidate) implies flags_of(answers)[candidate] by {
            assert(tracker.flags.contains_key(candidate));
        }
    } else {
        let candidate = choose|candidate: H256| #[trigger]
            tracker.flags.contains_key(candidate) && !tracker.flags[candidate];
        assert(flags_of(answers).contains_key(candidate));
        assert(after.trackers.drop_last() == before.trackers);
        assert(after.trackers.last() == tracker);
    }
}

/// Who begins to wait for a list of candidates is to be told at once if and only if all of them
/// are includable, and waits on for every one of them else.
pub proof fn law_waiting_for_answers<S>(
    table: &mut SharedTable<S>,
    answers: Vec<(H256, bool)>,
    sender: S,
)
    requires
        call_ensures(SharedTable::<S>::track_answers, (table, answers, sender), ()),
    ensures
        final(table).wf(),
        final(table).validators() == old(table).validators(),
        final(table).limit() == old(table).limit(),
        is_waiting_for(old(table)@, final(table)@, answers@, sender),
{
    lemma_waiting_for(old(table)@, final(table)@, answers@, sender);
}

/// Each candidate that someone begins to wait for is looked up in the statement table, and who
/// waits is to be told at once if and only if all of them are includable.
pub proof fn law_waiting_for_candidates<S, C>(
    table: &mut SharedTable<S>,
    candidates: Vec<H256>,
    candidate_includable: C,
    sender: S,
) where C: Fn(&H256, &TableContext) -> bool
    requires
        call_ensures(
            SharedTable::<S>::track_includability::<C>,
            (table, candidates, candidate_includable, sender),
            (),
        ),
    ensures
        final(table).wf(),
        final(table).validators() == old(table).validators(),
        final(table).limit() == old(table).limit(),
        exists|answers: Seq<(H256, bool)>|
            {
                &&& #[trigger] is_waiting_for(old(table)@, final(table)@, answers, sender)
                &&& answers.len() == candidates@.len()
                &&& forall|i: int|
                    0 <= i < answers.len() ==> {
                        &&& (#[trigger] answers[i]).0 == candidates@[i]
                        &&& call_ensures(
                            candidate_includable,
                            (&candidates@[i], &old(table).validators()),
                            answers[i].1,
                        )
                    }
            },
{
    let answers = choose|answers: Seq<(H256, bool)>|
        {
            &&& #[trigger] answered(
                answers,
                candidates@,
                old(table).validators(),
                candidate_includable,
            )
            &&& final(table)@ == old(table)@.tracking(Tracker { flags: flags_of(answers), sender })
        };
    lemma_waiting_for(old(table)@, final(table)@, answers, sender);
}

/// Nobody is told too early: who begins to wait for distinct candidates of which one is not
/// includable is not among those to be told.
pub proof fn law_nobody_is_told_too_early<S>(
    table: &mut SharedTable<S>,
    answers: Vec<(H256, bool)>,
    sender: S,
    i: int,
)
    requires
        call_ensures(SharedTable::<S>::track_answers, (table, answers, sender), ()),
        forall|j: int, k: int|
            0 <= j < k < answers@.len() ==> (#[trigger] answers@[j]).0 != (
            #[trigger] answers@[k]).0,
        0 <= i < answers@.len(),
        !answers@[i].1,
    ensures
        final(table)@.completed == old(table)@.completed,
        final(table)@.trackers.last().sender == sender,
        final(table)@.trackers.last().flags.contains_key(answers@[i].0),
{
    law_waiting_for_answers(table, answers, sender);
    assert(is_last_word(answers@, i));
    assert(answers@[i].0 == answers@[i].0);
}

/// Those that are to be told are handed out once, in the order in which they were done waiting.
/// Nothing else changes.
pub proof fn law_completed_are_taken<S>(table: &mut SharedTable<S>, senders: Vec<S>)
    requires
        call_ensures(SharedTable::<S>::take_completed, (table,), senders),
    ensures
        final(table).wf(),
        final(table).validators() == old(table).validators(),
        final(table).limit() == old(table).limit(),
        senders@ == old(table)@.completed,
        final(table)@.completed.len() == 0,
        final(table)@.trackers == old(table)@.trackers,
        final(table)@.validated == old(table)@.validated,
{
}

/// A validator whose key stands nowhere in the list of guarantors gets no work, and nothing goes on
/// record.
pub proof fn law_others_get_no_work<S, R: TableRouter>(
    table: &mut SharedTable<S>,
    router: &R,
    report: TableReport,
    work: Option<ParachainWork<R::FetchValidationProof>>,
)
    requires
        call_ensures(SharedTable::<S>::import_report::<R>, (table, router, Some(report)), work),
        forall|i: int|
            old(table).validators().groups@.contains_key(report.summary.group_id) && 0 <= i
                < old(table).validators().groups@[
                report.summary.group_id
            ].validity_guarantors@.len()
                ==> (#[trigger] old(table).validators().groups@[
                report.summary.group_id
            ].validity_guarantors@[i]) != old(table).validators().key.public_key(),
    ensures
        work is None,
        final(table)@.validated == old(table)@.validated,
{
    law_reported_statement(table, router, Some(report), work);
    assert(!is_listed(old(table).validators(), report.summary.group_id));
    assert(final(table)@.validated =~= old(table)@.validated);
}

/// A candidate of which anything is on record leads to no work, and its record stays.
pub proof fn law_known_candidates_lead_to_no_work<S, R: TableRouter>(
    table: &mut SharedTable<S>,
    router: &R,
    report: TableReport,
    work: Option<ParachainWork<R::FetchValidationProof>>,
    known: Option<&ValidationWork>,
)
    requires
        call_ensures(SharedTable::<S>::import_report::<R>, (table, router, Some(report)), work),
        call_ensures(
            SharedTable::<S>::validation_work,
            (&*old(table), &report.summary.candidate),
            known,
        ),
        known is Some,
    ensures
        work is None,
        final(table)@.validated == old(table)@.validated,
{
    law_reported_statement(table, router, Some(report), work);
    assert(final(table)@.validated =~= old(table)@.validated);
}

/// If the receipt of a candidate that is to be validated is missing, there is no work, and that the
/// statement table is inconsistent goes on record.
pub proof fn law_missing_receipt<S, R: TableRouter>(
    table: &mut SharedTable<S>,
    router: &R,
    report: TableReport,
    work: Option<ParachainWork<R::FetchValidationProof>>,
    i: int,
    known: Option<&ValidationWork>,
    noted: Option<&ValidationWork>,
    text: String,
)
    requires
        call_ensures(SharedTable::<S>::import_report::<R>, (table, router, Some(report)), work),
        call_ensures(
            SharedTable::<S>::validation_work,
            (&*old(table), &report.summary.candidate),
            known,
        ),
        call_ensures(
            SharedTable::<S>::validation_work,
            (&*final(table), &report.summary.candidate),
            noted,
        ),
        call_ensures(H256::abbreviate, (&report.summary.candidate,), text),
        known is None,
        report.receipt is None,
        old(table).validators().groups@.contains_key(report.summary.group_id),
        0 <= i
            < old(table).validators().groups@[report.summary.group_id].validity_guarantors@.len(),
        old(table).validators().groups@[report.summary.group_id].validity_guarantors@[i]
            == old(table).validators().key.public_key(),
    ensures
        work is None,
        noted is Some && *noted->Some_0 is Error,
        (*noted->Some_0)->Error_0@
            == "Table inconsistency detected. Summary returned for candidate "@ + text@
            + " but receipt not present in table."@,
{
    law_reported_statement(table, router, Some(report), work);
    assert(is_listed(old(table).validators(), report.summary.group_id));
}

/// A report changes at most the record of the candidate that it is on, and no report changes
/// nothing.
pub proof fn law_other_records_stay<S, R: TableRouter>(
    table: &mut SharedTable<S>,
    router: &R,
    report: Option<TableReport>,
    work: Option<ParachainWork<R::FetchValidationProof>>,
    other: H256,
    before: Option<&Extrinsic>,
    after: Option<&Extrinsic>,
)
    requires
        call_ensures(SharedTable::<S>::import_report::<R>, (table, router, report), work),
        call_ensures(SharedTable::<S>::extrinsic_data, (&*old(table), &other), before),
        call_ensures(SharedTable::<S>::extrinsic_data, (&*final(table), &other), after),
    ensures
        after == before,
        report is Some && report->Some_0.summary.candidate != other ==> {
            &&& final(table)@.validated.contains_key(other)
                <==> old(table)@.validated.contains_key(other)
            &&& old(table)@.validated.contains_key(other) ==> final(table)@.validated[other]
                == old(table)@.validated[other]
        },
        report is None ==> work is None && final(table)@ == old(table)@,
{
    law_reported_statement(table, router, report, work);
    let before = old(table)@.validated;
    let after = final(table)@.validated;
    assert(after.contains_key(other) ==> before.contains_key(other) || is_first_word(
        before,
        old(table).validators(),
        report,
    ));
}

/// Work on a candidate is handed out once: after a report on which work was handed out, another
/// report on the same candidate hands out none.
pub proof fn law_second_report_hands_out_nothing<S, R: TableRouter>(
    table: &mut SharedTable<S>,
    next: &mut SharedTable<S>,
    router: &R,
    report: TableReport,
    another: TableReport,
    work: Option<ParachainWork<R::FetchValidationProof>>,
    second: Option<ParachainWork<R::FetchValidationProof>>,
)
    requires
        call_ensures(SharedTable::<S>::import_report::<R>, (table, router, Some(report)), work),
        *old(next) == *final(table),
        call_ensures(SharedTable::<S>::import_report::<R>, (next, router, Some(another)), second),
        another.summary.candidate == report.summary.candidate,
        work is Some,
    ensures
        second is None,
{
    law_reported_statement(table, router, Some(report), work);
    law_reported_statement(next, router, Some(another), second);
    assert(final(table)@.validated.contains_key(report.summary.candidate));
}

/// A candidate that was validated or collated locally leads to no work afterwards.
pub proof fn law_own_candidates_lead_to_no_work<S, R, P, I>(
    table: &mut SharedTable<S>,
    next: &mut SharedTable<S>,
    validated: Validated,
    payload: P,
    import_statement: I,
    signed: SignedStatement,
    router: &R,
    report: TableReport,
    work: Option<ParachainWork<R::FetchValidationProof>>,
) where
    R: TableRouter,
    P: FnOnce(&Statement, &H256) -> Vec<u8>,
    I: FnOnce(&TableContext, &SignedStatement),

    requires
        call_ensures(
            SharedTable::<S>::import_validated::<P, I>,
            (table, validated, payload, import_statement),
            signed,
        ),
        *old(next) == *final(table),
        call_ensures(SharedTable::<S>::import_report::<R>, (next, router, Some(report)), work),
        match signed.statement {
            GenericStatement::Candidate(receipt) => report.summary.candidate
                == receipt.candidate_hash,
            GenericStatement::Valid(hash) => report.summary.candidate == hash,
            GenericStatement::Invalid(hash) => report.summary.candidate == hash,
        },
    ensures
        work is None,
        final(next)@.validated == old(next)@.validated,
{
    law_reported_statement(next, router, Some(report), work);
    assert(old(next)@.validated.contains_key(report.summary.candidate));
    assert(final(next)@.validated =~= old(next)@.validated);
}

/// Who waits is told of a report: a tracker whose candidates are then all includable is done and
/// its sender is to be told, and one with a candidate that is not waits on for the same
/// candidates. Who was to be told before still is.
pub proof fn law_each_tracker_hears<S, R: TableRouter>(
    table: &mut SharedTable<S>,
    router: &R,
    report: TableReport,
    work: Option<ParachainWork<R::FetchValidationProof>>,
    i: int,
)
    requires
        call_ensures(SharedTable::<S>::import_report::<R>, (table, router, Some(report)), work),
        0 <= i < old(table)@.trackers.len(),
    ensures
        forall|k: int|
            0 <= k < old(table)@.completed.len() ==> k < final(table)@.completed.len()
                && #[trigger] final(table)@.completed[k] == old(table)@.completed[k],
        (forall|any: H256| #[trigger]
            old(table)@.trackers[i].flags.contains_key(any) ==> if any
                == report.summary.candidate {
                report.includable
            } else {
                old(table)@.trackers[i].flags[any]
            }) ==> exists|k: int|
            old(table)@.completed.len() <= k < final(table)@.completed.len()
                && #[trigger] final(table)@.completed[k] == old(table)@.trackers[i].sender,
        (exists|any: H256| #[trigger]
            old(table)@.trackers[i].flags.contains_key(any) && !(if any
                == report.summary.candidate {
                report.includable
            } else {
                old(table)@.trackers[i].flags[any]
            })) ==> exists|k: int|
            {
                &&& 0 <= k < final(table)@.trackers.len()
                &&& (#[trigger] final(table)@.trackers[k]).sender == old(table)@.trackers[i].sender
                &&& final(table)@.trackers[k].flags.dom() == old(table)@.trackers[i].flags.dom()
            },
{
    law_reported_statement(table, router, Some(report), work);
    let before = old(table)@;
    let after = final(table)@;
    let candidate = report.summary.candidate;
    let told = after.completed.skip(before.completed.len() as int);
    let done = choose|places: Seq<int>| #[trigger]
        are_released(told, places, before.trackers, candidate, report.includable);
    let left = choose|places: Seq<int>| #[trigger]
        are_left(after.trackers, places, before.trackers, candidate, report.includable);
    assert forall|k: int| 0 <= k < before.completed.len() implies k < after.completed.len()
        && #[trigger] after.completed[k] == before.completed[k] by {
        assert(after.completed.take(before.completed.len() as int)[k] == before.completed[k]);
    }
    if is_done_after(before.trackers[i], candidate, report.includable) {
        assert(done.contains(i));
        let k = done.index_of(i);
        assert(told[k] == before.trackers[i].sender);
        assert(after.completed[before.completed.len() + k] == before.trackers[i].sender);
    } else {
        assert(left.contains(i));
        let k = left.index_of(i);
        assert(is_told(before.trackers[i], after.trackers[k], candidate, report.includable));
        assert(after.trackers[k].flags.dom() =~= before.trackers[i].flags.dom());
    }
}

/// Nobody is told out of turn: whoever a report adds to those to be told waited, and all that it
/// waited for is includable after the report. Whoever still waits waited before.
pub proof fn law_nobody_is_told_out_of_turn<S, R: TableRouter>(
    table: &mut SharedTable<S>,
    router: &R,
    report: TableReport,
    work: Option<ParachainWork<R::FetchValidationProof>>,
    k: int,
)
    requires
        call_ensures(SharedTable::<S>::import_report::<R>, (table, router, Some(report)), work),
    ensures
        old(table)@.completed.len() <= k < final(table)@.completed.len() ==> exists|i: int|
            {
                &&& 0 <= i < old(table)@.trackers.len()
                &&& (#[trigger] old(table)@.trackers[i]).sender == final(table)@.completed[k]
                &&& forall|any: H256| #[trigger]
                    old(table)@.trackers[i].flags.contains_key(any) ==> if any
                        == report.summary.candidate {
                        report.includable
                    } else {
                        old(table)@.trackers[i].flags[any]
                    }
            },
        0 <= k < final(table)@.trackers.len() ==> exists|i: int|
            {
                &&& 0 <= i < old(table)@.trackers.len()
                &&& (#[trigger] old(table)@.trackers[i]).sender == final(table)@.trackers[k].sender
                &&& forall|any: H256| #[trigger]
                    old(table)@.trackers[i].flags.contains_key(any)
                        ==> final(table)@.trackers[k].flags[any] == if any
                        == report.summary.candidate {
                        report.includable
                    } else {
                        old(table)@.trackers[i].flags[any]
                    }
            },
        final(table)@.trackers.len() + final(table)@.completed.len()
            == old(table)@.trackers.len() + old(table)@.completed.len(),
{
    law_reported_statement(table, router, Some(report), work);
    let before = old(table)@;
    let after = final(table)@;
    let candidate = report.summary.candidate;
    let told = after.completed.skip(before.completed.len() as int);
    let done = choose|places: Seq<int>| #[trigger]
        are_released(told, places, before.trackers, candidate, report.includable);
    let left = choose|places: Seq<int>| #[trigger]
        are_left(after.trackers, places, before.trackers, candidate, report.includable);
    if before.completed.len() <= k < after.completed.len() {
        let n = k - before.completed.len();
        assert(told[n] == after.completed[k]);
        assert(done.contains(done[n]));
        let tracker = before.trackers[done[n]];
        assert(tracker.sender == after.completed[k]);
        assert(is_done_after(tracker, candidate, report.includable));
    }
    if 0 <= k < after.trackers.len() {
        assert(left.contains(left[k]));
        let tracker = before.trackers[left[k]];
        assert(is_told(tracker, after.trackers[k], candidate, report.includable));
    }
    law_reports_keep_senders(before, after, old(table).validators(), Some(report));
    lemma_number_of_senders(before);
    lemma_number_of_senders(after);
}

/// The table holds one sender for each tracker and one for each that is to be told.
proof fn lemma_number_of_senders<S>(state: TableState<S>)
    ensures
        senders_held(state).len() == state.trackers.len() + state.completed.len(),
{
    broadcast use vstd::seq_lib::group_to_multiset_ensures;

    let waiting = state.trackers.map_values(|tracker: Tracker<S>| tracker.sender);
    assert(waiting.to_multiset().len() == waiting.len());
    assert(state.completed.to_multiset().len() == state.completed.len());
}

/// Who waits for a single candidate that is not includable yet, the others being so, is told by the
/// report that it is, and by no report that it is not.
pub proof fn law_told_by_the_last_report<S, R: TableRouter>(
    table: &mut SharedTable<S>,
    answers: Vec<(H256, bool)>,
    sender: S,
    i: int,
    next: &mut SharedTable<S>,
    router: &R,
    report: TableReport,
    work: Option<ParachainWork<R::FetchValidationProof>>,
)
    requires
        call_ensures(SharedTable::<S>::track_answers, (table, answers, sender), ()),
        forall|j: int, k: int|
            0 <= j < k < answers@.len() ==> (#[trigger] answers@[j]).0 != (
            #[trigger] answers@[k]).0,
        0 <= i < answers@.len(),
        forall|j: int| 0 <= j < answers@.len() ==> (#[trigger] answers@[j]).1 == (j != i),
        *old(next) == *final(table),
        call_ensures(SharedTable::<S>::import_report::<R>, (next, router, Some(report)), work),
        report.summary.candidate == answers@[i].0,
    ensures
        report.includable ==> exists|k: int|
            old(next)@.completed.len() <= k < final(next)@.completed.len()
                && #[trigger] final(next)@.completed[k] == sender,
        !report.includable ==> exists|k: int|
            0 <= k < final(next)@.trackers.len() && (#[trigger] final(next)@.trackers[k]).sender
                == sender,
{
    law_waiting_for_answers(table, answers, sender);
    assert(is_last_word(answers@, i));
    assert(!answers@[i].1);
    let last = old(next)@.trackers.len() - 1;
    let tracker = old(next)@.trackers[last];
    assert(tracker == final(table)@.trackers.last());
    law_each_tracker_hears(next, router, report, work, last);
    let candidate = report.summary.candidate;
    assert(answers@[i].0 == candidate);
    assert(tracker.flags.contains_key(candidate));
    assert forall|any: H256| #[trigger]
        tracker.flags.contains_key(any) && any != candidate implies tracker.flags[any] by {
        let j = choose|j: int| 0 <= j < answers@.len() && (#[trigger] answers@[j]).0 == any;
        assert(is_last_word(answers@, j));
        assert(answers@[j].1);
    }
}

/// Someone is to be told at once if and only if of every candidate that is waited for the last that
/// is said is that it is includable.
pub proof fn law_told_at_once<S>(
    table: &mut SharedTable<S>,
    answers: Vec<(H256, bool)>,
    sender: S,
)
    requires
        call_ensures(SharedTable::<S>::track_answers, (table, answers, sender), ()),
    ensures
        (forall|i: int|
            0 <= i < answers@.len() ==> (#[trigger] answers@[i]).1 || exists|j: int|
                i < j < answers@.len() && (#[trigger] answers@[j]).0 == answers@[i].0)
            ==> final(table)@.completed == old(table)@.completed.push(sender)
            && final(table)@.trackers == old(table)@.trackers,
        forall|i: int|
            0 <= i < answers@.len() && !(#[trigger] answers@[i]).1 && (forall|j: int|
                i < j < answers@.len() ==> (#[trigger] answers@[j]).0 != answers@[i].0)
                ==> final(table)@.completed == old(table)@.completed
                && final(table)@.trackers.len() == old(table)@.trackers.len() + 1,
{
    law_waiting_for_answers(table, answers, sender);
    assert forall|i: int|
        0 <= i < answers@.len() && !(#[trigger] answers@[i]).1 && (forall|j: int|
            i < j < answers@.len() ==> (#[trigger] answers@[j]).0
                != answers@[i].0) implies final(table)@.completed == old(table)@.completed
        && final(table)@.trackers.len() == old(table)@.trackers.len() + 1 by {
        assert(is_last_word(answers@, i));
    }
    if forall|i: int|
        0 <= i < answers@.len() ==> (#[trigger] answers@[i]).1 || exists|j: int|
            i < j < answers@.len() && (#[trigger] answers@[j]).0 == answers@[i].0 {
        assert forall|i: int| #[trigger] is_last_word(answers@, i) implies answers@[i].1 by {}
    }
}

/// Of many remote statements each goes into the statement table as the one before left it, in the
/// order given. There is one answer for each: work is on the receipt that the statement's own
/// report brought, and no two works are due to reports on the same candidate.
pub proof fn law_batch_in_order<S, T, R, C>(
    table: &mut SharedTable<S>,
    router: &R,
    before: T,
    statements: Vec<SignedStatement>,
    consult: C,
    result: (T, Vec<Option<ParachainWork<R::FetchValidationProof>>>),
) where
    R: TableRouter,
    C: Fn(&TableContext, T, SignedStatement) -> (T, Option<TableReport>),

    requires
        call_ensures(
            SharedTable::<S>::import_remote_statements::<T, R, C>,
            (table, router, before, statements, consult),
            result,
        ),
    ensures
        result.1@.len() == statements@.len(),
        exists|held: Seq<T>, reports: Seq<Option<TableReport>>|
            #![trigger held.len(), reports.len()]
            {
                &&& held.len() == statements@.len() + 1
                &&& reports.len() == statements@.len()
                &&& held[0] == before
                &&& held[statements@.len() as int] == result.0
                &&& forall|i: int|
                    0 <= i < statements@.len() ==> call_ensures(
                        consult,
                        (&old(table).validators(), held[i], statements@[i]),
                        (held[i + 1], #[trigger] reports[i]),
                    )
                &&& forall|i: int|
                    0 <= i < statements@.len() && (#[trigger] result.1@[i]) is Some ==> {
                        &&& reports[i] is Some
                        &&& reports[i]->Some_0.receipt == Some(
                            result.1@[i]->Some_0.work.candidate_receipt,
                        )
                    }
                &&& forall|i: int, j: int|
                    0 <= i < j < statements@.len() && (#[trigger] result.1@[i]) is Some && (
                    #[trigger] result.1@[j]) is Some ==> reports[i]->Some_0.summary.candidate
                        != reports[j]->Some_0.summary.candidate
            },
{
    law_remote_statements(table, router, before, statements, consult, result);
    let context = old(table).validators();
    let limit = old(table).limit();
    let all = statements@;
    let works = result.1@;
    let (states, reports) = choose|
        states: Seq<(TableState<S>, T)>,
        reports: Seq<Option<TableReport>>,
    |
        {
            &&& #[trigger] are_taken_in(
                states,
                reports,
                all,
                works,
                context,
                limit,
                router,
                consult,
            )
            &&& states[0] == (old(table)@, before)
            &&& states[all.len() as int] == (final(table)@, result.0)
        };
    let held = states.map_values(|state: (TableState<S>, T)| state.1);
    assert(held.len() == all.len() + 1 && reports.len() == all.len());
    assert forall|i: int, j: int|
        0 <= i < j < all.len() && (#[trigger] works[i]) is Some && (
        #[trigger] works[j]) is Some implies reports[i]->Some_0.summary.candidate
        != reports[j]->Some_0.summary.candidate by {
        let candidate = reports[i]->Some_0.summary.candidate;
        assert(is_taken_in(
            states[i].0,
            states[i + 1].0,
            works[i],
            context,
            router,
            reports[i],
            limit,
        ));
        assert(states[i + 1].0.validated.contains_key(candidate));
        lemma_records_last(
            states,
            reports,
            all,
            works,
            context,
            limit,
            router,
            consult,
            candidate,
            i + 1,
            j,
        );
        assert(is_taken_in(
            states[j].0,
            states[j + 1].0,
            works[j],
            context,
            router,
            reports[j],
            limit,
        ));
    }
    assert forall|i: int| 0 <= i < all.len() implies call_ensures(
        consult,
        (&context, held[i], all[i]),
        (held[i + 1], #[trigger] reports[i]),
    ) by {
        assert(held[i] == states[i].1 && held[i + 1] == states[i + 1].1);
    }
    assert forall|i: int|
        0 <= i < all.len() && (#[trigger] works[i]) is Some implies reports[i] is Some
        && reports[i]->Some_0.receipt == Some(works[i]->Some_0.work.candidate_receipt) by {
        assert(is_taken_in(
            states[i].0,
            states[i + 1].0,
            works[i],
            context,
            router,
            reports[i],
            limit,
        ));
    }
}

/// What is on record stays on record while statements are imported.
proof fn lemma_records_last<S, T, R: TableRouter, C>(
    states: Seq<(TableState<S>, T)>,
    reports: Seq<Option<TableReport>>,
    statements: Seq<SignedStatement>,
    works: Seq<Option<ParachainWork<R::FetchValidationProof>>>,
    context: TableContext,
    limit: Option<u64>,
    router: &R,
    consult: C,
    candidate: H256,
    i: int,
    j: int,
) where C: FnOnce(&TableContext, T, SignedStatement) -> (T, Option<TableReport>)
    requires
        are_taken_in(states, reports, statements, works, context, limit, router, consult),
        0 <= i <= j <= statements.len(),
        states[i].0.validated.contains_key(candidate),
    ensures
        states[j].0.validated.contains_key(candidate),
    decreases j - i,
{
    if i < j {
        lemma_records_last(
            states,
            reports,
            statements,
            works,
            context,
            limit,
            router,
            consult,
            candidate,
            i,
            j - 1,
        );
        assert(is_taken_in(
            states[j - 1].0,
            states[j].0,
            works[j - 1],
            context,
            router,
            reports[j - 1],
            limit,
        ));
    }
}

/// A remote statement hands out work if, whatever the statement table reports of it, the report
/// brings the receipt of a candidate that the table knows nothing of, and the local validator's key
/// stands at some place of the list of guarantors of the candidate's parachain.
pub proof fn law_remote_statement_hands_out_work<S, T, R, C>(
    table: &mut SharedTable<S>,
    router: &R,
    statements: T,
    statement: SignedStatement,
    consult: C,
    result: (T, Option<ParachainWork<R::FetchValidationProof>>),
    i: int,
) where
    R: TableRouter,
    C: FnOnce(&TableContext, T, SignedStatement) -> (T, Option<TableReport>),

    requires
        call_ensures(
            SharedTable::<S>::import_remote_statement::<T, R, C>,
            (table, router, statements, statement, consult),
            result,
        ),
        forall|told: (T, Option<TableReport>)| #[trigger]
            call_ensures(consult, (&old(table).validators(), statements, statement), told) ==> {
                let groups = old(table).validators().groups@;
                let para = told.1->Some_0.summary.group_id;
                &&& told.1 is Some
                &&& told.1->Some_0.receipt is Some
                &&& !old(table)@.validated.contains_key(told.1->Some_0.summary.candidate)
                &&& groups.contains_key(para)
                &&& 0 <= i < groups[para].validity_guarantors@.len()
                &&& groups[para].validity_guarantors@[i]
                    == old(table).validators().key.public_key()
            },
    ensures
        result.1 is Some,
{
    law_remote_statement(table, router, statements, statement, consult, result);
    let context = old(table).validators();
    let report = choose|report: Option<TableReport>|
        {
            &&& #[trigger] call_ensures(
                consult,
                (&context, statements, statement),
                (result.0, report),
            )
            &&& is_taken_in(
                old(table)@,
                final(table)@,
                result.1,
                context,
                router,
                report,
                old(table).limit(),
            )
        };
    assert(is_listed(context, report->Some_0.summary.group_id));
}

/// A candidate that was collated locally is put forward with its receipt, and its extrinsic data
/// can then be had under the digest of the receipt.
pub proof fn law_collated_candidate_is_put_forward<S, P, I>(
    table: &mut SharedTable<S>,
    receipt: CandidateReceipt,
    collation: PoVBlock,
    extrinsic: Extrinsic,
    validated: Validated,
    payload: P,
    import_statement: I,
    signed: SignedStatement,
    data: Option<&Extrinsic>,
) where P: FnOnce(&Statement, &H256) -> Vec<u8>, I: FnOnce(&TableContext, &SignedStatement)
    requires
        call_ensures(Validated::collated_local, (receipt, collation, extrinsic), validated),
        call_ensures(
            SharedTable::<S>::import_validated::<P, I>,
            (table, validated, payload, import_statement),
            signed,
        ),
        call_ensures(
            SharedTable::<S>::extrinsic_data,
            (&*final(table), &receipt.candidate_hash),
            data,
        ),
    ensures
        signed.statement == GenericStatement::<CandidateReceipt, H256>::Candidate(receipt),
        call_ensures(import_statement, (&old(table).validators(), &signed), ()),
        data == Some(&extrinsic),
{
}

/// After completed work is imported, the extrinsic data that can be had for its candidate is what
/// validation returned for the fetched block, and there is none where validation refused it.
pub proof fn law_extrinsic_data_of_completed_work<S, Fetch, F, M, E, P, I>(
    primed: PrimedParachainWork<Fetch, F>,
    fetched: PoVBlock,
    make_available: M,
    validated: Validated,
    table: &mut SharedTable<S>,
    payload: P,
    import_statement: I,
    signed: SignedStatement,
    data: Option<&Extrinsic>,
) where
    F: FnOnce(&BlockId, &Collation) -> Result<Extrinsic, ()>,
    M: FnOnce(Data<'_>) -> Result<(), E>,
    P: FnOnce(&Statement, &H256) -> Vec<u8>,
    I: FnOnce(&TableContext, &SignedStatement),

    requires
        call_ensures(
            PrimedParachainWork::<Fetch, F>::complete::<M, E>,
            (primed, fetched, make_available),
            Ok(validated),
        ),
        call_ensures(
            SharedTable::<S>::import_validated::<P, I>,
            (table, validated, payload, import_statement),
            signed,
        ),
        call_ensures(
            SharedTable::<S>::extrinsic_data,
            (&*final(table), &primed.inner.work.candidate_receipt.candidate_hash),
            data,
        ),
    ensures
        data is Some ==> {
            &&& signed.statement == GenericStatement::<CandidateReceipt, H256>::Valid(
                primed.inner.work.candidate_receipt.candidate_hash,
            )
            &&& call_ensures(
                primed.validate,
                (
                    &BlockId(primed.inner.relay_parent),
                    &(Collation {
                        pov: fetched,
                        receipt: primed.inner.work.candidate_receipt,
                    }),
                ),
                Ok(*data->Some_0),
            )
        },
        data is None ==> {
            &&& signed.statement == GenericStatement::<CandidateReceipt, H256>::Invalid(
                primed.inner.work.candidate_receipt.candidate_hash,
            )
            &&& call_ensures(
                primed.validate,
                (
                    &BlockId(primed.inner.relay_parent),
                    &(Collation {
                        pov: fetched,
                        receipt: primed.inner.work.candidate_receipt,
                    }),
                ),
                Err(()),
            )
        },
{
    let collation = Collation { pov: fetched, receipt: primed.inner.work.candidate_receipt };
    let verdict = choose|verdict: Result<Extrinsic, ()>| #[trigger]
        call_ensures(
            primed.validate,
            (&BlockId(primed.inner.relay_parent), &collation),
            verdict,
        ) && completes(
            Ok::<Validated, E>(validated),
            primed.inner.relay_parent,
            collation,
            verdict,
            make_available,
        );
    if verdict is Err {
        assert(verdict->Err_0 == ());
    }
}

} // verus!
