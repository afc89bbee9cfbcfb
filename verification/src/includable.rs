//! Tells when all of a set of candidates can be included.
use crate::context::TableContext;
use crate::digest_map::DigestMap;
use crate::primitives::H256;
use vstd::prelude::*;

verus! {

/// Which of the tracked candidates can be included, and who is told once all of them can.
pub struct Tracker<S> {
    /// For each tracked candidate, whether it can be included.
    pub flags: Map<H256, bool>,
    /// What is released once all of them can.
    pub sender: S,
}

impl<S> Tracker<S> {
    /// All tracked candidates can be included.
    pub open spec fn complete(self) -> bool {
        forall|candidate: H256| #[trigger]
            self.flags.contains_key(candidate) ==> self.flags[candidate]
    }

    /// The tracker after hearing of one candidate. News of a candidate that is not tracked
    /// changes nothing.
    pub open spec fn updated(self, candidate: H256, includable: bool) -> Tracker<S> {
        if self.flags.contains_key(candidate) {
            Tracker { flags: self.flags.insert(candidate, includable), sender: self.sender }
        } else {
            self
        }
    }
}

/// What is known of each candidate of a list, where the last that is said of one counts.
pub open spec fn flags_of(candidates: Seq<(H256, bool)>) -> Map<H256, bool>
    decreases candidates.len(),
{
    if candidates.len() == 0 {
        Map::empty()
    } else {
        flags_of(candidates.drop_last()).insert(candidates.last().0, candidates.last().1)
    }
}

/// Whether the answers are those that `candidate_includable` gives for the candidates.
pub open spec fn answered<C>(
    answers: Seq<(H256, bool)>,
    candidates: Seq<H256>,
    context: TableContext,
    candidate_includable: C,
) -> bool where C: Fn(&H256, &TableContext) -> bool {
    &&& answers.len() == candidates.len()
    &&& forall|i: int|
        0 <= i < answers.len() ==> (#[trigger] answers[i]).0 == candidates[i] && call_ensures(
            candidate_includable,
            (&candidates[i], &context),
            answers[i].1,
        )
}

/// Asks of each candidate whether it can be included.
pub fn survey<C>(candidates: Vec<H256>, context: &TableContext, candidate_includable: C)
    -> (answers: Vec<(H256, bool)>) where C: Fn(&H256, &TableContext) -> bool
    requires
        forall|i: int|
            0 <= i < candidates@.len() ==> call_requires(
                candidate_includable,
                (&#[trigger] candidates@[i], context),
            ),
    ensures
        answered(answers@, candidates@, *context, candidate_includable),
{
    let mut answers: Vec<(H256, bool)> = Vec::new();
    let mut i: usize = 0;
    while i < candidates.len()
        invariant
            i <= candidates@.len(),
            forall|j: int|
                0 <= j < candidates@.len() ==> call_requires(
                    candidate_includable,
                    (&#[trigger] candidates@[j], context),
                ),
            answered(answers@, candidates@.take(i as int), *context, candidate_includable),
        decreases candidates@.len() - i,
    {
        let includable = candidate_includable(&candidates[i], context);
        answers.push((candidates[i], includable));
        i += 1;
    }
    assert(candidates@.take(i as int) == candidates@);
    answers
}

/// All trackers after hearing of one candidate.
pub open spec fn all_updated<S>(
    trackers: Seq<Tracker<S>>,
    candidate: H256,
    includable: bool,
) -> Seq<Tracker<S>> {
    trackers.map_values(|tracker: Tracker<S>| tracker.updated(candidate, includable))
}

/// The trackers that are still waiting.
pub open spec fn waiting<S>(trackers: Seq<Tracker<S>>) -> Seq<Tracker<S>> {
    trackers.filter(|tracker: Tracker<S>| !tracker.complete())
}

/// What the complete ones among the trackers release, the last tracker first.
pub open spec fn released<S>(trackers: Seq<Tracker<S>>) -> Seq<S> {
    trackers.filter(|tracker: Tracker<S>| tracker.complete()).map_values(
        |tracker: Tracker<S>| tracker.sender,
    ).reverse()
}

/// Waits for all of a set of candidates to be includable, and then gives up its sender.
pub struct IncludabilitySender<S> {
    tracking: DigestMap<bool>,
    sender: S,
}

impl<S> View for IncludabilitySender<S> {
    type V = Tracker<S>;

    closed spec fn view(&self) -> Tracker<S> {
        Tracker { flags: self.tracking@, sender: self.sender }
    }
}

impl<S> IncludabilitySender<S> {
    /// No candidate is tracked twice.
    pub closed spec fn wf(&self) -> bool {
        self.tracking.wf()
    }

    /// Tracks the candidates, given with whether each can be included at present.
    pub fn track(candidates: Vec<(H256, bool)>, sender: S) -> (tracker: Self)
        ensures
            tracker.wf(),
            tracker@ == (Tracker { flags: flags_of(candidates@), sender }),
    {
        let mut tracking: DigestMap<bool> = DigestMap::new();
        let mut i: usize = 0;
        while i < candidates.len()
            invariant
                i <= candidates@.len(),
                tracking.wf(),
                tracking@ == flags_of(candidates@.take(i as int)),
            decreases candidates@.len() - i,
        {
            tracking.insert(candidates[i].0, candidates[i].1);
            assert(candidates@.take(i + 1).drop_last() == candidates@.take(i as int));
            i += 1;
        }
        assert(candidates@.take(i as int) == candidates@);
        IncludabilitySender { tracking, sender }
    }

    /// Takes note of whether a candidate can be included. Returns whether all tracked
    /// candidates now can.
    pub fn update_candidate(&mut self, candidate: H256, includable: bool) -> (complete: bool)
        requires
            old(self).wf(),
        ensures
            final(self).wf(),
            final(self)@ == old(self)@.updated(candidate, includable),
            complete == final(self)@.complete(),
    {
        if self.tracking.contains_key(&candidate) {
            self.tracking.insert(candidate, includable);
        }
        self.is_complete()
    }

    /// Whether all tracked candidates can be included.
    pub fn is_complete(&self) -> (complete: bool)
        requires
            self.wf(),
        ensures
            complete == self@.complete(),
    {
        let complete = self.tracking.all();
        proof {
            let flags = self@.flags;
            assert(flags == self.tracking@);
            if !complete {
                let candidate = choose|candidate: H256| #[trigger]
                    self.tracking@.contains_key(candidate) && !self.tracking@[candidate];
                assert(flags.contains_key(candidate));
            }
        }
        complete
    }

    /// Gives up the sender.
    pub fn into_sender(self) -> (sender: S)
        ensures
            sender == self@.sender,
    {
        self.sender
    }
}

/// The trackers that a list of senders stands for.
pub open spec fn tracker_views<S>(trackers: Seq<IncludabilitySender<S>>) -> Seq<Tracker<S>> {
    trackers.map_values(|tracker: IncludabilitySender<S>| tracker@)
}

proof fn lemma_front<S>(trackers: Seq<Tracker<S>>, k: int)
    requires
        0 <= k < trackers.len(),
    ensures
        waiting(trackers.skip(k)) == (if trackers[k].complete() {
            Seq::empty()
        } else {
            seq![trackers[k]]
        }) + waiting(trackers.skip(k + 1)),
        released(trackers.skip(k)) == released(trackers.skip(k + 1)) + (if trackers[k].complete() {
            seq![trackers[k].sender]
        } else {
            Seq::empty()
        }),
{
    let front = seq![trackers[k]];
    let rest = trackers.skip(k + 1);
    assert(trackers.skip(k) == front + rest);
    let pending = |tracker: Tracker<S>| !tracker.complete();
    let done = |tracker: Tracker<S>| tracker.complete();
    let sender = |tracker: Tracker<S>| tracker.sender;
    Seq::filter_distributes_over_add(front, rest, pending);
    Seq::filter_distributes_over_add(front, rest, done);
    reveal(Seq::filter);
    assert(front.drop_last() == Seq::<Tracker<S>>::empty());
    assert(front.drop_last().filter(pending) == Seq::<Tracker<S>>::empty());
    assert(front.drop_last().filter(done) == Seq::<Tracker<S>>::empty());
    assert(front.last() == trackers[k]);
    if trackers[k].complete() {
        assert(front.filter(pending) == Seq::<Tracker<S>>::empty());
        assert(front.filter(done) == front);
    } else {
        assert(front.filter(pending) == front);
        assert(front.filter(done) == Seq::<Tracker<S>>::empty());
    }
    assert((front.filter(done) + rest.filter(done)).map_values(sender).reverse()
        == rest.filter(done).map_values(sender).reverse() + front.filter(done).map_values(
        sender,
    ).reverse());
}

/// Taking an element off the front of a list takes it out of what the list holds.
proof fn lemma_multiset_front<A>(list: Seq<A>, k: int)
    requires
        0 <= k < list.len(),
    ensures
        list.skip(k).to_multiset() == list.skip(k + 1).to_multiset().insert(list[k]),
{
    vstd::seq_lib::to_multiset_insert(list.skip(k + 1), 0, list[k]);
    assert(list.skip(k) == list.skip(k + 1).insert(0, list[k]));
}

/// Filling a gap with the last element keeps what the rest of the list holds.
proof fn lemma_multiset_swap_remove<A>(list: Seq<A>, k: int)
    requires
        0 <= k < list.len(),
    ensures
        list.update(k, list.last()).drop_last().skip(k).to_multiset() == list.skip(
            k + 1,
        ).to_multiset(),
{
    let filled = list.update(k, list.last()).drop_last().skip(k);
    let rest = list.skip(k + 1);
    if k + 1 == list.len() {
        assert(filled == rest);
    } else {
        let middle = rest.drop_last();
        assert(filled == middle.insert(0, list.last()));
        assert(rest == middle.push(list.last()));
        vstd::seq_lib::to_multiset_insert(middle, 0, list.last());
        vstd::seq_lib::to_multiset_build(middle, list.last());
    }
}

/// Tells every tracker whether a candidate can be included. Those that are then complete are
/// taken off the list and their senders released.
pub fn update_all<S>(
    trackers: &mut Vec<IncludabilitySender<S>>,
    completed: &mut Vec<S>,
    candidate: &H256,
    includable: bool,
)
    requires
        forall|i: int| 0 <= i < old(trackers)@.len() ==> (#[trigger] old(trackers)@[i]).wf(),
    ensures
        forall|i: int|
            0 <= i < final(trackers)@.len() ==> (#[trigger] final(trackers)@[i]).wf()
                && !final(trackers)@[i]@.complete(),
        tracker_views(final(trackers)@).to_multiset() == waiting(
            all_updated(tracker_views(old(trackers)@), *candidate, includable),
        ).to_multiset(),
        final(completed)@ == old(completed)@ + released(
            all_updated(tracker_views(old(trackers)@), *candidate, includable),
        ),
{
    let ghost before = tracker_views(trackers@);
    let ghost after = all_updated(before, *candidate, includable);
    let ghost senders = completed@;
    let mut i: usize = trackers.len();
    proof {
        assert(tracker_views(trackers@).skip(i as int) == Seq::<Tracker<S>>::empty());
        assert(after.skip(i as int) == Seq::<Tracker<S>>::empty());
        reveal(Seq::filter);
        assert(released(after.skip(i as int)) == Seq::<S>::empty());
    }
    while i > 0
        invariant
            i <= trackers@.len(),
            i <= before.len(),
            after == all_updated(before, *candidate, includable),
            forall|j: int| 0 <= j < trackers@.len() ==> (#[trigger] trackers@[j]).wf(),
            forall|j: int| 0 <= j < i ==> (#[trigger] trackers@[j])@ == before[j],
            tracker_views(trackers@).skip(i as int).to_multiset() == waiting(
                after.skip(i as int),
            ).to_multiset(),
            completed@ == senders + released(after.skip(i as int)),
        decreases i,
    {
        i -= 1;
        let ghost old_views = tracker_views(trackers@);
        let complete = trackers[i].update_candidate(*candidate, includable);
        let ghost views = tracker_views(trackers@);
        proof {
            lemma_front(after, i as int);
            assert(views[i as int] == after[i as int]);
            assert(views.skip(i + 1) == old_views.skip(i + 1));
            lemma_multiset_front(views, i as int);
            let later = waiting(after.skip(i + 1));
            lemma_multiset_front(seq![after[i as int]] + later, 0);
            assert((seq![after[i as int]] + later).skip(1) == later);
            assert((seq![after[i as int]] + later).skip(0) == seq![after[i as int]] + later);
            assert(Seq::empty() + later == later);
        }
        if complete {
            proof {
                lemma_multiset_swap_remove(views, i as int);
            }
            let tracker = trackers.swap_remove(i);
            completed.push(tracker.into_sender());
            assert(tracker_views(trackers@) == views.update(i as int, views.last()).drop_last());
        }
    }
    assert(tracker_views(trackers@).skip(0) == tracker_views(trackers@));
    assert(after.skip(0) == after);
    proof {
        broadcast use vstd::seq_lib::group_to_multiset_ensures;

        let views = tracker_views(trackers@);
        assert forall|j: int| 0 <= j < trackers@.len() implies !(
        #[trigger] trackers@[j])@.complete() by {
            assert(views[j] == trackers@[j]@);
            assert(views.contains(views[j]));
            assert(views.to_multiset().count(views[j]) > 0);
            assert(waiting(after).contains(views[j]));
            after.lemma_filter_contains_rev(|tracker: Tracker<S>| !tracker.complete(), views[j]);
        }
    }
}

} // verus!
