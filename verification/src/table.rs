//! The part of the statement table that validators share: which candidates are being validated
//! locally, and who waits for candidates to be includable.
use crate::context::{index_mapping_of, GroupInfo, TableContext};
use crate::crypto::Pair;
use crate::digest_map::DigestMap;
use crate::includable::{
    all_updated, answered, flags_of, released, survey, tracker_views, update_all, waiting,
    IncludabilitySender, Tracker,
};
use crate::primitives::{
    abbreviated, CandidateReceipt, Extrinsic, H256, ParaId, SessionKey, ValidatorIndex,
};
use crate::statement::{
    all_attest, all_attested, digest_of, statement_digest, AttestedCandidate, SignedStatement,
    Statement, TableCandidate, TableReport,
};
use crate::work::{ParachainWork, Validated, Validation, ValidationWork, Work, WorkState};
use std::collections::HashMap;
use vstd::prelude::*;

verus! {

/// Fetches what is needed to validate candidates.
pub trait TableRouter {
    /// The fetch of a candidate's block.
    type FetchValidationProof;

    /// Whether the block of a candidate may be fetched. A router can leave this out, and is then
    /// ready to fetch any.
    open spec fn may_fetch(&self, candidate: &CandidateReceipt) -> bool {
        true
    }

    /// Starts to fetch the block of a candidate.
    fn fetch_pov_block(&self, candidate: &CandidateReceipt) -> Self::FetchValidationProof
        requires
            self.may_fetch(candidate),
    ;
}

/// Who waits for candidates to be includable, and how far the validation of each has come.
pub struct TableState<S> {
    /// Those that wait.
    pub trackers: Seq<Tracker<S>>,
    /// The senders of those that are done waiting and were not told yet.
    pub completed: Seq<S>,
    /// How far the validation of each candidate has come.
    pub validated: Map<H256, WorkState>,
}

/// Says that the table has a summary of a candidate but no receipt.
pub open spec fn inconsistency(candidate: H256) -> Seq<char> {
    "Table inconsistency detected. Summary returned for candidate "@ + abbreviated(candidate)
        + " but receipt not present in table."@
}

/// Says that the table has a summary of the candidate but no receipt.
fn inconsistency_message(candidate: &H256) -> (message: String)
    ensures
        message@ == inconsistency(*candidate),
{
    let mut message = "Table inconsistency detected. Summary returned for candidate ".to_owned();
    message.append(candidate.abbreviate().as_str());
    message.append(" but receipt not present in table.");
    message
}

impl<S> TableState<S> {
    /// Whether the candidate of a report is to be validated now: its validation was not started
    /// before, and the local validator guards its parachain.
    pub open spec fn starts(self, context: TableContext, report: TableReport) -> bool {
        context.guards(context.key.public_key(), report.summary.group_id)
            && !self.validated.contains_key(report.summary.candidate)
    }

    /// Whether a report leads to work being handed out.
    pub open spec fn dispatches(self, context: TableContext, report: Option<TableReport>) -> bool {
        match report {
            Some(report) => self.starts(context, report) && report.receipt is Some,
            None => false,
        }
    }

    /// How far validation has come after a report.
    pub open spec fn validated_after(
        self,
        context: TableContext,
        report: Option<TableReport>,
    ) -> Map<H256, WorkState> {
        match report {
            Some(report) if self.starts(context, report) => self.validated.insert(
                report.summary.candidate,
                match report.receipt {
                    Some(_) => WorkState::InProgress,
                    None => WorkState::Error(inconsistency(report.summary.candidate)),
                },
            ),
            _ => self.validated,
        }
    }

    /// Whether the waiting trackers of another state are those of this one after hearing of a
    /// candidate, in any order, and the senders of those that are done waiting were released.
    pub open spec fn heard(self, after: TableState<S>, candidate: H256, includable: bool) -> bool {
        let updated = all_updated(self.trackers, candidate, includable);
        &&& after.trackers.to_multiset() == waiting(updated).to_multiset()
        &&& after.completed == self.completed + released(updated)
    }

    /// The state after the local validation of a candidate.
    pub open spec fn noted(self, validated: Validated) -> TableState<S> {
        TableState {
            validated: self.validated.insert(
                digest_of(validated.said()),
                WorkState::Done(validated.found()),
            ),
            ..self
        }
    }

    /// The state after someone began to wait.
    pub open spec fn tracking(self, tracker: Tracker<S>) -> TableState<S> {
        if tracker.complete() {
            TableState { completed: self.completed.push(tracker.sender), ..self }
        } else {
            TableState { trackers: self.trackers.push(tracker), ..self }
        }
    }

    /// The extrinsic data of a candidate, if it was validated locally and found valid.
    pub open spec fn extrinsic_of(self, candidate: H256) -> Option<Extrinsic> {
        if self.validated.contains_key(candidate) {
            match self.validated[candidate] {
                WorkState::Done(Validation::Valid(_, extrinsic)) => Some(extrinsic),
                _ => None,
            }
        } else {
            None
        }
    }

    /// Whether another state is this one after a report.
    pub open spec fn imported(
        self,
        after: TableState<S>,
        context: TableContext,
        report: Option<TableReport>,
    ) -> bool {
        &&& after.validated == self.validated_after(context, report)
        &&& match report {
            Some(report) => self.heard(after, report.summary.candidate, report.includable),
            None => after.trackers == self.trackers && after.completed == self.completed,
        }
    }
}

/// Whether the work is that of validating the candidate, whose block the router fetches.
pub open spec fn is_work_on<R: TableRouter>(
    work: ParachainWork<R::FetchValidationProof>,
    router: &R,
    candidate: CandidateReceipt,
    relay_parent: H256,
    max_block_data_size: Option<u64>,
) -> bool {
    &&& work.work.candidate_receipt == candidate
    &&& call_ensures(R::fetch_pov_block, (router, &candidate), work.work.fetch)
    &&& work.relay_parent == relay_parent
    &&& work.max_block_data_size == max_block_data_size
}

/// Whether the work is what a report leads to.
pub open spec fn handed_out<S, R: TableRouter>(
    work: Option<ParachainWork<R::FetchValidationProof>>,
    state: TableState<S>,
    context: TableContext,
    router: &R,
    report: Option<TableReport>,
    max_block_data_size: Option<u64>,
) -> bool {
    &&& work is Some <==> state.dispatches(context, report)
    &&& work is Some ==> is_work_on(
        work->Some_0,
        router,
        report->Some_0.receipt->Some_0,
        context.parent_hash,
        max_block_data_size,
    )
}

/// Whether a report can be taken in: news of a candidate needs a local validator, and the router
/// is asked for the block of a candidate only where work on it is handed out.
pub open spec fn can_take_in<S, R: TableRouter>(
    state: TableState<S>,
    context: TableContext,
    router: &R,
    report: Option<TableReport>,
) -> bool {
    &&& report is Some ==> context.has_local_index()
    &&& state.dispatches(context, report) ==> router.may_fetch(&report->Some_0.receipt->Some_0)
}

/// Whether a statement can be imported: `consult` can be called on it, and whatever it reports
/// can be taken in.
pub open spec fn can_import<S, T, R: TableRouter, C>(
    before: (TableState<S>, T),
    statement: SignedStatement,
    context: TableContext,
    router: &R,
    consult: C,
) -> bool where C: FnOnce(&TableContext, T, SignedStatement) -> (T, Option<TableReport>) {
    &&& call_requires(consult, (&context, before.1, statement))
    &&& forall|told: (T, Option<TableReport>)| #[trigger]
        call_ensures(consult, (&context, before.1, statement), told) ==> can_take_in(
            before.0,
            context,
            router,
            told.1,
        )
}

/// Whether the import of a statement leads from one state of this table and of the statement
/// table to another, and hands out the work.
pub open spec fn imports<S, T, R: TableRouter, C>(
    before: (TableState<S>, T),
    after: (TableState<S>, T),
    statement: SignedStatement,
    work: Option<ParachainWork<R::FetchValidationProof>>,
    context: TableContext,
    max_block_data_size: Option<u64>,
    router: &R,
    consult: C,
) -> bool where C: FnOnce(&TableContext, T, SignedStatement) -> (T, Option<TableReport>) {
    exists|report: Option<TableReport>|
        {
            &&& #[trigger] call_ensures(
                consult,
                (&context, before.1, statement),
                (after.1, report),
            )
            &&& before.0.imported(after.0, context, report)
            &&& handed_out(work, before.0, context, router, report, max_block_data_size)
        }
}

/// Whether the states are those that the import of one statement after the other leads to, the
/// first state first.
pub open spec fn is_run<S, T, R: TableRouter, C>(
    states: Seq<(TableState<S>, T)>,
    statements: Seq<SignedStatement>,
    works: Seq<Option<ParachainWork<R::FetchValidationProof>>>,
    context: TableContext,
    max_block_data_size: Option<u64>,
    router: &R,
    consult: C,
) -> bool where C: FnOnce(&TableContext, T, SignedStatement) -> (T, Option<TableReport>) {
    &&& states.len() == statements.len() + 1
    &&& works.len() == statements.len()
    &&& forall|i: int|
        0 <= i < statements.len() ==> imports(
            #[trigger] states[i],
            states[i + 1],
            statements[i],
            works[i],
            context,
            max_block_data_size,
            router,
            consult,
        )
}

/// Whether the import of many statements, one after the other, leads from one state of this
/// table and of the statement table to another, and hands out the works.
pub open spec fn imports_all<S, T, R: TableRouter, C>(
    before: (TableState<S>, T),
    after: (TableState<S>, T),
    statements: Seq<SignedStatement>,
    works: Seq<Option<ParachainWork<R::FetchValidationProof>>>,
    context: TableContext,
    max_block_data_size: Option<u64>,
    router: &R,
    consult: C,
) -> bool where C: FnOnce(&TableContext, T, SignedStatement) -> (T, Option<TableReport>) {
    exists|states: Seq<(TableState<S>, T)>|
        {
            &&& #[trigger] is_run(
                states,
                statements,
                works,
                context,
                max_block_data_size,
                router,
                consult,
            )
            &&& states.first() == before
            &&& states.last() == after
        }
}

/// A run goes on with one more import.
pub proof fn lemma_run_push<S, T, R: TableRouter, C>(
    states: Seq<(TableState<S>, T)>,
    statements: Seq<SignedStatement>,
    works: Seq<Option<ParachainWork<R::FetchValidationProof>>>,
    after: (TableState<S>, T),
    statement: SignedStatement,
    work: Option<ParachainWork<R::FetchValidationProof>>,
    context: TableContext,
    max_block_data_size: Option<u64>,
    router: &R,
    consult: C,
) where C: FnOnce(&TableContext, T, SignedStatement) -> (T, Option<TableReport>)
    requires
        is_run(states, statements, works, context, max_block_data_size, router, consult),
        imports(
            states.last(),
            after,
            statement,
            work,
            context,
            max_block_data_size,
            router,
            consult,
        ),
    ensures
        is_run(
            states.push(after),
            statements.push(statement),
            works.push(work),
            context,
            max_block_data_size,
            router,
            consult,
        ),
{
    let longer = states.push(after);
    assert forall|i: int| 0 <= i < statements.len() + 1 implies imports(
        #[trigger] longer[i],
        longer[i + 1],
        statements.push(statement)[i],
        works.push(work)[i],
        context,
        max_block_data_size,
        router,
        consult,
    ) by {
        if i < statements.len() {
            assert(longer[i] == states[i]);
        }
    }
}

/// The part of the table that changes.
pub struct SharedTableInner<S> {
    trackers: Vec<IncludabilitySender<S>>,
    completed: Vec<S>,
    validated: DigestMap<ValidationWork>,
}

impl<S> View for SharedTableInner<S> {
    type V = TableState<S>;

    closed spec fn view(&self) -> TableState<S> {
        TableState {
            trackers: tracker_views(self.trackers@),
            completed: self.completed@,
            validated: self.validated@.map_values(|work: ValidationWork| work@),
        }
    }
}

impl<S> SharedTableInner<S> {
    /// Each candidate has one state of validation, and no tracker waits for nothing.
    pub closed spec fn wf(&self) -> bool {
        &&& self.validated.wf()
        &&& forall|i: int|
            0 <= i < self.trackers@.len() ==> (#[trigger] self.trackers@[i]).wf()
                && !self.trackers@[i]@.complete()
    }

    /// Import a single statement, of which the statement table reports the outcome. Provide a
    /// handle to a table router.
    fn import_remote_statement<R: TableRouter>(
        &mut self,
        context: &TableContext,
        router: &R,
        report: Option<TableReport>,
        max_block_data_size: Option<u64>,
    ) -> (work: Option<ParachainWork<R::FetchValidationProof>>)
        requires
            old(self).wf(),
            can_take_in(old(self)@, *context, router, report),
        ensures
            final(self).wf(),
            old(self)@.imported(final(self)@, *context, report),
            handed_out(work, old(self)@, *context, router, report, max_block_data_size),
    {
        let ghost given = report;
        let report = match report {
            Some(report) => report,
            None => return None,
        };
        let digest = report.summary.candidate;

        self.update_trackers(&digest, report.includable);

        let local_index = context.local_index();
        let para_member = context.is_member_of(local_index, &report.summary.group_id);
        if !para_member || self.validated.contains_key(&digest) {
            return None;
        }
        match report.receipt {
            None => {
                let message = inconsistency_message(&digest);
                self.validated.insert(digest, ValidationWork::Error(message));
                assert(self@.validated == old(self)@.validated_after(*context, given));
                None
            },
            Some(candidate_receipt) => {
                self.validated.insert(digest, ValidationWork::InProgress);
                assert(self@.validated == old(self)@.validated_after(*context, given));
                let fetch = router.fetch_pov_block(&candidate_receipt);
                Some(
                    ParachainWork {
                        work: Work { candidate_receipt, fetch },
                        relay_parent: context.parent_hash,
                        max_block_data_size,
                    },
                )
            },
        }
    }

    /// Tells those that wait whether a candidate can be included.
    fn update_trackers(&mut self, candidate: &H256, includable: bool)
        requires
            old(self).wf(),
        ensures
            final(self).wf(),
            final(self).validated == old(self).validated,
            old(self)@.heard(final(self)@, *candidate, includable),
    {
        update_all(&mut self.trackers, &mut self.completed, candidate, includable);
    }
}

/// A shared table object: what the validators agree on, and what is local.
///
/// `S` is what someone who waits for candidates to be includable is told with.
pub struct SharedTable<S> {
    context: TableContext,
    inner: SharedTableInner<S>,
    max_block_data_size: Option<u64>,
}

impl<S> View for SharedTable<S> {
    type V = TableState<S>;

    closed spec fn view(&self) -> TableState<S> {
        self.inner@
    }
}

impl<S> SharedTable<S> {
    /// The part that changes is well-formed.
    pub closed spec fn wf(&self) -> bool {
        self.inner.wf()
    }

    /// What the table knows of the validators.
    pub closed spec fn validators(&self) -> TableContext {
        self.context
    }

    /// The most bytes that a block's data may have, if there is a limit.
    pub closed spec fn limit(&self) -> Option<u64> {
        self.max_block_data_size
    }

    /// Whether two tables know the same of the validators and have the same limit.
    pub open spec fn same_setting(&self, other: &Self) -> bool {
        self.validators() == other.validators() && self.limit() == other.limit()
    }

    /// Create a new shared table.
    ///
    /// Provide the key to sign with, and the parent hash of the relay chain
    /// block being built.
    pub fn new(
        authorities: &[SessionKey],
        groups: HashMap<ParaId, GroupInfo>,
        key: Pair,
        parent_hash: H256,
        max_block_data_size: Option<u64>,
    ) -> (table: Self)
        ensures
            table.wf(),
            table.validators().parent_hash == parent_hash,
            table.validators().key == key,
            table.validators().groups == groups,
            table.validators().index_mapping@ == index_mapping_of(authorities@),
            table.limit() == max_block_data_size,
            table@ == (TableState {
                trackers: Seq::<Tracker<S>>::empty(),
                completed: Seq::<S>::empty(),
                validated: Map::<H256, WorkState>::empty(),
            }),
    {
        let table = SharedTable {
            context: TableContext::new(authorities, groups, key, parent_hash),
            inner: SharedTableInner {
                trackers: Vec::new(),
                completed: Vec::new(),
                validated: DigestMap::new(),
            },
            max_block_data_size,
        };
        assert(table@.trackers == Seq::<Tracker<S>>::empty());
        assert(table@.validated == Map::<H256, WorkState>::empty());
        table
    }

    /// What the table knows of the validators.
    pub fn context(&self) -> (context: &TableContext)
        ensures
            *context == self.validators(),
    {
        &self.context
    }

    /// Get the parent hash this table should hold statements localized to.
    pub fn consensus_parent_hash(&self) -> (hash: &H256)
        ensures
            *hash == self.validators().parent_hash,
    {
        &self.context.parent_hash
    }

    /// Get the local validator session key.
    pub fn session_key(&self) -> (key: SessionKey)
        ensures
            key == self.validators().key.public_key(),
    {
        self.context.local_id()
    }

    /// Get group info.
    pub fn group_info(&self) -> (groups: &HashMap<ParaId, GroupInfo>)
        ensures
            *groups == self.validators().groups,
    {
        &self.context.groups
    }

    /// How far the validation of the candidate with given hash has come, if it was started.
    pub fn validation_work(&self, hash: &H256) -> (work: Option<&ValidationWork>)
        requires
            self.wf(),
        ensures
            match work {
                Some(work) => self@.validated.contains_key(*hash) && self@.validated[*hash]
                    == work@,
                None => !self@.validated.contains_key(*hash),
            },
    {
        self.inner.validated.get(hash)
    }

    /// Get extrinsic data for candidate with given hash, if any.
    ///
    /// This will return `Some` for any candidates that have been validated
    /// locally and found valid.
    pub fn extrinsic_data(&self, hash: &H256) -> (data: Option<&Extrinsic>)
        requires
            self.wf(),
        ensures
            match data {
                Some(data) => self@.extrinsic_of(*hash) == Some(*data),
                None => self@.extrinsic_of(*hash) is None,
            },
    {
        match self.inner.validated.get(hash) {
            Some(ValidationWork::Done(Validation::Valid(_, extrinsic))) => Some(extrinsic),
            _ => None,
        }
    }

    /// Import a single statement with remote source, whose signature has already been checked.
    ///
    /// `consult` imports the statement into the statement table, which it is given and gives
    /// back, and reports what the statement table then holds of the candidate.
    ///
    /// The statement producer, if any, will produce only statements concerning the same candidate
    /// as the one just imported
    pub fn import_remote_statement<T, R, C>(
        &mut self,
        router: &R,
        table: T,
        statement: SignedStatement,
        consult: C,
    ) -> (result: (T, Option<ParachainWork<R::FetchValidationProof>>)) where
        R: TableRouter,
        C: FnOnce(&TableContext, T, SignedStatement) -> (T, Option<TableReport>),

        requires
            old(self).wf(),
            can_import((old(self)@, table), statement, old(self).validators(), router, consult),
        ensures
            final(self).wf(),
            final(self).same_setting(old(self)),
            imports(
                (old(self)@, table),
                (final(self)@, result.0),
                statement,
                result.1,
                old(self).validators(),
                old(self).limit(),
                router,
                consult,
            ),
    {
        let told = consult(&self.context, table, statement);
        let ghost before = (self@, table);
        let ghost report = told.1;
        let work = self.import_report(router, told.1);
        proof {
            let after = (self@, told.0);
            let context = self.validators();
            assert(call_ensures(consult, (&context, before.1, statement), (after.1, report)));
            assert(imports(
                before,
                after,
                statement,
                work,
                context,
                self.limit(),
                router,
                consult,
            ));
        }
        (told.0, work)
    }

    /// Go on after the import of a remote statement, of which the statement table reports the
    /// outcome.
    pub fn import_report<R: TableRouter>(
        &mut self,
        router: &R,
        report: Option<TableReport>,
    ) -> (work: Option<ParachainWork<R::FetchValidationProof>>)
        requires
            old(self).wf(),
            can_take_in(old(self)@, old(self).validators(), router, report),
        ensures
            final(self).wf(),
            final(self).same_setting(old(self)),
            old(self)@.imported(final(self)@, old(self).validators(), report),
            handed_out(
                work,
                old(self)@,
                old(self).validators(),
                router,
                report,
                old(self).limit(),
            ),
    {
        self.inner.import_remote_statement(
            &self.context,
            router,
            report,
            self.max_block_data_size,
        )
    }

    /// Import many statements at once, in the order given.
    ///
    /// Provide the remote, pre-checked statements. `consult` imports each into the statement
    /// table, which it is given and gives back, and reports what the statement table then holds
    /// of the candidate.
    ///
    /// The statement producer, if any, will produce only statements concerning the same candidate
    /// as the one just imported
    pub fn import_remote_statements<T, R, C>(
        &mut self,
        router: &R,
        table: T,
        statements: Vec<SignedStatement>,
        consult: C,
    ) -> (result: (T, Vec<Option<ParachainWork<R::FetchValidationProof>>>)) where
        R: TableRouter,
        C: Fn(&TableContext, T, SignedStatement) -> (T, Option<TableReport>),

        requires
            old(self).wf(),
            forall|
                states: Seq<(TableState<S>, T)>,
                works: Seq<Option<ParachainWork<R::FetchValidationProof>>>,
                n: int,
            |
                0 <= n < statements@.len() && states.first() == (old(self)@, table)
                    && #[trigger] is_run(
                    states,
                    statements@.take(n),
                    works,
                    old(self).validators(),
                    old(self).limit(),
                    router,
                    consult,
                ) ==> can_import(
                    states.last(),
                    statements@[n],
                    old(self).validators(),
                    router,
                    consult,
                ),
        ensures
            final(self).wf(),
            final(self).same_setting(old(self)),
            imports_all(
                (old(self)@, table),
                (final(self)@, result.0),
                statements@,
                result.1@,
                old(self).validators(),
                old(self).limit(),
                router,
                consult,
            ),
    {
        let ghost all = statements@;
        let ghost context = self.validators();
        let ghost limit = self.limit();
        let ghost start = (self@, table);
        let ghost mut states = seq![start];
        let mut table = table;
        let mut works: Vec<Option<ParachainWork<R::FetchValidationProof>>> = Vec::new();
        for statement in iter: statements
            invariant
                iter.seq() == all,
                self.wf(),
                self.validators() == context,
                self.limit() == limit,
                states.first() == start,
                states.last() == (self@, table),
                is_run(states, all.take(iter.index()), works@, context, limit, router, consult),
                forall|
                    states: Seq<(TableState<S>, T)>,
                    works: Seq<Option<ParachainWork<R::FetchValidationProof>>>,
                    n: int,
                |
                    0 <= n < all.len() && states.first() == start && #[trigger] is_run(
                        states,
                        all.take(n),
                        works,
                        context,
                        limit,
                        router,
                        consult,
                    ) ==> can_import(states.last(), all[n], context, router, consult),
        {
            let ghost n = iter.index();
            let ghost so_far = works@;
            assert(all[n] == statement);
            let told = consult(&self.context, table, statement);
            let ghost report = told.1;
            let ghost before = (self@, table);
            let work = self.import_report(router, told.1);
            table = told.0;
            works.push(work);
            proof {
                let after = (self@, table);
                assert(call_ensures(consult, (&context, before.1, statement), (after.1, report)));
                assert(imports(
                    before,
                    after,
                    statement,
                    work,
                    context,
                    limit,
                    router,
                    consult,
                ));
                lemma_run_push(
                    states,
                    all.take(n),
                    so_far,
                    (self@, table),
                    statement,
                    work,
                    context,
                    limit,
                    router,
                    consult,
                );
                states = states.push((self@, table));
                assert(all.take(n + 1) == all.take(n).push(statement));
            }
        }
        assert(all.take(all.len() as int) == all);
        (table, works)
    }

    /// Sign and import the result of candidate validation.
    ///
    /// What has to be signed, `payload` works out of the statement and the parent hash.
    /// `import_statement` imports the signed statement into the statement table.
    pub fn import_validated<P, I>(
        &mut self,
        validated: Validated,
        payload: P,
        import_statement: I,
    ) -> (signed: SignedStatement) where
        P: FnOnce(&Statement, &H256) -> Vec<u8>,
        I: FnOnce(&TableContext, &SignedStatement),

        requires
            old(self).wf(),
            old(self).validators().has_local_index(),
            call_requires(payload, (&validated.said(), &old(self).validators().parent_hash)),
            forall|bytes: Vec<u8>, signed: SignedStatement|
                #![trigger
                    call_ensures(
                        payload,
                        (&validated.said(), &old(self).validators().parent_hash),
                        bytes,
                    ),
                    call_requires(import_statement, (&old(self).validators(), &signed))]
                call_ensures(
                    payload,
                    (&validated.said(), &old(self).validators().parent_hash),
                    bytes,
                ) && old(self).validators().signs(signed, validated.said(), bytes@)
                    ==> call_requires(import_statement, (&old(self).validators(), &signed)),
        ensures
            final(self).wf(),
            final(self).same_setting(old(self)),
            final(self)@ == old(self)@.noted(validated),
            exists|bytes: Vec<u8>| #[trigger]
                call_ensures(
                    payload,
                    (&validated.said(), &old(self).validators().parent_hash),
                    bytes,
                ) && old(self).validators().signs(signed, validated.said(), bytes@),
            call_ensures(import_statement, (&old(self).validators(), &signed), ()),
    {
        let digest = statement_digest(validated.statement());
        let (statement, result) = validated.into_parts();
        let signed_statement = self.context.sign_statement(statement, payload);
        import_statement(&self.context, &signed_statement);
        self.inner.validated.insert(digest, ValidationWork::Done(result));
        assert(self@.validated == old(self)@.noted(validated).validated);
        signed_statement
    }

    /// Execute a closure using a specific candidate, which `get_candidate` looks up in the
    /// statement table.
    pub fn with_candidate<'a, G, F, U>(&self, digest: &H256, get_candidate: G, f: F) -> (result:
        U) where
        G: FnOnce(&H256) -> Option<&'a CandidateReceipt>,
        F: FnOnce(Option<&CandidateReceipt>) -> U,

        requires
            call_requires(get_candidate, (digest,)),
            forall|candidate: Option<&CandidateReceipt>|
                call_ensures(get_candidate, (digest,), candidate) ==> #[trigger] call_requires(
                    f,
                    (candidate,),
                ),
        ensures
            exists|candidate: Option<&CandidateReceipt>| #[trigger]
                call_ensures(get_candidate, (digest,), candidate) && call_ensures(
                    f,
                    (candidate,),
                    result,
                ),
    {
        f(get_candidate(digest))
    }

    /// Get a set of candidates that can be proposed: those that `proposed_candidates` finds in
    /// the statement table, with the attestations in the form that the relay chain expects.
    pub fn proposed_set<C>(&self, proposed_candidates: C) -> (proposed: Vec<AttestedCandidate>) where
        C: FnOnce(&TableContext) -> Vec<TableCandidate>,

        requires
            call_requires(proposed_candidates, (&self.validators(),)),
        ensures
            exists|candidates: Vec<TableCandidate>| #[trigger]
                call_ensures(proposed_candidates, (&self.validators(),), candidates) && all_attest(
                    proposed@,
                    candidates@,
                ),
    {
        all_attested(proposed_candidates(&self.context))
    }

    /// Get the number of total parachains.
    pub fn num_parachains(&self) -> (count: usize)
        ensures
            count == self.validators().groups@.len(),
    {
        self.group_info().len()
    }

    /// Track includability of a given set of candidate hashes. `candidate_includable` finds in the
    /// statement table whether each is includable at present.
    ///
    /// The sender is released once all of them are, which may be at once.
    pub fn track_includability<C>(
        &mut self,
        candidates: Vec<H256>,
        candidate_includable: C,
        sender: S,
    ) where C: Fn(&H256, &TableContext) -> bool
        requires
            old(self).wf(),
            forall|i: int|
                0 <= i < candidates@.len() ==> call_requires(
                    candidate_includable,
                    (&#[trigger] candidates@[i], &old(self).validators()),
                ),
        ensures
            final(self).wf(),
            final(self).same_setting(old(self)),
            exists|answers: Seq<(H256, bool)>|
                {
                    &&& #[trigger] answered(
                        answers,
                        candidates@,
                        old(self).validators(),
                        candidate_includable,
                    )
                    &&& final(self)@ == old(self)@.tracking(
                        Tracker { flags: flags_of(answers), sender },
                    )
                },
    {
        let answers = survey(candidates, &self.context, candidate_includable);
        self.track_answers(answers, sender);
    }

    /// Track includability of a given set of candidates, each given with whether it is includable
    /// at present.
    pub fn track_answers(&mut self, answers: Vec<(H256, bool)>, sender: S)
        requires
            old(self).wf(),
        ensures
            final(self).wf(),
            final(self).same_setting(old(self)),
            final(self)@ == old(self)@.tracking(Tracker { flags: flags_of(answers@), sender }),
    {
        let tracker = IncludabilitySender::track(answers, sender);
        let ghost view = tracker@;
        if tracker.is_complete() {
            self.inner.completed.push(tracker.into_sender());
        } else {
            self.inner.trackers.push(tracker);
            assert(self@.trackers == old(self)@.trackers.push(view));
        }
    }

    /// Take the senders of those that wait no longer, to tell them.
    pub fn take_completed(&mut self) -> (senders: Vec<S>)
        requires
            old(self).wf(),
        ensures
            final(self).wf(),
            final(self).same_setting(old(self)),
            senders@ == old(self)@.completed,
            final(self)@ == (TableState { completed: Seq::<S>::empty(), ..old(self)@ }),
    {
        let mut senders: Vec<S> = Vec::new();
        std::mem::swap(&mut senders, &mut self.inner.completed);
        senders
    }

    /// Returns id of the validator corresponding to the given index.
    pub fn index_to_id(&self, index: ValidatorIndex) -> (id: Option<SessionKey>)
        ensures
            id == if self.validators().index_mapping@.contains_key(index) {
                Some(self.validators().index_mapping@[index])
            } else {
                None
            },
    {
        match self.context.index_mapping.get(&index) {
            Some(key) => Some(*key),
            None => None,
        }
    }
}

} // verus!
