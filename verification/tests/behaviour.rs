use shared_table::context::{GroupInfo, TableContext};
use shared_table::crypto::Pair;
use shared_table::digest_map::DigestMap;
use shared_table::includable::survey;
use shared_table::primitives::{
    BlockData, BlockId, CandidateReceipt, Collation, ConsolidatedIngress, Extrinsic, HeadData,
    OutgoingMessage, ParaId, PoVBlock, SessionKey, Signature, H256,
};
use shared_table::statement::{
    GenericStatement, SignedStatement, Statement, Summary, TableAttestation, TableCandidate,
    TableReport, ValidityAttestation,
};
use shared_table::table::{SharedTable, TableRouter};
use shared_table::work::{Evaluation, ParachainWork, Validated, ValidationWork, Work};
use std::cell::Cell;
use std::collections::HashMap;

const GUARDED: ParaId = 1;
const UNGUARDED: ParaId = 2;
const PARENT: H256 = H256([5; 32]);

fn hash(byte: u8) -> H256 {
    H256([byte; 32])
}

fn receipt(byte: u8, para_id: ParaId) -> CandidateReceipt {
    CandidateReceipt {
        parachain_index: para_id,
        collator: [1; 32],
        signature: [0; 64],
        head_data: HeadData(vec![byte]),
        egress_queue_roots: vec![(7, hash(8))],
        fees: 3,
        block_data_hash: hash(2),
        upward_messages: vec![vec![1, 2]],
        candidate_hash: hash(byte),
    }
}

fn pov(byte: u8) -> PoVBlock {
    PoVBlock {
        block_data: BlockData(vec![byte]),
        ingress: ConsolidatedIngress(vec![(4, vec![vec![byte]])]),
    }
}

fn extrinsic(byte: u8) -> Extrinsic {
    Extrinsic { outgoing_messages: vec![OutgoingMessage { target: 6, data: vec![byte] }] }
}

fn local() -> Pair {
    Pair::from_seed([11; 32])
}

fn other() -> Pair {
    Pair::from_seed([12; 32])
}

/// A table whose local validator guards one parachain of two.
fn table<S>() -> SharedTable<S> {
    let mut groups = HashMap::new();
    groups.insert(
        GUARDED,
        GroupInfo {
            validity_guarantors: vec![other().public(), local().public()],
            needed_validity: 2,
        },
    );
    groups.insert(
        UNGUARDED,
        GroupInfo { validity_guarantors: vec![other().public()], needed_validity: 1 },
    );
    SharedTable::new(
        &[other().public(), local().public()],
        groups,
        local(),
        PARENT,
        Some(1024),
    )
}

fn report(byte: u8, para_id: ParaId, includable: bool) -> Option<TableReport> {
    Some(TableReport {
        summary: Summary { candidate: hash(byte), group_id: para_id },
        includable,
        receipt: Some(receipt(byte, para_id)),
    })
}

fn signed(sender: u32) -> SignedStatement {
    SignedStatement {
        statement: GenericStatement::Valid(hash(sender as u8)),
        signature: Signature([0; 64]),
        sender,
    }
}

/// Counts the fetches, and fetches the candidate's digest.
struct Router {
    fetches: Cell<u32>,
}

impl TableRouter for Router {
    type FetchValidationProof = H256;

    fn fetch_pov_block(&self, candidate: &CandidateReceipt) -> H256 {
        self.fetches.set(self.fetches.get() + 1);
        candidate.hash()
    }
}

fn router() -> Router {
    Router { fetches: Cell::new(0) }
}

fn bytes(hex: &str) -> Vec<u8> {
    (0..hex.len() / 2).map(|i| u8::from_str_radix(&hex[2 * i..2 * i + 2], 16).unwrap()).collect()
}

fn statement_bytes(statement: &Statement, parent_hash: &H256) -> Vec<u8> {
    let tag = match statement {
        GenericStatement::Candidate(_) => 0,
        GenericStatement::Valid(_) => 1,
        GenericStatement::Invalid(_) => 2,
    };
    let mut bytes = vec![tag];
    bytes.extend(parent_hash.0);
    bytes
}

#[test]
fn key_pair_of_a_known_seed() {
    let mut seed = [0; 32];
    seed.copy_from_slice(&bytes(
        "9d61b19deffd5a60ba844af492ec2cc44449c5697b326919703bac031cae7f60",
    ));
    let pair = Pair::from_seed(seed);
    assert_eq!(
        pair.public().0.to_vec(),
        bytes("d75a980182b10ab7d54bfed3c964073a0ee172f3daa62325af021a68f707511a"),
    );
    assert_eq!(
        pair.sign(&[]).0.to_vec(),
        bytes(concat_signature().as_str()),
    );
    assert_ne!(pair.sign(&[1]), pair.sign(&[]));
}

fn concat_signature() -> String {
    let first = "e5564300c360ac729086e2cc806e828a84877f1eb8e5d974d873e06522490155";
    let second = "5fb8821590a33bacc61e39701cf9b46bd25bf5f0595bbe24655141438e7a100b";
    format!("{}{}", first, second)
}

#[test]
fn digests_are_abbreviated() {
    let mut digest = [0; 32];
    digest[0] = 0xab;
    digest[1] = 0x0c;
    digest[2] = 0xff;
    digest[30] = 0x9d;
    digest[31] = 0xe0;
    assert_eq!(H256(digest).abbreviate(), "0xab0c\u{2026}9de0");
}

#[test]
fn digests_compare_by_every_byte() {
    let mut digest = [3; 32];
    digest[31] = 4;
    assert_eq!(hash(3), H256([3; 32]));
    assert_ne!(hash(3), H256(digest));
    assert_ne!(SessionKey([3; 32]), SessionKey(digest));
}

#[test]
fn digest_map_replaces_values() {
    let mut map: DigestMap<u8> = DigestMap::new();
    assert!(!map.contains_key(&hash(1)));
    map.insert(hash(1), 10);
    map.insert(hash(2), 20);
    map.insert(hash(1), 11);
    assert_eq!(map.get(&hash(1)), Some(&11));
    assert_eq!(map.get(&hash(2)), Some(&20));
    assert_eq!(map.get(&hash(3)), None);
}

#[test]
fn table_tells_what_it_was_made_with() {
    let table: SharedTable<()> = table();
    assert_eq!(table.consensus_parent_hash(), &PARENT);
    assert_eq!(table.session_key(), local().public());
    assert_eq!(table.num_parachains(), 2);
    assert_eq!(table.group_info()[&UNGUARDED].needed_validity, 1);
    assert_eq!(table.index_to_id(0), Some(other().public()));
    assert_eq!(table.index_to_id(1), Some(local().public()));
    assert_eq!(table.index_to_id(2), None);
    assert_eq!(table.context().local_index(), 1);
}

#[test]
fn membership_and_votes() {
    let table: SharedTable<()> = table();
    let context = table.context();
    assert!(context.is_member_of(0, &GUARDED));
    assert!(context.is_member_of(1, &GUARDED));
    assert!(context.is_member_of(0, &UNGUARDED));
    assert!(!context.is_member_of(1, &UNGUARDED));
    assert!(!context.is_member_of(2, &GUARDED));
    assert!(!context.is_member_of(0, &3));
    assert_eq!(context.requisite_votes(&GUARDED), 2);
    assert_eq!(context.requisite_votes(&UNGUARDED), 1);
    assert_eq!(context.requisite_votes(&3), usize::MAX);
}

#[test]
fn local_index_of_a_repeated_key() {
    let keys = [local().public(), other().public(), local().public()];
    let table: SharedTable<()> = SharedTable::new(&keys, HashMap::new(), local(), PARENT, None);
    assert!(matches!(table.context().local_index(), 0 | 2));
}

#[test]
fn work_carries_the_report() {
    let mut table: SharedTable<()> = table();
    let router = router();
    let work = table.import_report(&router, report(9, GUARDED, false)).unwrap();
    assert_eq!(work.work.candidate_receipt, receipt(9, GUARDED));
    assert_eq!(work.work.fetch, hash(9));
    assert_eq!(work.relay_parent, PARENT);
    assert_eq!(work.max_block_data_size, Some(1024));
    assert_eq!(router.fetches.get(), 1);
    assert!(table.extrinsic_data(&hash(9)).is_none());
}

#[test]
fn no_summary_changes_nothing() {
    let mut table: SharedTable<u8> = table();
    table.track_answers(vec![(hash(1), false)], 7);
    let router = router();
    assert!(table.import_report(&router, None).is_none());
    assert_eq!(router.fetches.get(), 0);
    assert!(table.take_completed().is_empty());
}

#[test]
fn no_summary_needs_no_local_validator() {
    let mut table: SharedTable<()> =
        SharedTable::new(&[other().public()], HashMap::new(), local(), PARENT, None);
    assert!(table.context().find_local_index().is_none());
    assert!(table.import_report(&router(), None).is_none());
}

#[test]
fn outsiders_get_no_work() {
    let mut table: SharedTable<()> = table();
    let router = router();
    assert!(table.import_report(&router, report(9, UNGUARDED, false)).is_none());
    assert!(table.import_report(&router, report(8, 3, false)).is_none());
    assert_eq!(router.fetches.get(), 0);
    assert!(table.validation_work(&hash(9)).is_none());
    assert!(table.validation_work(&hash(8)).is_none());
}

#[test]
fn missing_receipt_is_an_error() {
    let mut table: SharedTable<()> = table();
    let router = router();
    let mut broken = report(9, GUARDED, false).unwrap();
    broken.receipt = None;
    assert!(table.import_report(&router, Some(broken)).is_none());
    let message = "Table inconsistency detected. Summary returned for candidate \
                   0x0909\u{2026}0909 but receipt not present in table.";
    assert_eq!(
        table.validation_work(&hash(9)),
        Some(&ValidationWork::Error(message.to_string())),
    );
    assert!(table.extrinsic_data(&hash(9)).is_none());
    assert!(table.import_report(&router, report(9, GUARDED, false)).is_none());
    assert_eq!(router.fetches.get(), 0);
}

#[test]
fn many_statements_dispatch_once_each() {
    let mut table: SharedTable<u8> = table();
    table.track_answers(vec![(hash(1), false), (hash(2), false)], 7);
    let router = router();
    let statements = vec![signed(1), signed(0), signed(1), signed(2), signed(3)];
    let consult = |context: &TableContext, mut imported: Vec<u32>, statement: SignedStatement| {
        assert_eq!(context.parent_hash, PARENT);
        imported.push(statement.sender);
        let report = match (imported.len(), statement.sender) {
            (_, 0) => None,
            (1, _) => report(1, GUARDED, false),
            (_, 3) => report(3, UNGUARDED, true),
            (_, sender) => report(sender as u8, GUARDED, true),
        };
        (imported, report)
    };
    let (imported, works) =
        table.import_remote_statements(&router, Vec::new(), statements, consult);
    assert_eq!(imported, vec![1, 0, 1, 2, 3]);
    let dispatched: Vec<bool> = works.iter().map(|work| work.is_some()).collect();
    assert_eq!(dispatched, vec![true, false, false, true, false]);
    assert_eq!(router.fetches.get(), 2);
    assert_eq!(table.take_completed(), vec![7]);
}

#[test]
fn no_statements_change_nothing() {
    let mut table: SharedTable<u8> = table();
    let consult = |_: &TableContext, _: u8, _: SignedStatement| -> (u8, Option<TableReport>) {
        panic!("nothing to import")
    };
    let (left, works) = table.import_remote_statements(&router(), 5, Vec::new(), consult);
    assert_eq!(left, 5);
    assert!(works.is_empty());
}

#[test]
fn local_validation_is_signed_and_kept() {
    let mut table: SharedTable<()> = table();
    let good = Validated::known_good(hash(9), pov(1), extrinsic(2));
    let mut imported = None;
    let signed = table.import_validated(good, statement_bytes, |context, signed| {
        assert_eq!(context.parent_hash, PARENT);
        imported = Some(signed.clone());
    });
    assert_eq!(imported, Some(signed.clone()));
    assert_eq!(signed.statement, GenericStatement::Valid(hash(9)));
    assert_eq!(signed.sender, 1);
    assert_eq!(
        signed.signature,
        local().sign(&statement_bytes(&GenericStatement::Valid(hash(9)), &PARENT)),
    );
    assert_eq!(table.extrinsic_data(&hash(9)), Some(&extrinsic(2)));
    assert!(table.import_report(&router(), report(9, GUARDED, true)).is_none());
    assert_eq!(table.extrinsic_data(&hash(9)), Some(&extrinsic(2)));

    let bad = Validated::known_bad(hash(9), pov(1));
    let signed = table.import_validated(bad, statement_bytes, |_, _| ());
    assert_eq!(signed.statement, GenericStatement::Invalid(hash(9)));
    assert_eq!(table.extrinsic_data(&hash(9)), None);
    assert!(table.validation_work(&hash(9)).unwrap().is_done());
}

#[test]
fn validation_replaces_progress() {
    let mut table: SharedTable<()> = table();
    table.import_report(&router(), report(9, GUARDED, false)).unwrap();
    assert!(table.validation_work(&hash(9)).unwrap().is_in_progress());
    assert!(!table.validation_work(&hash(9)).unwrap().is_done());
    let ours = Validated::collated_local(receipt(9, GUARDED), pov(1), extrinsic(2));
    table.import_validated(ours, statement_bytes, |_, _| ());
    assert!(!table.validation_work(&hash(9)).unwrap().is_in_progress());
    assert_eq!(table.extrinsic_data(&hash(9)), Some(&extrinsic(2)));
}

#[test]
fn validated_parts() {
    let good = Validated::known_good(hash(9), pov(1), extrinsic(2));
    assert_eq!(good.statement(), &GenericStatement::Valid(hash(9)));
    assert_eq!(good.pov_block(), &pov(1));
    assert_eq!(good.extrinsic(), Some(&extrinsic(2)));
    let bad = Validated::known_bad(hash(9), pov(1));
    assert_eq!(bad.statement(), &GenericStatement::Invalid(hash(9)));
    assert_eq!(bad.pov_block(), &pov(1));
    assert_eq!(bad.extrinsic(), None);
    let ours = Validated::collated_local(receipt(9, GUARDED), pov(1), extrinsic(2));
    assert_eq!(ours.statement(), &GenericStatement::Candidate(receipt(9, GUARDED)));
    assert_eq!(ours.extrinsic(), Some(&extrinsic(2)));
}

fn work(byte: u8, limit: Option<u64>) -> ParachainWork<()> {
    ParachainWork {
        work: Work { candidate_receipt: receipt(byte, GUARDED), fetch: () },
        relay_parent: PARENT,
        max_block_data_size: limit,
    }
}

#[test]
fn refused_collation_is_stated_invalid() {
    let primed = work(9, None).prime_with(|id: &BlockId, collation: &Collation| {
        assert_eq!(id, &BlockId::hash(PARENT));
        assert_eq!(collation, &Collation { pov: pov(1), receipt: receipt(9, GUARDED) });
        Err(())
    });
    match primed.evaluate(pov(1)) {
        Evaluation::Ready(validated) => {
            assert_eq!(validated.statement(), &GenericStatement::Invalid(hash(9)));
            assert_eq!(validated.pov_block(), &pov(1));
            assert_eq!(validated.extrinsic(), None);
        }
        Evaluation::MakeAvailable(_) => panic!("nothing to store"),
    }
}

#[test]
fn valid_candidate_is_stored_first() {
    let evaluate = || match work(9, None).prime_with(|_, _| Ok(extrinsic(2))).evaluate(pov(1)) {
        Evaluation::MakeAvailable(unstored) => unstored,
        Evaluation::Ready(_) => panic!("has to be stored"),
    };
    let unstored = evaluate();
    assert_eq!(unstored.data().relay_parent, PARENT);
    assert_eq!(unstored.data().parachain_id, GUARDED);
    assert_eq!(unstored.data().candidate_hash, hash(9));
    assert_eq!(unstored.data().block_data, &BlockData(vec![1]));
    assert_eq!(unstored.data().extrinsic, Some(&extrinsic(2)));
    let validated = unstored.stored::<u8>(Ok(())).ok().unwrap();
    assert_eq!(validated.statement(), &GenericStatement::Valid(hash(9)));
    assert_eq!(validated.extrinsic(), Some(&extrinsic(2)));

    assert_eq!(evaluate().stored(Err("disk full")).err(), Some("disk full"));
}

#[test]
fn completion_stores_what_is_valid() {
    let good = work(9, None).prime_with(|_, _| Ok(extrinsic(2)));
    let mut stored = 0;
    let validated = good.complete(pov(1), |data| {
        assert_eq!(data.candidate_hash, hash(9));
        stored += 1;
        Ok::<(), &str>(())
    });
    assert_eq!(validated.unwrap().statement(), &GenericStatement::Valid(hash(9)));
    assert_eq!(stored, 1);

    let good = work(9, None).prime_with(|_, _| Ok(extrinsic(2)));
    assert_eq!(good.complete(pov(1), |_| Err("disk full")).err(), Some("disk full"));

    let bad = work(9, None).prime_with(|_, _| Err(()));
    let validated = bad.complete(pov(1), |_| -> Result<(), &str> { panic!("not stored") });
    assert_eq!(validated.unwrap().statement(), &GenericStatement::Invalid(hash(9)));
}

#[test]
fn priming_passes_the_limit_on() {
    let check = |_: &BlockId, _: &Collation, limit: Option<u64>| match limit {
        Some(512) => Ok(extrinsic(2)),
        _ => Err("too large"),
    };
    assert!(matches!(
        work(9, Some(512)).prime(check).evaluate(pov(1)),
        Evaluation::MakeAvailable(_)
    ));
    assert!(matches!(work(9, None).prime(check).evaluate(pov(1)), Evaluation::Ready(_)));
}

#[test]
fn waiting_for_nothing_ends_at_once() {
    let mut table: SharedTable<u8> = table();
    table.track_answers(Vec::new(), 1);
    table.track_answers(vec![(hash(1), true), (hash(2), true)], 2);
    table.track_answers(vec![(hash(1), true), (hash(2), false)], 3);
    assert_eq!(table.take_completed(), vec![1, 2]);
    assert!(table.take_completed().is_empty());
}

#[test]
fn later_answers_count() {
    let mut table: SharedTable<u8> = table();
    table.track_answers(vec![(hash(1), false), (hash(1), true)], 1);
    table.track_answers(vec![(hash(1), true), (hash(1), false)], 2);
    assert_eq!(table.take_completed(), vec![1]);
}

#[test]
fn told_once_all_are_includable() {
    let mut table: SharedTable<u8> = table();
    let router = router();
    table.track_answers(vec![(hash(1), false), (hash(2), false)], 1);
    table.import_report(&router, report(1, GUARDED, true));
    assert!(table.take_completed().is_empty());
    table.import_report(&router, report(1, GUARDED, false));
    table.import_report(&router, report(2, GUARDED, true));
    assert!(table.take_completed().is_empty());
    table.import_report(&router, report(3, GUARDED, true));
    assert!(table.take_completed().is_empty());
    table.import_report(&router, report(1, GUARDED, true));
    assert_eq!(table.take_completed(), vec![1]);
    table.import_report(&router, report(1, GUARDED, true));
    assert!(table.take_completed().is_empty());
}

#[test]
fn the_rest_go_on_waiting() {
    let mut table: SharedTable<u8> = table();
    let router = router();
    table.track_answers(vec![(hash(1), false)], 1);
    table.track_answers(vec![(hash(2), false)], 2);
    table.track_answers(vec![(hash(1), false)], 3);
    table.track_answers(vec![(hash(2), false), (hash(1), false)], 4);
    table.import_report(&router, report(1, UNGUARDED, true));
    assert_eq!(table.take_completed(), vec![3, 1]);
    table.import_report(&router, report(2, UNGUARDED, true));
    let mut told = table.take_completed();
    told.sort();
    assert_eq!(told, vec![2, 4]);
}

#[test]
fn local_validation_tells_nobody() {
    let mut table: SharedTable<u8> = table();
    table.track_answers(vec![(hash(9), false)], 1);
    table.import_validated(Validated::known_bad(hash(9), pov(1)), statement_bytes, |_, _| ());
    assert!(table.take_completed().is_empty());
}

#[test]
fn proposals_keep_candidates_and_votes() {
    let table: SharedTable<()> = table();
    let first = Signature([1; 64]);
    let second = Signature([2; 64]);
    let proposed = table.proposed_set(|_| vec![
        TableCandidate {
            candidate: receipt(1, GUARDED),
            validity_votes: vec![
                (4, TableAttestation::Explicit(second)),
                (3, TableAttestation::Implicit(first)),
            ],
        },
        TableCandidate { candidate: receipt(2, UNGUARDED), validity_votes: Vec::new() },
    ]);
    assert_eq!(proposed.len(), 2);
    assert_eq!(proposed[0].candidate, receipt(1, GUARDED));
    assert_eq!(
        proposed[0].validity_votes,
        vec![
            (4, ValidityAttestation::Explicit(second)),
            (3, ValidityAttestation::Implicit(first)),
        ],
    );
    assert_eq!(proposed[1].candidate, receipt(2, UNGUARDED));
    assert!(proposed[1].validity_votes.is_empty());
}

#[test]
fn questions_to_the_statement_table() {
    let summary = Summary { candidate: hash(9), group_id: GUARDED };
    let shared: SharedTable<u8> = table();
    let context = shared.context();
    let gathered = TableReport::gather(
        Some(summary),
        context,
        |candidate, context| candidate == &hash(9) && context.parent_hash == PARENT,
        |candidate| Some(receipt(candidate.0[0], GUARDED)),
    );
    assert_eq!(gathered, report(9, GUARDED, true));
    let nothing =
        TableReport::gather(None, context, |_, _| panic!("not asked"), |_| panic!("not asked"));
    assert_eq!(nothing, None);

    let second = |candidate: &H256, _: &TableContext| candidate == &hash(2);
    let answers = survey(vec![hash(1), hash(2)], context, second);
    assert_eq!(answers, vec![(hash(1), false), (hash(2), true)]);

    let mut shared: SharedTable<u8> = table();
    shared.track_includability(vec![hash(2)], second, 7);
    shared.track_includability(vec![hash(2), hash(1)], second, 8);
    assert_eq!(shared.take_completed(), vec![7]);
}

#[test]
fn closures_see_the_candidate() {
    let table: SharedTable<()> = table();
    let held = receipt(9, GUARDED);
    let find = |digest: &H256| if *digest == hash(9) { Some(&held) } else { None };
    let fees = |candidate: Option<&CandidateReceipt>| candidate.map(|receipt| receipt.fees);
    assert_eq!(table.with_candidate(&hash(9), find, fees), Some(3));
    assert_eq!(table.with_candidate(&hash(8), find, fees), None);
}
