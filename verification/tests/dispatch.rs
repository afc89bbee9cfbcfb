use futures::future;
use futures::{Async, Future};
use shared_table::context::{GroupInfo, TableContext};
use shared_table::crypto::Pair;
use shared_table::primitives::{
    BlockData, CandidateReceipt, ConsolidatedIngress, Extrinsic, HeadData, ParaId, PoVBlock,
    SessionKey, Signature, ValidatorIndex, H256,
};
use shared_table::statement::{
    statement_digest, GenericStatement, SignedStatement, Statement, Summary, TableReport,
};
use shared_table::table::{SharedTable, TableRouter};
use shared_table::work::{Data, ParachainWork, Validated, Work};
use std::cell::Cell;
use std::collections::HashMap;

/// The development key pair of the given name.
fn keyring(name: &str) -> Pair {
    let pair = <sp_core::ed25519::Pair as sp_core::Pair>::from_string(name, None).unwrap();
    Pair::from_seed(pair.seed())
}

fn alice() -> Pair {
    keyring("//Alice")
}

fn bob() -> Pair {
    keyring("//Bob")
}

fn charlie() -> Pair {
    keyring("//Charlie")
}

fn pov_block_with_data(data: Vec<u8>) -> PoVBlock {
    PoVBlock { block_data: BlockData(data), ingress: ConsolidatedIngress(Vec::new()) }
}

fn candidate_of(para_id: ParaId) -> CandidateReceipt {
    CandidateReceipt {
        parachain_index: para_id,
        collator: [1; 32],
        signature: [0; 64],
        head_data: HeadData(vec![1, 2, 3, 4]),
        egress_queue_roots: Vec::new(),
        fees: 1_000_000,
        block_data_hash: H256([2; 32]),
        upward_messages: Vec::new(),
        candidate_hash: H256([9; 32]),
    }
}

/// Puts what the statement says in front of the parent hash.
fn payload(statement: &Statement, parent_hash: &H256) -> Vec<u8> {
    let mut bytes = match statement {
        GenericStatement::Candidate(receipt) => [&[1u8][..], &receipt.candidate_hash.0].concat(),
        GenericStatement::Valid(digest) => [&[2u8][..], &digest.0].concat(),
        GenericStatement::Invalid(digest) => [&[3u8][..], &digest.0].concat(),
    };
    bytes.extend(parent_hash.0);
    bytes
}

fn sign_table_statement(statement: &Statement, key: &Pair, parent_hash: &H256) -> Signature {
    key.sign(&payload(statement, parent_hash))
}

/// Imports a statement into a statement table that is a list of the candidates it has heard of.
fn consult(
    context: &TableContext,
    mut table: Vec<CandidateReceipt>,
    statement: SignedStatement,
) -> (Vec<CandidateReceipt>, Option<TableReport>) {
    let digest = statement_digest(&statement.statement);
    if let GenericStatement::Candidate(receipt) = statement.statement {
        if table.iter().all(|known| known.hash() != digest) {
            table.push(receipt);
        }
    }
    let known = table.iter().find(|known| known.hash() == digest);
    let report = TableReport::gather(
        known.map(|known| Summary { candidate: digest, group_id: known.parachain_index }),
        context,
        |_, _| false,
        |_| known.cloned(),
    );
    (table, report)
}

#[derive(Default)]
struct DummyRouter {
    fetches: Cell<u32>,
}

impl TableRouter for DummyRouter {
    type FetchValidationProof = future::FutureResult<PoVBlock, std::io::Error>;

    fn fetch_pov_block(&self, _candidate: &CandidateReceipt) -> Self::FetchValidationProof {
        self.fetches.set(self.fetches.get() + 1);
        future::ok(pov_block_with_data(vec![1, 2, 3, 4, 5]))
    }
}

/// Keeps what is made available, by relay parent and candidate.
#[derive(Default)]
struct Store {
    kept: HashMap<([u8; 32], [u8; 32]), (BlockData, Option<Extrinsic>)>,
}

impl Store {
    fn make_available(&mut self, data: Data<'_>) -> Result<(), std::io::Error> {
        self.kept.insert(
            (data.relay_parent.0, data.candidate_hash.0),
            (data.block_data.clone(), data.extrinsic.cloned()),
        );
        Ok(())
    }

    fn block_data(&self, relay_parent: H256, candidate: H256) -> Option<BlockData> {
        self.kept.get(&(relay_parent.0, candidate.0)).map(|kept| kept.0.clone())
    }

    fn extrinsic(&self, relay_parent: H256, candidate: H256) -> Option<Extrinsic> {
        self.kept.get(&(relay_parent.0, candidate.0)).and_then(|kept| kept.1.clone())
    }
}

#[test]
fn statement_triggers_fetch_and_evaluate() {
    let mut groups = HashMap::new();

    let para_id = ParaId::from(1u8);
    let parent_hash = H256([0; 32]);

    let local_key = alice();
    let local_id = local_key.public();

    let validity_other_key = bob();
    let validity_other = validity_other_key.public();
    let validity_other_index: ValidatorIndex = 1;

    groups.insert(
        para_id,
        GroupInfo {
            validity_guarantors: vec![local_id, validity_other],
            needed_validity: 2,
        },
    );

    let mut shared_table: SharedTable<()> =
        SharedTable::new(&[local_id, validity_other], groups, local_key, parent_hash, None);

    let candidate_statement = GenericStatement::Candidate(candidate_of(para_id));

    let signature = sign_table_statement(&candidate_statement, &validity_other_key, &parent_hash);
    let signed_statement = SignedStatement {
        statement: candidate_statement,
        signature,
        sender: validity_other_index,
    };

    let work = shared_table
        .import_remote_statement(&DummyRouter::default(), Vec::new(), signed_statement, consult)
        .1
        .expect("candidate and local validity group are same");
    assert_eq!(work.work.candidate_receipt, candidate_of(para_id));
    assert_eq!(work.relay_parent, parent_hash);
    assert_eq!(work.max_block_data_size, None);
    assert_eq!(work.work.fetch.wait().unwrap(), pov_block_with_data(vec![1, 2, 3, 4, 5]));
}

#[test]
fn statement_triggers_fetch_and_validity() {
    let mut groups = HashMap::new();

    let para_id = ParaId::from(1u8);
    let parent_hash = H256([0; 32]);

    let local_key = alice();
    let local_id = local_key.public();

    let validity_other_key = bob();
    let validity_other = validity_other_key.public();
    let validity_other_index: ValidatorIndex = 1;

    groups.insert(
        para_id,
        GroupInfo {
            validity_guarantors: vec![local_id, validity_other],
            needed_validity: 1,
        },
    );

    let mut shared_table: SharedTable<()> =
        SharedTable::new(&[local_id, validity_other], groups, local_key, parent_hash, None);

    let candidate_statement = GenericStatement::Candidate(candidate_of(para_id));

    let signature = sign_table_statement(&candidate_statement, &validity_other_key, &parent_hash);
    let signed_statement = SignedStatement {
        statement: candidate_statement,
        signature,
        sender: validity_other_index,
    };

    shared_table
        .import_remote_statement(&DummyRouter::default(), Vec::new(), signed_statement, consult)
        .1
        .expect("should produce work");
}

#[test]
fn evaluate_makes_block_data_available() {
    let mut store = Store::default();
    let relay_parent = H256([0; 32]);
    let para_id: ParaId = 5;
    let pov_block = pov_block_with_data(vec![1, 2, 3]);

    let candidate = candidate_of(para_id);

    let hash = candidate.hash();

    let producer: ParachainWork<future::FutureResult<_, std::io::Error>> = ParachainWork {
        work: Work { candidate_receipt: candidate, fetch: future::ok(pov_block.clone()) },
        relay_parent,
        max_block_data_size: None,
    };

    let mut primed = producer.prime_with(|_, _| Ok(Extrinsic { outgoing_messages: Vec::new() }));
    let fetched = match primed.inner.work.fetch.poll() {
        Ok(Async::Ready(fetched)) => fetched,
        _ => panic!("the block is there"),
    };
    let validated = primed.complete(fetched, |data| store.make_available(data)).unwrap();

    assert_eq!(validated.pov_block(), &pov_block);
    assert_eq!(validated.statement(), &GenericStatement::Valid(hash));

    assert_eq!(store.block_data(relay_parent, hash).unwrap(), pov_block.block_data);
    assert!(store.extrinsic(relay_parent, hash).is_some());
}

#[test]
fn full_availability() {
    let mut store = Store::default();
    let relay_parent = H256([0; 32]);
    let para_id: ParaId = 5;
    let pov_block = pov_block_with_data(vec![1, 2, 3]);

    let candidate = candidate_of(para_id);

    let hash = candidate.hash();

    let producer = ParachainWork {
        work: Work {
            candidate_receipt: candidate,
            fetch: future::ok::<_, std::io::Error>(pov_block.clone()),
        },
        relay_parent,
        max_block_data_size: None,
    };

    let mut primed = producer.prime_with(|_, _| Ok(Extrinsic { outgoing_messages: Vec::new() }));
    let fetched = match primed.inner.work.fetch.poll() {
        Ok(Async::Ready(fetched)) => fetched,
        _ => panic!("the block is there"),
    };
    let validated = primed.complete(fetched, |data| store.make_available(data)).unwrap();

    assert_eq!(validated.pov_block(), &pov_block);

    assert_eq!(store.block_data(relay_parent, hash).unwrap(), pov_block.block_data);
    assert!(store.extrinsic(relay_parent, hash).is_some());
}

#[test]
fn does_not_dispatch_work_after_starting_validation() {
    let mut groups = HashMap::new();

    let para_id = ParaId::from(1u8);
    let parent_hash = H256([0; 32]);

    let local_key = alice();
    let local_id = local_key.public();

    let validity_other_key = bob();
    let validity_other = validity_other_key.public();
    let validity_other_index: ValidatorIndex = 1;

    groups.insert(
        para_id,
        GroupInfo {
            validity_guarantors: vec![local_id, validity_other],
            needed_validity: 1,
        },
    );

    let mut shared_table: SharedTable<()> =
        SharedTable::new(&[local_id, validity_other], groups, local_key, parent_hash, None);

    let candidate = candidate_of(para_id);

    let hash = candidate.hash();
    let candidate_statement = GenericStatement::Candidate(candidate);

    let signature = sign_table_statement(&candidate_statement, &validity_other_key, &parent_hash);
    let signed_statement = SignedStatement {
        statement: candidate_statement,
        signature,
        sender: validity_other_index,
    };

    let router = DummyRouter::default();
    let (table, a) = shared_table.import_remote_statement(
        &router,
        Vec::new(),
        signed_statement.clone(),
        consult,
    );
    let _a = a.expect("should produce work");

    assert!(shared_table
        .validation_work(&hash)
        .expect("validation has started")
        .is_in_progress());

    let (_, b) = shared_table.import_remote_statement(
        &router,
        table,
        signed_statement.clone(),
        consult,
    );

    assert!(b.is_none(), "cannot work when validation has started");
    assert_eq!(router.fetches.get(), 1);
}

#[test]
fn does_not_dispatch_after_local_candidate() {
    let mut groups = HashMap::new();

    let para_id = ParaId::from(1u8);
    let pov_block = pov_block_with_data(vec![1, 2, 3]);
    let extrinsic = Extrinsic { outgoing_messages: Vec::new() };
    let parent_hash = H256([0; 32]);

    let local_key = alice();
    let local_id = local_key.public();

    let validity_other_key = bob();
    let validity_other = validity_other_key.public();

    groups.insert(
        para_id,
        GroupInfo {
            validity_guarantors: vec![local_id, validity_other],
            needed_validity: 1,
        },
    );

    let mut shared_table: SharedTable<()> =
        SharedTable::new(&[local_id, validity_other], groups, local_key, parent_hash, None);

    let candidate = candidate_of(para_id);

    let hash = candidate.hash();
    let signed_statement = shared_table
        .import_validated(
            Validated::collated_local(candidate, pov_block, extrinsic),
            payload,
            |_, _| (),
        );

    assert!(shared_table
        .validation_work(&hash)
        .expect("validation has started")
        .is_done());

    let router = DummyRouter::default();
    let (_, a) = shared_table.import_remote_statement(
        &router,
        Vec::new(),
        signed_statement,
        consult,
    );

    assert!(a.is_none());
    assert_eq!(router.fetches.get(), 0);
}

#[test]
fn index_mapping_from_authorities() {
    let authorities_set: &[&[SessionKey]] = &[
        &[],
        &[alice().public()],
        &[alice().public(), bob().public()],
        &[bob().public(), alice().public()],
        &[alice().public(), bob().public(), charlie().public()],
        &[charlie().public(), bob().public(), alice().public()],
    ];

    for authorities in authorities_set {
        let shared_table: SharedTable<()> =
            SharedTable::new(authorities, HashMap::new(), alice(), H256([0; 32]), None);
        let expected_mapping = authorities
            .iter()
            .enumerate()
            .map(|(i, k)| (i as ValidatorIndex, k.clone()))
            .collect();
        assert_eq!(shared_table.context().index_mapping, expected_mapping);
    }
}

#[test]
fn second_vote_fetches_nothing() {
    let (a, b, d) = (alice(), bob(), charlie());
    let (a_id, b_id, d_id) = (a.public(), b.public(), d.public());
    let parent_hash = H256([0; 32]);
    let mut groups = HashMap::new();
    groups.insert(
        1,
        GroupInfo { validity_guarantors: vec![a_id, b_id, d_id], needed_validity: 3 },
    );
    let mut shared_table: SharedTable<()> =
        SharedTable::new(&[a_id, b_id, d_id], groups, a, parent_hash, None);
    let candidate = candidate_of(1);
    let hash = candidate.hash();
    let brought = GenericStatement::Candidate(candidate);
    let voted = GenericStatement::Valid(hash);
    let statements = vec![
        SignedStatement {
            signature: sign_table_statement(&brought, &b, &parent_hash),
            statement: brought,
            sender: 1,
        },
        SignedStatement {
            signature: sign_table_statement(&voted, &d, &parent_hash),
            statement: voted,
            sender: 2,
        },
    ];

    let router = DummyRouter::default();
    let (table, works) =
        shared_table.import_remote_statements(&router, Vec::new(), statements, consult);
    assert_eq!(table, vec![candidate_of(1)]);
    assert_eq!(works.len(), 2);
    assert!(works[0].is_some());
    assert!(works[1].is_none());
    assert_eq!(router.fetches.get(), 1);
}

#[test]
fn outside_the_group_nothing_is_fetched() {
    let (a_id, b_id) = (alice().public(), bob().public());
    let parent_hash = H256([0; 32]);
    let mut groups = HashMap::new();
    groups.insert(1, GroupInfo { validity_guarantors: vec![b_id], needed_validity: 1 });
    let mut shared_table: SharedTable<()> =
        SharedTable::new(&[a_id, b_id], groups, alice(), parent_hash, None);
    let statement = GenericStatement::Candidate(candidate_of(1));
    let signed_statement = SignedStatement {
        signature: sign_table_statement(&statement, &bob(), &parent_hash),
        statement,
        sender: 1,
    };

    let router = DummyRouter::default();
    let (table, work) = shared_table.import_remote_statement(
        &router,
        Vec::new(),
        signed_statement,
        consult,
    );
    assert!(work.is_none());
    assert!(shared_table.validation_work(&candidate_of(1).hash()).is_none());
    assert_eq!(router.fetches.get(), 0);
    assert_eq!(table, vec![candidate_of(1)]);
}

#[test]
fn refused_candidate_is_not_stored() {
    let mut store = Store::default();
    let relay_parent = H256([0; 32]);
    let pov_block = pov_block_with_data(vec![1, 2, 3]);
    let candidate = candidate_of(5);
    let hash = candidate.hash();
    let work = ParachainWork {
        work: Work { candidate_receipt: candidate, fetch: () },
        relay_parent,
        max_block_data_size: None,
    };
    let validated = work
        .prime_with(|_, _| Err(()))
        .complete(pov_block.clone(), |data| store.make_available(data))
        .unwrap();
    assert_eq!(validated.statement(), &GenericStatement::Invalid(hash));
    assert_eq!(validated.pov_block(), &pov_block);
    assert_eq!(validated.extrinsic(), None);
    assert_eq!(store.block_data(relay_parent, hash), None);
    assert_eq!(store.extrinsic(relay_parent, hash), None);
}
