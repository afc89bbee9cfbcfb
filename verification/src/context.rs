//! Who the validators are, which parachain each guards, and which one of them is local.
use crate::crypto::{ed25519_signature, Pair};
use crate::primitives::{H256, ParaId, SessionKey, Signature, ValidatorIndex};
use crate::statement::{SignedStatement, Statement};
use std::collections::HashMap;
use vstd::prelude::*;

verus! {

/// The validators assigned to a parachain.
#[derive(Clone, Debug, PartialEq, Eq)]
pub struct GroupInfo {
    /// The validators that vouch for the parachain's candidates. A validator is a member of the
    /// group if its key occurs here, however often.
    pub validity_guarantors: Vec<SessionKey>,
    /// How many votes a candidate of the parachain needs.
    pub needed_validity: usize,
}

impl GroupInfo {
    /// The members of the group.
    pub open spec fn guarantors(self) -> Set<SessionKey> {
        self.validity_guarantors@.to_set()
    }

    /// Whether the key belongs to a member of the group.
    pub fn is_guarantor(&self, key: &SessionKey) -> (member: bool)
        ensures
            member == self.guarantors().contains(*key),
    {
        let mut i: usize = 0;
        while i < self.validity_guarantors.len()
            invariant
                i <= self.validity_guarantors@.len(),
                forall|j: int| 0 <= j < i ==> self.validity_guarantors@[j] != *key,
            decreases self.validity_guarantors@.len() - i,
        {
            if self.validity_guarantors[i] == *key {
                assert(self.validity_guarantors@.contains(*key));
                return true;
            }
            i += 1;
        }
        assert(!self.validity_guarantors@.contains(*key));
        false
    }
}

/// The index of each of the authorities: every authority is mapped from its position in the
/// list, taken as a validator index.
pub open spec fn index_mapping_of(authorities: Seq<SessionKey>) -> Map<ValidatorIndex, SessionKey>
    decreases authorities.len(),
{
    if authorities.len() == 0 {
        Map::empty()
    } else {
        index_mapping_of(authorities.drop_last()).insert(
            (authorities.len() - 1) as ValidatorIndex,
            authorities.last(),
        )
    }
}

/// What the table knows of the validators.
pub struct TableContext {
    /// The relay-chain block that statements are localised to.
    pub parent_hash: H256,
    /// The local validator's key pair.
    pub key: Pair,
    /// The group of each parachain.
    pub groups: HashMap<ParaId, GroupInfo>,
    /// The key of each validator.
    pub index_mapping: HashMap<ValidatorIndex, SessionKey>,
}

impl TableContext {
    /// Whether the key belongs to a member of the parachain's group.
    pub open spec fn guards(self, key: SessionKey, group: ParaId) -> bool {
        self.groups@.contains_key(group) && self.groups@[group].guarantors().contains(key)
    }

    /// Whether the index is one of the local validator's.
    pub open spec fn is_local(self, index: ValidatorIndex) -> bool {
        self.index_mapping@.contains_key(index) && self.index_mapping@[index]
            == self.key.public_key()
    }

    /// Whether the local validator is among the authorities.
    pub open spec fn has_local_index(self) -> bool {
        exists|index: ValidatorIndex| self.is_local(index)
    }

    /// The context of the given authorities, of which the key pair's holder is the local one.
    pub fn new(
        authorities: &[SessionKey],
        groups: HashMap<ParaId, GroupInfo>,
        key: Pair,
        parent_hash: H256,
    ) -> (context: TableContext)
        ensures
            context.parent_hash == parent_hash,
            context.key == key,
            context.groups == groups,
            context.index_mapping@ == index_mapping_of(authorities@),
    {
        let mut index_mapping: HashMap<ValidatorIndex, SessionKey> = HashMap::new();
        let mut i: usize = 0;
        assert(authorities@.take(0).len() == 0);
        while i < authorities.len()
            invariant
                i <= authorities@.len(),
                index_mapping@ == index_mapping_of(authorities@.take(i as int)),
            decreases authorities@.len() - i,
        {
            index_mapping.insert(i as ValidatorIndex, authorities[i]);
            assert(authorities@.take(i + 1).drop_last() == authorities@.take(i as int));
            i += 1;
        }
        assert(authorities@.take(i as int) == authorities@);
        TableContext { parent_hash, key, groups, index_mapping }
    }

    /// Whether the validator with the given index is a member of the parachain's group.
    pub fn is_member_of(&self, authority: ValidatorIndex, group: &ParaId) -> (member: bool)
        ensures
            member == (self.index_mapping@.contains_key(authority) && self.guards(
                self.index_mapping@[authority],
                *group,
            )),
    {
        let key = match self.index_mapping.get(&authority) {
            Some(key) => key,
            None => return false,
        };
        match self.groups.get(group) {
            Some(info) => info.is_guarantor(key),
            None => false,
        }
    }

    /// How many votes a candidate of the parachain needs. No number of votes is enough for a
    /// parachain without a group.
    pub fn requisite_votes(&self, group: &ParaId) -> (votes: usize)
        ensures
            votes == if self.groups@.contains_key(*group) {
                self.groups@[*group].needed_validity
            } else {
                usize::MAX
            },
    {
        match self.groups.get(group) {
            Some(info) => info.needed_validity,
            None => usize::MAX,
        }
    }

    /// The local validator's session key.
    pub fn local_id(&self) -> (id: SessionKey)
        ensures
            id == self.key.public_key(),
    {
        self.key.public()
    }

    /// An index of the local validator, if it has one. Which one, if it has several, is left
    /// open.
    pub fn find_local_index(&self) -> (found: Option<ValidatorIndex>)
        ensures
            match found {
                Some(index) => self.is_local(index),
                None => !self.has_local_index(),
            },
    {
        let id = self.local_id();
        for (index, key) in entries: self.index_mapping.iter()
            invariant
                id == self.key.public_key(),
                forall|j: int| 0 <= j < entries.index() ==> *(#[trigger] entries.seq()[j]).1 != id,
        {
            if *key == id {
                assert(self.is_local(*index));
                return Some(*index);
            }
        }
        None
    }

    /// An index of the local validator. Which one, if it has several, is left open.
    pub fn local_index(&self) -> (index: ValidatorIndex)
        requires
            self.has_local_index(),
        ensures
            self.is_local(index),
    {
        self.find_local_index().unwrap()
    }

    /// Whether a signed statement is the local validator's, with its signature on the payload.
    pub open spec fn signs(self, signed: SignedStatement, statement: Statement, payload: Seq<u8>)
        -> bool {
        &&& signed.statement == statement
        &&& signed.signature == Signature(ed25519_signature(self.key.secret(), payload))
        &&& self.is_local(signed.sender)
    }

    /// Signs a statement in the name of the local validator. What has to be signed, `payload`
    /// works out of the statement and the parent hash.
    pub fn sign_statement<P>(&self, statement: Statement, payload: P) -> (signed:
        SignedStatement) where P: FnOnce(&Statement, &H256) -> Vec<u8>
        requires
            self.has_local_index(),
            call_requires(payload, (&statement, &self.parent_hash)),
        ensures
            exists|bytes: Vec<u8>| #[trigger]
                call_ensures(payload, (&statement, &self.parent_hash), bytes) && self.signs(
                    signed,
                    statement,
                    bytes@,
                ),
    {
        let bytes = payload(&statement, &self.parent_hash);
        let signature = self.key.sign(bytes.as_slice());
        SignedStatement { statement, signature, sender: self.local_index() }
    }
}

} // verus!
