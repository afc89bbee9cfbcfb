//! The plain values that the shared table passes around.
use vstd::prelude::*;

verus! {

/// Identifies a parachain.
pub type ParaId = u32;

/// The position of a validator in the list of authorities.
pub type ValidatorIndex = u32;

/// A 256-bit digest.
#[derive(Clone, Copy, Debug)]
pub struct H256(pub [u8; 32]);

/// The public half of a validator's session key.
#[derive(Clone, Copy, Debug)]
pub struct SessionKey(pub [u8; 32]);

/// A validator's signature on a statement.
#[derive(Clone, Copy, Debug, PartialEq, Eq)]
pub struct Signature(pub [u8; 64]);

/// Whether two blocks of 32 bytes hold the same bytes.
fn same_bytes(a: &[u8; 32], b: &[u8; 32]) -> (same: bool)
    ensures
        same == (*a == *b),
{
    let mut i: usize = 0;
    while i < 32
        invariant
            i <= 32,
            forall|j: int| 0 <= j < i ==> a[j] == b[j],
        decreases 32 - i,
    {
        if a[i] != b[i] {
            return false;
        }
        i += 1;
    }
    assert(*a =~= *b);
    true
}

impl PartialEq for H256 {
    fn eq(&self, other: &Self) -> (same: bool) {
        same_bytes(&self.0, &other.0)
    }
}

impl vstd::std_specs::cmp::PartialEqSpecImpl for H256 {
    open spec fn obeys_eq_spec() -> bool {
        true
    }

    open spec fn eq_spec(&self, other: &Self) -> bool {
        *self == *other
    }
}

impl Eq for H256 {

}

impl PartialEq for SessionKey {
    fn eq(&self, other: &Self) -> (same: bool) {
        same_bytes(&self.0, &other.0)
    }
}

impl vstd::std_specs::cmp::PartialEqSpecImpl for SessionKey {
    open spec fn obeys_eq_spec() -> bool {
        true
    }

    open spec fn eq_spec(&self, other: &Self) -> bool {
        *self == *other
    }
}

impl Eq for SessionKey {

}

/// The hexadecimal digit of a number below 16, in lower case.
pub open spec fn hex_digit(n: int) -> char {
    if n < 10 {
        ('0' as int + n) as char
    } else {
        ('a' as int + n - 10) as char
    }
}

/// A byte as two hexadecimal digits.
pub open spec fn hex_byte(byte: u8) -> Seq<char> {
    seq![hex_digit(byte as int / 16), hex_digit(byte as int % 16)]
}

/// A digest as it is shown to people: its first two and its last two bytes.
pub open spec fn abbreviated(digest: H256) -> Seq<char> {
    seq!['0', 'x'] + hex_byte(digest.0[0]) + hex_byte(digest.0[1]) + seq!['\u{2026}'] + hex_byte(
        digest.0[30],
    ) + hex_byte(digest.0[31])
}

/// Formats a digest with the `Display` of `sp_core::H256`.
///
/// Claims that it writes `0x`, the first two bytes in hexadecimal, an ellipsis and the last two
/// bytes.
#[verifier::external_body]
fn display_h256(bytes: &[u8; 32]) -> (text: String)
    ensures
        text@ == abbreviated(H256(*bytes)),
{
    format!("{}", sp_core::H256(*bytes))
}

impl H256 {
    /// The digest as it is shown to people.
    pub fn abbreviate(&self) -> (text: String)
        ensures
            text@ == abbreviated(*self),
    {
        display_h256(&self.0)
    }
}

/// Names a relay-chain block by its hash.
#[derive(Clone, Copy, Debug, PartialEq, Eq)]
pub struct BlockId(pub H256);

impl BlockId {
    /// The block with the given hash.
    pub fn hash(hash: H256) -> (id: BlockId)
        ensures
            id == BlockId(hash),
    {
        BlockId(hash)
    }
}

/// The data of a parachain block.
#[derive(Clone, Debug, PartialEq, Eq)]
pub struct BlockData(pub Vec<u8>);

/// The head of a parachain after a block.
#[derive(Clone, Debug, PartialEq, Eq)]
pub struct HeadData(pub Vec<u8>);

/// The messages routed to a parachain, grouped by the parachain that sent them.
#[derive(Clone, Debug, PartialEq, Eq)]
pub struct ConsolidatedIngress(pub Vec<(ParaId, Vec<Vec<u8>>)>);

/// A block together with the messages needed to check that it is valid.
#[derive(Clone, Debug, PartialEq, Eq)]
pub struct PoVBlock {
    /// The block's data.
    pub block_data: BlockData,
    /// The messages that the block consumes.
    pub ingress: ConsolidatedIngress,
}

/// A message from one parachain to another.
#[derive(Clone, Debug, PartialEq, Eq)]
pub struct OutgoingMessage {
    /// The parachain that receives the message.
    pub target: ParaId,
    /// The message.
    pub data: Vec<u8>,
}

/// What a parachain block yields besides its head: the messages it sends.
#[derive(Clone, Debug, PartialEq, Eq)]
pub struct Extrinsic {
    /// The messages sent to other parachains.
    pub outgoing_messages: Vec<OutgoingMessage>,
}

/// A collator's claim that a parachain block is a candidate for inclusion.
#[derive(Clone, Debug, PartialEq, Eq)]
pub struct CandidateReceipt {
    /// The parachain that the candidate belongs to.
    pub parachain_index: ParaId,
    /// The collator's account.
    pub collator: [u8; 32],
    /// The collator's signature on the block data.
    pub signature: [u8; 64],
    /// The head after the candidate.
    pub head_data: HeadData,
    /// The root of the messages sent to each parachain.
    pub egress_queue_roots: Vec<(ParaId, H256)>,
    /// The fees paid to the validators.
    pub fees: u64,
    /// The hash of the block data.
    pub block_data_hash: H256,
    /// The messages for the relay chain, each in its encoded form.
    pub upward_messages: Vec<Vec<u8>>,
    /// The digest of the encoded receipt, by which the statement table knows the candidate.
    pub candidate_hash: H256,
}

impl CandidateReceipt {
    /// The digest by which the candidate is known.
    pub fn hash(&self) -> (hash: H256)
        ensures
            hash == self.candidate_hash,
    {
        self.candidate_hash
    }
}

/// A candidate with the block that shows its validity.
#[derive(Clone, Debug, PartialEq, Eq)]
pub struct Collation {
    /// The block and the messages that it consumes.
    pub pov: PoVBlock,
    /// The receipt of the candidate.
    pub receipt: CandidateReceipt,
}

} // verus!
