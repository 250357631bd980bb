//! The share record: one externally produced proof-of-work submission, in
//! the shape a future hash-linked share chain will store and gossip.
//!
//! Pure data, immutable once constructed. Equality is full-content
//! equality and nothing else; no order is defined, because a field-wise
//! order has no chain meaning.

use vstd::prelude::*;

verus! {

/// Captures one block on the share chain.
#[derive(Debug)]
pub struct ShareBlock {
    /// The nonce from the miner.
    nonce: Vec<u8>,
    /// The hash of the full block the share is generated for.
    blockhash: Vec<u8>,
    /// The hash of the previous share block, linking the chain.
    prev_share_blockhash: Vec<u8>,
    /// Encoded public key identifying the miner the share is for.
    miner_pubkey: Vec<u8>,
    /// Unix timestamp of the share generation time.
    timestamp: u64,
    /// Hashes of any transactions to be included in the share block.
    tx_hashes: Vec<Vec<u8>>,
}

impl ShareBlock {
    pub closed spec fn nonce(&self) -> Seq<u8> {
        self.nonce@
    }

    pub closed spec fn blockhash(&self) -> Seq<u8> {
        self.blockhash@
    }

    pub closed spec fn prev_share_blockhash(&self) -> Seq<u8> {
        self.prev_share_blockhash@
    }

    pub closed spec fn miner_pubkey(&self) -> Seq<u8> {
        self.miner_pubkey@
    }

    pub closed spec fn timestamp(&self) -> u64 {
        self.timestamp
    }

    pub closed spec fn tx_hashes(&self) -> Seq<Seq<u8>> {
        self.tx_hashes.deep_view()
    }

    /// Builds a share record; the fields never change afterwards, and the
    /// record is handed onward by move, never shared mutably.
    pub fn new(
        nonce: Vec<u8>,
        blockhash: Vec<u8>,
        prev_share_blockhash: Vec<u8>,
        miner_pubkey: Vec<u8>,
        timestamp: u64,
        tx_hashes: Vec<Vec<u8>>,
    ) -> (r: ShareBlock)
        ensures
            r.nonce() == nonce@,
            r.blockhash() == blockhash@,
            r.prev_share_blockhash() == prev_share_blockhash@,
            r.miner_pubkey() == miner_pubkey@,
            r.timestamp() == timestamp,
            r.tx_hashes() == tx_hashes.deep_view(),
    {
        ShareBlock { nonce, blockhash, prev_share_blockhash, miner_pubkey, timestamp, tx_hashes }
    }
}

/// Byte-sequence equality, decided element by element.
fn bytes_eq(a: &Vec<u8>, b: &Vec<u8>) -> (r: bool)
    ensures
        r == (a@ == b@),
{
    if a.len() != b.len() {
        return false;
    }
    let n = a.len();
    let mut i: usize = 0;
    while i < n
        invariant
            i <= n,
            n == a.len(),
            a.len() == b.len(),
            forall|k: int| 0 <= k < i ==> a@[k] == b@[k],
        decreases n - i,
    {
        if a[i] != b[i] {
            return false;
        }
        i += 1;
    }
    proof {
        assert(a@ =~= b@);
    }
    true
}

/// Equality of two lists of byte sequences, content for content.
fn hash_list_eq(a: &Vec<Vec<u8>>, b: &Vec<Vec<u8>>) -> (r: bool)
    ensures
        r == (a.deep_view() == b.deep_view()),
{
    if a.len() != b.len() {
        proof {
            assert(a.deep_view().len() != b.deep_view().len());
        }
        return false;
    }
    let n = a.len();
    let mut i: usize = 0;
    while i < n
        invariant
            i <= n,
            n == a.len(),
            a.len() == b.len(),
            forall|k: int| 0 <= k < i ==> a@[k]@ == b@[k]@,
        decreases n - i,
    {
        if !bytes_eq(&a[i], &b[i]) {
            proof {
                assert(a.deep_view()[i as int] == a@[i as int]@);
                assert(b.deep_view()[i as int] == b@[i as int]@);
            }
            return false;
        }
        i += 1;
    }
    proof {
        assert forall|k: int| 0 <= k < n implies a.deep_view()[k] == b.deep_view()[k] by {
            assert(a.deep_view()[k] == a@[k]@);
            assert(b.deep_view()[k] == b@[k]@);
        }
        assert(a.deep_view() =~= b.deep_view());
    }
    true
}

impl PartialEq for ShareBlock {
    /// Full-content equality over every field.
    fn eq(&self, other: &ShareBlock) -> (r: bool) {
        bytes_eq(&self.nonce, &other.nonce) && bytes_eq(&self.blockhash, &other.blockhash)
            && bytes_eq(&self.prev_share_blockhash, &other.prev_share_blockhash) && bytes_eq(
            &self.miner_pubkey,
            &other.miner_pubkey,
        ) && self.timestamp == other.timestamp && hash_list_eq(&self.tx_hashes, &other.tx_hashes)
    }
}

impl Eq for ShareBlock {

}

impl vstd::std_specs::cmp::PartialEqSpecImpl for ShareBlock {
    open spec fn obeys_eq_spec() -> bool {
        true
    }

    /// What `==` means for a share: every field's content agrees.
    open spec fn eq_spec(&self, other: &ShareBlock) -> bool {
        &&& self.nonce() == other.nonce()
        &&& self.blockhash() == other.blockhash()
        &&& self.prev_share_blockhash() == other.prev_share_blockhash()
        &&& self.miner_pubkey() == other.miner_pubkey()
        &&& self.timestamp() == other.timestamp()
        &&& self.tx_hashes() == other.tx_hashes()
    }
}

} // verus!
