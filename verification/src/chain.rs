//! The hash-linked chain of blocks: construction, hashing, verification,
//! and the set of addresses the chain mentions.
use vstd::prelude::*;
use vstd::string::StringExecFns;
use crate::crypto::{sha256_hex_of, sha256_hex_str, now_rfc3339};
use crate::numfmt::{spec_dec, u64_to_dec};

verus! {

/// A value transfer recorded in a block. Immutable once embedded; no
/// uniqueness constraint.
#[derive(Clone, Debug)]
pub struct Transaction {
    pub from: String,
    pub to: String,
    pub amount: u64,
}

/// One block of the chain, cryptographically bound to its predecessor
/// through `previous_hash`.
#[derive(Clone, Debug)]
pub struct Block {
    pub index: u64,
    pub timestamp: String,
    pub transactions: Vec<Transaction>,
    pub previous_hash: String,
    pub hash: String,
}

/// Serialization of one transaction: sender, recipient and decimal
/// amount, concatenated without delimiters.
pub open spec fn tx_serial(t: Transaction) -> Seq<char> {
    t.from@ + t.to@ + spec_dec(t.amount as nat)
}

/// Serialization of a transaction sequence, in order, without delimiters.
pub open spec fn txs_serial(s: Seq<Transaction>) -> Seq<char>
    decreases s.len(),
{
    if s.len() == 0 {
        Seq::empty()
    } else {
        txs_serial(s.drop_last()) + tx_serial(s.last())
    }
}

/// The exact preimage of a block's hash: decimal index, timestamp,
/// serialized transactions and previous hash, concatenated in that order.
/// This ordering is part of the external contract: chains hashed in any
/// other order are mutually unverifiable.
pub open spec fn block_message(
    index: u64,
    timestamp: Seq<char>,
    txs: Seq<Transaction>,
    previous_hash: Seq<char>,
) -> Seq<char> {
    spec_dec(index as nat) + timestamp + txs_serial(txs) + previous_hash
}

/// The hash a block with the given fields must carry: the SHA-256 hex
/// digest of the UTF-8 bytes of its message.
pub open spec fn spec_block_hash(
    index: u64,
    timestamp: Seq<char>,
    txs: Seq<Transaction>,
    previous_hash: Seq<char>,
) -> Seq<char> {
    sha256_hex_of(vstd::utf8::encode_utf8(block_message(index, timestamp, txs, previous_hash)))
}

/// Every block's stored hash matches its recomputed hash, and every
/// block's `previous_hash` is its predecessor's stored hash.
pub open spec fn chain_valid(s: Seq<Block>) -> bool {
    &&& forall|i: int| 0 <= i < s.len() ==> (#[trigger] s[i]).wf()
    &&& forall|i: int| 1 <= i < s.len() ==> (#[trigger] s[i]).previous_hash@ == s[i - 1].hash@
}

impl Block {
    /// The stored hash is the hash of the stored fields.
    pub open spec fn wf(self) -> bool {
        self.hash@ == spec_block_hash(
            self.index,
            self.timestamp@,
            self.transactions@,
            self.previous_hash@,
        )
    }

    /// Computes the hash of the given block fields, serialized exactly as
    /// `block_message` describes.
    pub fn calculate_hash(
        index: u64,
        timestamp: &str,
        transactions: &Vec<Transaction>,
        previous_hash: &str,
    ) -> (r: String)
        ensures
            r@ == spec_block_hash(index, timestamp@, transactions@, previous_hash@),
    {
        let mut message = u64_to_dec(index);
        message.append(timestamp);
        let mut i: usize = 0;
        while i < transactions.len()
            invariant
                i <= transactions@.len(),
                message@ == spec_dec(index as nat) + timestamp@ + txs_serial(
                    transactions@.take(i as int),
                ),
            decreases transactions@.len() - i,
        {
            let ghost prefix = transactions@.take(i as int);
            message.append(transactions[i].from.as_str());
            message.append(transactions[i].to.as_str());
            let amount_text = u64_to_dec(transactions[i].amount);
            message.append(amount_text.as_str());
            proof {
                let next = transactions@.take(i + 1 as int);
                assert(next.drop_last() =~= prefix);
                assert(next.last() == transactions@[i as int]);
                assert(message@ =~= spec_dec(index as nat) + timestamp@ + txs_serial(next));
            }
            i = i + 1;
        }
        message.append(previous_hash);
        proof {
            assert(transactions@.take(transactions@.len() as int) =~= transactions@);
            assert(message@ =~= block_message(index, timestamp@, transactions@, previous_hash@));
        }
        sha256_hex_str(message.as_str())
    }

    /// Builds a block with a fresh timestamp and the hash of its own
    /// fields.
    pub fn new(index: u64, transactions: Vec<Transaction>, previous_hash: String) -> (b: Block)
        ensures
            b.index == index,
            b.transactions@ == transactions@,
            b.previous_hash@ == previous_hash@,
            b.wf(),
    {
        let timestamp = now_rfc3339();
        let hash = Block::calculate_hash(
            index,
            timestamp.as_str(),
            &transactions,
            previous_hash.as_str(),
        );
        Block { index, timestamp, transactions, previous_hash, hash }
    }
}

/// The chain's fixed first block: index 0, no transactions, previous
/// hash "0". A one-block chain made of it is valid.
pub fn create_genesis_block() -> (b: Block)
    ensures
        b.index == 0,
        b.transactions@.len() == 0,
        b.previous_hash@ == "0"@,
        b.wf(),
        chain_valid(seq![b]),
{
    let b = Block::new(0, Vec::new(), "0".to_owned());
    proof {
        assert(seq![b][0] == b);
    }
    b
}

/// Appends a new block holding the given transactions: its index is one
/// past the last block's, its `previous_hash` the last block's hash.
/// Appending to a valid chain keeps it valid.
pub fn add_block(chain: &mut Vec<Block>, transactions: Vec<Transaction>)
    requires
        old(chain)@.len() > 0,
        old(chain)@.last().index < u64::MAX,
    ensures
        final(chain)@.len() == old(chain)@.len() + 1,
        final(chain)@.drop_last() == old(chain)@,
        final(chain)@.last().wf(),
        final(chain)@.last().index == old(chain)@.last().index + 1,
        final(chain)@.last().previous_hash@ == old(chain)@.last().hash@,
        final(chain)@.last().transactions@ == transactions@,
        chain_valid(old(chain)@) ==> chain_valid(final(chain)@),
{
    let n = chain.len();
    let previous_index = chain[n - 1].index;
    let previous_hash = chain[n - 1].hash.clone();
    let block = Block::new(previous_index + 1, transactions, previous_hash);
    chain.push(block);
    proof {
        assert(final(chain)@.drop_last() =~= old(chain)@);
        if chain_valid(old(chain)@) {
            lemma_append_preserves_validity(old(chain)@, final(chain)@.last());
            assert(old(chain)@.push(final(chain)@.last()) =~= final(chain)@);
        }
    }
}

/// Recomputes every block's hash from its stored fields and checks it
/// against both the stored hash and the next block's `previous_hash`.
pub fn verify_chain(chain: &Vec<Block>) -> (r: bool)
    ensures
        r == chain_valid(chain@),
{
    let mut i: usize = 0;
    while i < chain.len()
        invariant
            i <= chain@.len(),
            forall|j: int| 0 <= j < i ==> (#[trigger] chain@[j]).wf(),
            forall|j: int| 1 <= j < i ==> (#[trigger] chain@[j]).previous_hash@ == chain@[j
                - 1].hash@,
        decreases chain@.len() - i,
    {
        let block = &chain[i];
        let recomputed = Block::calculate_hash(
            block.index,
            block.timestamp.as_str(),
            &block.transactions,
            block.previous_hash.as_str(),
        );
        if !recomputed.eq(&block.hash) {
            return false;
        }
        if i > 0 {
            if !block.previous_hash.eq(&chain[i - 1].hash) {
                return false;
            }
        }
        i = i + 1;
    }
    true
}

/// Appending a well-formed block whose `previous_hash` is the last
/// block's hash keeps a valid chain valid. Hence every chain built
/// solely by genesis and append is valid.
pub proof fn lemma_append_preserves_validity(s: Seq<Block>, b: Block)
    requires
        chain_valid(s),
        b.wf(),
        s.len() > 0 ==> b.previous_hash@ == s.last().hash@,
    ensures
        chain_valid(s.push(b)),
{
    let s2 = s.push(b);
    assert forall|i: int| 0 <= i < s2.len() implies (#[trigger] s2[i]).wf() by {
        if i < s.len() {
            assert(s2[i] == s[i]);
        }
    }
    assert forall|i: int| 1 <= i < s2.len() implies (#[trigger] s2[i]).previous_hash@ == s2[i
        - 1].hash@ by {
        if i < s.len() {
            assert(s2[i] == s[i]);
            assert(s2[i - 1] == s[i - 1]);
        } else {
            assert(s2[i - 1] == s[i - 1]);
        }
    }
}

/// Recomputing a well-formed block's hash from its stored fields
/// reproduces the stored hash exactly. This holds of every block the
/// library builds, the genesis block included.
pub proof fn lemma_hash_round_trip(b: Block)
    requires
        b.wf(),
    ensures
        spec_block_hash(b.index, b.timestamp@, b.transactions@, b.previous_hash@) == b.hash@,
{
}

/// The addresses a transaction sequence mentions as sender or recipient.
pub open spec fn txs_addrs(s: Seq<Transaction>) -> Set<Seq<char>>
    decreases s.len(),
{
    if s.len() == 0 {
        Set::empty()
    } else {
        txs_addrs(s.drop_last()).insert(s.last().from@).insert(s.last().to@)
    }
}

/// The union of all addresses appearing in any block's transactions,
/// independent of any registry.
pub open spec fn chain_addrs(s: Seq<Block>) -> Set<Seq<char>>
    decreases s.len(),
{
    if s.len() == 0 {
        Set::empty()
    } else {
        chain_addrs(s.drop_last()).union(txs_addrs(s.last().transactions@))
    }
}

/// The set of views of the strings in a sequence.
pub open spec fn addr_set_of(v: Seq<String>) -> Set<Seq<char>>
    decreases v.len(),
{
    if v.len() == 0 {
        Set::empty()
    } else {
        addr_set_of(v.drop_last()).insert(v.last()@)
    }
}

/// No two strings in the sequence read the same.
pub open spec fn distinct_views(v: Seq<String>) -> bool {
    forall|j: int, k: int| 0 <= j < k < v.len() ==> (#[trigger] v[j])@ != (#[trigger] v[k])@
}

/// Membership in `addr_set_of` is exactly having an index with that view.
proof fn lemma_addr_set_membership(v: Seq<String>, a: Seq<char>)
    ensures
        addr_set_of(v).contains(a) <==> exists|i: int| 0 <= i < v.len() && (#[trigger] v[i])@ == a,
    decreases v.len(),
{
    if v.len() == 0 {
    } else {
        lemma_addr_set_membership(v.drop_last(), a);
        assert(forall|i: int| 0 <= i < v.len() - 1 ==> (#[trigger] v.drop_last()[i])@ == v[i]@);
        if addr_set_of(v).contains(a) {
            if a == v.last()@ {
                assert(v[v.len() - 1]@ == a);
            } else {
                let i = choose|i: int|
                    0 <= i < v.drop_last().len() && (#[trigger] v.drop_last()[i])@ == a;
                assert(v[i]@ == a);
            }
        }
        if exists|i: int| 0 <= i < v.len() && (#[trigger] v[i])@ == a {
            let i = choose|i: int| 0 <= i < v.len() && (#[trigger] v[i])@ == a;
            if i == v.len() - 1 {
                assert(addr_set_of(v).contains(a));
            } else {
                assert(v.drop_last()[i]@ == a);
            }
        }
    }
}

/// Whether some string in the vector reads as `address` does.
fn contains_address(v: &Vec<String>, address: &String) -> (r: bool)
    ensures
        r == addr_set_of(v@).contains(address@),
{
    let mut i: usize = 0;
    while i < v.len()
        invariant
            i <= v@.len(),
            forall|j: int| 0 <= j < i ==> (#[trigger] v@[j])@ != address@,
        decreases v@.len() - i,
    {
        if v[i].eq(address) {
            proof {
                assert(v@[i as int]@ == address@);
                lemma_addr_set_membership(v@, address@);
            }
            return true;
        }
        i = i + 1;
    }
    proof {
        lemma_addr_set_membership(v@, address@);
    }
    false
}

/// Collects, without duplicates and in no promised order, every address
/// that appears as sender or recipient anywhere in the chain.
pub fn get_all_addresses(chain: &Vec<Block>) -> (r: Vec<String>)
    ensures
        addr_set_of(r@) == chain_addrs(chain@),
        distinct_views(r@),
{
    let mut result: Vec<String> = Vec::new();
    let mut i: usize = 0;
    while i < chain.len()
        invariant
            i <= chain@.len(),
            addr_set_of(result@) == chain_addrs(chain@.take(i as int)),
            distinct_views(result@),
        decreases chain@.len() - i,
    {
        let ghost chain_set = chain_addrs(chain@.take(i as int));
        let block = &chain[i];
        let mut j: usize = 0;
        while j < block.transactions.len()
            invariant
                i < chain@.len(),
                block == &chain@[i as int],
                j <= block.transactions@.len(),
                addr_set_of(result@) == chain_set.union(
                    txs_addrs(block.transactions@.take(j as int)),
                ),
                distinct_views(result@),
            decreases block.transactions@.len() - j,
        {
            let tx = &block.transactions[j];
            let ghost step_set = addr_set_of(result@);
            insert_address(&mut result, &tx.from);
            insert_address(&mut result, &tx.to);
            proof {
                let next = block.transactions@.take(j + 1 as int);
                assert(next.drop_last() =~= block.transactions@.take(j as int));
                assert(next.last() == block.transactions@[j as int]);
                assert(addr_set_of(result@) =~= chain_set.union(txs_addrs(next)));
            }
            j = j + 1;
        }
        proof {
            let next = chain@.take(i + 1 as int);
            assert(next.drop_last() =~= chain@.take(i as int));
            assert(next.last() == chain@[i as int]);
            assert(block.transactions@.take(block.transactions@.len() as int)
                =~= block.transactions@);
            assert(addr_set_of(result@) =~= chain_addrs(next));
        }
        i = i + 1;
    }
    proof {
        assert(chain@.take(chain@.len() as int) =~= chain@);
    }
    result
}

/// Appends the address unless an equal one is already present.
fn insert_address(v: &mut Vec<String>, address: &String)
    requires
        distinct_views(old(v)@),
    ensures
        addr_set_of(final(v)@) == addr_set_of(old(v)@).insert(address@),
        distinct_views(final(v)@),
{
    if !contains_address(v, address) {
        proof {
            lemma_addr_set_membership(v@, address@);
        }
        let ghost before = v@;
        v.push(address.clone());
        proof {
            assert(final(v)@.drop_last() =~= before);
            assert(final(v)@.last()@ == address@);
            assert forall|j: int, k: int| 0 <= j < k < final(v)@.len() implies (#[trigger] final(v)@[j])@
                != (#[trigger] final(v)@[k])@ by {
                if k == final(v)@.len() - 1 {
                    assert(final(v)@[j] == before[j]);
                }
            }
        }
    } else {
        proof {
            assert(addr_set_of(v@).insert(address@) =~= addr_set_of(v@));
        }
    }
}

} // verus!
