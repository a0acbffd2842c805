use vstd::prelude::*;
use vstd::utf8::{decode_utf8, valid_utf8};
use bitcoin::blockdata::block::Block;
use bitcoin::blockdata::transaction::Transaction;
use bitcoin::consensus::Decodable;
use crate::describe::{Detail, PayloadDetail};
use crate::message_type::MessageType;
use crate::socks5::utf8_text;

verus! {

pub open spec fn pow256(n: nat) -> nat
    decreases n,
{
    if n == 0 {
        1
    } else {
        256 * pow256((n - 1) as nat)
    }
}

/// The little-endian unsigned number in the `n` bytes at offset `i`.
pub open spec fn le_uint(p: Seq<u8>, i: int, n: nat) -> nat
    decreases n,
{
    if n == 0 {
        0
    } else {
        p[i] as nat + 256 * le_uint(p, i + 1, (n - 1) as nat)
    }
}

/// A Bitcoin CompactSize at offset `i`: its value and its width in bytes; `None` when
/// the bytes end inside it.
pub open spec fn compact_size(p: Seq<u8>, i: int) -> Option<(nat, nat)> {
    if i < 0 || p.len() <= i {
        None
    } else if p[i] < 0xfd {
        Some((p[i] as nat, 1))
    } else {
        let w: nat = if p[i] == 0xfd {
            2
        } else if p[i] == 0xfe {
            4
        } else {
            8
        };
        if p.len() < i + 1 + w {
            None
        } else {
            Some((le_uint(p, i + 1, w), 1 + w))
        }
    }
}

/// Where the user agent's length stands in a `version` payload: after the protocol version,
/// services, timestamp, two network addresses and the nonce.
pub const USER_AGENT_AT: usize = 80;

/// Text rust-bitcoin shows for the id of the transaction a `tx` payload holds; `None` when
/// the payload does not decode as a transaction.
pub uninterp spec fn txid_text(payload: Seq<u8>) -> Option<Seq<char>>;

/// Text rust-bitcoin shows for the hash of the block a `block` payload holds; `None` when
/// the payload does not decode as a block.
pub uninterp spec fn block_hash_text(payload: Seq<u8>) -> Option<Seq<char>>;

/// What the description of a message of kind `kind` with payload `p` shows.
pub open spec fn payload_detail(kind: MessageType, p: Seq<u8>) -> Detail {
    match kind {
        MessageType::Version => match compact_size(p, USER_AGENT_AT as int) {
            Some((l, w)) => {
                let ua = p.subrange(USER_AGENT_AT + w, USER_AGENT_AT + w + l);
                if USER_AGENT_AT + w + l <= p.len() && valid_utf8(ua) {
                    Detail::Version {
                        version: le_uint(p, 0, 4),
                        services: le_uint(p, 4, 8),
                        user_agent: decode_utf8(ua),
                    }
                } else {
                    Detail::Other
                }
            },
            None => Detail::Other,
        },
        MessageType::Addr | MessageType::AddrV2 | MessageType::Inv | MessageType::GetData
        | MessageType::NotFound | MessageType::Headers => match compact_size(p, 0) {
            Some((n, _)) => Detail::Count(n),
            None => Detail::Other,
        },
        MessageType::Ping | MessageType::Pong => if p.len() >= 8 {
            Detail::Nonce(le_uint(p, 0, 8))
        } else {
            Detail::Other
        },
        MessageType::Tx => match txid_text(p) {
            Some(h) => Detail::Hash(h),
            None => Detail::Other,
        },
        MessageType::Block => match block_hash_text(p) {
            Some(h) => Detail::Hash(h),
            None => Detail::Other,
        },
        MessageType::Unknown => Detail::Count(p.len()),
        _ => Detail::Other,
    }
}

/// Relies on rust-bitcoin's `Transaction::consensus_decode_from_finite_reader` and
/// `Transaction::compute_txid`, shown through `Display`: the text depends on the bytes alone.
#[verifier::external_body]
fn tx_id(payload: &[u8]) -> (r: Option<String>)
    ensures
        r is Some <==> txid_text(payload@) is Some,
        r is Some ==> r->Some_0@ == txid_text(payload@)->Some_0,
{
    let mut reader: &[u8] = payload;
    match Transaction::consensus_decode_from_finite_reader(&mut reader) {
        Ok(tx) => Some(tx.compute_txid().to_string()),
        Err(_) => None,
    }
}

/// Relies on rust-bitcoin's `Block::consensus_decode_from_finite_reader` and
/// `Block::block_hash`, shown through `Display`: the text depends on the bytes alone.
#[verifier::external_body]
fn block_hash(payload: &[u8]) -> (r: Option<String>)
    ensures
        r is Some <==> block_hash_text(payload@) is Some,
        r is Some ==> r->Some_0@ == block_hash_text(payload@)->Some_0,
{
    let mut reader: &[u8] = payload;
    match Block::consensus_decode_from_finite_reader(&mut reader) {
        Ok(block) => Some(block.block_hash().to_string()),
        Err(_) => None,
    }
}

proof fn lemma_le_bound(p: Seq<u8>, i: int, n: nat)
    requires
        0 <= i,
        i + n <= p.len(),
    ensures
        le_uint(p, i, n) < pow256(n),
    decreases n,
{
    if n > 0 {
        lemma_le_bound(p, i + 1, (n - 1) as nat);
        let a = le_uint(p, i + 1, (n - 1) as nat);
        let q = pow256((n - 1) as nat);
        let b = p[i] as nat;
        assert(b + 256 * a < 256 * q) by (nonlinear_arith)
            requires
                a < q,
                b < 256,
        ;
    }
}

proof fn lemma_pow_small(n: nat)
    requires
        n <= 8,
    ensures
        pow256(n) <= 18446744073709551616,
        n <= 4 ==> pow256(n) <= 4294967296,
{
    reveal_with_fuel(pow256, 9);
    assert(n == 0 || n == 1 || n == 2 || n == 3 || n == 4 || n == 5 || n == 6 || n == 7 || n == 8);
}

/// Reads the little-endian number in the `n` bytes at offset `i`.
pub fn read_le(p: &[u8], i: usize, n: usize) -> (r: u64)
    requires
        n <= 8,
        i + n <= p@.len(),
    ensures
        r == le_uint(p@, i as int, n as nat),
        n <= 4 ==> r < 4294967296,
{
    let len = p.len();
    let mut k: usize = n;
    let mut acc: u64 = 0;
    while k > 0
        invariant
            len == p@.len(),
            k <= n,
            n <= 8,
            i + n <= p@.len(),
            acc == le_uint(p@, i + k, (n - k) as nat),
        decreases k,
    {
        proof {
            lemma_le_bound(p@, i + k - 1, (n - k + 1) as nat);
            lemma_pow_small((n - k + 1) as nat);
        }
        let b = p[i + k - 1];
        acc = b as u64 + 256 * acc;
        k = k - 1;
    }
    proof {
        lemma_le_bound(p@, i as int, n as nat);
        lemma_pow_small(n as nat);
    }
    acc
}

/// Reads a CompactSize at offset `i`.
pub fn read_compact_size(p: &[u8], i: usize) -> (r: Option<(u64, usize)>)
    ensures
        match r {
            None => compact_size(p@, i as int) is None,
            Some((v, w)) => compact_size(p@, i as int) == Some((v as nat, w as nat)),
        },
{
    if i >= p.len() {
        return None;
    }
    let first = p[i];
    if first < 0xfd {
        return Some((first as u64, 1));
    }
    let w: usize = if first == 0xfd {
        2
    } else if first == 0xfe {
        4
    } else {
        8
    };
    if p.len() - i - 1 < w {
        return None;
    }
    Some((read_le(p, i + 1, w), 1 + w))
}

/// Reads what the description of a message of kind `kind` with payload `p` shows.
pub fn read_detail(kind: MessageType, p: &[u8]) -> (r: PayloadDetail)
    ensures
        r@ == payload_detail(kind, p@),
{
    match kind {
        MessageType::Version => match read_compact_size(p, USER_AGENT_AT) {
            Some((l, w)) => {
                if (p.len() - USER_AGENT_AT - w) as u64 >= l {
                    let start = USER_AGENT_AT + w;
                    let end = start + l as usize;
                    match utf8_text(&p[start..end]) {
                        Some(user_agent) => PayloadDetail::Version {
                            version: read_le(p, 0, 4) as u32,
                            services: read_le(p, 4, 8),
                            user_agent,
                        },
                        None => PayloadDetail::Other,
                    }
                } else {
                    PayloadDetail::Other
                }
            },
            None => PayloadDetail::Other,
        },
        MessageType::Addr | MessageType::AddrV2 | MessageType::Inv | MessageType::GetData
        | MessageType::NotFound | MessageType::Headers => match read_compact_size(p, 0) {
            Some((n, _)) => PayloadDetail::Count(n),
            None => PayloadDetail::Other,
        },
        MessageType::Ping | MessageType::Pong => if p.len() >= 8 {
            PayloadDetail::Nonce(read_le(p, 0, 8))
        } else {
            PayloadDetail::Other
        },
        MessageType::Tx => match tx_id(p) {
            Some(h) => PayloadDetail::Hash(h),
            None => PayloadDetail::Other,
        },
        MessageType::Block => match block_hash(p) {
            Some(h) => PayloadDetail::Hash(h),
            None => PayloadDetail::Other,
        },
        MessageType::Unknown => PayloadDetail::Count(p.len() as u64),
        _ => PayloadDetail::Other,
    }
}

} // verus!
