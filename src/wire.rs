//! The sync-request payload: a height as eight big-endian bytes.
use byteorder::{BigEndian, ByteOrder};
use vstd::prelude::*;

verus! {

/// Length of a sync-request payload.
pub const SYNC_PAYLOAD_LEN: usize = 8;

/// `256` raised to the power `k`.
pub open spec fn pow256(k: nat) -> nat
    decreases k,
{
    if k == 0 {
        1
    } else {
        256 * pow256((k - 1) as nat)
    }
}

/// The eight bytes of `n`, most significant first.
pub open spec fn be_bytes(n: u64) -> Seq<u8> {
    Seq::new(8, |i: int| ((n as nat / pow256((7 - i) as nat)) % 256) as u8)
}

/// The number that the bytes of `s` spell, most significant first.
pub open spec fn be_value(s: Seq<u8>) -> nat
    decreases s.len(),
{
    if s.len() == 0 {
        0
    } else {
        be_value(s.drop_last()) * 256 + s.last() as nat
    }
}

proof fn lemma_pow256_positive(k: nat)
    ensures
        pow256(k) > 0,
    decreases k,
{
    if k > 0 {
        lemma_pow256_positive((k - 1) as nat);
    }
}

/// The first `k` bytes of `n` spell `n` without its last `8 - k` bytes.
proof fn lemma_be_prefix(n: u64, k: nat)
    requires
        k <= 8,
    ensures
        be_value(be_bytes(n).subrange(0, k as int)) == n as nat / pow256((8 - k) as nat),
    decreases k,
{
    if k == 0 {
        reveal_with_fuel(pow256, 9);
        assert(be_bytes(n).subrange(0, 0) =~= Seq::<u8>::empty());
        vstd::arithmetic::div_mod::lemma_basic_div(n as int, pow256(8) as int);
    } else {
        let j = (k - 1) as nat;
        lemma_be_prefix(n, j);
        let s = be_bytes(n).subrange(0, k as int);
        assert(s.drop_last() =~= be_bytes(n).subrange(0, j as int));
        let c = pow256((7 - j) as nat);
        lemma_pow256_positive((7 - j) as nat);
        assert(pow256((8 - j) as nat) == 256 * c);
        let q = n as nat / c;
        assert(s.last() == (q % 256) as u8);
        vstd::arithmetic::div_mod::lemma_div_denominator(n as int, c as int, 256);
        vstd::arithmetic::div_mod::lemma_fundamental_div_mod(q as int, 256);
        assert(c * 256 == 256 * c) by (nonlinear_arith);
    }
}

/// Decoding the eight bytes of a height gives the height back.
pub proof fn lemma_sync_request_round_trip(height: u64)
    ensures
        be_value(be_bytes(height)) == height as nat,
        be_bytes(height).len() == SYNC_PAYLOAD_LEN,
{
    lemma_be_prefix(height, 8);
    assert(be_bytes(height).subrange(0, 8) =~= be_bytes(height));
    assert(pow256(0) == 1);
    assert(height as nat / 1 == height as nat);
}

/// Relies on byteorder's `BigEndian::write_u64`: it stores `n.to_be_bytes()`
/// in the first eight bytes of the buffer.
#[verifier::external_body]
fn write_be_u64(n: u64) -> (r: Vec<u8>)
    ensures
        r@ == be_bytes(n),
{
    let mut buf = vec![0u8; 8];
    BigEndian::write_u64(&mut buf, n);
    buf
}

/// Relies on byteorder's `BigEndian::read_u64`: `u64::from_be_bytes` of the
/// first eight bytes; it panics on fewer than eight.
#[verifier::external_body]
fn read_be_u64(buf: &Vec<u8>) -> (r: u64)
    requires
        buf@.len() >= 8,
    ensures
        r as nat == be_value(buf@.subrange(0, 8)),
{
    BigEndian::read_u64(buf)
}

/// The payload of a request for the block at `height`.
pub fn encode_sync_request(height: u64) -> (r: Vec<u8>)
    ensures
        r@ == be_bytes(height),
        r@.len() == SYNC_PAYLOAD_LEN,
{
    write_be_u64(height)
}

/// The height that a sync-request payload asks for; `None` unless the
/// payload is exactly eight bytes long.
pub fn decode_sync_request(content: &Vec<u8>) -> (r: Option<u64>)
    ensures
        r.is_some() <==> content@.len() == SYNC_PAYLOAD_LEN,
        r matches Some(h) ==> h as nat == be_value(content@),
{
    if content.len() != SYNC_PAYLOAD_LEN {
        return None;
    }
    let h = read_be_u64(content);
    assert(content@.subrange(0, 8) =~= content@);
    Some(h)
}

} // verus!
