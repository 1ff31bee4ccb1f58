//! Ids derived from accounts: the Blake2b-256 digest of the account's encoding.
use vstd::prelude::*;

use crate::AccountId;

verus! {

/// A 32-byte digest held as its two 16-byte halves, each read big-endian, so
/// that digests order as their bytes do.
pub type Digest = (u128, u128);

/// The Blake2b-256 digest of `data`.
pub uninterp spec fn blake2_256_of(data: Seq<u8>) -> Seq<u8>;

/// Relies on sp_runtime's `BlakeTwo256` (`Hash::hash`), the runtime hasher that
/// turns an encoded account into an id: a 32-byte digest of `data` alone.
#[verifier::external_body]
fn blake2_256(data: &Vec<u8>) -> (r: [u8; 32])
    ensures
        r@ == blake2_256_of(data@),
{
    <sp_runtime::traits::BlakeTwo256 as sp_runtime::traits::Hash>::hash(data.as_slice()).0
}

/// The encoding of an account id: its eight bytes, least significant first.
pub open spec fn account_encoding(a: AccountId) -> Seq<u8> {
    Seq::new(8, |i: int| ((a >> ((8 * i) as u64)) & 0xff) as u8)
}

/// The value of `s` read as a big-endian unsigned number.
pub open spec fn be_value(s: Seq<u8>) -> nat
    decreases s.len(),
{
    if s.len() == 0 {
        0
    } else {
        be_value(s.drop_last()) * 256 + s.last() as nat
    }
}

/// The key of a 32-byte digest: its first and second halves, read big-endian.
pub open spec fn digest_key(d: Seq<u8>) -> Digest {
    (be_value(d.subrange(0, 16)) as u128, be_value(d.subrange(16, 32)) as u128)
}

/// The id that an account derives: the key of the digest of its encoding.
pub open spec fn account_digest(a: AccountId) -> Digest {
    digest_key(blake2_256_of(account_encoding(a)))
}

/// Encodes an account id as its eight bytes, least significant first.
pub fn encode_account(a: AccountId) -> (r: Vec<u8>)
    ensures
        r@ == account_encoding(a),
{
    let mut r: Vec<u8> = Vec::new();
    let mut i: u64 = 0;
    while i < 8
        invariant
            i <= 8,
            r@.len() == i,
            forall|j: int| 0 <= j < i ==> r@[j] == account_encoding(a)[j],
        decreases 8 - i,
    {
        r.push(((a >> (8 * i)) & 0xff) as u8);
        i = i + 1;
    }
    assert(r@ =~= account_encoding(a));
    r
}

proof fn lemma_be_value_bound(s: Seq<u8>)
    requires
        s.len() <= 16,
    ensures
        be_value(s) < pow256(s.len()),
        pow256(s.len()) <= pow256(16),
    decreases s.len(),
{
    if s.len() > 0 {
        let p = s.drop_last();
        lemma_be_value_bound(p);
        let v = be_value(p);
        let q = pow256(p.len());
        assert(v * 256 + (s.last() as nat) < q * 256) by (nonlinear_arith)
            requires
                v < q,
                s.last() < 256,
        ;
        lemma_pow256_monotone(s.len(), 16);
    } else {
        lemma_pow256_monotone(0, 16);
    }
}

spec fn pow256(n: nat) -> nat
    decreases n,
{
    if n == 0 {
        1
    } else {
        256 * pow256((n - 1) as nat)
    }
}

proof fn lemma_pow256_monotone(m: nat, n: nat)
    requires
        m <= n,
    ensures
        pow256(m) <= pow256(n),
    decreases n - m,
{
    if m < n {
        lemma_pow256_monotone(m, (n - 1) as nat);
    }
}

proof fn lemma_pow256_16()
    ensures
        pow256(16) == 0x1_0000_0000_0000_0000_0000_0000_0000_0000,
{
    reveal_with_fuel(pow256, 17);
}

/// Reads `d[from..from + 16]` as a big-endian number.
fn read_be_u128(d: &[u8; 32], from: usize) -> (r: u128)
    requires
        from + 16 <= 32,
    ensures
        r == be_value(d@.subrange(from as int, from + 16)),
{
    let mut acc: u128 = 0;
    let mut i: usize = from;
    while i < from + 16
        invariant
            from <= i <= from + 16,
            from + 16 <= 32,
            acc == be_value(d@.subrange(from as int, i as int)),
        decreases from + 16 - i,
    {
        let ghost prefix = d@.subrange(from as int, i as int);
        let ghost next = d@.subrange(from as int, i + 1);
        proof {
            assert(next.drop_last() =~= prefix);
            lemma_be_value_bound(next);
            lemma_pow256_16();
        }
        acc = acc * 256 + d[i] as u128;
        i = i + 1;
    }
    acc
}

/// The id derived from `a`: the Blake2b-256 digest of its encoding.
pub fn account_id_digest(a: AccountId) -> (r: Digest)
    ensures
        r == account_digest(a),
{
    let encoded = encode_account(a);
    let d = blake2_256(&encoded);
    let hi = read_be_u128(&d, 0);
    let lo = read_be_u128(&d, 16);
    (hi, lo)
}

} // verus!
