use vstd::prelude::*;
use crate::types::{AccountId, Immutables, H256};

verus! {

/// The `n` low bytes of `x`, least significant first.
pub open spec fn le_bytes(x: nat, n: nat) -> Seq<u8>
    decreases n,
{
    if n == 0 {
        Seq::empty()
    } else {
        seq![(x % 256) as u8] + le_bytes(x / 256, (n - 1) as nat)
    }
}

/// Reads a little-endian number back from its bytes.
pub open spec fn from_le_bytes(s: Seq<u8>) -> nat
    decreases s.len(),
{
    if s.len() == 0 {
        0
    } else {
        s[0] as nat + 256 * from_le_bytes(s.drop_first())
    }
}

/// `256^n`: the numbers that `n` bytes can hold.
pub open spec fn byte_range(n: nat) -> nat
    decreases n,
{
    if n == 0 {
        1
    } else {
        256 * byte_range((n - 1) as nat)
    }
}

/// Canonical encoding of escrow parameters: fields in declaration order, hashes as
/// their 32 bytes, integers little-endian at their full width.
pub open spec fn encode_immutables_spec(imm: Immutables) -> Seq<u8> {
    imm.order_hash.0@ + imm.hashlock.0@ + le_bytes(imm.maker as nat, 8) + le_bytes(
        imm.taker as nat,
        8,
    ) + le_bytes(imm.amount as nat, 16) + le_bytes(imm.safety_deposit as nat, 16) + le_bytes(
        imm.timelocks.deployed_at as nat,
        8,
    ) + le_bytes(imm.timelocks.withdrawal_after as nat, 8) + le_bytes(
        imm.timelocks.public_withdrawal_after as nat,
        8,
    ) + le_bytes(imm.timelocks.cancellation_after as nat, 8)
}

/// The bytes from which an intent's key is hashed: the maker's encoding, then the
/// nonce in little-endian order.
pub open spec fn intent_preimage(maker: AccountId, nonce: u64) -> Seq<u8> {
    le_bytes(maker as nat, 8) + le_bytes(nonce as nat, 8)
}

/// The 256-bit Blake2b digest of `data`.
pub uninterp spec fn blake2_256_of(data: Seq<u8>) -> Seq<u8>;

/// Identifier of the escrow with these immutables.
pub open spec fn htlc_id_of(imm: Immutables) -> Seq<u8> {
    blake2_256_of(encode_immutables_spec(imm))
}

/// Key of the intent of `maker` with `nonce`.
pub open spec fn intent_key_of(maker: AccountId, nonce: u64) -> Seq<u8> {
    blake2_256_of(intent_preimage(maker, nonce))
}

/// Relies on sp_runtime's `BlakeTwo256::hash` (which calls `sp_io::hashing::blake2_256`):
/// the Blake2b-256 digest, which depends on the bytes alone.
#[verifier::external_body]
pub(crate) fn blake2_256(data: &[u8]) -> (r: H256)
    ensures
        r.0@ == blake2_256_of(data@),
{
    let h = <sp_runtime::traits::BlakeTwo256 as sp_runtime::traits::Hash>::hash(data);
    H256(h.0)
}

pub proof fn lemma_le_bytes_len(x: nat, n: nat)
    ensures
        le_bytes(x, n).len() == n,
    decreases n,
{
    if n > 0 {
        lemma_le_bytes_len(x / 256, (n - 1) as nat);
    }
}

/// Reading the bytes of a number that fits back gives the number.
pub proof fn lemma_le_bytes_round_trip(x: nat, n: nat)
    requires
        x < byte_range(n),
    ensures
        from_le_bytes(le_bytes(x, n)) == x,
    decreases n,
{
    if n > 0 {
        let b = byte_range((n - 1) as nat);
        assert(x / 256 < b) by (nonlinear_arith)
            requires
                x < 256 * b,
        ;
        lemma_le_bytes_round_trip(x / 256, (n - 1) as nat);
        let s = le_bytes(x, n);
        assert(s.drop_first() =~= le_bytes(x / 256, (n - 1) as nat));
    }
}

proof fn lemma_byte_ranges()
    ensures
        byte_range(8) == 0x1_0000_0000_0000_0000,
        byte_range(16) == 0x1_0000_0000_0000_0000_0000_0000_0000_0000,
{
    reveal_with_fuel(byte_range, 17);
}

/// Two numbers below `256^n` with the same `n` bytes are equal.
pub proof fn lemma_le_bytes_injective(x: nat, y: nat, n: nat)
    requires
        x < byte_range(n),
        y < byte_range(n),
        le_bytes(x, n) == le_bytes(y, n),
    ensures
        x == y,
{
    lemma_le_bytes_round_trip(x, n);
    lemma_le_bytes_round_trip(y, n);
}

/// The canonical encoding is injective: escrows with different immutables never share
/// an encoding, so their identifiers differ unless the hash itself collides.
pub proof fn lemma_encode_immutables_injective(a: Immutables, b: Immutables)
    requires
        encode_immutables_spec(a) == encode_immutables_spec(b),
    ensures
        a == b,
{
    lemma_byte_ranges();
    let ea = encode_immutables_spec(a);
    let eb = encode_immutables_spec(b);
    lemma_le_bytes_len(a.maker as nat, 8);
    lemma_le_bytes_len(a.taker as nat, 8);
    lemma_le_bytes_len(a.amount as nat, 16);
    lemma_le_bytes_len(a.safety_deposit as nat, 16);
    lemma_le_bytes_len(a.timelocks.deployed_at as nat, 8);
    lemma_le_bytes_len(a.timelocks.withdrawal_after as nat, 8);
    lemma_le_bytes_len(a.timelocks.public_withdrawal_after as nat, 8);
    lemma_le_bytes_len(a.timelocks.cancellation_after as nat, 8);
    lemma_le_bytes_len(b.maker as nat, 8);
    lemma_le_bytes_len(b.taker as nat, 8);
    lemma_le_bytes_len(b.amount as nat, 16);
    lemma_le_bytes_len(b.safety_deposit as nat, 16);
    lemma_le_bytes_len(b.timelocks.deployed_at as nat, 8);
    lemma_le_bytes_len(b.timelocks.withdrawal_after as nat, 8);
    lemma_le_bytes_len(b.timelocks.public_withdrawal_after as nat, 8);
    lemma_le_bytes_len(b.timelocks.cancellation_after as nat, 8);
    assert(ea.subrange(0, 32) =~= a.order_hash.0@);
    assert(eb.subrange(0, 32) =~= b.order_hash.0@);
    assert(a.order_hash.0 =~= b.order_hash.0);
    assert(ea.subrange(32, 64) =~= a.hashlock.0@);
    assert(eb.subrange(32, 64) =~= b.hashlock.0@);
    assert(a.hashlock.0 =~= b.hashlock.0);
    assert(ea.subrange(64, 72) =~= le_bytes(a.maker as nat, 8));
    assert(eb.subrange(64, 72) =~= le_bytes(b.maker as nat, 8));
    lemma_le_bytes_injective(a.maker as nat, b.maker as nat, 8);
    assert(ea.subrange(72, 80) =~= le_bytes(a.taker as nat, 8));
    assert(eb.subrange(72, 80) =~= le_bytes(b.taker as nat, 8));
    lemma_le_bytes_injective(a.taker as nat, b.taker as nat, 8);
    assert(ea.subrange(80, 96) =~= le_bytes(a.amount as nat, 16));
    assert(eb.subrange(80, 96) =~= le_bytes(b.amount as nat, 16));
    lemma_le_bytes_injective(a.amount as nat, b.amount as nat, 16);
    assert(ea.subrange(96, 112) =~= le_bytes(a.safety_deposit as nat, 16));
    assert(eb.subrange(96, 112) =~= le_bytes(b.safety_deposit as nat, 16));
    lemma_le_bytes_injective(a.safety_deposit as nat, b.safety_deposit as nat, 16);
    assert(ea.subrange(112, 120) =~= le_bytes(a.timelocks.deployed_at as nat, 8));
    assert(eb.subrange(112, 120) =~= le_bytes(b.timelocks.deployed_at as nat, 8));
    lemma_le_bytes_injective(
        a.timelocks.deployed_at as nat,
        b.timelocks.deployed_at as nat,
        8,
    );
    assert(ea.subrange(120, 128) =~= le_bytes(a.timelocks.withdrawal_after as nat, 8));
    assert(eb.subrange(120, 128) =~= le_bytes(b.timelocks.withdrawal_after as nat, 8));
    lemma_le_bytes_injective(
        a.timelocks.withdrawal_after as nat,
        b.timelocks.withdrawal_after as nat,
        8,
    );
    assert(ea.subrange(128, 136) =~= le_bytes(a.timelocks.public_withdrawal_after as nat, 8));
    assert(eb.subrange(128, 136) =~= le_bytes(b.timelocks.public_withdrawal_after as nat, 8));
    lemma_le_bytes_injective(
        a.timelocks.public_withdrawal_after as nat,
        b.timelocks.public_withdrawal_after as nat,
        8,
    );
    assert(ea.subrange(136, 144) =~= le_bytes(a.timelocks.cancellation_after as nat, 8));
    assert(eb.subrange(136, 144) =~= le_bytes(b.timelocks.cancellation_after as nat, 8));
    lemma_le_bytes_injective(
        a.timelocks.cancellation_after as nat,
        b.timelocks.cancellation_after as nat,
        8,
    );
}

/// Distinct maker and nonce pairs hash distinct byte strings.
pub proof fn lemma_intent_preimage_injective(m1: AccountId, n1: u64, m2: AccountId, n2: u64)
    requires
        intent_preimage(m1, n1) == intent_preimage(m2, n2),
    ensures
        m1 == m2 && n1 == n2,
{
    lemma_byte_ranges();
    let p1 = intent_preimage(m1, n1);
    let p2 = intent_preimage(m2, n2);
    lemma_le_bytes_len(m1 as nat, 8);
    lemma_le_bytes_len(n1 as nat, 8);
    lemma_le_bytes_len(m2 as nat, 8);
    lemma_le_bytes_len(n2 as nat, 8);
    assert(p1.subrange(0, 8) =~= le_bytes(m1 as nat, 8));
    assert(p2.subrange(0, 8) =~= le_bytes(m2 as nat, 8));
    assert(p1.subrange(8, 16) =~= le_bytes(n1 as nat, 8));
    assert(p2.subrange(8, 16) =~= le_bytes(n2 as nat, 8));
    lemma_le_bytes_injective(m1 as nat, m2 as nat, 8);
    lemma_le_bytes_injective(n1 as nat, n2 as nat, 8);
}

/// Appends the `n` low bytes of `x`, least significant first.
fn push_le(out: &mut Vec<u8>, x: u128, n: usize)
    ensures
        final(out)@ == old(out)@ + le_bytes(x as nat, n as nat),
{
    let mut y: u128 = x;
    let mut i: usize = 0;
    while i < n
        invariant
            0 <= i <= n,
            out@ + le_bytes(y as nat, (n - i) as nat) == old(out)@ + le_bytes(x as nat, n as nat),
        decreases n - i,
    {
        let ghost before = out@;
        out.push((y % 256) as u8);
        assert(le_bytes(y as nat, (n - i) as nat) == seq![(y % 256) as u8] + le_bytes(
            (y / 256) as nat,
            (n - i - 1) as nat,
        ));
        assert(out@ + le_bytes((y / 256) as nat, (n - i - 1) as nat) =~= before + le_bytes(
            y as nat,
            (n - i) as nat,
        ));
        y = y / 256;
        i = i + 1;
    }
    assert(out@ + le_bytes(y as nat, 0) =~= out@);
}

fn push_hash(out: &mut Vec<u8>, h: &H256)
    ensures
        final(out)@ == old(out)@ + h.0@,
{
    let mut i: usize = 0;
    while i < 32
        invariant
            0 <= i <= 32,
            out@ =~= old(out)@ + h.0@.subrange(0, i as int),
        decreases 32 - i,
    {
        out.push(h.0[i]);
        i = i + 1;
    }
    assert(h.0@.subrange(0, 32) =~= h.0@);
}

/// Canonical encoding of escrow parameters.
pub fn encode_immutables(imm: &Immutables) -> (r: Vec<u8>)
    ensures
        r@ == encode_immutables_spec(*imm),
{
    let mut out: Vec<u8> = Vec::new();
    push_hash(&mut out, &imm.order_hash);
    push_hash(&mut out, &imm.hashlock);
    push_le(&mut out, imm.maker as u128, 8);
    push_le(&mut out, imm.taker as u128, 8);
    push_le(&mut out, imm.amount, 16);
    push_le(&mut out, imm.safety_deposit, 16);
    push_le(&mut out, imm.timelocks.deployed_at as u128, 8);
    push_le(&mut out, imm.timelocks.withdrawal_after as u128, 8);
    push_le(&mut out, imm.timelocks.public_withdrawal_after as u128, 8);
    push_le(&mut out, imm.timelocks.cancellation_after as u128, 8);
    assert(out@ =~= encode_immutables_spec(*imm));
    out
}

/// The bytes from which an intent's key is hashed.
pub fn encode_intent_key(maker: AccountId, nonce: u64) -> (r: Vec<u8>)
    ensures
        r@ == intent_preimage(maker, nonce),
{
    let mut out: Vec<u8> = Vec::new();
    push_le(&mut out, maker as u128, 8);
    push_le(&mut out, nonce as u128, 8);
    assert(out@ =~= intent_preimage(maker, nonce));
    out
}

/// Hash of the canonical encoding of `imm`: the escrow's identifier.
pub fn hash_immutables(imm: &Immutables) -> (r: H256)
    ensures
        r.0@ == htlc_id_of(*imm),
{
    let encoded = encode_immutables(imm);
    blake2_256(encoded.as_slice())
}

/// Hash of the maker's encoding followed by the nonce: the intent's storage key.
pub fn intent_key(maker: AccountId, nonce: u64) -> (r: H256)
    ensures
        r.0@ == intent_key_of(maker, nonce),
{
    let data = encode_intent_key(maker, nonce);
    blake2_256(data.as_slice())
}

} // verus!
