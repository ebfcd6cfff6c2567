//! FNV-1a, 64-bit, over fields, and little-endian bytes.
//!
//! The hash is a specified one, so a name built from it is the same on every host and
//! with every toolchain. Each field is closed with its length, as if that were one
//! more unit of it.

use vstd::prelude::*;

verus! {

/// The state of a hasher that has seen nothing: the offset basis of 64-bit FNV.
pub const FNV_OFFSET: u64 = 0xcbf2_9ce4_8422_2325;

/// What every step multiplies by: the prime of 64-bit FNV.
pub const FNV_PRIME: u64 = 0x100_0000_01b3;

/// One step: exclusive or, then multiply, modulo `2^64`.
pub open spec fn fnv_step(state: u64, x: u64) -> u64 {
    (state ^ x).wrapping_mul(FNV_PRIME)
}

/// The state after each byte in turn.
pub open spec fn fnv_bytes(state: u64, bytes: Seq<u8>) -> u64
    decreases bytes.len(),
{
    if bytes.len() == 0 {
        state
    } else {
        fnv_step(fnv_bytes(state, bytes.drop_last()), bytes.last() as u64)
    }
}

/// The state after a field: its bytes, then its length, so that where one field
/// ends and the next begins reaches the hash.
pub open spec fn fnv_field(state: u64, bytes: Seq<u8>) -> u64 {
    fnv_step(fnv_bytes(state, bytes), bytes.len() as u64)
}

/// A running FNV-1a hash of 64 bits, with the length of each field mixed in.
#[derive(Clone, Copy, Debug)]
pub struct Fnv(pub u64);

impl Fnv {
    /// A hasher that has seen nothing.
    pub fn new() -> (h: Fnv)
        ensures
            h.0 == FNV_OFFSET,
    {
        Fnv(FNV_OFFSET)
    }

    /// Takes in one field.
    pub fn write(&mut self, bytes: &[u8])
        ensures
            final(self).0 == fnv_field(old(self).0, bytes@),
    {
        let ghost start = self.0;
        let mut i: usize = 0;
        while i < bytes.len()
            invariant
                i <= bytes@.len(),
                self.0 == fnv_bytes(start, bytes@.take(i as int)),
            decreases bytes@.len() - i,
        {
            proof {
                assert(bytes@.take(i + 1).drop_last() =~= bytes@.take(i as int));
            }
            self.0 = (self.0 ^ (bytes[i] as u64)).wrapping_mul(FNV_PRIME);
            i += 1;
        }
        assert(bytes@.take(i as int) =~= bytes@);
        self.0 = (self.0 ^ (bytes.len() as u64)).wrapping_mul(FNV_PRIME);
    }

    /// The hash of what has been taken in.
    pub fn finish(&self) -> (h: u64)
        ensures
            h == self.0,
    {
        self.0
    }
}

/// The low `n` bytes of `x`, lowest first.
pub open spec fn le_bytes(x: nat, n: nat) -> Seq<u8>
    decreases n,
{
    if n == 0 {
        Seq::empty()
    } else {
        seq![(x % 256) as u8] + le_bytes(x / 256, (n - 1) as nat)
    }
}

/// The bits of a signed 32-bit number.
pub open spec fn bits32(x: i32) -> nat {
    if x < 0 {
        (x + 0x1_0000_0000) as nat
    } else {
        x as nat
    }
}

/// The bits of a signed 64-bit number.
pub open spec fn bits64(x: i64) -> nat {
    if x < 0 {
        (x + 0x1_0000_0000_0000_0000) as nat
    } else {
        x as nat
    }
}

/// The low `n` bytes of `x`, lowest first.
pub fn to_le_bytes(x: u64, n: usize) -> (bytes: Vec<u8>)
    ensures
        bytes@ == le_bytes(x as nat, n as nat),
{
    let mut bytes: Vec<u8> = Vec::new();
    let mut rest: u64 = x;
    let mut i: usize = 0;
    while i < n
        invariant
            i <= n,
            bytes@ + le_bytes(rest as nat, (n - i) as nat) == le_bytes(x as nat, n as nat),
        decreases n - i,
    {
        let ghost before = bytes@;
        bytes.push((rest % 256) as u8);
        proof {
            assert(before + le_bytes(rest as nat, (n - i) as nat) =~= bytes@ + le_bytes(
                (rest / 256) as nat,
                (n - i - 1) as nat,
            ));
        }
        rest = rest / 256;
        i += 1;
    }
    assert(bytes@ =~= le_bytes(x as nat, n as nat));
    bytes
}

/// The bits of a signed 32-bit number.
pub fn to_bits32(x: i32) -> (bits: u64)
    ensures
        bits == bits32(x),
{
    assert(x < 0 ==> x as u32 == x + 0x1_0000_0000) by (bit_vector);
    (x as u32) as u64
}

/// The bits of a signed 64-bit number.
pub fn to_bits64(x: i64) -> (bits: u64)
    ensures
        bits == bits64(x),
{
    assert(x < 0 ==> x as u64 == x + 0x1_0000_0000_0000_0000) by (bit_vector);
    x as u64
}

proof fn times_prime_can_be_undone(a: u64)
    ensures
        (a.wrapping_mul(FNV_PRIME) as int * 0xce96_5057_aff6_957b) % 0x1_0000_0000_0000_0000 == a,
{
    let m = 0x1_0000_0000_0000_0000int;
    let p = FNV_PRIME as int;
    let inverse = 0xce96_5057_aff6_957bint;
    let k = 887285111055int;
    let x = a as int;
    vstd::arithmetic::div_mod::lemma_mul_mod_noop_left(x * p, inverse, m);
    assert(p * inverse == 1 + k * m);
    assert(x * p * inverse == m * (x * k) + x) by (nonlinear_arith)
        requires
            p * inverse == 1 + k * m,
    ;
    vstd::arithmetic::div_mod::lemma_mod_multiples_vanish(x * k, x, m);
}

/// A step tells states apart, and what it takes in: two steps agree only where
/// the exclusive or agreed.
pub proof fn a_step_is_injective(s: u64, x: u64, t: u64, y: u64)
    ensures
        fnv_step(s, x) == fnv_step(t, y) <==> s ^ x == t ^ y,
        x == y ==> (fnv_step(s, x) == fnv_step(t, y) <==> s == t),
        s == t ==> (fnv_step(s, x) == fnv_step(t, y) <==> x == y),
{
    times_prime_can_be_undone(s ^ x);
    times_prime_can_be_undone(t ^ y);
    assert(s ^ x == t ^ x ==> s == t) by (bit_vector);
    assert(s ^ x == s ^ y ==> x == y) by (bit_vector);
}

proof fn bytes_keep_states_apart(s: u64, t: u64, bytes: Seq<u8>)
    ensures
        fnv_bytes(s, bytes) == fnv_bytes(t, bytes) <==> s == t,
    decreases bytes.len(),
{
    if bytes.len() > 0 {
        bytes_keep_states_apart(s, t, bytes.drop_last());
        a_step_is_injective(
            fnv_bytes(s, bytes.drop_last()),
            bytes.last() as u64,
            fnv_bytes(t, bytes.drop_last()),
            bytes.last() as u64,
        );
    }
}

/// Hashes that differ still differ after the same field: a difference, once it has
/// reached the hash, is never lost to the fields that follow.
pub proof fn a_field_keeps_states_apart(s: u64, t: u64, bytes: Seq<u8>)
    ensures
        fnv_field(s, bytes) == fnv_field(t, bytes) <==> s == t,
{
    bytes_keep_states_apart(s, t, bytes);
    a_step_is_injective(
        fnv_bytes(s, bytes),
        bytes.len() as u64,
        fnv_bytes(t, bytes),
        bytes.len() as u64,
    );
}

proof fn changed_byte_changes_bytes(s: u64, bytes: Seq<u8>, i: int, b: u8)
    requires
        0 <= i < bytes.len(),
        bytes[i] != b,
    ensures
        fnv_bytes(s, bytes.update(i, b)) != fnv_bytes(s, bytes),
    decreases bytes.len(),
{
    let changed = bytes.update(i, b);
    let front = bytes.drop_last();
    if i == bytes.len() - 1 {
        assert(changed.drop_last() =~= front);
        a_step_is_injective(
            fnv_bytes(s, front),
            bytes.last() as u64,
            fnv_bytes(s, front),
            b as u64,
        );
    } else {
        assert(changed.drop_last() =~= front.update(i, b));
        changed_byte_changes_bytes(s, front, i, b);
        a_step_is_injective(
            fnv_bytes(s, front),
            bytes.last() as u64,
            fnv_bytes(s, front.update(i, b)),
            bytes.last() as u64,
        );
    }
}

/// Changing one byte of a field changes its hash.
pub proof fn a_changed_byte_changes_the_hash(s: u64, bytes: Seq<u8>, i: int, b: u8)
    requires
        0 <= i < bytes.len(),
        bytes[i] != b,
    ensures
        fnv_field(s, bytes.update(i, b)) != fnv_field(s, bytes),
{
    changed_byte_changes_bytes(s, bytes, i, b);
    a_step_is_injective(
        fnv_bytes(s, bytes),
        bytes.len() as u64,
        fnv_bytes(s, bytes.update(i, b)),
        bytes.len() as u64,
    );
}

/// Where a run of bytes is cut into fields reaches the hash: the same bytes, closed
/// as a field of another length, hash differently.
pub proof fn a_field_of_another_length_hashes_differently(s: u64, n: u64, m: u64)
    requires
        n != m,
    ensures
        fnv_step(s, n) != fnv_step(s, m),
{
    a_step_is_injective(s, n, s, m);
}

/// A hash is taken byte by byte, in order, each by exclusive or and a product modulo
/// `2^64`, and a field ends with its length as if that were a byte. It starts from the
/// offset basis.
pub proof fn a_hash_is_taken_byte_by_byte(state: u64, bytes: Seq<u8>, b: u8)
    ensures
        FNV_OFFSET == 0xcbf2_9ce4_8422_2325,
        fnv_bytes(state, Seq::empty()) == state,
        fnv_bytes(state, bytes.push(b)) == ((fnv_bytes(state, bytes) ^ (b as u64))
            * 0x100_0000_01b3) % 0x1_0000_0000_0000_0000,
        fnv_field(state, bytes) == ((fnv_bytes(state, bytes) ^ (bytes.len() as u64))
            * 0x100_0000_01b3) % 0x1_0000_0000_0000_0000,
{
    assert(bytes.push(b).drop_last() =~= bytes);
}

/// The little-endian bytes of a number are its digits to the base of two hundred and
/// fifty-six, lowest first: there are as many as asked for, and they give back the number
/// as far as it fits them.
pub proof fn little_endian_bytes_are_digits(x: nat, n: nat)
    ensures
        le_bytes(x, n).len() == n,
        n > 0 ==> le_bytes(x, n)[0] == x % 256,
        forall|i: int|
            0 <= i < n - 1 ==> #[trigger] le_bytes(x / 256, (n - 1) as nat)[i] == le_bytes(
                x,
                n,
            )[i + 1],
    decreases n,
{
    if n > 0 {
        little_endian_bytes_are_digits(x / 256, (n - 1) as nat);
    }
}

/// The bits of a signed number are the number itself modulo a power of two.
pub proof fn bits_are_the_number_modulo_a_power(x: i32, y: i64)
    ensures
        bits32(x) < 0x1_0000_0000,
        bits32(x) == x || bits32(x) == x + 0x1_0000_0000,
        bits64(y) < 0x1_0000_0000_0000_0000,
        bits64(y) == y || bits64(y) == y + 0x1_0000_0000_0000_0000,
{
}

} // verus!
