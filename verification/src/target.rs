//! Pool difficulty and the target that a share's hash has to meet.

use crate::bytes::{be_value, law_low_values_join, le_value, reversed};
use crate::protocol::DIFFICULTY_ONE_BITS;
use num_bigint::BigUint;
use vstd::arithmetic::power::*;
use vstd::arithmetic::power2::*;
use vstd::prelude::*;

verus! {

/// An arbitrarily large unsigned integer.
#[verifier::external_type_specification]
#[verifier::external_body]
pub struct ExBigUint(num_bigint::BigUint);

/// The integer that a `BigUint` holds.
pub uninterp spec fn big_value(number: num_bigint::BigUint) -> nat;

/// Difficulties are scaled by this before they become integers.
pub const DIFFICULTY_SCALE: u64 = 1_000_000;

/// The leading digits of the target of difficulty one.
pub const DIFFICULTY_ONE_MANTISSA: u64 = 0xFFFF;

/// How far those digits stand from the end of the target of difficulty one.
pub const DIFFICULTY_ONE_SHIFT: u32 = 208;

/// The target of difficulty one.
pub open spec fn difficulty_one_target() -> nat {
    0xFFFF * pow2(208)
}

/// The target of a difficulty that is given in millionths; none counts as one
/// millionth.
pub open spec fn target_value(scaled: nat) -> nat {
    difficulty_one_target() * 1_000_000 / (if scaled == 0 {
        1
    } else {
        scaled
    })
}

/// Whether a hash, read as a number with its least significant byte first, is
/// at most the target.
pub open spec fn meets(hash: Seq<u8>, target: nat) -> bool {
    le_value(hash) <= target
}

/// Calls `BigUint::from` on a `u64`, which keeps the value.
#[verifier::external_body]
fn big_from_u64(value: u64) -> (number: BigUint)
    ensures
        big_value(number) == value,
{
    BigUint::from(value)
}

/// Calls `BigUint::from_bytes_be`, which reads bytes with the most significant
/// one first.
#[verifier::external_body]
fn big_from_be_bytes(bytes: &[u8]) -> (number: BigUint)
    ensures
        big_value(number) == be_value(bytes@),
{
    BigUint::from_bytes_be(bytes)
}

/// Shifts a `BigUint` left with `<<`, which multiplies it by a power of two. A
/// shift that asks for more memory than there is panics, so it is bounded here.
#[verifier::external_body]
fn big_shift_left(number: BigUint, bits: u32) -> (result: BigUint)
    requires
        bits <= 4096,
    ensures
        big_value(result) == big_value(number) * pow2(bits as nat),
{
    number << bits
}

/// Multiplies two `BigUint`s with `*`, which gives the exact product.
#[verifier::external_body]
fn big_product(a: BigUint, b: BigUint) -> (product: BigUint)
    ensures
        big_value(product) == big_value(a) * big_value(b),
{
    a * b
}

/// Divides a `BigUint` by another with `/`, which drops the remainder. Division
/// by zero panics.
#[verifier::external_body]
fn big_quotient(a: BigUint, b: BigUint) -> (quotient: BigUint)
    requires
        big_value(b) != 0,
    ensures
        big_value(quotient) == big_value(a) / big_value(b),
{
    a / b
}

/// Compares two `BigUint`s with `<=`, which orders them by their values.
#[verifier::external_body]
fn big_at_most(a: &BigUint, b: &BigUint) -> (result: bool)
    ensures
        result == (big_value(*a) <= big_value(*b)),
{
    a <= b
}

/// The bits of the difficulty that counts: one that is not above zero counts as
/// one. Among the bits of double-precision numbers, those of zero and of the
/// negative ones down to infinity are not above zero.
pub fn counted_difficulty(bits: u64) -> (counted: u64)
    ensures
        counted == (if bits == 0 || 0x8000_0000_0000_0000 <= bits <= 0xFFF0_0000_0000_0000 {
            DIFFICULTY_ONE_BITS
        } else {
            bits
        }),
{
    if bits == 0 || 0x8000_0000_0000_0000 <= bits && bits <= 0xFFF0_0000_0000_0000 {
        DIFFICULTY_ONE_BITS
    } else {
        bits
    }
}

/// The target of a difficulty given in millionths, rounded down. A difficulty
/// below one millionth counts as one millionth.
pub fn difficulty_to_target(scaled: u64) -> (target: BigUint)
    ensures
        big_value(target) == target_value(scaled as nat),
{
    let scaled: u64 = if scaled < 1 {
        1
    } else {
        scaled
    };
    let one: BigUint = big_shift_left(
        big_from_u64(DIFFICULTY_ONE_MANTISSA),
        DIFFICULTY_ONE_SHIFT,
    );
    big_quotient(big_product(one, big_from_u64(DIFFICULTY_SCALE)), big_from_u64(scaled))
}

/// Whether `hash` is at most `target`.
pub fn meets_target(hash: &[u8], target: &BigUint) -> (result: bool)
    ensures
        result == meets(hash@, big_value(*target)),
{
    let number: BigUint = big_from_be_bytes(reversed(hash).as_slice());
    big_at_most(&number, target)
}

/// A higher difficulty never has a larger target.
pub proof fn law_harder_is_smaller(easier: nat, harder: nat)
    requires
        easier <= harder,
    ensures
        target_value(harder) <= target_value(easier),
{
    let one = (difficulty_one_target() * 1_000_000) as int;
    let low = if easier == 0 {
        1
    } else {
        easier as int
    };
    let high = if harder == 0 {
        1
    } else {
        harder as int
    };
    vstd::arithmetic::div_mod::lemma_div_is_ordered_by_denominator(one, low, high);
}

/// The target of a whole difficulty is the target of difficulty one divided by
/// it, so the scaling loses nothing there.
pub proof fn law_whole_difficulty(difficulty: nat)
    requires
        difficulty > 0,
    ensures
        target_value(difficulty * 1_000_000) == difficulty_one_target() / difficulty,
{
    let one = difficulty_one_target() as int;
    let d = difficulty as int;
    vstd::arithmetic::div_mod::lemma_div_denominator(one * 1_000_000, 1_000_000, d);
    vstd::arithmetic::div_mod::lemma_div_multiples_vanish(one, 1_000_000);
    assert(one * 1_000_000 == 1_000_000 * one);
    assert(difficulty * 1_000_000 == 1_000_000 * d);
}

/// A hash that meets the target of a difficulty meets every easier one too.
pub proof fn law_share_meets_easier_targets(hash: Seq<u8>, easier: nat, harder: nat)
    requires
        easier <= harder,
        meets(hash, target_value(harder)),
    ensures
        meets(hash, target_value(easier)),
{
    law_harder_is_smaller(easier, harder);
}

/// The target is the largest number that, taken as many times as the difficulty
/// has millionths, does not exceed a million times the target of difficulty one.
/// No difficulty at all counts as one millionth.
pub proof fn law_target_is_the_quotient(scaled: u64, target: BigUint)
    requires
        call_ensures(difficulty_to_target, (scaled,), target),
    ensures
        ({
            let most = 0xFFFF * pow2(208) * 1_000_000;
            &&& scaled > 0 ==> big_value(target) * scaled <= most < (big_value(target) + 1) * scaled
            &&& scaled == 0 ==> big_value(target) == most
        }),
{
    if scaled > 0 {
        lemma_target_is_the_quotient(scaled as nat);
    }
}

/// A hash meets a target exactly where the number that it stands for, with its
/// least significant byte first, is not above the target.
pub proof fn law_hashes_are_measured(hash: &[u8], target: &BigUint, result: bool)
    requires
        call_ensures(meets_target, (hash, target), result),
    ensures
        result <==> be_value(hash@.reverse()) <= big_value(*target),
        result == meets(hash@, big_value(*target)),
{
}

/// A hash whose highest byte, which is its last, is smaller stands for a smaller
/// number, whatever its other bytes are.
pub proof fn law_the_last_byte_weighs_most(
    low: Seq<u8>,
    low_last: u8,
    high: Seq<u8>,
    high_last: u8,
    target: nat,
)
    requires
        low.len() == high.len(),
        low_last < high_last,
        meets(high.push(high_last), target),
    ensures
        meets(low.push(low_last), target),
{
    let n = low.len();
    law_low_values_join(low, seq![low_last], low_last);
    law_low_values_join(high, seq![high_last], high_last);
    assert(low + seq![low_last] =~= low.push(low_last));
    assert(high + seq![high_last] =~= high.push(high_last));
    lemma_value_bound(low.reverse());
    let p = pow(256, n);
    assert(low_last * p + p <= high_last * p) by (nonlinear_arith)
        requires
            low_last < high_last,
            p >= 0,
    ;
}

/// Which difficulty counts goes by the parts of a double-precision number: its
/// sign, its exponent and its fraction. One above zero counts itself, as does what
/// is no number; zero of either sign and what is below zero count as one.
pub proof fn law_only_positive_difficulties_count(bits: u64, counted: u64)
    requires
        call_ensures(counted_difficulty, (bits,), counted),
    ensures
        ({
            let negative = bits >> 63 == 1;
            let zero = bits << 1 == 0;
            let no_number = (bits >> 52) & 0x7FF == 0x7FF && bits << 12 != 0;
            &&& no_number || !negative && !zero ==> counted == bits
            &&& zero || negative && !no_number ==> counted >> 52 == 1023 && counted << 12 == 0
        }),
{
    assert(DIFFICULTY_ONE_BITS == 0x3FF0_0000_0000_0000u64);
    assert(0x3FF0_0000_0000_0000u64 >> 52 == 1023 && 0x3FF0_0000_0000_0000u64 << 12 == 0)
        by (bit_vector);
    assert((bits << 1 == 0) == (bits == 0 || bits == 0x8000_0000_0000_0000)) by (bit_vector);
    assert((bits >> 63 == 1) == (bits >= 0x8000_0000_0000_0000)) by (bit_vector);
    assert(((bits >> 52) & 0x7FF == 0x7FF && bits << 12 != 0) == (bits > 0xFFF0_0000_0000_0000
        || 0x7FF0_0000_0000_0000 < bits && bits < 0x8000_0000_0000_0000)) by (bit_vector);
}

/// The target is a quotient, rounded down.
pub proof fn lemma_target_is_the_quotient(scaled: nat)
    requires
        scaled > 0,
    ensures
        target_value(scaled) * scaled <= 0xFFFF * pow2(208) * 1_000_000 < (target_value(scaled) + 1)
            * scaled,
{
    let most = (0xFFFF * pow2(208) * 1_000_000) as int;
    let d = scaled as int;
    vstd::arithmetic::div_mod::lemma_fundamental_div_mod(most, d);
    vstd::arithmetic::div_mod::lemma_mod_bound(most, d);
    let q = most / d;
    assert(q * d == d * q) by (nonlinear_arith);
    assert((q + 1) * d == d * q + d) by (nonlinear_arith);
}

proof fn lemma_value_bound(bytes: Seq<u8>)
    ensures
        be_value(bytes) < pow(256, bytes.len()),
    decreases bytes.len(),
{
    if bytes.len() == 0 {
        lemma_pow0(256);
    } else {
        lemma_value_bound(bytes.drop_last());
        assert(pow(256, bytes.len()) == 256 * pow(256, (bytes.len() - 1) as nat)) by {
            reveal(pow);
        }
    }
}

} // verus!
