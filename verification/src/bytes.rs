//! Numbers as bytes, in both byte orders.

use vstd::arithmetic::power::*;
use vstd::prelude::*;

verus! {

/// The number that bytes stand for, the most significant byte first.
pub open spec fn be_value(bytes: Seq<u8>) -> nat
    decreases bytes.len(),
{
    if bytes.len() == 0 {
        0
    } else {
        be_value(bytes.drop_last()) * 256 + bytes.last() as nat
    }
}

/// The number that bytes stand for, the least significant byte first.
pub open spec fn le_value(bytes: Seq<u8>) -> nat {
    be_value(bytes.reverse())
}

/// The `len` lowest bytes of a number, the most significant of them first.
pub open spec fn be_encoding(value: nat, len: nat) -> Seq<u8>
    decreases len,
{
    if len == 0 {
        Seq::empty()
    } else {
        be_encoding(value / 256, (len - 1) as nat).push((value % 256) as u8)
    }
}

/// The `len` lowest bytes of a number, the least significant of them first.
pub open spec fn le_encoding(value: nat, len: nat) -> Seq<u8> {
    be_encoding(value, len).reverse()
}

/// The `len` lowest bytes of `value`, the most significant of them first.
pub fn be_bytes(value: u64, len: usize) -> (bytes: Vec<u8>)
    ensures
        bytes@ == be_encoding(value as nat, len as nat),
{
    let mut lowest_first: Vec<u8> = Vec::new();
    let mut rest: u64 = value;
    let mut i: usize = 0;
    while i < len
        invariant
            i <= len,
            be_encoding(value as nat, len as nat) == be_encoding(rest as nat, (len - i) as nat)
                + lowest_first@.reverse(),
        decreases len - i,
    {
        let ghost before = lowest_first@;
        let byte: u8 = (rest % 256) as u8;
        lowest_first.push(byte);
        proof {
            let head = be_encoding(rest as nat / 256, (len - i - 1) as nat);
            assert(head.push(byte) + before.reverse() =~= head + lowest_first@.reverse());
        }
        rest = rest / 256;
        i = i + 1;
    }
    assert(be_encoding(value as nat, len as nat) =~= lowest_first@.reverse());
    reversed(lowest_first.as_slice())
}

/// The same bytes in the opposite order.
pub fn reversed(bytes: &[u8]) -> (result: Vec<u8>)
    ensures
        result@ == bytes@.reverse(),
{
    let mut result: Vec<u8> = Vec::new();
    let mut left: usize = bytes.len();
    while left > 0
        invariant
            left <= bytes@.len(),
            result@ == bytes@.skip(left as int).reverse(),
        decreases left,
    {
        left = left - 1;
        result.push(bytes[left]);
        assert(result@ =~= bytes@.skip(left as int).reverse());
    }
    assert(bytes@.skip(0) =~= bytes@);
    result
}

/// The four bytes of `value`, the least significant first.
pub fn le_bytes(value: u32) -> (bytes: Vec<u8>)
    ensures
        bytes@ == le_encoding(value as nat, 4),
        bytes@.len() == 4,
{
    let bytes: Vec<u8> = be_bytes(value as u64, 4);
    proof {
        lemma_be_encoding_len(value as nat, 4);
    }
    reversed(bytes.as_slice())
}

/// Encoding in `len` bytes gives exactly `len` bytes.
pub proof fn lemma_be_encoding_len(value: nat, len: nat)
    ensures
        be_encoding(value, len).len() == len,
    decreases len,
{
    if len > 0 {
        lemma_be_encoding_len(value / 256, (len - 1) as nat);
    }
}

/// Reading the encoding of a number back gives the number modulo what fits in
/// the bytes.
pub proof fn law_encoding_reads_back(value: nat, len: nat)
    ensures
        be_value(be_encoding(value, len)) == value as int % pow(256, len),
        le_value(le_encoding(value, len)) == value as int % pow(256, len),
    decreases len,
{
    let bytes = be_encoding(value, len);
    assert(le_encoding(value, len).reverse() =~= bytes);
    if len == 0 {
        lemma_pow0(256);
    } else {
        let head = be_encoding(value / 256, (len - 1) as nat);
        law_encoding_reads_back(value / 256, (len - 1) as nat);
        assert(bytes.drop_last() =~= head);
        let p = pow(256, (len - 1) as nat);
        lemma_pow_positive(256, (len - 1) as nat);
        assert(pow(256, len) == 256 * p) by {
            reveal(pow);
        }
        let q = value as int / 256;
        vstd::arithmetic::div_mod::lemma_mod_breakdown(value as int, 256, p);
        assert(value as int % (256 * p) == 256 * (q % p) + value as int % 256);
    }
}

/// Bytes that stand before others count for as many times more as there are
/// values in the others, and a single byte stands for itself.
pub proof fn law_values_join(head: Seq<u8>, tail: Seq<u8>, byte: u8)
    ensures
        be_value(Seq::empty()) == 0,
        be_value(seq![byte]) == byte,
        be_value(head + tail) == be_value(head) * pow(256, tail.len()) + be_value(tail),
    decreases tail.len(),
{
    let single = seq![byte];
    assert(single.drop_last() =~= Seq::<u8>::empty());
    assert(be_value(single.drop_last()) == 0);
    if tail.len() == 0 {
        assert(head + tail =~= head);
        lemma_pow0(256);
    } else {
        let shorter = tail.drop_last();
        law_values_join(head, shorter, byte);
        assert((head + tail).drop_last() =~= head + shorter);
        let p = pow(256, shorter.len());
        assert(pow(256, tail.len()) == 256 * p) by {
            reveal(pow);
        }
        let h = be_value(head) as int;
        assert((h * p + be_value(shorter)) * 256 == h * (256 * p) + be_value(shorter) * 256)
            by (nonlinear_arith);
    }
}

/// Read with the least significant byte first, bytes that stand after others
/// count for as many times more as there are values in the others.
pub proof fn law_low_values_join(head: Seq<u8>, tail: Seq<u8>, byte: u8)
    ensures
        le_value(Seq::empty()) == 0,
        le_value(seq![byte]) == byte,
        le_value(head + tail) == le_value(head) + le_value(tail) * pow(256, head.len()),
{
    law_values_join(tail.reverse(), head.reverse(), byte);
    assert((head + tail).reverse() =~= tail.reverse() + head.reverse());
    assert(seq![byte].reverse() =~= seq![byte]);
    assert(Seq::<u8>::empty().reverse() =~= Seq::<u8>::empty());
}

/// As many bytes that stand for the same number are the same, in either order.
pub proof fn law_values_tell_the_bytes(a: Seq<u8>, b: Seq<u8>)
    requires
        a.len() == b.len(),
    ensures
        be_value(a) == be_value(b) ==> a == b,
        le_value(a) == le_value(b) ==> a == b,
{
    lemma_value_tells_the_bytes(a, b);
    lemma_value_tells_the_bytes(a.reverse(), b.reverse());
    assert(a.reverse().reverse() =~= a);
    assert(b.reverse().reverse() =~= b);
}

proof fn lemma_value_tells_the_bytes(a: Seq<u8>, b: Seq<u8>)
    requires
        a.len() == b.len(),
    ensures
        be_value(a) == be_value(b) ==> a == b,
    decreases a.len(),
{
    if a.len() == 0 {
        assert(a =~= b);
    } else if be_value(a) == be_value(b) {
        assert(be_value(a) % 256 == a.last());
        assert(be_value(b) % 256 == b.last());
        lemma_value_tells_the_bytes(a.drop_last(), b.drop_last());
        assert(a =~= a.drop_last().push(a.last()));
        assert(b =~= b.drop_last().push(b.last()));
    }
}

/// There are as many bytes as were asked for, and with the most significant first
/// they stand for what is left of the number when it is divided by how many
/// values they have.
pub proof fn law_bytes_stand_for_the_number(value: u64, len: usize, bytes: Vec<u8>)
    requires
        call_ensures(be_bytes, (value, len), bytes),
    ensures
        bytes@.len() == len,
        be_value(bytes@) == value as int % pow(256, len as nat),
{
    lemma_be_encoding_len(value as nat, len as nat);
    law_encoding_reads_back(value as nat, len as nat);
}

/// The four bytes of a number stand for it, with the least significant first.
pub proof fn law_low_bytes_stand_for_the_number(value: u32, bytes: Vec<u8>)
    requires
        call_ensures(le_bytes, (value,), bytes),
    ensures
        bytes@.len() == 4,
        le_value(bytes@) == value,
        bytes@[0] + 0x100 * bytes@[1] + 0x1_0000 * bytes@[2] + 0x100_0000 * bytes@[3] == value,
{
    lemma_be_encoding_len(value as nat, 4);
    law_encoding_reads_back(value as nat, 4);
    assert(pow(256, 4) == 0x1_0000_0000) by {
        reveal_with_fuel(pow, 5);
    }
    reveal_with_fuel(be_value, 5);
    let turned = bytes@.reverse();
    assert(turned.len() == 4);
    assert(turned.drop_last().drop_last().drop_last().drop_last().len() == 0);
}

/// Turned round, the byte at each index is the one as far from the other end.
pub proof fn law_reversed_bytes(bytes: &[u8], result: Vec<u8>, i: int)
    requires
        call_ensures(reversed, (bytes,), result),
        0 <= i < bytes@.len(),
    ensures
        result@.len() == bytes@.len(),
        result@[i] == bytes@[bytes@.len() - 1 - i],
{
}

} // verus!
