//! Little-endian integers in byte sequences.
use vstd::arithmetic::div_mod::lemma_div_denominator;
use vstd::arithmetic::power::{lemma_pow_positive, pow};
use vstd::prelude::*;

verus! {

/// The number of values that `width` bytes can hold.
pub open spec fn byte_range(width: nat) -> nat
    decreases width,
{
    if width == 0 {
        1
    } else {
        256 * byte_range((width - 1) as nat)
    }
}

/// The `width` bytes of `value`, the least significant one first.
pub open spec fn le_bytes(value: nat, width: nat) -> Seq<u8>
    decreases width,
{
    if width == 0 {
        Seq::empty()
    } else {
        seq![(value % 256) as u8] + le_bytes(value / 256, (width - 1) as nat)
    }
}

/// The value that `bytes` hold, the least significant byte first.
pub open spec fn le_value(bytes: Seq<u8>) -> nat
    decreases bytes.len(),
{
    if bytes.len() == 0 {
        0
    } else {
        bytes[0] as nat + 256 * le_value(bytes.drop_first())
    }
}

/// `width` bytes are what `le_bytes` gives.
pub proof fn le_bytes_len(value: nat, width: nat)
    ensures
        le_bytes(value, width).len() == width,
    decreases width,
{
    if width > 0 {
        le_bytes_len(value / 256, (width - 1) as nat);
    }
}

/// What a sequence of bytes holds fits in its length.
pub proof fn le_value_range(bytes: Seq<u8>)
    ensures
        le_value(bytes) < byte_range(bytes.len()),
    decreases bytes.len(),
{
    if bytes.len() > 0 {
        le_value_range(bytes.drop_first());
    }
}

/// Writing a value that fits and reading the bytes gives the value back.
pub proof fn le_value_of_le_bytes(value: nat, width: nat)
    requires
        value < byte_range(width),
    ensures
        le_value(le_bytes(value, width)) == value,
    decreases width,
{
    if width > 0 {
        let rest = le_bytes(value / 256, (width - 1) as nat);
        le_value_of_le_bytes(value / 256, (width - 1) as nat);
        assert(le_bytes(value, width).drop_first() =~= rest);
    }
}

/// Reading bytes and writing the value over the same width gives the bytes back.
pub proof fn le_bytes_of_le_value(bytes: Seq<u8>)
    ensures
        le_bytes(le_value(bytes), bytes.len()) == bytes,
    decreases bytes.len(),
{
    if bytes.len() > 0 {
        let rest = bytes.drop_first();
        le_bytes_of_le_value(rest);
        assert(le_value(bytes) % 256 == bytes[0]);
        assert(le_value(bytes) / 256 == le_value(rest));
        assert(seq![bytes[0]] + rest =~= bytes);
    }
}

/// The byte at place `i` is the digit of the value at that place, to the base 256.
pub proof fn le_bytes_are_digits(value: nat, width: nat, i: nat)
    requires
        i < width,
    ensures
        le_bytes(value, width).len() == width,
        le_bytes(value, width)[i as int] == (value as int / pow(256, i)) % 256,
    decreases width,
{
    reveal(pow);
    le_bytes_len(value, width);
    le_bytes_len(value / 256, (width - 1) as nat);
    if i > 0 {
        let place = (i - 1) as nat;
        le_bytes_are_digits(value / 256, (width - 1) as nat, place);
        lemma_pow_positive(256, place);
        lemma_div_denominator(value as int, 256, pow(256, place));
    }
}

/// The ranges of the widths in use.
pub proof fn byte_range_values()
    ensures
        byte_range(4) == 0x1_0000_0000,
        byte_range(8) == 0x1_0000_0000_0000_0000,
{
    reveal_with_fuel(byte_range, 9);
}

/// Reads the little-endian integer of `width` bytes that starts at `at`.
pub fn read_le(bytes: &[u8], at: usize, width: usize) -> (value: u64)
    requires
        at + width <= bytes.len(),
        width <= 8,
    ensures
        value < byte_range(width as nat),
        le_bytes(value as nat, width as nat) == bytes@.subrange(at as int, at + width),
{
    let mut value: u64 = 0;
    let mut left: usize = width;
    proof {
        byte_range_values();
    }
    while left > 0
        invariant
            left <= width,
            width <= 8,
            at + width <= bytes.len(),
            value == le_value(bytes@.subrange(at + left, at + width)),
            byte_range(8) == 0x1_0000_0000_0000_0000,
        decreases left,
    {
        left = left - 1;
        let ghost tail = bytes@.subrange(at + left, at + width);
        proof {
            assert(tail.drop_first() =~= bytes@.subrange(at + left + 1, at + width));
            le_value_range(tail);
            byte_range_monotone(tail.len(), 8);
        }
        value = value * 256 + bytes[at + left] as u64;
    }
    proof {
        let field = bytes@.subrange(at as int, at + width);
        le_value_range(field);
        le_bytes_of_le_value(field);
    }
    value
}

proof fn byte_range_monotone(small: nat, large: nat)
    requires
        small <= large,
    ensures
        byte_range(small) <= byte_range(large),
    decreases large,
{
    if small < large {
        byte_range_monotone(small, (large - 1) as nat);
        byte_range_positive((large - 1) as nat);
    }
}

proof fn byte_range_positive(width: nat)
    ensures
        byte_range(width) > 0,
    decreases width,
{
    if width > 0 {
        byte_range_positive((width - 1) as nat);
    }
}

/// Stores the little-endian `width` bytes of `value` in `out`, from `at` on.
pub fn write_le<const N: usize>(out: &mut [u8; N], at: usize, width: usize, value: u64)
    requires
        at + width <= N,
    ensures
        final(out)@ == old(out)@.take(at as int) + le_bytes(value as nat, width as nat) + old(
            out,
        )@.skip(at + width),
{
    let mut rest: u64 = value;
    let mut done: usize = 0;
    proof {
        le_bytes_len(value as nat, width as nat);
        assert(le_bytes(value as nat, width as nat).skip(0) =~= le_bytes(
            value as nat,
            width as nat,
        ));
    }
    while done < width
        invariant
            done <= width,
            at + width <= N,
            le_bytes(value as nat, width as nat).len() == width,
            le_bytes(rest as nat, (width - done) as nat) == le_bytes(
                value as nat,
                width as nat,
            ).skip(done as int),
            out@ == old(out)@.take(at as int) + le_bytes(value as nat, width as nat).take(
                done as int,
            ) + old(out)@.skip(at + done),
        decreases width - done,
    {
        let ghost field = le_bytes(value as nat, width as nat);
        let ghost left = le_bytes(rest as nat, (width - done) as nat);
        proof {
            assert(left[0] == (rest % 256) as u8);
            assert(field[done as int] == left[0]);
            assert(left.drop_first() =~= le_bytes((rest / 256) as nat, (width - done - 1) as nat));
            assert(field.skip(done as int).drop_first() =~= field.skip(done + 1));
        }
        out[at + done] = (rest % 256) as u8;
        rest = rest / 256;
        done = done + 1;
        assert(out@ =~= old(out)@.take(at as int) + field.take(done as int) + old(out)@.skip(
            at + done,
        ));
    }
    assert(le_bytes(value as nat, width as nat).take(width as int) =~= le_bytes(
        value as nat,
        width as nat,
    ));
}

} // verus!
