//! Little-endian integers, as virtio structures hold them.

use vstd::prelude::*;
use zerocopy::byteorder::little_endian;
use zerocopy::IntoBytes;

verus! {

/// The `width` low bytes of `value`, least significant first.
pub open spec fn le_bytes(value: nat, width: nat) -> Seq<u8>
    decreases width,
{
    if width == 0 {
        Seq::empty()
    } else {
        seq![(value % 256) as u8] + le_bytes(value / 256, (width - 1) as nat)
    }
}

/// The number that `bytes` spells, least significant byte first.
pub open spec fn le_value(bytes: Seq<u8>) -> nat
    decreases bytes.len(),
{
    if bytes.len() == 0 {
        0
    } else {
        bytes[0] as nat + 256 * le_value(bytes.skip(1))
    }
}

/// 256 to the power of `width`.
pub open spec fn byte_range(width: nat) -> nat
    decreases width,
{
    if width == 0 {
        1
    } else {
        256 * byte_range((width - 1) as nat)
    }
}

/// Reading back the bytes of a number gives the number, as long as it fits.
pub proof fn le_round_trip(value: nat, width: nat)
    requires
        value < byte_range(width),
    ensures
        le_bytes(value, width).len() == width,
        le_value(le_bytes(value, width)) == value,
    decreases width,
{
    if width > 0 {
        let rest = le_bytes(value / 256, (width - 1) as nat);
        assert(value / 256 < byte_range((width - 1) as nat));
        le_round_trip(value / 256, (width - 1) as nat);
        assert(le_bytes(value, width).skip(1) =~= rest);
    }
}

/// The length of an encoding is its width, whatever the number.
pub proof fn le_bytes_len(value: nat, width: nat)
    ensures
        le_bytes(value, width).len() == width,
    decreases width,
{
    if width > 0 {
        le_bytes_len(value / 256, (width - 1) as nat);
    }
}

/// Byte `i` of an encoding is digit `i` of the number to base 256.
pub proof fn le_bytes_are_digits(value: nat, width: nat, i: int)
    requires
        0 <= i < width,
    ensures
        le_bytes(value, width).len() == width,
        le_bytes(value, width)[i] as nat == (value / byte_range(i as nat)) % 256,
    decreases width,
{
    le_bytes_len(value, width);
    byte_ranges_multiply();
    if i > 0 {
        le_bytes_are_digits(value / 256, (width - 1) as nat, i - 1);
        let smaller = byte_range((i - 1) as nat);
        byte_range_is_positive((i - 1) as nat);
        vstd::arithmetic::div_mod::lemma_div_denominator(value as int, 256, smaller as int);
        assert(le_bytes(value, width)[i] == le_bytes(value / 256, (width - 1) as nat)[i - 1]);
    } else {
        assert(value / 1 == value);
    }
}

proof fn byte_range_is_positive(width: nat)
    ensures
        byte_range(width) >= 1,
    decreases width,
{
    if width > 0 {
        byte_range_is_positive((width - 1) as nat);
    }
}

/// The widths in use hold what their integer types hold.
pub proof fn byte_ranges_multiply()
    ensures
        byte_range(0) == 1,
        byte_range(1) == 0x100,
        byte_range(4) == 0x1_0000_0000,
        byte_range(8) == 0x1_0000_0000_0000_0000,
        forall|width: nat| #[trigger] byte_range(width + 1) == 256 * byte_range(width),
{
    reveal_with_fuel(byte_range, 9);
}

/// A number grows by the last byte times its place, and bytes read that way
/// determine the number.
pub proof fn le_value_adds_digits(bytes: Seq<u8>)
    ensures
        bytes.len() == 0 ==> le_value(bytes) == 0,
        bytes.len() > 0 ==> le_value(bytes) == le_value(bytes.drop_last()) + bytes.last()
            * byte_range((bytes.len() - 1) as nat),
        le_value(bytes) < byte_range(bytes.len()),
    decreases bytes.len(),
{
    if bytes.len() > 0 {
        let rest = bytes.skip(1);
        le_value_adds_digits(rest);
        if rest.len() > 0 {
            assert(rest.drop_last() =~= bytes.drop_last().skip(1));
            assert(bytes.drop_last()[0] == bytes[0]);
            let place = byte_range((rest.len() - 1) as nat) as int;
            let last = bytes.last() as int;
            assert(256 * (last * place) == last * (256 * place)) by (nonlinear_arith);
        } else {
            assert(bytes.drop_last() =~= Seq::<u8>::empty());
            assert(bytes.last() * 1 == bytes[0]);
        }
    }
}

/// Calls `zerocopy::IntoBytes::as_bytes` on a `little_endian::U32`. That type
/// stores its number least significant byte first on every host, and
/// `as_bytes` hands out the stored bytes, so the result is the four
/// little-endian bytes of `value`.
#[verifier::external_body]
pub(crate) fn u32_bytes(value: u32) -> (bytes: Vec<u8>)
    ensures
        bytes@ == le_bytes(value as nat, 4),
{
    little_endian::U32::new(value).as_bytes().to_vec()
}

/// Calls `zerocopy::IntoBytes::as_bytes` on a `little_endian::U64`. As with the
/// 32-bit type, the stored bytes are handed out, so the result is the eight
/// little-endian bytes of `value`.
#[verifier::external_body]
pub(crate) fn u64_bytes(value: u64) -> (bytes: Vec<u8>)
    ensures
        bytes@ == le_bytes(value as nat, 8),
{
    little_endian::U64::new(value).as_bytes().to_vec()
}

} // verus!
