//! The fuzz input: a run of bytes that numbers and flags are drawn from.

use arbitrary::Unstructured;
use vstd::prelude::*;

use crate::wire::le_value;

verus! {

/// A source of fuzz bytes, as the `arbitrary` crate keeps it.
#[verifier::external_type_specification]
#[verifier::external_body]
pub struct ExUnstructured<'a>(arbitrary::Unstructured<'a>);

/// Why the `arbitrary` crate could not draw a value.
#[verifier::external_type_specification]
#[verifier::external_body]
pub struct ExError(arbitrary::Error);

/// The bytes that have not been drawn yet.
pub uninterp spec fn unread(input: arbitrary::Unstructured<'_>) -> Seq<u8>;

/// The input could not supply a value.
#[derive(Debug, Clone, Copy, PartialEq, Eq, Structural)]
pub struct InputError;

/// The part of `bytes` that drawing `width` bytes takes: all of them, once
/// fewer than `width` are left.
pub open spec fn drawn(bytes: Seq<u8>, width: nat) -> Seq<u8> {
    if bytes.len() < width {
        bytes
    } else {
        bytes.take(width as int)
    }
}

/// What is left of `bytes` once `width` bytes are drawn.
pub open spec fn left_after(bytes: Seq<u8>, width: nat) -> Seq<u8> {
    if bytes.len() < width {
        Seq::empty()
    } else {
        bytes.skip(width as int)
    }
}

/// Drawing takes bytes off the front and loses none: what is drawn and what is
/// left are the input, and as many bytes are drawn as asked for and there.
pub proof fn drawing_splits_the_input(bytes: Seq<u8>, width: nat)
    ensures
        drawn(bytes, width) + left_after(bytes, width) == bytes,
        drawn(bytes, width).len() <= width,
        drawn(bytes, width).len() < width ==> left_after(bytes, width).len() == 0,
{
    assert(drawn(bytes, width) + left_after(bytes, width) =~= bytes);
}

/// Calls `Unstructured::is_empty`, which tells whether every byte was drawn.
#[verifier::external_body]
pub(crate) fn is_empty(input: &Unstructured<'_>) -> (empty: bool)
    ensures
        empty == (unread(*input).len() == 0),
{
    input.is_empty()
}

/// Calls `Unstructured::arbitrary` for a `u64`. It draws eight bytes and reads
/// them little-endian; where the input runs short it reads zeros in their
/// place, and does not fail.
#[verifier::external_body]
pub(crate) fn raw_u64(input: &mut Unstructured<'_>) -> (value: Result<u64, arbitrary::Error>)
    ensures
        value is Ok,
        value->Ok_0 as nat == le_value(drawn(unread(*old(input)), 8)),
        unread(*final(input)) == left_after(unread(*old(input)), 8),
{
    input.arbitrary::<u64>()
}

/// Calls `Unstructured::arbitrary` for a `bool`. It draws one byte and takes
/// its lowest bit; on an empty input it gives `false`, and does not fail.
#[verifier::external_body]
pub(crate) fn raw_bool(input: &mut Unstructured<'_>) -> (value: Result<bool, arbitrary::Error>)
    ensures
        value is Ok,
        value->Ok_0 == (le_value(drawn(unread(*old(input)), 1)) % 2 == 1),
        unread(*final(input)) == left_after(unread(*old(input)), 1),
{
    input.arbitrary::<bool>()
}

/// Draws a number from the next eight bytes, little-endian. Bytes that the
/// input no longer has count as zero.
pub fn draw_u64(input: &mut Unstructured<'_>) -> (value: Result<u64, InputError>)
    ensures
        value is Ok,
        value->Ok_0 as nat == le_value(drawn(unread(*old(input)), 8)),
        unread(*final(input)) == left_after(unread(*old(input)), 8),
{
    match raw_u64(input) {
        Ok(value) => Ok(value),
        Err(_) => Err(InputError),
    }
}

/// Draws a flag from the lowest bit of the next byte; `false` if there is none.
pub fn draw_bool(input: &mut Unstructured<'_>) -> (value: Result<bool, InputError>)
    ensures
        value is Ok,
        value->Ok_0 == (le_value(drawn(unread(*old(input)), 1)) % 2 == 1),
        unread(*final(input)) == left_after(unread(*old(input)), 1),
{
    match raw_bool(input) {
        Ok(value) => Ok(value),
        Err(_) => Err(InputError),
    }
}

} // verus!
