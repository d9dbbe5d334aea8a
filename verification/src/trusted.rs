//! What this crate takes on trust: the line buffer of `heapless`, the
//! duration type of `fugit`, and the UTF-8 validation of `core`. Nothing here is
//! proved; everything else in the crate is proved from what is stated here.

use vstd::prelude::*;
use vstd::utf8::{encode_utf8, valid_utf8};

verus! {

/// `heapless::Vec`, a vector of at most `N` items that lives in place.
#[verifier::external_type_specification]
#[verifier::external_body]
#[verifier::reject_recursive_types(T)]
pub struct ExHeaplessVec<T, const N: usize>(heapless::Vec<T, N>);

/// `fugit::Duration`, a number of ticks of `NOM / DENOM` seconds each.
#[verifier::external_type_specification]
#[verifier::external_body]
#[verifier::reject_recursive_types(T)]
pub struct ExDuration<T, const NOM: u32, const DENOM: u32>(fugit::Duration<T, NOM, DENOM>);

/// The number of bytes that a line buffer has room for.
pub const LINE_CAPACITY: usize = 32;

/// The buffer in which the bytes of a line are gathered.
pub type LineBuffer = heapless::Vec<u8, LINE_CAPACITY>;

/// The bytes that a line buffer holds, in the order in which they were
/// pushed.
pub uninterp spec fn held(buffer: LineBuffer) -> Seq<u8>;

/// `heapless::Vec::new`: a buffer that holds nothing.
#[verifier::external_body]
pub(crate) fn new_buffer() -> (buffer: LineBuffer)
    ensures
        held(buffer) == Seq::<u8>::empty(),
{
    heapless::Vec::new()
}

/// `heapless::Vec::push`: while the buffer holds fewer bytes than it has
/// room for, the byte is added at the end; a full buffer stays as it is and
/// the byte comes back. The call does not panic.
#[verifier::external_body]
pub(crate) fn push_byte(buffer: &mut LineBuffer, byte: u8) -> (r: Result<(), u8>)
    ensures
        held(*old(buffer)).len() < LINE_CAPACITY ==> r is Ok && held(*final(buffer)) == held(
            *old(buffer),
        ).push(byte),
        held(*old(buffer)).len() >= LINE_CAPACITY ==> (r matches Err(back) && back == byte)
            && held(*final(buffer)) == held(*old(buffer)),
    no_unwind
{
    buffer.push(byte)
}

/// `heapless::Vec::as_slice`: the bytes that the buffer holds.
#[verifier::external_body]
pub(crate) fn buffer_bytes(buffer: &LineBuffer) -> (bytes: &[u8])
    ensures
        bytes@ == held(*buffer),
{
    buffer.as_slice()
}

/// `core::str::from_utf8`: the bytes as text where they are valid UTF-8, and
/// nothing where they are not. The text is made of the very bytes given.
#[verifier::external_body]
pub(crate) fn text_of(bytes: &[u8]) -> (text: Option<&str>)
    ensures
        text is Some <==> valid_utf8(bytes@),
        text is Some ==> encode_utf8(text.unwrap()@) == bytes@,
{
    core::str::from_utf8(bytes).ok()
}

} // verus!
