//! The formatter's fixed-capacity text buffer: `arrayvec::ArrayString`,
//! held behind a small trusted surface.
//!
//! The capacity covers the worst case the formatter can produce on its own:
//! a sign, the 39 digits of a 128-bit magnitude, the decimal point, and up
//! to 255 requested fractional digits. Any precision beyond that is
//! reported back as a count of zeros still owed, so the buffer never needs
//! to grow.

use vstd::prelude::*;
use crate::digits::ascii_chars;

verus! {

/// The buffer capacity: sign + 39 digits + point + 255 fractional digits.
pub const MAX_STR_BUFFER_SIZE: usize = 296;

#[verifier::external_type_specification]
#[verifier::external_body]
pub struct ExArrayString<const CAP: usize>(arrayvec::ArrayString<CAP>);

/// The characters a buffer holds.
pub uninterp spec fn buf_chars(b: arrayvec::ArrayString<MAX_STR_BUFFER_SIZE>) -> Seq<char>;

/// Relies on arrayvec::ArrayString::new: a fresh buffer is empty. (`new`
/// only rejects capacities beyond `u32::MAX`, far above this one.)
#[verifier::external_body]
pub(crate) fn buf_new() -> (b: arrayvec::ArrayString<MAX_STR_BUFFER_SIZE>)
    ensures
        buf_chars(b) == Seq::<char>::empty(),
{
    arrayvec::ArrayString::new()
}

/// Relies on arrayvec::ArrayString::push: appending one character. The
/// capacity is counted in bytes, so the conditions keep every character —
/// stored and pushed — one byte wide and the buffer short of full; under
/// them the push cannot hit the capacity error.
#[verifier::external_body]
pub(crate) fn buf_push(b: &mut arrayvec::ArrayString<MAX_STR_BUFFER_SIZE>, c: char)
    requires
        buf_chars(*old(b)).len() < MAX_STR_BUFFER_SIZE,
        ascii_chars(buf_chars(*old(b))),
        (c as int) < 128,
    ensures
        buf_chars(*final(b)) == buf_chars(*old(b)).push(c),
{
    b.push(c);
}

/// Relies on arrayvec::ArrayString::as_str: a view of the stored text.
#[verifier::external_body]
pub fn buf_as_str(b: &arrayvec::ArrayString<MAX_STR_BUFFER_SIZE>) -> (r: &str)
    ensures
        r@ == buf_chars(*b),
{
    b.as_str()
}

} // verus!
