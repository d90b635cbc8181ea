//! Where the text of a value goes when it is printed: the formatter of the standard library.
//!
//! Everything in this module is taken on trust from that library.
use core::fmt::Formatter;
use vstd::prelude::*;

verus! {

/// `core::fmt::Formatter`: a receiver of text.
#[verifier::external_type_specification]
#[verifier::external_body]
pub struct ExFormatter<'a>(Formatter<'a>);

/// `core::fmt::Error`: a receiver did not take a text.
#[verifier::external_type_specification]
#[verifier::external_body]
pub struct ExFormatError(core::fmt::Error);

/// The text that a receiver was given.
pub uninterp spec fn given(f: Formatter<'_>) -> Seq<char>;

/// `core::fmt::Formatter::write_str`: gives a text to a receiver, behind what it was given before.
/// Nothing is claimed of what a receiver holds that did not take the text.
#[verifier::external_body]
pub(crate) fn write_str(f: &mut Formatter<'_>, s: &str) -> (r: core::fmt::Result)
    ensures
        r is Ok ==> given(*final(f)) == given(*old(f)) + s@,
{
    f.write_str(s)
}

} // verus!
