//! The Unicode data the conversion rests on: the per-scalar case mappings
//! and the `Cased` and `Case_Ignorable` derived properties, together with the
//! growable text buffer the output is assembled in.
use icu_properties::props::{CaseIgnorable, Cased};
use icu_properties::CodePointSetData;
use vstd::prelude::*;

verus! {

/// The full default lowercase mapping of one scalar value (one to three
/// scalar values), from the Unicode Character Database.
pub uninterp spec fn lower_of(c: char) -> Seq<char>;

/// The full default uppercase mapping of one scalar value (one to three
/// scalar values), from the Unicode Character Database.
pub uninterp spec fn upper_of(c: char) -> Seq<char>;

/// Membership of a scalar value in the Unicode `Cased` derived property.
pub uninterp spec fn is_cased(c: char) -> bool;

/// Membership of a scalar value in the Unicode `Case_Ignorable` derived
/// property.
pub uninterp spec fn is_case_ignorable(c: char) -> bool;

/// Relies on `String::with_capacity`: the new string is empty.
pub assume_specification[ String::with_capacity ](capacity: usize) -> (r: String)
    ensures
        r@ == Seq::<char>::empty(),
;

/// Relies on `String::push`: the scalar value is appended at the end.
pub assume_specification[ String::push ](string: &mut String, ch: char)
    ensures
        final(string)@ == old(string)@.push(ch),
;

/// Relies on `char::to_lowercase`: appends the scalar values it yields for
/// `c`, in order.
#[verifier::external_body]
pub(crate) fn push_lowercase(out: &mut String, c: char)
    ensures
        final(out)@ == old(out)@ + lower_of(c),
{
    out.extend(c.to_lowercase());
}

/// Relies on `char::to_uppercase`: appends the scalar values it yields for
/// `c`, in order.
#[verifier::external_body]
pub(crate) fn push_uppercase(out: &mut String, c: char)
    ensures
        final(out)@ == old(out)@ + upper_of(c),
{
    out.extend(c.to_uppercase());
}

/// Relies on icu_properties' compiled `Cased` set and its `contains`.
#[verifier::external_body]
pub(crate) fn cased(c: char) -> (r: bool)
    ensures
        r == is_cased(c),
{
    CodePointSetData::new::<Cased>().contains(c)
}

/// Relies on icu_properties' compiled `Case_Ignorable` set and its
/// `contains`.
#[verifier::external_body]
pub(crate) fn case_ignorable(c: char) -> (r: bool)
    ensures
        r == is_case_ignorable(c),
{
    CodePointSetData::new::<CaseIgnorable>().contains(c)
}

} // verus!
