//! Whether a text names a type.

use vstd::prelude::*;
use vstd::string::*;

verus! {

/// Whether `text` is the source form of a type.
pub uninterp spec fn parses_as_type(text: Seq<char>) -> bool;

/// `syn::parse_str::<syn::Type>` on `text`: whether the parser accepts the
/// whole text as a type.
#[verifier::external_body]
fn parse_type(text: &str) -> (accepted: bool)
    ensures
        accepted == parses_as_type(text@),
{
    syn::parse_str::<syn::Type>(text).is_ok()
}

/// Whether `text` is the source form of a type.
pub fn is_type(text: &str) -> (r: bool)
    ensures
        r == parses_as_type(text@),
{
    parse_type(text)
}

} // verus!
