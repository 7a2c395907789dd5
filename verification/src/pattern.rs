//! The pattern that finds the resource in a path template.

use vstd::prelude::*;
use vstd::string::*;

verus! {

/// What the first capture group of the regular expression `pattern` holds in
/// the leftmost match of the expression in `text`. `None` where the pattern
/// is no valid expression, where it matches nowhere, and where the group took
/// no part in the match.
pub uninterp spec fn first_group(pattern: Seq<char>, text: Seq<char>) -> Option<Seq<char>>;

/// `regex::Regex::new` on `pattern`, then `Regex::captures` on `text` and
/// `Captures::get(1)`: the text of the first capture group. A pattern that
/// does not compile, a text without a match and a group outside the match all
/// give `None`.
#[verifier::external_body]
fn capture_first_group(pattern: &str, text: &str) -> (r: Option<String>)
    ensures
        r.deep_view() == first_group(pattern@, text@),
{
    match regex::Regex::new(pattern) {
        Ok(expression) => match expression.captures(text) {
            Some(captures) => match captures.get(1) {
                Some(found) => Some(found.as_str().to_owned()),
                None => None,
            },
            None => None,
        },
        Err(_) => None,
    }
}

/// The expression that reads a path template: a separator, the resource, a
/// separator and a parameter in braces. Both groups take as little as they
/// can.
pub open spec fn resource_pattern() -> Seq<char> {
    "/(.*?)/\\{(.*?)\\}"@
}

/// The resource part of a path template, where the template has a parameter
/// in braces behind a separator.
pub fn find_resource(path: &str) -> (r: Option<String>)
    ensures
        r.deep_view() == first_group(resource_pattern(), path@),
{
    capture_first_group("/(.*?)/\\{(.*?)\\}", path)
}

} // verus!
