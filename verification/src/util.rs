//! Small helpers for messages.
use inflector::Inflector;
use vstd::prelude::*;

verus! {

/// The plural of an English word, as `Inflector::to_plural` forms it.
pub uninterp spec fn plural_of(word: Seq<char>) -> Seq<char>;

/// Calls `Inflector::to_plural`, which forms the plural of an English word
/// by its fixed tables and rules; the plural depends on the word alone.
#[verifier::external_body]
fn to_plural(s: &str) -> (r: String)
    ensures
        r@ == plural_of(s@),
{
    s.to_plural()
}

/// `s` in the plural when `len` is more than one, else `s` unchanged.
pub fn pluralize(s: &str, len: usize) -> (r: String)
    ensures
        r@ == (if len > 1 {
            plural_of(s@)
        } else {
            s@
        }),
{
    if len > 1 {
        to_plural(s)
    } else {
        String::from_str(s)
    }
}

} // verus!
