//! Resolution of discovered links against the URL of the page they came
//! from.

use vstd::prelude::*;

verus! {

/// The absolute URL that resolving `link` against the base URL `base`
/// yields, or `None` when the pair does not resolve.  The outcome depends on
/// the two strings alone.
pub uninterp spec fn resolve_of(base: Seq<char>, link: Seq<char>) -> Option<Seq<char>>;

/// Relies on `url::Url::parse`, `url::Url::join` and `url::Url::as_str`:
/// parsing an absolute base URL, resolving a possibly relative link against
/// it, and serializing the result are pure functions of the two strings;
/// each of the two parsing steps reports failure through a `Result`.
#[verifier::external_body]
pub(crate) fn resolve_link(base: &str, link: &str) -> (r: Option<String>)
    ensures
        r.deep_view() == resolve_of(base@, link@),
{
    match url::Url::parse(base) {
        Ok(b) => match b.join(link) {
            Ok(u) => Some(String::from(u.as_str())),
            Err(_) => None,
        },
        Err(_) => None,
    }
}

} // verus!
