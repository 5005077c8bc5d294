//! Target URIs, as the `http` crate reads them.

use vstd::prelude::*;

verus! {

/// The path and query of a URI text as `http` parses it: `None` for a text
/// that is no URI or that has neither scheme nor path.
pub uninterp spec fn path_and_query(uri: Seq<char>) -> Option<Seq<char>>;

/// `http::Uri::try_from` on the text, then `Uri::path_and_query` and
/// `PathAndQuery::as_str` on what was parsed. The contract names the
/// outcome and claims nothing more of it: parsing is a function of the text
/// alone.
#[verifier::external_body]
pub(crate) fn uri_path_and_query(uri: &str) -> (r: Option<String>)
    ensures
        match r {
            Some(path) => path_and_query(uri@) == Some(path@),
            None => path_and_query(uri@) is None,
        },
{
    let parsed = http::Uri::try_from(uri).ok()?;
    parsed.path_and_query().map(|p| p.as_str().to_owned())
}

} // verus!
