//! The calls this library makes into code it does not verify. Each contract
//! here is taken on trust from the documentation of the function it names.

use vstd::prelude::*;
use crate::text::option_view;

verus! {

/// What `url::Url::parse` makes of a text: the serialisation of the URL it
/// parsed, or `None` where it refuses the text.
pub uninterp spec fn parsed_url(text: Seq<char>) -> Option<Seq<char>>;

/// Calls `url::Url::parse` and hands back the serialisation of the parsed
/// URL. Trusted: the result is the one named by [`parsed_url`].
#[verifier::external_body]
pub(crate) fn parse_url(text: &str) -> (serialisation: Option<String>)
    ensures
        option_view(serialisation) == parsed_url(text@),
{
    match url::Url::parse(text) {
        Ok(parsed) => Some(String::from(parsed)),
        Err(_) => None,
    }
}

/// What `str::to_lowercase` gives for a text: its lowercase form under the
/// Unicode case mapping.
pub uninterp spec fn lowercase(text: Seq<char>) -> Seq<char>;

/// Calls `str::to_lowercase`. Trusted: the result is the one named by
/// [`lowercase`].
#[verifier::external_body]
pub(crate) fn to_lowercase(text: &str) -> (lower: String)
    ensures
        lower@ == lowercase(text@),
{
    text.to_lowercase()
}

} // verus!
