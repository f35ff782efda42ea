//! The address of the releases list.

use url::Url;
use vstd::prelude::*;

verus! {

/// `url::Url`, a parsed URL.
#[verifier::external_type_specification]
#[verifier::external_body]
pub struct ExUrl(Url);

/// The page that lists the releases of Android Studio.
pub const ANDROID_STUDIO_RELEASES_LIST: &'static str =
    "https://plugins.jetbrains.com/docs/intellij/android-studio-releases-list.html";

/// The URL that `Url::parse` reads from a text; `None` where the text is no
/// absolute URL.
pub uninterp spec fn parsed_url(address: Seq<char>) -> Option<Url>;

/// Calls `Url::parse`, and gives `None` where it reports an error. What it
/// gives depends on the text alone.
#[verifier::external_body]
fn parse_url(address: &str) -> (url: Option<Url>)
    ensures
        url == parsed_url(address@),
{
    Url::parse(address).ok()
}

/// Builds the URL of the releases list.
pub fn build_releases_url() -> (url: Option<Url>)
    ensures
        url == parsed_url(ANDROID_STUDIO_RELEASES_LIST@),
{
    parse_url(ANDROID_STUDIO_RELEASES_LIST)
}

} // verus!
