//! Helpers around extension installation: where an extension's files
//! live under the configuration directory, and the artifact file name
//! taken from its download URL.

use vstd::prelude::*;

verus! {

/// The last path segment of a URL, as the url crate parses it;
/// nothing when the text is not a URL or the URL has no path
/// segments.
pub uninterp spec fn url_last_path_segment(s: Seq<char>) -> Option<Seq<char>>;

/// The file name at the end of a URL's path: the segment a downloaded
/// artifact is stored under.
///
/// Relies on url's `Url::parse` and `Url::path_segments`: parsing and
/// segmenting are functions of the URL text alone.
#[verifier::external_body]
pub fn extract_filename_from_url(url_str: &str) -> (r: Option<String>)
    ensures
        match r {
            Option::Some(s) => url_last_path_segment(url_str@) == Option::Some(s@),
            Option::None => url_last_path_segment(url_str@) is None,
        },
{
    match url::Url::parse(url_str) {
        Ok(u) => match u.path_segments() {
            Some(segments) => segments.last().map(|s| s.to_string()),
            None => None,
        },
        Err(_) => None,
    }
}

/// The directory an extension's files live in, relative to the home
/// directory.
pub fn extension_dir_rel(name: &str) -> (r: String)
    ensures
        r@ == ".ga4gh/extensions/"@ + name@ + "/"@,
{
    let mut out = ".ga4gh/extensions/".to_owned();
    out.append(name);
    out.append("/");
    out
}

/// The local path of an extension's artifact inside its directory,
/// relative to the home directory.
pub fn extension_library_rel(name: &str, file_name: &str) -> (r: String)
    ensures
        r@ == ".ga4gh/extensions/"@ + name@ + "/"@ + file_name@,
{
    let mut out = extension_dir_rel(name);
    out.append(file_name);
    out
}

/// The local path of an extension's installed descriptor copy,
/// relative to the home directory.
pub fn extension_definition_rel(name: &str) -> (r: String)
    ensures
        r@ == ".ga4gh/extensions/"@ + name@ + "/"@ + name@ + ".ga4gh-sdk-extension.json"@,
{
    let mut out = extension_dir_rel(name);
    out.append(name);
    out.append(".ga4gh-sdk-extension.json");
    out
}

} // verus!
