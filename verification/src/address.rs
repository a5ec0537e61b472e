//! What the library reads of a URL, which it holds as text.

use vstd::prelude::*;

verus! {

/// The scheme of the absolute URL that a text spells, if it spells one.
pub uninterp spec fn scheme_of(text: Seq<char>) -> Option<Seq<char>>;

/// The user name of the absolute URL that a text spells, if it spells one.
pub uninterp spec fn username_of(text: Seq<char>) -> Option<Seq<char>>;

/// The password of the absolute URL that a text spells, if it spells one that has
/// a password.
pub uninterp spec fn password_of(text: Seq<char>) -> Option<Seq<char>>;

/// The absolute URL that a text spells, with its user name taken out, if it spells
/// one that can have a user name.
pub uninterp spec fn without_username(text: Seq<char>) -> Option<Seq<char>>;

/// The absolute URL that a text spells, with its password taken out, if it spells
/// one that can have a password.
pub uninterp spec fn without_password(text: Seq<char>) -> Option<Seq<char>>;

/// Whether a text spells a URL of the web, which always has a host.
pub open spec fn web_url(text: Seq<char>) -> bool {
    scheme_of(text) == Some("http"@) || scheme_of(text) == Some("https"@)
}

/// `url::Url::scheme` of what `url::Url::parse` reads: the scheme in lower case,
/// and nothing for a text that is not an absolute URL. Which texts are one is not
/// stated.
#[verifier::external_body]
pub(crate) fn url_scheme(text: &str) -> (scheme: Option<String>)
    ensures
        scheme.deep_view() == scheme_of(text@),
{
    url::Url::parse(text).ok().map(|url| url.scheme().to_string())
}

/// `url::Url::username` of what `url::Url::parse` reads: the percent-encoded user
/// name, empty where the URL has none, and nothing for a text that is not an
/// absolute URL.
#[verifier::external_body]
pub(crate) fn url_username(text: &str) -> (username: Option<String>)
    ensures
        username.deep_view() == username_of(text@),
        username is Some <==> scheme_of(text@) is Some,
{
    url::Url::parse(text).ok().map(|url| url.username().to_string())
}

/// `url::Url::password` of what `url::Url::parse` reads: the percent-encoded
/// password, and nothing where the URL has none or the text is not an absolute URL.
#[verifier::external_body]
pub(crate) fn url_password(text: &str) -> (password: Option<String>)
    ensures
        password.deep_view() == password_of(text@),
        password is Some ==> scheme_of(text@) is Some,
{
    url::Url::parse(text).ok().and_then(|url| url.password().map(str::to_string))
}

/// `url::Url::set_username` with an empty name, on what `url::Url::parse` reads:
/// the URL without its user name, and nothing where the call refuses, because the
/// URL has no host, or the text is not an absolute URL. A URL of the web has a host and
/// keeps its scheme.
#[verifier::external_body]
pub(crate) fn url_clear_username(text: &str) -> (cleared: Option<String>)
    ensures
        cleared.deep_view() == without_username(text@),
        cleared is Some ==> scheme_of(text@) is Some,
        web_url(text@) ==> cleared is Some && scheme_of(cleared->0@) == scheme_of(text@),
{
    let mut url = url::Url::parse(text).ok()?;
    url.set_username("").ok()?;
    Some(String::from(url))
}

/// `url::Url::set_password` without a password, on what `url::Url::parse` reads:
/// the URL without its password, and nothing where the call refuses, because the
/// URL has no host, or the text is not an absolute URL. A URL of the web has a host.
#[verifier::external_body]
pub(crate) fn url_clear_password(text: &str) -> (cleared: Option<String>)
    ensures
        cleared.deep_view() == without_password(text@),
        cleared is Some ==> scheme_of(text@) is Some,
        web_url(text@) ==> cleared is Some,
{
    let mut url = url::Url::parse(text).ok()?;
    url.set_password(None).ok()?;
    Some(String::from(url))
}

} // verus!
