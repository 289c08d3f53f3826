//! URLs, as the `url` crate reads and builds them.

use crate::text;
use crate::text::without_trailing;
use vstd::prelude::*;
use vstd::utf8::encode_utf8;

verus! {

/// The parts of a URL that the library looks at.
pub struct UrlParts {
    /// The URL as it is written.
    pub text: String,
    /// The scheme.
    pub scheme: String,
    /// The user name, empty where there is none.
    pub username: String,
    /// The password, where one is given.
    pub password: Option<String>,
    /// The host, where there is one.
    pub host: Option<String>,
    /// The port, where one is given that is not the scheme's own.
    pub port: Option<u16>,
    /// The path.
    pub path: String,
    /// Whether a query is given.
    pub has_query: bool,
    /// The names and values that the query holds.
    pub query_pairs: Vec<(String, String)>,
    /// Whether a fragment is given.
    pub has_fragment: bool,
}

/// The parts of a URL, as values.
pub struct UrlView {
    pub text: Seq<char>,
    pub scheme: Seq<char>,
    pub username: Seq<char>,
    pub password: Option<Seq<char>>,
    pub host: Option<Seq<char>>,
    pub port: Option<u16>,
    pub path: Seq<char>,
    pub has_query: bool,
    pub query_pairs: Seq<(Seq<char>, Seq<char>)>,
    pub has_fragment: bool,
}

impl View for UrlParts {
    type V = UrlView;

    open spec fn view(&self) -> UrlView {
        UrlView {
            text: self.text@,
            scheme: self.scheme@,
            username: self.username@,
            password: match self.password {
                Some(password) => Some(password@),
                None => None,
            },
            host: match self.host {
                Some(host) => Some(host@),
                None => None,
            },
            port: self.port,
            path: self.path@,
            has_query: self.has_query,
            query_pairs: self.query_pairs@.map_values(
                |pair: (String, String)| (pair.0@, pair.1@),
            ),
            has_fragment: self.has_fragment,
        }
    }
}

/// What `Url::parse` reads in a text.
pub uninterp spec fn parsed_url(text: Seq<char>) -> Option<UrlView>;

/// The URL that `Url::set_path` makes of a URL and a path.
pub uninterp spec fn url_with_path(url: Seq<char>, path: Seq<char>) -> Option<Seq<char>>;

/// The URL that `Url::join` makes of a base and a reference.
pub uninterp spec fn url_joined(base: Seq<char>, reference: Seq<char>) -> Option<Seq<char>>;

/// Whether a character stands in the path of a URL as it is: it is printable ASCII, and none of those
/// that are percent-encoded there.
pub open spec fn plain_in_path(c: char) -> bool {
    '!' <= c <= '~' && c != '"' && c != '#' && c != '<' && c != '>' && c != '?' && c != '`' && c != '{'
        && c != '}'
}

/// Whether a path begins at the root and holds what stands there as it is.
pub open spec fn plain_path(path: Seq<char>) -> bool {
    path.len() > 0 && path[0] == '/' && forall|i: int|
        0 <= i < path.len() ==> plain_in_path(#[trigger] path[i])
}

/// `Url::parse`, with the accessors of its result: a function of the text. The path of an HTTPS URL
/// begins at the root, and what is not plain in it is percent-encoded.
#[verifier::external_body]
pub(crate) fn parse_url(text: &str) -> (parts: Option<UrlParts>)
    ensures
        parts is Some == parsed_url(text@) is Some,
        parts matches Some(p) ==> parsed_url(text@) == Some(p@),
        parts matches Some(p) ==> p.scheme@ == "https"@ ==> plain_path(p.path@),
{
    let url = url::Url::parse(text).ok()?;
    Some(UrlParts {
        text: url.as_str().to_owned(),
        scheme: url.scheme().to_owned(),
        username: url.username().to_owned(),
        password: url.password().map(str::to_owned),
        host: url.host_str().map(str::to_owned),
        port: url.port(),
        path: url.path().to_owned(),
        has_query: url.query().is_some(),
        query_pairs: url.query_pairs().into_owned().collect(),
        has_fragment: url.fragment().is_some(),
    })
}

/// How many bytes a path takes at most once it is percent-encoded: one for each plain character, and
/// three for each of the at most four bytes of another.
pub open spec fn encoded_size(path: Seq<char>) -> nat
    decreases path.len(),
{
    if path.len() == 0 {
        0
    } else {
        encoded_size(path.drop_last()) + if plain_in_path(path.last()) {
            1nat
        } else {
            12nat
        }
    }
}

/// Whether an HTTPS URL can be given a path that begins at the root: it is counted in 32 bits before and
/// after.
pub open spec fn can_take_path(url: UrlView, path: Seq<char>) -> bool {
    &&& url.scheme == "https"@
    &&& url.host is Some
    &&& path.len() > 0 && path[0] == '/'
    &&& encode_utf8(url.text).len() <= u32::MAX
    &&& encode_utf8(url.text).len() - url.path.len() + encoded_size(path) <= u32::MAX
}

/// A plain path takes one byte for each character, and so does a slash behind it.
pub proof fn lemma_plain_size(path: Seq<char>)
    requires
        forall|i: int| 0 <= i < path.len() ==> plain_in_path(#[trigger] path[i]),
    ensures
        encoded_size(path) == path.len(),
        encoded_size(path.push('/')) == path.len() + 1,
    decreases path.len(),
{
    if path.len() > 0 {
        lemma_plain_size(path.drop_last());
        assert(plain_in_path(path[path.len() - 1]));
    }
    assert(path.push('/').drop_last() =~= path);
}

/// `Url::set_path` on the URL that `Url::parse` reads: a function of the URL and the path. It panics
/// where the URL before or after is longer than 32 bits count.
#[verifier::external_body]
pub(crate) fn set_url_path(url: &str, path: &str) -> (result: Option<String>)
    requires
        parsed_url(url@) matches Some(parts) ==> can_take_path(parts, path@),
    ensures
        result is Some == url_with_path(url@, path@) is Some,
        result matches Some(r) ==> url_with_path(url@, path@) == Some(r@),
{
    let mut url = url::Url::parse(url).ok()?;
    url.set_path(path);
    Some(url.into())
}

/// `Url::join` on the URL that `Url::parse` reads: a function of the base and the reference.
#[verifier::external_body]
pub(crate) fn join_url(base: &str, reference: &str) -> (result: Option<String>)
    ensures
        result is Some == url_joined(base@, reference@) is Some,
        result matches Some(r) ==> url_joined(base@, reference@) == Some(r@),
{
    Some(url::Url::parse(base).ok()?.join(reference).ok()?.into())
}

/// What the `percent-encoding` crate decodes from a text, where it comes to UTF-8.
pub uninterp spec fn percent_decoded(text: Seq<char>) -> Option<Seq<char>>;

/// `percent_decode_str` and `PercentDecode::decode_utf8`: a function of the text, which leaves a text
/// without percent signs as it is.
#[verifier::external_body]
pub(crate) fn percent_decode(text: &str) -> (result: Option<String>)
    ensures
        result is Some == percent_decoded(text@) is Some,
        result matches Some(r) ==> percent_decoded(text@) == Some(r@),
        !text@.contains('%') ==> result is Some && result->0@ == text@,
{
    percent_encoding::percent_decode_str(text).decode_utf8().ok().map(|text| text.into_owned())
}

/// Whether an address is on this machine, without TLS.
pub open spec fn loopback_address(address: Seq<char>) -> bool {
    "http://127.0.0.1:"@.is_prefix_of(address) || "http://localhost:"@.is_prefix_of(address)
}

/// Whether an address is on this machine, without TLS.
pub fn is_loopback_address(address: &str) -> (r: bool)
    ensures
        r == loopback_address(address@),
{
    text::starts_with(address, "http://127.0.0.1:") || text::starts_with(
        address,
        "http://localhost:",
    )
}

/// The address of a controller, without slashes at its end. Other machines are reached by HTTPS only.
pub open spec fn controller_address(base: Seq<char>) -> Option<Seq<char>> {
    let address = without_trailing(base, '/');
    if loopback_address(address) || "https://"@.is_prefix_of(address) {
        Some(address)
    } else {
        None
    }
}

/// The address of a controller, without slashes at its end. Other machines are reached by HTTPS only.
pub fn controller_base(base: &str) -> (r: Option<String>)
    ensures
        match r {
            Some(address) => controller_address(base@) == Some(address@),
            None => controller_address(base@) is None,
        },
{
    let address = text::trim_end_matches(base, '/');
    if is_loopback_address(address) || text::starts_with(address, "https://") {
        Some(text::owned(address))
    } else {
        None
    }
}

/// A controller is spoken to under the address given, without the slashes at its end: any address over
/// HTTPS will do, and over HTTP only one on this machine.
pub proof fn law_controllers_are_spoken_to_safely(base: Seq<char>, rest: Seq<char>, slashes: Seq<char>)
    requires
        rest.len() > 0 ==> rest.last() != '/',
        forall|i: int| 0 <= i < slashes.len() ==> slashes[i] == '/',
    ensures
        rest.len() > 0 ==> controller_address("https://"@ + rest + slashes) == Some("https://"@ + rest),
        rest.len() > 0 ==> controller_address("http://127.0.0.1:"@ + rest + slashes) == Some(
            "http://127.0.0.1:"@ + rest,
        ),
        rest.len() > 0 ==> controller_address("http://localhost:"@ + rest + slashes) == Some(
            "http://localhost:"@ + rest,
        ),
        controller_address(base) matches Some(address) ==> "https://"@.is_prefix_of(address)
            || loopback_address(address),
        loopback_address(base) ==> "http://127.0.0.1:"@.is_prefix_of(base)
            || "http://localhost:"@.is_prefix_of(base),
{
    if rest.len() > 0 {
        lemma_slashes_go("https://"@ + rest, slashes);
        lemma_slashes_go("http://127.0.0.1:"@ + rest, slashes);
        lemma_slashes_go("http://localhost:"@ + rest, slashes);
        assert("https://"@.is_prefix_of("https://"@ + rest));
        assert("http://127.0.0.1:"@.is_prefix_of("http://127.0.0.1:"@ + rest));
        assert("http://localhost:"@.is_prefix_of("http://localhost:"@ + rest));
    }
}

proof fn lemma_slashes_go(text: Seq<char>, slashes: Seq<char>)
    requires
        text.len() > 0 && text.last() != '/',
        forall|i: int| 0 <= i < slashes.len() ==> slashes[i] == '/',
    ensures
        without_trailing(text + slashes, '/') == text,
    decreases slashes.len(),
{
    if slashes.len() > 0 {
        assert((text + slashes).drop_last() =~= text + slashes.drop_last());
        lemma_slashes_go(text, slashes.drop_last());
    } else {
        assert(text + slashes =~= text);
    }
}

} // verus!
