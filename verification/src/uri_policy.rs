use vstd::prelude::*;

use crate::text::str_eq;

verus! {

/// The host text and port of an absolute URL, as the url crate parses
/// them: nothing when the text does not parse as an absolute URL,
/// otherwise the host text, if the URL has one, and the port as the crate
/// exposes it — a written scheme-default port reads as none. A function of
/// the text alone; what the pair holds for a given text is not restated
/// here.
pub uninterp spec fn url_host_port(s: Seq<char>) -> Option<(Option<Seq<char>>, Option<u16>)>;

/// Relies on `url::Url::parse`, `Url::host_str` and `Url::port` of the url
/// crate: parsing an absolute URL is a function of the input text alone,
/// `host_str` is the host slice of the parsed URL, and `port` is the
/// parsed port, a written scheme-default port reading as none.
#[verifier::external_body]
fn parse_host_port(uri: &str) -> (r: Option<(Option<String>, Option<u16>)>)
    ensures
        match (r, url_host_port(uri@)) {
            (Some((h, p)), Some((hs, ps))) => p == ps && (match (h, hs) {
                (Some(a), Some(b)) => a@ == b,
                (None, None) => true,
                _ => false,
            }),
            (None, None) => true,
            _ => false,
        },
{
    match url::Url::parse(uri) {
        Ok(u) => Some((u.host_str().map(|h| h.to_string()), u.port())),
        Err(_) => None,
    }
}

/// Whether the renderer may touch `uri`: only an absolute URL whose host
/// text is `host` and whose parsed port is `port` (a scheme-default port
/// reads as none and is refused).
pub open spec fn uri_allowed(uri: Seq<char>, host: Seq<char>, port: u16) -> bool {
    match url_host_port(uri) {
        Some((Some(h), Some(p))) => h == host && p == port,
        _ => false,
    }
}

/// Decide whether a navigation or response URI stays inside the asset
/// server: it must parse as an absolute URL and name exactly the given
/// host and port.
pub fn allow_uri(uri: &str, host: &str, port: u16) -> (r: bool)
    ensures
        r == uri_allowed(uri@, host@, port),
{
    match parse_host_port(uri) {
        Some((Some(h), Some(p))) => str_eq(h.as_str(), host) && p == port,
        _ => false,
    }
}

} // verus!
