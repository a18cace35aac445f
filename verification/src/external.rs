//! The calls into other crates, each behind a small function whose contract
//! is taken on trust: Verus does not look into these bodies.

use crate::host::{reading_of, IpAddress, ProxyHost, UrlReading};
use vstd::prelude::*;

verus! {

/// The error of the `url` crate's parser; opaque here.
#[verifier::external_type_specification]
#[verifier::external_body]
pub struct ExUrlParseError(url::ParseError);

/// The reading of `address` by the `url` crate: whether `url::Url::parse`
/// accepts it, and what `Url::host` then returns. It depends on the text
/// alone.
pub uninterp spec fn url_reading(address: Seq<char>) -> UrlReading;

/// Whether `rustls_pki_types::ServerName::try_from` accepts `domain`, as a
/// DNS name or as an IP address. It depends on the text alone.
pub uninterp spec fn server_name_accepted(domain: Seq<char>) -> bool;

/// Parses `address` with `url::Url::parse` and hands out what `Url::host`
/// returns for the result, as plain values.
///
/// Trusted: the outcome is `url_reading` of the text. A parse error comes
/// back as it is; a URL without host is `Ok(None)`; a domain keeps its text,
/// an IP address becomes its octets or segments.
#[verifier::external_body]
pub(crate) fn read_url_host(address: &str) -> (r: Result<Option<ProxyHost>, url::ParseError>)
    ensures
        reading_of(r) == url_reading(address@),
{
    let parsed = url::Url::parse(address)?;
    Ok(
        match parsed.host() {
            Some(url::Host::Domain(name)) => Some(ProxyHost::Domain(name.to_owned())),
            Some(url::Host::Ipv4(ip)) => Some(ProxyHost::Ip(IpAddress::V4(ip.octets()))),
            Some(url::Host::Ipv6(ip)) => Some(ProxyHost::Ip(IpAddress::V6(ip.segments()))),
            None => None,
        },
    )
}

/// Asks `rustls_pki_types::ServerName::try_from` whether `domain` can name
/// the peer of a TLS handshake.
///
/// Trusted: the answer is `server_name_accepted` of the text.
#[verifier::external_body]
pub(crate) fn accepts_server_name(domain: &str) -> (r: bool)
    ensures
        r == server_name_accepted(domain@),
{
    rustls_pki_types::ServerName::try_from(domain).is_ok()
}

/// Draws a number below `bound`: `rand::Rng::gen_range` on the range from
/// zero up to, not including, `bound`, with the generator of the thread,
/// `rand::thread_rng`.
///
/// Trusted: the number lies in the range. Which one it is, is up to chance;
/// two draws need not agree. An empty range is left out: the call panics
/// on it.
#[verifier::external_body]
pub(crate) fn random_below(bound: usize) -> (index: usize)
    requires
        bound > 0,
    ensures
        index < bound,
{
    rand::Rng::gen_range(&mut rand::thread_rng(), 0..bound)
}

/// Picks one of `items`: `rand::seq::SliceRandom::choose` with the generator
/// of the thread, `rand::thread_rng`.
///
/// Trusted: nothing is picked from an empty list, and what is picked from
/// another is one of its items. Which one it is, is up to chance.
#[verifier::external_body]
pub(crate) fn pick_one<T: Copy>(items: &[T]) -> (picked: Option<T>)
    ensures
        picked is Some <==> items@.len() > 0,
        picked matches Some(item) ==> items@.contains(item),
{
    rand::seq::SliceRandom::choose(items, &mut rand::thread_rng()).copied()
}

} // verus!
