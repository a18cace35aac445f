//! The host that the address of a proxy names, as plain values.

use vstd::prelude::*;

verus! {

/// An IP address as plain numbers: the four octets of an IPv4 address, or
/// the eight 16-bit segments of an IPv6 address.
#[derive(Debug, Clone, Copy, PartialEq, Eq)]
pub enum IpAddress {
    V4([u8; 4]),
    V6([u16; 8]),
}

/// The host that a URL names.
#[derive(Debug, Clone, PartialEq, Eq)]
pub enum ProxyHost {
    /// A DNS name, still to be resolved.
    Domain(String),
    /// A literal address.
    Ip(IpAddress),
}

/// A host as a mathematical value.
pub enum ProxyHostView {
    Domain(Seq<char>),
    Ip(IpAddress),
}

impl View for ProxyHost {
    type V = ProxyHostView;

    open spec fn view(&self) -> ProxyHostView {
        match self {
            ProxyHost::Domain(name) => ProxyHostView::Domain(name@),
            ProxyHost::Ip(address) => ProxyHostView::Ip(*address),
        }
    }
}

/// What the URL parser makes of a text.
pub enum UrlReading {
    /// The text is no absolute URL.
    Malformed,
    /// The text is a URL that names no host.
    NoHost,
    /// The text is a URL, and this is its host.
    Host(ProxyHostView),
}

/// The reading that the outcome of the URL parser amounts to: an error is
/// `Malformed`, a URL without host is `NoHost`.
pub open spec fn reading_of(r: Result<Option<ProxyHost>, url::ParseError>) -> UrlReading {
    match r {
        Ok(Some(host)) => UrlReading::Host(host@),
        Ok(None) => UrlReading::NoHost,
        Err(_) => UrlReading::Malformed,
    }
}

} // verus!
