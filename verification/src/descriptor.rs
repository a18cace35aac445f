//! The proxy descriptor and its compact textual form,
//! `kind:address:port` or `kind:address:port:username:password`.

use crate::text::{
    chars_of, cut, decimal_digits, free_of, is_digit, join_with, lemma_decimal_digits,
    lemma_join_split, lemma_parse_u16_of_digits, lemma_split_join, lowercase, lowered_equals,
    parse_u16, piece, push_decimal, read_u16, split_bounds, split_on,
};
use vstd::prelude::*;
use vstd::slice::slice_subrange;

verus! {

/// The kinds of proxy that a descriptor can name.
#[derive(Debug, Clone, Copy, PartialEq, Eq, Structural)]
pub enum ProxyKind {
    Socks5,
    Socks4,
    Http,
    Https,
}

/// Why a text is not a proxy descriptor.
#[derive(Debug, Clone, Copy, PartialEq, Eq, Structural)]
pub enum ProxyParseError {
    /// The text does not have three or five colon-separated parts.
    InvalidChunkCount,
    /// The third part is not an unsigned 16-bit number.
    InvalidPort,
    /// The first part names no proxy kind.
    InvalidProxyKind,
}

/// A proxy server, its kind, and the credentials to present to it.
#[derive(Debug, Clone, PartialEq, Eq)]
pub struct Proxy {
    pub kind: ProxyKind,
    pub addr: String,
    pub port: u16,
    pub creds: Option<(String, String)>,
}

/// A descriptor as a mathematical value.
pub struct ProxyView {
    pub kind: ProxyKind,
    pub addr: Seq<char>,
    pub port: u16,
    pub creds: Option<(Seq<char>, Seq<char>)>,
}

/// Credentials as a mathematical value.
pub open spec fn credentials_view(creds: Option<(String, String)>) -> Option<
    (Seq<char>, Seq<char>),
> {
    match creds {
        Some((user, pass)) => Some((user@, pass@)),
        None => None,
    }
}

impl View for Proxy {
    type V = ProxyView;

    open spec fn view(&self) -> ProxyView {
        ProxyView {
            kind: self.kind,
            addr: self.addr@,
            port: self.port,
            creds: credentials_view(self.creds),
        }
    }
}

impl ProxyKind {
    /// The name of the kind, as it is written in a descriptor.
    pub open spec fn name(self) -> Seq<char> {
        match self {
            ProxyKind::Socks5 => "socks5"@,
            ProxyKind::Socks4 => "socks4"@,
            ProxyKind::Http => "http"@,
            ProxyKind::Https => "https"@,
        }
    }

    /// The kind that a text names; upper and lower case are not told apart.
    pub open spec fn named(text: Seq<char>) -> Option<ProxyKind> {
        let folded = lowercase(text);
        if folded == ProxyKind::Socks5.name() {
            Some(ProxyKind::Socks5)
        } else if folded == ProxyKind::Socks4.name() {
            Some(ProxyKind::Socks4)
        } else if folded == ProxyKind::Http.name() {
            Some(ProxyKind::Http)
        } else if folded == ProxyKind::Https.name() {
            Some(ProxyKind::Https)
        } else {
            None
        }
    }

    /// The kind that `chars` names, if any.
    pub fn recognize(chars: &[char]) -> (r: Option<ProxyKind>)
        ensures
            r == ProxyKind::named(chars@),
    {
        if lowered_equals(chars, "socks5") {
            Some(ProxyKind::Socks5)
        } else if lowered_equals(chars, "socks4") {
            Some(ProxyKind::Socks4)
        } else if lowered_equals(chars, "http") {
            Some(ProxyKind::Http)
        } else if lowered_equals(chars, "https") {
            Some(ProxyKind::Https)
        } else {
            None
        }
    }

    /// Reads a kind from its name, in any mix of upper and lower case.
    pub fn from_str(input: &str) -> (r: Result<ProxyKind, ProxyParseError>)
        ensures
            r == match ProxyKind::named(input@) {
                Some(kind) => Ok::<ProxyKind, ProxyParseError>(kind),
                None => Err(ProxyParseError::InvalidProxyKind),
            },
    {
        let chars = chars_of(input);
        match ProxyKind::recognize(chars.as_slice()) {
            Some(kind) => Ok(kind),
            None => Err(ProxyParseError::InvalidProxyKind),
        }
    }

    /// The name of the kind, in lower case.
    pub fn as_str(&self) -> (s: &'static str)
        ensures
            s@ == self.name(),
    {
        match self {
            ProxyKind::Socks4 => "socks4",
            ProxyKind::Socks5 => "socks5",
            ProxyKind::Http => "http",
            ProxyKind::Https => "https",
        }
    }

    /// The name of the kind, in lower case, as an owned string.
    pub fn to_string(&self) -> (s: String)
        ensures
            s@ == self.name(),
    {
        self.as_str().to_owned()
    }
}

impl ProxyParseError {
    /// A sentence that says what was wrong.
    pub fn message(&self) -> (s: &'static str)
        ensures
            s@ == match *self {
                ProxyParseError::InvalidChunkCount => "Verify correctness on proxy parts"@,
                ProxyParseError::InvalidPort => "Failed to parse port"@,
                ProxyParseError::InvalidProxyKind => "Failed to recognize proxy kind"@,
            },
    {
        match self {
            ProxyParseError::InvalidChunkCount => "Verify correctness on proxy parts",
            ProxyParseError::InvalidPort => "Failed to parse port",
            ProxyParseError::InvalidProxyKind => "Failed to recognize proxy kind",
        }
    }

    /// The message as an owned string.
    pub fn to_string(&self) -> (s: String)
        ensures
            s@ == match *self {
                ProxyParseError::InvalidChunkCount => "Verify correctness on proxy parts"@,
                ProxyParseError::InvalidPort => "Failed to parse port"@,
                ProxyParseError::InvalidProxyKind => "Failed to recognize proxy kind"@,
            },
    {
        self.message().to_owned()
    }
}

impl ProxyView {
    /// The parts of the textual form: kind, address and port, then username
    /// and password where there are credentials.
    pub open spec fn fields(self) -> Seq<Seq<char>> {
        let base = seq![self.kind.name(), self.addr, decimal_digits(self.port as nat)];
        match self.creds {
            Some((user, pass)) => base + seq![user, pass],
            None => base,
        }
    }

    /// The textual form: the parts with a colon between neighbours.
    pub open spec fn text(self) -> Seq<char> {
        join_with(self.fields(), ':')
    }

    /// The descriptor names an address.
    pub open spec fn has_address(self) -> bool {
        self.addr.len() > 0
    }

    /// No colon occurs in the address or in the credentials.
    pub open spec fn colon_free(self) -> bool {
        &&& free_of(self.addr, ':')
        &&& self.creds matches Some((user, pass)) ==> free_of(user, ':') && free_of(pass, ':')
    }
}

/// What a text means as a descriptor.
///
/// The text is cut at every colon. Three parts are kind, address and port;
/// five parts are those and a username and a password, taken as they are.
/// The checks are made in this order: the number of parts, the kind, the
/// port.
pub open spec fn parse_descriptor(text: Seq<char>) -> Result<ProxyView, ProxyParseError> {
    let parts = split_on(text, ':');
    if parts.len() != 3 && parts.len() != 5 {
        Err(ProxyParseError::InvalidChunkCount)
    } else {
        match ProxyKind::named(parts[0]) {
            None => Err(ProxyParseError::InvalidProxyKind),
            Some(kind) => match parse_u16(parts[2]) {
                None => Err(ProxyParseError::InvalidPort),
                Some(port) => Ok(
                    ProxyView {
                        kind,
                        addr: parts[1],
                        port,
                        creds: if parts.len() == 5 {
                            Some((parts[3], parts[4]))
                        } else {
                            None
                        },
                    },
                ),
            },
        }
    }
}

impl Proxy {
    /// Reads a descriptor from its textual form.
    pub fn from_str(input: &str) -> (r: Result<Proxy, ProxyParseError>)
        ensures
            match r {
                Ok(proxy) => parse_descriptor(input@) == Ok::<ProxyView, ProxyParseError>(proxy@),
                Err(e) => parse_descriptor(input@) == Err::<ProxyView, ProxyParseError>(e),
            },
    {
        let chars = chars_of(input);
        let bounds = split_bounds(chars.as_slice(), ':');
        let ghost parts = split_on(input@, ':');
        assert(parts == cut(input@, bounds@));
        let count: usize = bounds.len();
        if count != 3 && count != 5 {
            return Err(ProxyParseError::InvalidChunkCount);
        }
        let (kind_from, kind_to) = bounds[0];
        let (addr_from, addr_to) = bounds[1];
        let (port_from, port_to) = bounds[2];
        assert(parts[0] == input@.subrange(kind_from as int, kind_to as int));
        assert(parts[1] == input@.subrange(addr_from as int, addr_to as int));
        assert(parts[2] == input@.subrange(port_from as int, port_to as int));
        let kind = match ProxyKind::recognize(slice_subrange(chars.as_slice(), kind_from, kind_to)) {
            Some(kind) => kind,
            None => {
                return Err(ProxyParseError::InvalidProxyKind);
            },
        };
        let addr = piece(input, addr_from, addr_to);
        let port = match read_u16(slice_subrange(chars.as_slice(), port_from, port_to)) {
            Some(port) => port,
            None => {
                return Err(ProxyParseError::InvalidPort);
            },
        };
        let creds = if count == 5 {
            let (user_from, user_to) = bounds[3];
            let (pass_from, pass_to) = bounds[4];
            assert(parts[3] == input@.subrange(user_from as int, user_to as int));
            assert(parts[4] == input@.subrange(pass_from as int, pass_to as int));
            Some((piece(input, user_from, user_to), piece(input, pass_from, pass_to)))
        } else {
            None
        };
        Ok(Proxy { kind, addr, port, creds })
    }

    /// Whether the descriptor names an address. The textual form allows an
    /// empty one.
    pub fn has_address(&self) -> (r: bool)
        ensures
            r == self@.has_address(),
    {
        !self.addr.as_str().is_empty()
    }

    /// Writes the descriptor in its textual form.
    pub fn to_string(&self) -> (s: String)
        ensures
            s@ == self@.text(),
    {
        let mut out = self.kind.to_string();
        out.append(":");
        out.append(self.addr.as_str());
        out.append(":");
        push_decimal(&mut out, self.port);
        match &self.creds {
            Some((user, pass)) => {
                out.append(":");
                out.append(user.as_str());
                out.append(":");
                out.append(pass.as_str());
            },
            None => {},
        }
        proof {
            reveal_strlit(":");
            reveal_with_fuel(join_with, 5);
            let f = self@.fields();
            assert(":"@ =~= seq![':']);
            if self.creds is Some {
                assert(f.drop_first() =~= seq![f[1], f[2], f[3], f[4]]);
                assert(f.drop_first().drop_first() =~= seq![f[2], f[3], f[4]]);
                assert(f.drop_first().drop_first().drop_first() =~= seq![f[3], f[4]]);
                assert(f.drop_first().drop_first().drop_first().drop_first() =~= seq![f[4]]);
            } else {
                assert(f.drop_first() =~= seq![f[1], f[2]]);
                assert(f.drop_first().drop_first() =~= seq![f[2]]);
            }
            assert(out@ =~= self@.text());
        }
        out
    }
}

impl std::str::FromStr for ProxyKind {
    type Err = ProxyParseError;

    /// Reads a kind as [`ProxyKind::from_str`] does.
    fn from_str(input: &str) -> (r: Result<ProxyKind, ProxyParseError>)
        ensures
            r == match ProxyKind::named(input@) {
                Some(kind) => Ok::<ProxyKind, ProxyParseError>(kind),
                None => Err(ProxyParseError::InvalidProxyKind),
            },
    {
        ProxyKind::from_str(input)
    }
}

impl std::str::FromStr for Proxy {
    type Err = ProxyParseError;

    /// Reads a descriptor as [`Proxy::from_str`] does.
    fn from_str(input: &str) -> (r: Result<Proxy, ProxyParseError>)
        ensures
            match r {
                Ok(proxy) => parse_descriptor(input@) == Ok::<ProxyView, ProxyParseError>(proxy@),
                Err(e) => parse_descriptor(input@) == Err::<ProxyView, ProxyParseError>(e),
            },
    {
        Proxy::from_str(input)
    }
}

/// Which texts are rejected, and why: a text whose number of parts is
/// neither three nor five, whatever the parts hold; else a text whose first
/// part names no kind, whatever the port; else a text whose third part is
/// not an unsigned 16-bit number. Every other text is a descriptor.
pub proof fn lemma_rejections(text: Seq<char>)
    ensures
        ({
            let parts = split_on(text, ':');
            let counted = parts.len() == 3 || parts.len() == 5;
            &&& parse_descriptor(text) == Err::<ProxyView, ProxyParseError>(
                ProxyParseError::InvalidChunkCount,
            ) <==> !counted
            &&& parse_descriptor(text) == Err::<ProxyView, ProxyParseError>(
                ProxyParseError::InvalidProxyKind,
            ) <==> counted && ProxyKind::named(parts[0]) is None
            &&& parse_descriptor(text) == Err::<ProxyView, ProxyParseError>(
                ProxyParseError::InvalidPort,
            ) <==> counted && ProxyKind::named(parts[0]) is Some && parse_u16(parts[2]) is None
            &&& parse_descriptor(text) is Ok <==> counted && ProxyKind::named(parts[0]) is Some
                && parse_u16(parts[2]) is Some
        }),
{
}

/// A descriptor that was read has credentials exactly when the text has
/// five parts, and then they are the last two parts as they stand.
pub proof fn lemma_credentials_as_written(text: Seq<char>)
    requires
        parse_descriptor(text) is Ok,
    ensures
        ({
            let parts = split_on(text, ':');
            let d = parse_descriptor(text)->Ok_0;
            &&& d.addr == parts[1]
            &&& d.creds is Some <==> parts.len() == 5
            &&& d.creds matches Some((user, pass)) ==> user == parts[3] && pass == parts[4]
        }),
{
}

/// The name of every kind is in lower case and holds no colon, and no two
/// kinds share a name: a name is read back as the kind it was written for.
pub proof fn lemma_kind_name_roundtrip(kind: ProxyKind)
    ensures
        ProxyKind::named(kind.name()) == Some(kind),
        free_of(kind.name(), ':'),
{
    reveal_strlit("socks5");
    reveal_strlit("socks4");
    reveal_strlit("http");
    reveal_strlit("https");
    let name = kind.name();
    assert(lowercase(name) =~= name);
    assert("socks5"@[5] != "socks4"@[5]);
    assert("socks5"@.len() != "http"@.len());
    assert("socks5"@.len() != "https"@.len());
    assert("socks4"@.len() != "http"@.len());
    assert("socks4"@.len() != "https"@.len());
    assert("http"@.len() != "https"@.len());
}

/// Reading what was written gives the descriptor back, provided that
/// neither its address nor its credentials hold a colon.
pub proof fn lemma_parse_text_roundtrip(d: ProxyView)
    requires
        d.colon_free(),
    ensures
        parse_descriptor(d.text()) == Ok::<ProxyView, ProxyParseError>(d),
{
    let fields = d.fields();
    let digits = decimal_digits(d.port as nat);
    lemma_kind_name_roundtrip(d.kind);
    lemma_decimal_digits(d.port as nat);
    lemma_parse_u16_of_digits(d.port);
    assert(free_of(digits, ':')) by {
        assert forall|i: int| 0 <= i < digits.len() implies digits[i] != ':' by {
            assert(is_digit(digits[i]));
        }
    }
    assert forall|k: int| 0 <= k < fields.len() implies free_of(#[trigger] fields[k], ':') by {}
    lemma_split_join(fields, ':');
}

/// A descriptor that was read holds no colon in its address or credentials:
/// written and read once more, it is the same descriptor.
pub proof fn lemma_read_is_stable(text: Seq<char>)
    requires
        parse_descriptor(text) is Ok,
    ensures
        parse_descriptor(text)->Ok_0.colon_free(),
        parse_descriptor(parse_descriptor(text)->Ok_0.text()) == parse_descriptor(text),
{
    let parts = split_on(text, ':');
    let d = parse_descriptor(text)->Ok_0;
    lemma_join_split(text, ':');
    assert(free_of(parts[1], ':'));
    if parts.len() == 5 {
        assert(free_of(parts[3], ':'));
        assert(free_of(parts[4], ':'));
    }
    lemma_parse_text_roundtrip(d);
}

} // verus!
