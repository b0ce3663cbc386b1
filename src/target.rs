//! The scan target: URL validation and the guard against internal addresses.

use crate::error::Error;
use crate::report::opt_view;
use crate::text::{contains, contains_exec, ends_with, ends_with_exec, str_eq};
use vstd::prelude::*;

verus! {

/// A network address, as its numeric parts.
#[derive(Debug, Clone, Copy)]
pub enum IpAddress {
    /// An IPv4 address by its four octets.
    V4([u8; 4]),
    /// An IPv6 address by its eight 16-bit segments.
    V6([u16; 8]),
}

/// Addresses that a scan must not reach: loopback, private, link-local,
/// broadcast, unspecified, shared address space, the cloud metadata
/// address and `192.0.0.0/24`; for IPv6 loopback, unspecified, unique-local
/// and link-local.
pub open spec fn is_internal(ip: IpAddress) -> bool {
    match ip {
        IpAddress::V4(o) => {
            let (a, b, c, d) = (o@[0], o@[1], o@[2], o@[3]);
            a == 127 || a == 10 || (a == 172 && 16 <= b <= 31) || (a == 192 && b == 168) || (a
                == 169 && b == 254) || (a == 255 && b == 255 && c == 255 && d == 255) || (a == 0
                && b == 0 && c == 0 && d == 0) || (a == 100 && 64 <= b <= 127) || (a == 192 && b
                == 0 && c == 0)
        },
        IpAddress::V6(s) => {
            let zero_head = s@[0] == 0 && s@[1] == 0 && s@[2] == 0 && s@[3] == 0 && s@[4] == 0
                && s@[5] == 0 && s@[6] == 0;
            (zero_head && (s@[7] == 0 || s@[7] == 1)) || (0xfc00 <= s@[0] <= 0xfdff) || (0xfe80
                <= s@[0] <= 0xfebf)
        },
    }
}

/// Check if an address is internal.
pub fn is_internal_ip(ip: &IpAddress) -> (r: bool)
    ensures
        r == is_internal(*ip),
{
    match ip {
        IpAddress::V4(o) => {
            let (a, b, c, d) = (o[0], o[1], o[2], o[3]);
            a == 127 || a == 10 || (a == 172 && 16 <= b && b <= 31) || (a == 192 && b == 168) || (a
                == 169 && b == 254) || (a == 255 && b == 255 && c == 255 && d == 255) || (a == 0
                && b == 0 && c == 0 && d == 0) || (a == 100 && 64 <= b && b <= 127) || (a == 192
                && b == 0 && c == 0)
        },
        IpAddress::V6(s) => {
            let zero_head = s[0] == 0 && s[1] == 0 && s[2] == 0 && s[3] == 0 && s[4] == 0 && s[5]
                == 0 && s[6] == 0;
            (zero_head && (s[7] == 0 || s[7] == 1)) || (0xfc00 <= s[0] && s[0] <= 0xfdff) || (
            0xfe80 <= s[0] && s[0] <= 0xfebf)
        },
    }
}

/// Every IPv4 address in `10.0.0.0/8`, `172.16.0.0/12`, `192.168.0.0/16`,
/// `127.0.0.0/8` or `169.254.0.0/16` is internal, and a target that resolves
/// to one is refused; `8.8.8.8` is not internal.
pub proof fn lemma_private_ranges_refused(o: [u8; 4], addrs: Seq<IpAddress>, i: int)
    requires
        o@[0] == 10 || (o@[0] == 172 && 16 <= o@[1] <= 31) || (o@[0] == 192 && o@[1] == 168)
            || o@[0] == 127 || (o@[0] == 169 && o@[1] == 254),
        0 <= i < addrs.len(),
        addrs[i] == IpAddress::V4(o),
    ensures
        is_internal(IpAddress::V4(o)),
        !(forall|k: int| 0 <= k < addrs.len() ==> !is_internal(#[trigger] addrs[k])),
{
    assert(is_internal(addrs[i]));
}

/// A public address such as `8.8.8.8` is not internal.
pub proof fn lemma_public_address_allowed(o: [u8; 4])
    requires
        o@ == seq![8u8, 8u8, 8u8, 8u8],
    ensures
        !is_internal(IpAddress::V4(o)),
{
}

/// A parsed URL, by the parts that the scan reads.
#[derive(Debug, Clone)]
pub struct TargetUrl {
    /// Scheme, lower case.
    pub scheme: String,
    /// Host, when the URL has one.
    pub host: Option<String>,
    /// Port, when given and not the scheme's default.
    pub port: Option<u16>,
    /// The whole URL, serialized.
    pub serialized: String,
}

impl TargetUrl {
    pub open spec fn parts(&self) -> (Seq<char>, Option<Seq<char>>, Option<u16>, Seq<char>) {
        (self.scheme@, opt_view(self.host), self.port, self.serialized@)
    }
}

/// What URL parsing gives for a text: scheme, host, explicit port and the
/// serialized URL; `None` when the text is not a URL.
pub uninterp spec fn url_parse_of(s: Seq<char>) -> Option<
    (Seq<char>, Option<Seq<char>>, Option<u16>, Seq<char>),
>;

/// Relies on `url::Url::parse`, and on `scheme`, `host_str`, `port` and
/// `as_str` of the parsed URL: a deterministic parse of the text.
#[verifier::external_body]
fn parse_url(s: &str) -> (r: Result<TargetUrl, String>)
    ensures
        r matches Ok(u) ==> url_parse_of(s@) == Some(u.parts()),
        r is Err ==> url_parse_of(s@) is None,
{
    match url::Url::parse(s) {
        Ok(u) => Ok(
            TargetUrl {
                scheme: u.scheme().to_string(),
                host: u.host_str().map(|h| h.to_string()),
                port: u.port(),
                serialized: u.as_str().to_string(),
            },
        ),
        Err(e) => Err(e.to_string()),
    }
}

/// The text to parse: `https://` is put in front when no scheme is given.
pub open spec fn with_scheme(url: Seq<char>) -> Seq<char> {
    if contains(url, "://"@) {
        url
    } else {
        "https://"@ + url
    }
}

pub open spec fn scheme_allowed(scheme: Seq<char>) -> bool {
    scheme == "http"@ || scheme == "https"@
}

pub open spec fn is_localhost(host: Seq<char>) -> bool {
    host == "localhost"@ || ends_with(host, ".localhost"@)
}

/// A validated scan target.
#[derive(Debug, Clone)]
pub struct Target {
    /// The parsed URL.
    pub url: TargetUrl,
    /// Whether the addresses that the host resolves to must be checked.
    pub check_addresses: bool,
}

/// Why a parsed URL is refused, as the text of the error; `None` when it
/// is accepted. The scheme must be http or https; unless private targets
/// are allowed, the host must be present and not a localhost name.
pub open spec fn refusal(
    p: (Seq<char>, Option<Seq<char>>, Option<u16>, Seq<char>),
    allow_private: bool,
) -> Option<Seq<char>> {
    if !scheme_allowed(p.0) {
        Some("scheme '"@ + p.0 + "' not allowed (use http or https)"@)
    } else if allow_private {
        None
    } else {
        match p.1 {
            None => Some("missing host"@),
            Some(h) => if is_localhost(h) {
                Some("localhost not allowed"@)
            } else {
                None
            },
        }
    }
}

/// What validating `url` gives: its parts when it parses and is not
/// refused, else `None`.
pub open spec fn target_outcome(url: Seq<char>, allow_private: bool) -> Option<
    (Seq<char>, Option<Seq<char>>, Option<u16>, Seq<char>),
> {
    match url_parse_of(with_scheme(url)) {
        None => None,
        Some(p) => if refusal(p, allow_private) is None {
            Some(p)
        } else {
            None
        },
    }
}

/// The error is `InvalidUrl` with the reason `m`.
pub open spec fn invalid_url_with(e: Error, m: Seq<char>) -> bool {
    match e {
        Error::InvalidUrl(s) => s@ == m,
        _ => false,
    }
}

/// What validating `url` refuses it with: a parse error, or the refusal of
/// the parsed URL.
pub open spec fn refused_with(e: Error, url: Seq<char>, allow_private: bool) -> bool {
    match url_parse_of(with_scheme(url)) {
        None => e is InvalidUrl,
        Some(p) => match refusal(p, allow_private) {
            Some(m) => invalid_url_with(e, m),
            None => false,
        },
    }
}

fn with_scheme_exec(url: &str) -> (r: String)
    ensures
        r@ == with_scheme(url@),
{
    if contains_exec(url, "://") {
        url.to_owned()
    } else {
        let mut r = String::from_str("https://");
        r.append(url);
        r
    }
}

/// Validates a parsed URL as a scan target: refused with the reason that
/// `refusal` gives, else accepted, with its addresses to be checked unless
/// private targets are allowed.
pub fn validate_parsed(parsed: TargetUrl, allow_private: bool) -> (r: Result<Target, Error>)
    ensures
        refusal(parsed.parts(), allow_private) is None ==> (r matches Ok(t) && t.url == parsed
            && t.check_addresses == !allow_private),
        refusal(parsed.parts(), allow_private) matches Some(m) ==> (r matches Err(e)
            && invalid_url_with(e, m)),
{
    if !(str_eq(parsed.scheme.as_str(), "http") || str_eq(parsed.scheme.as_str(), "https")) {
        let mut m = String::from_str("scheme '");
        m.append(parsed.scheme.as_str());
        m.append("' not allowed (use http or https)");
        return Err(Error::InvalidUrl(m));
    }
    if !allow_private {
        match &parsed.host {
            None => {
                return Err(Error::InvalidUrl(String::from_str("missing host")));
            },
            Some(h) => {
                if str_eq(h.as_str(), "localhost") || ends_with_exec(h.as_str(), ".localhost") {
                    return Err(Error::InvalidUrl(String::from_str("localhost not allowed")));
                }
            },
        }
    }
    Ok(Target { url: parsed, check_addresses: !allow_private })
}

/// Parses and validates a scan target (`https://` is assumed when no
/// scheme is given). A text that does not parse is refused with the
/// parser's reason; a parsed URL as `validate_parsed` says.
pub fn prepare_target(url: &str, allow_private: bool) -> (r: Result<Target, Error>)
    ensures
        r matches Ok(t) ==> target_outcome(url@, allow_private) == Some(t.url.parts())
            && t.check_addresses == !allow_private,
        r matches Err(e) ==> target_outcome(url@, allow_private) is None && refused_with(
            e,
            url@,
            allow_private,
        ),
{
    let text = with_scheme_exec(url);
    match parse_url(text.as_str()) {
        Ok(u) => validate_parsed(u, allow_private),
        Err(e) => Err(Error::InvalidUrl(e)),
    }
}

/// The port a scheme uses by default.
pub open spec fn default_port(scheme: Seq<char>) -> u16 {
    if scheme == "https"@ {
        443
    } else {
        80
    }
}

impl Target {
    /// The host and port to resolve: the explicit port, else the scheme's
    /// default; `None` without a host.
    pub fn socket_address(&self) -> (r: Option<(String, u16)>)
        ensures
            r matches Some(p) ==> self.url.host matches Some(h) && p.0@ == h@ && p.1 == (
            match self.url.port {
                Some(n) => n,
                None => default_port(self.url.scheme@),
            }),
            r is None <==> self.url.host is None,
    {
        match &self.url.host {
            None => None,
            Some(h) => {
                let port = match self.url.port {
                    Some(n) => n,
                    None => if str_eq(self.url.scheme.as_str(), "https") {
                        443
                    } else {
                        80
                    },
                };
                Some((h.clone(), port))
            },
        }
    }
}

/// Rejects the target when any address it resolves to is internal.
pub fn check_addresses(addrs: &Vec<IpAddress>) -> (r: Result<(), Error>)
    ensures
        r is Ok <==> forall|i: int| 0 <= i < addrs@.len() ==> !is_internal(#[trigger] addrs@[i]),
        r matches Err(e) ==> e is InvalidUrl,
{
    let n = addrs.len();
    let mut i: usize = 0;
    while i < n
        invariant
            n == addrs@.len(),
            i <= n,
            forall|k: int| 0 <= k < i ==> !is_internal(#[trigger] addrs@[k]),
        decreases n - i,
    {
        if is_internal_ip(&addrs[i]) {
            return Err(
                Error::InvalidUrl(String::from_str("internal/private IP address not allowed")),
            );
        }
        i = i + 1;
    }
    Ok(())
}

/// Collects the options of a scanner before its target is validated.
#[derive(Debug, Clone)]
pub struct ScannerBuilder {
    url: String,
    allow_private: bool,
}

impl ScannerBuilder {
    /// The URL or domain to scan.
    pub closed spec fn url_text(&self) -> Seq<char> {
        self.url@
    }

    /// Whether private and internal addresses may be scanned.
    pub closed spec fn private_allowed(&self) -> bool {
        self.allow_private
    }

    /// Create a new builder for the given URL or domain; private targets
    /// are refused until allowed.
    pub fn new(url: &str) -> (r: Self)
        ensures
            r.url_text() == url@,
            !r.private_allowed(),
    {
        ScannerBuilder { url: url.to_owned(), allow_private: false }
    }

    /// Allow scanning private/internal addresses (localhost, 192.168.x.x,
    /// etc.), which the guard otherwise refuses.
    pub fn allow_private(self, allow: bool) -> (r: Self)
        ensures
            r.url_text() == self.url_text(),
            r.private_allowed() == allow,
    {
        ScannerBuilder { url: self.url, allow_private: allow }
    }

    /// Validates the configured target.
    pub fn build(self) -> (r: Result<Target, Error>)
        ensures
            r matches Ok(t) ==> target_outcome(self.url_text(), self.private_allowed()) == Some(
                t.url.parts(),
            ) && t.check_addresses == !self.private_allowed(),
            r matches Err(e) ==> target_outcome(self.url_text(), self.private_allowed()) is None
                && refused_with(e, self.url_text(), self.private_allowed()),
    {
        prepare_target(self.url.as_str(), self.allow_private)
    }
}

} // verus!
