//! The rules of the one managed fetch path: who chose a destination decides how
//! far it may reach, which addresses count as public, which redirect hops may be
//! followed, and which URLs are fetched at all. The network work itself (DNS,
//! connecting, reading the body) is done by the caller; these functions decide.
use vstd::prelude::*;
use core::time::Duration;
use crate::text::{chars_of, string_of, trim_chars, trim_seq};

verus! {

/// Whether a fetch destination was typed by a person or taken from fetched content.
#[derive(Clone, Copy, Debug, PartialEq, Eq, Structural)]
pub enum Reach {
    /// A host an editor of the knowledge base entered: private networks allowed.
    Operator,
    /// An address found in fetched content: public addresses only.
    Content,
}

/// What a fetch may spend.
#[derive(Clone, Copy)]
pub struct Limits {
    pub max_bytes: usize,
    pub max_redirects: usize,
    pub connect_timeout: Duration,
    pub overall_timeout: Duration,
}

/// The span of `n` whole seconds, as `Duration::from_secs` makes it; a function
/// of `n` alone.
pub uninterp spec fn seconds(n: u64) -> Duration;

/// `Duration::from_secs`.
#[verifier::external_body]
fn duration_from_secs(n: u64) -> (d: Duration)
    ensures
        d == seconds(n),
{
    Duration::from_secs(n)
}

impl Limits {
    /// The same limits with another overall deadline.
    pub fn with_overall(self, overall: Duration) -> (r: Self)
        ensures
            r.overall_timeout == overall,
            r.max_bytes == self.max_bytes,
            r.max_redirects == self.max_redirects,
            r.connect_timeout == self.connect_timeout,
    {
        let mut r = self;
        r.overall_timeout = overall;
        r
    }
}

impl Default for Limits {
    /// 16 MiB of body, five redirects, ten seconds to connect, thirty in all.
    fn default() -> (r: Self)
        ensures
            r.max_bytes == 16 * 1024 * 1024,
            r.max_redirects == 5,
            r.connect_timeout == seconds(10),
            r.overall_timeout == seconds(30),
    {
        Limits {
            max_bytes: 16 * 1024 * 1024,
            max_redirects: 5,
            connect_timeout: duration_from_secs(10),
            overall_timeout: duration_from_secs(30),
        }
    }
}

/// An IP address: four octets, or eight 16-bit segments.
#[derive(Clone, Copy, Debug, PartialEq, Eq, Structural)]
pub enum Ip {
    V4(u8, u8, u8, u8),
    V6(u16, u16, u16, u16, u16, u16, u16, u16),
}

/// A public IPv4 address: none of the special-purpose blocks of RFC 6890, and
/// only those (192.0.0.0/24 and 192.0.2.0/24 are reserved, the rest of
/// 192.0.0.0/16 is not).
pub open spec fn v4_public(a: u8, b: u8, c: u8, d: u8) -> bool {
    !(a == 127  // loopback
    || a == 10 || (a == 172 && 16 <= b <= 31) || (a == 192 && b == 168)  // private
    || (a == 169 && b == 254)  // link-local
    || (a == 255 && b == 255 && c == 255 && d == 255)  // broadcast
    || (a == 192 && b == 0 && c == 2) || (a == 198 && b == 51 && c == 100) || (a == 203 && b
        == 0 && c == 113)  // documentation
    || a == 0  // this network
    || (a == 100 && 64 <= b <= 127)  // shared address space
    || (a == 192 && b == 0 && c == 0)  // IETF protocol assignments
    || (a == 192 && b == 88 && c == 99)  // 6to4 relay anycast
    || (a == 198 && (b == 18 || b == 19))  // benchmarking
    || a >= 224)  // multicast and reserved

}

/// The high and low octet of a segment.
pub open spec fn hi(x: u16) -> u8 {
    (x / 256) as u8
}

pub open spec fn lo(x: u16) -> u8 {
    (x % 256) as u8
}

/// A public IPv6 address. One that carries an IPv4 address (v4-mapped, NAT64
/// `64:ff9b::`, 6to4 `2002::/16`) is judged by the address it carries.
pub open spec fn v6_public(s: Seq<u16>) -> bool {
    if s[0] == 0 && s[1] == 0 && s[2] == 0 && s[3] == 0 && s[4] == 0 && s[5] == 0xffff {
        v4_public(hi(s[6]), lo(s[6]), hi(s[7]), lo(s[7]))
    } else if s[0] == 0x64 && s[1] == 0xff9b {
        v4_public(hi(s[6]), lo(s[6]), hi(s[7]), lo(s[7]))
    } else if s[0] == 0x2002 {
        v4_public(hi(s[1]), lo(s[1]), hi(s[2]), lo(s[2]))
    } else {
        let zero_head = s[0] == 0 && s[1] == 0 && s[2] == 0 && s[3] == 0 && s[4] == 0 && s[5]
            == 0 && s[6] == 0;
        !((zero_head && s[7] == 1)  // loopback
        || (zero_head && s[7] == 0)  // unspecified
        || s[0] >= 0xff00  // multicast
        || (0xfc00 <= s[0] <= 0xfdff)  // unique local
        || (0xfe80 <= s[0] <= 0xfebf)  // link-local
        || (s[0] == 0x2001 && s[1] == 0x0db8))  // documentation

    }
}

pub open spec fn ip_public(ip: Ip) -> bool {
    match ip {
        Ip::V4(a, b, c, d) => v4_public(a, b, c, d),
        Ip::V6(s0, s1, s2, s3, s4, s5, s6, s7) => v6_public(seq![s0, s1, s2, s3, s4, s5, s6, s7]),
    }
}

/// Global unicast IPv6 (`2000::/3`) is public, except the documentation block
/// `2001:db8::/32` and 6to4 (`2002::/16`, judged by the IPv4 address it
/// carries): blocking one block too many would make a legitimate site
/// unfetchable. In particular all of `2001::/16` but `2001:db8::/32` is public.
pub proof fn law_only_documentation_space_is_refused_in_2001(
    s0: u16,
    s1: u16,
    s2: u16,
    s3: u16,
    s4: u16,
    s5: u16,
    s6: u16,
    s7: u16,
)
    ensures
        0x2000 <= s0 <= 0x3fff && s0 != 0x2002 && !(s0 == 0x2001 && s1 == 0x0db8) ==> ip_public(
            Ip::V6(s0, s1, s2, s3, s4, s5, s6, s7),
        ),
        s0 == 0x2001 && s1 != 0x0db8 ==> ip_public(Ip::V6(s0, s1, s2, s3, s4, s5, s6, s7)),
        !ip_public(Ip::V6(0x2001, 0x0db8, s2, s3, s4, s5, s6, s7)),
{
}

/// An IPv4 address carried inside IPv6 (v4-mapped `::ffff:a.b.c.d`, NAT64
/// `64:ff9b::a.b.c.d`, 6to4 `2002:ab:cd::`) is judged exactly as the IPv4
/// address itself, so wrapping a private address never makes it reachable.
pub proof fn law_carried_ipv4_is_judged_as_itself(a: u8, b: u8, c: u8, d: u8, x: u16, y: u16, z: u16, w: u16, v: u16)
    ensures
        ip_public(Ip::V6(0, 0, 0, 0, 0, 0xffff, (a as int * 256 + b as int) as u16, (c as int * 256 + d as int) as u16))
            == ip_public(Ip::V4(a, b, c, d)),
        ip_public(Ip::V6(0x64, 0xff9b, x, y, z, w, (a as int * 256 + b as int) as u16, (c as int * 256 + d as int) as u16))
            == ip_public(Ip::V4(a, b, c, d)),
        ip_public(Ip::V6(0x2002, (a as int * 256 + b as int) as u16, (c as int * 256 + d as int) as u16, x, y, z, w, v))
            == ip_public(Ip::V4(a, b, c, d)),
{
    let p = (a as int * 256 + b as int) as u16;
    let q = (c as int * 256 + d as int) as u16;
    assert(p as int == a as int * 256 + b as int);
    assert(q as int == c as int * 256 + d as int);
    assert(hi(p) == a && lo(p) == b);
    assert(hi(q) == c && lo(q) == d);
}

fn is_public_v4(a: u8, b: u8, c: u8, d: u8) -> (r: bool)
    ensures
        r == v4_public(a, b, c, d),
{
    !(a == 127 || a == 10 || (a == 172 && 16 <= b && b <= 31) || (a == 192 && b == 168) || (a
        == 169 && b == 254) || (a == 255 && b == 255 && c == 255 && d == 255) || (a == 192 && b
        == 0 && c == 2) || (a == 198 && b == 51 && c == 100) || (a == 203 && b == 0 && c == 113)
        || a == 0 || (a == 100 && 64 <= b && b <= 127) || (a == 192 && b == 0 && c == 0) || (a
        == 192 && b == 88 && c == 99) || (a == 198 && (b == 18 || b == 19)) || a >= 224)
}

fn split_segment(x: u16) -> (r: (u8, u8))
    ensures
        r.0 == hi(x),
        r.1 == lo(x),
{
    let h = (x >> 8) as u8;
    let l = (x & 0xff) as u8;
    assert(h == hi(x) && l == lo(x)) by (bit_vector)
        requires
            h == (x >> 8) as u8,
            l == (x & 0xff) as u8,
    ;
    (h, l)
}

/// Whether a fetch may connect to this address as a public one.
pub fn is_public_ip(ip: &Ip) -> (r: bool)
    ensures
        r == ip_public(*ip),
{
    match *ip {
        Ip::V4(a, b, c, d) => is_public_v4(a, b, c, d),
        Ip::V6(s0, s1, s2, s3, s4, s5, s6, s7) => {
            if s0 == 0 && s1 == 0 && s2 == 0 && s3 == 0 && s4 == 0 && s5 == 0xffff {
                let (a, b) = split_segment(s6);
                let (c, d) = split_segment(s7);
                return is_public_v4(a, b, c, d);
            }
            if s0 == 0x64 && s1 == 0xff9b {
                let (a, b) = split_segment(s6);
                let (c, d) = split_segment(s7);
                return is_public_v4(a, b, c, d);
            }
            if s0 == 0x2002 {
                let (a, b) = split_segment(s1);
                let (c, d) = split_segment(s2);
                return is_public_v4(a, b, c, d);
            }
            let zero_head = s0 == 0 && s1 == 0 && s2 == 0 && s3 == 0 && s4 == 0 && s5 == 0 && s6
                == 0;
            let multicast = (s0 & 0xff00) == 0xff00;
            let unique_local = (s0 & 0xfe00) == 0xfc00;
            let link_local = (s0 & 0xffc0) == 0xfe80;
            assert(multicast == (s0 >= 0xff00)) by (bit_vector)
                requires
                    multicast == ((s0 & 0xff00) == 0xff00),
            ;
            assert(unique_local == (0xfc00 <= s0 && s0 <= 0xfdff)) by (bit_vector)
                requires
                    unique_local == ((s0 & 0xfe00) == 0xfc00),
            ;
            assert(link_local == (0xfe80 <= s0 && s0 <= 0xfebf)) by (bit_vector)
                requires
                    link_local == ((s0 & 0xffc0) == 0xfe80),
            ;
            !((zero_head && s7 == 1) || (zero_head && s7 == 0) || multicast || unique_local
                || link_local || (s0 == 0x2001 && s1 == 0x0db8))
        },
    }
}

/// Why a fetch was refused before any byte was read.
#[derive(Debug)]
pub enum FetchError {
    InvalidUrl(String),
    UnsupportedScheme(String),
    BlockedAddress(Ip),
    Dns(String),
    BlockedRedirect(String),
    RedirectLimit,
    TooLarge(usize),
    Status(u16),
}

/// `addrs` with each address kept at its first place only.
pub open spec fn first_occurrences(addrs: Seq<Ip>) -> Seq<Ip>
    decreases addrs.len(),
{
    if addrs.len() == 0 {
        Seq::empty()
    } else {
        let d = first_occurrences(addrs.drop_last());
        if d.contains(addrs.last()) {
            d
        } else {
            d.push(addrs.last())
        }
    }
}

/// The first address of `addrs` that is not public, if one is.
pub open spec fn first_private(addrs: Seq<Ip>) -> Option<int> {
    if exists|i: int| 0 <= i < addrs.len() && !ip_public(#[trigger] addrs[i]) {
        Some(
            choose|i: int|
                0 <= i < addrs.len() && !ip_public(#[trigger] addrs[i]) && forall|j: int|
                    0 <= j < i ==> ip_public(#[trigger] addrs[j]),
        )
    } else {
        None
    }
}

proof fn lemma_first_private(addrs: Seq<Ip>, i: int)
    requires
        0 <= i < addrs.len(),
        !ip_public(addrs[i]),
        forall|j: int| 0 <= j < i ==> ip_public(#[trigger] addrs[j]),
    ensures
        first_private(addrs) == Some(i),
{
    let c = choose|c: int|
        0 <= c < addrs.len() && !ip_public(#[trigger] addrs[c]) && forall|j: int|
            0 <= j < c ==> ip_public(#[trigger] addrs[j]);
    if c < i {
        assert(ip_public(addrs[c]));
    } else if c > i {
        assert(ip_public(addrs[i]));
    }
}

/// What a host's resolved addresses admit: none is a DNS failure; for content
/// reach, one address that is not public refuses the whole host (a host that
/// resolves to public and private addresses at once is the trick, not a mix to
/// pick from); otherwise the addresses, each once, in the order resolved.
pub fn admit_addresses(host: &str, reach: Reach, resolved: &Vec<Ip>) -> (r: Result<
    Vec<Ip>,
    FetchError,
>)
    ensures
        resolved@.len() == 0 ==> (r matches Err(FetchError::Dns(h)) && h@ == host@),
        resolved@.len() > 0 && reach == Reach::Content && first_private(resolved@) is Some
            ==> (r matches Err(FetchError::BlockedAddress(a)) && a == resolved@[first_private(
            resolved@)->0]),
        resolved@.len() > 0 && (reach == Reach::Operator || first_private(resolved@) is None)
            ==> (r matches Ok(v) && v@ == first_occurrences(resolved@)),
{
    if resolved.len() == 0 {
        return Err(FetchError::Dns(string_of(&chars_of(host))));
    }
    if reach == Reach::Content {
        let mut i: usize = 0;
        while i < resolved.len()
            invariant
                reach == Reach::Content,
                i <= resolved@.len(),
                forall|j: int| 0 <= j < i ==> ip_public(#[trigger] resolved@[j]),
            decreases resolved.len() - i,
        {
            if !is_public_ip(&resolved[i]) {
                proof {
                    lemma_first_private(resolved@, i as int);
                }
                return Err(FetchError::BlockedAddress(resolved[i]));
            }
            i = i + 1;
        }
        proof {
            if first_private(resolved@) is Some {
                let w = choose|w: int| 0 <= w < resolved@.len() && !ip_public(#[trigger] resolved@[w]);
                assert(ip_public(resolved@[w]));
            }
        }
    }
    let mut out: Vec<Ip> = Vec::new();
    let mut i: usize = 0;
    while i < resolved.len()
        invariant
            i <= resolved@.len(),
            out@ == first_occurrences(resolved@.take(i as int)),
        decreases resolved.len() - i,
    {
        let a = resolved[i];
        let mut seen = false;
        let mut k: usize = 0;
        while k < out.len()
            invariant
                k <= out@.len(),
                seen == exists|m: int| 0 <= m < k && out@[m] == a,
            decreases out.len() - k,
        {
            if out[k] == a {
                seen = true;
            }
            k = k + 1;
        }
        proof {
            assert(resolved@.take(i + 1).drop_last() =~= resolved@.take(i as int));
            assert(resolved@.take(i + 1).last() == a);
        }
        if !seen {
            out.push(a);
        }
        i = i + 1;
    }
    proof {
        assert(resolved@.take(resolved@.len() as int) =~= resolved@);
    }
    Ok(out)
}

/// Whether every address of a list is public.
pub open spec fn all_public(addrs: Seq<Ip>) -> bool {
    forall|i: int| 0 <= i < addrs.len() ==> ip_public(#[trigger] addrs[i])
}

fn every_public(addrs: &Vec<Ip>) -> (r: bool)
    ensures
        r == all_public(addrs@),
{
    let mut i: usize = 0;
    while i < addrs.len()
        invariant
            i <= addrs@.len(),
            forall|j: int| 0 <= j < i ==> ip_public(#[trigger] addrs@[j]),
        decreases addrs.len() - i,
    {
        if !is_public_ip(&addrs[i]) {
            return false;
        }
        i = i + 1;
    }
    true
}

/// Whether a redirect hop may be followed: never from https down to http, and
/// never from a host that is public into one that is not (whoever chose the
/// first host chose that machine, not where it forwards to). `from_addrs` is
/// what the current host resolves to, `None` when it no longer resolves, which
/// counts as public; `to_addrs` is what the next host resolves to, already
/// admitted for the fetch's reach.
pub open spec fn hop_ok(
    from_scheme: Seq<char>,
    to_scheme: Seq<char>,
    from_addrs: Option<Seq<Ip>>,
    to_addrs: Seq<Ip>,
) -> bool {
    let downgrade = from_scheme == "https"@ && to_scheme == "http"@;
    let from_public = match from_addrs {
        Some(a) => all_public(a),
        None => true,
    };
    !downgrade && !(from_public && !all_public(to_addrs))
}

pub fn hop_allowed(
    from_scheme: &str,
    to_scheme: &str,
    from_addrs: Option<&Vec<Ip>>,
    to_addrs: &Vec<Ip>,
) -> (r: bool)
    ensures
        r == hop_ok(
            from_scheme@,
            to_scheme@,
            match from_addrs {
                Some(a) => Some(a@),
                None => None,
            },
            to_addrs@,
        ),
{
    let https: Vec<char> = vec!['h', 't', 't', 'p', 's'];
    let http: Vec<char> = vec!['h', 't', 't', 'p'];
    proof {
        reveal_strlit("https");
        reveal_strlit("http");
        assert(https@ =~= "https"@);
        assert(http@ =~= "http"@);
    }
    let f = chars_of(from_scheme);
    let t = chars_of(to_scheme);
    if crate::sse::vec_eq(&f, &https) && crate::sse::vec_eq(&t, &http) {
        return false;
    }
    let from_public = match from_addrs {
        Some(a) => every_public(a),
        None => true,
    };
    !(from_public && !every_public(to_addrs))
}

/// The name of what `url::Url::parse` makes of a string: `None` when it does
/// not parse, else the serialised URL (`Url::as_str`), its scheme and its host
/// (if it has one); a function of the string alone.
pub uninterp spec fn parsed_url(raw: Seq<char>) -> Option<(Seq<char>, Seq<char>, Option<Seq<char>>)>;

/// A parsed URL, with the parts the fetch rules read.
#[derive(Debug)]
pub struct UrlParts {
    pub text: String,
    pub scheme: String,
    pub host: Option<String>,
}

/// `url::Url::parse`, with the parsed URL taken apart into its text, scheme and
/// host. The wording of the error is not stated.
#[verifier::external_body]
pub(crate) fn parse_url(raw: &str) -> (r: Result<UrlParts, String>)
    ensures
        match r {
            Ok(p) => parsed_url(raw@) == Some(
                (
                    p.text@,
                    p.scheme@,
                    match p.host {
                        Some(h) => Some(h@),
                        None => None,
                    },
                ),
            ),
            Err(_) => parsed_url(raw@) is None,
        },
{
    match reqwest::Url::parse(raw) {
        Ok(u) => Ok(
            UrlParts {
                text: u.as_str().to_string(),
                scheme: u.scheme().to_string(),
                host: u.host_str().map(|h| h.to_string()),
            },
        ),
        Err(e) => Err(e.to_string()),
    }
}

/// Which URLs are fetched at all: the trimmed text must parse, with the scheme
/// `http` or `https`. What is handed on is the URL as parsed: the serialised
/// text the fetch requests, its scheme and its host.
pub fn parse(raw: &str) -> (r: Result<UrlParts, FetchError>)
    ensures
        parsed_url(trim_seq(raw@)) is None ==> (r matches Err(FetchError::InvalidUrl(_))),
        parsed_url(trim_seq(raw@)) matches Some(p) ==> {
            if p.1 == "http"@ || p.1 == "https"@ {
                r matches Ok(u) && u.text@ == p.0 && u.scheme@ == p.1 && p.2 == match u.host {
                    Some(h) => Some(h@),
                    None => None,
                }
            } else {
                r matches Err(FetchError::UnsupportedScheme(s)) && s@ == p.1
            }
        },
{
    let v = chars_of(raw);
    let t = string_of(&trim_chars(&v));
    match parse_url(t.as_str()) {
        Err(e) => Err(FetchError::InvalidUrl(e)),
        Ok(u) => {
            let https: Vec<char> = vec!['h', 't', 't', 'p', 's'];
            let http: Vec<char> = vec!['h', 't', 't', 'p'];
            proof {
                reveal_strlit("https");
                reveal_strlit("http");
                assert(https@ =~= "https"@);
                assert(http@ =~= "http"@);
            }
            let s = chars_of(u.scheme.as_str());
            if crate::sse::vec_eq(&s, &http) || crate::sse::vec_eq(&s, &https) {
                Ok(u)
            } else {
                Err(FetchError::UnsupportedScheme(string_of(&s)))
            }
        },
    }
}

/// Whether a connection skips the configured proxy: when some address it is
/// pinned to is not public (a proxy cannot reach a private address, and the
/// operator chose it by hand).
pub fn bypass_proxy(ips: &Vec<Ip>) -> (r: bool)
    ensures
        r == exists|i: int| 0 <= i < ips@.len() && !ip_public(#[trigger] ips@[i]),
{
    let mut i: usize = 0;
    while i < ips.len()
        invariant
            i <= ips@.len(),
            forall|j: int| 0 <= j < i ==> ip_public(#[trigger] ips@[j]),
        decreases ips.len() - i,
    {
        if !is_public_ip(&ips[i]) {
            return true;
        }
        i = i + 1;
    }
    false
}

// ---------------------------------------------------------------------------
// Following redirects
// ---------------------------------------------------------------------------

/// Whether hop number `hop` (counted from 0) may be requested: not past the
/// last redirect the limits allow, and not once the overall deadline has
/// passed (then the fetch ends as a timeout, `408`).
pub fn hop_start(hop: usize, max_redirects: usize, time_left: bool) -> (r: Result<(), FetchError>)
    ensures
        hop > max_redirects ==> (r matches Err(FetchError::RedirectLimit)),
        hop <= max_redirects && !time_left ==> (r matches Err(FetchError::Status(c)) && c == 408),
        hop <= max_redirects && time_left ==> r is Ok,
{
    if hop > max_redirects {
        Err(FetchError::RedirectLimit)
    } else if !time_left {
        Err(FetchError::Status(408))
    } else {
        Ok(())
    }
}

/// What the response to one hop leads to.
#[derive(Debug)]
pub enum HopStep {
    /// A redirect to this location, still to be resolved against the URL and
    /// checked as a hop.
    Follow(String),
    /// A success: the body is read.
    Read,
    /// The fetch ends with this error.
    Fail(FetchError),
}

/// A redirect (`3xx`) is followed unless it was the last hop allowed, or it
/// names no location; a success (`2xx`) is read; anything else ends the fetch
/// with its status.
pub fn hop_step(hop: usize, max_redirects: usize, status: u16, location: Option<&str>) -> (r: HopStep)
    ensures
        300 <= status <= 399 && hop >= max_redirects ==> (r matches HopStep::Fail(
            FetchError::RedirectLimit,
        )),
        300 <= status <= 399 && hop < max_redirects && location is None ==> (r matches HopStep::Fail(
            FetchError::BlockedRedirect(s),
        ) && s@ == "(no location)"@),
        300 <= status <= 399 && hop < max_redirects && location is Some ==> (r matches HopStep::Follow(f)
            && f@ == location->0@),
        200 <= status <= 299 ==> r is Read,
        !(200 <= status <= 399) ==> (r matches HopStep::Fail(FetchError::Status(c)) && c == status),
{
    if 300 <= status && status <= 399 {
        if hop >= max_redirects {
            HopStep::Fail(FetchError::RedirectLimit)
        } else {
            match location {
                None => HopStep::Fail(FetchError::BlockedRedirect(string_of(&chars_of("(no location)")))),
                Some(l) => HopStep::Follow(string_of(&chars_of(l))),
            }
        }
    } else if 200 <= status && status <= 299 {
        HopStep::Read
    } else {
        HopStep::Fail(FetchError::Status(status))
    }
}

/// The name of what `url::Url::join` makes of a location against a base URL:
/// `None` when the base does not parse or the location does not resolve, else
/// the serialised URL, its scheme and its host; a function of the two texts.
pub uninterp spec fn joined_url(base: Seq<char>, location: Seq<char>) -> Option<(Seq<char>, Seq<char>, Option<Seq<char>>)>;

/// `url::Url::parse` on the base, then `Url::join` with the location, taken
/// apart as `parse_url` does.
#[verifier::external_body]
fn join_url(base: &str, location: &str) -> (r: Option<UrlParts>)
    ensures
        match r {
            Some(p) => joined_url(base@, location@) == Some(
                (
                    p.text@,
                    p.scheme@,
                    match p.host {
                        Some(h) => Some(h@),
                        None => None,
                    },
                ),
            ),
            None => joined_url(base@, location@) is None,
        },
{
    let u = reqwest::Url::parse(base).ok()?.join(location).ok()?;
    Some(UrlParts { text: u.as_str().to_string(), scheme: u.scheme().to_string(), host: u.host_str().map(|h| h.to_string()) })
}

/// Where a redirect leads: the location resolved against the current URL; a
/// location that does not resolve is a refused redirect naming it.
pub fn next_url(current: &str, location: &str) -> (r: Result<UrlParts, FetchError>)
    ensures
        joined_url(current@, location@) is None ==> (r matches Err(FetchError::BlockedRedirect(s))
            && s@ == location@),
        joined_url(current@, location@) matches Some(p) ==> (r matches Ok(u) && u.text@ == p.0
            && u.scheme@ == p.1 && p.2 == match u.host {
            Some(h) => Some(h@),
            None => None,
        }),
{
    match join_url(current, location) {
        Some(u) => Ok(u),
        None => Err(FetchError::BlockedRedirect(string_of(&chars_of(location)))),
    }
}

// ---------------------------------------------------------------------------
// Reading the body
// ---------------------------------------------------------------------------

/// The media type of a response: the part of `Content-Type` before any `;`,
/// trimmed and with ASCII letters lowercased; `application/octet-stream` when
/// the header is absent.
pub open spec fn mime_of_spec(content_type: Option<Seq<char>>) -> Seq<char> {
    match content_type {
        None => "application/octet-stream"@,
        Some(v) => {
            let head = match crate::search::find_first(v, ";"@) {
                Some(i) => v.take(i),
                None => v,
            };
            trim_seq(head).map_values(|c: char| crate::documents::ascii_lower(c))
        },
    }
}

pub fn mime_of(content_type: Option<&str>) -> (r: String)
    ensures
        r@ == mime_of_spec(
            match content_type {
                Some(v) => Some(v@),
                None => None,
            },
        ),
{
    match content_type {
        None => string_of(&chars_of("application/octet-stream")),
        Some(v) => {
            let cs = chars_of(v);
            let semi = vec![';'];
            proof {
                reveal_strlit(";");
                assert(semi@ =~= ";"@);
                crate::search::lemma_find_first_bounds(cs@, semi@);
            }
            let head = match crate::search::find_chars(&cs, &semi) {
                Some(i) => crate::text::slice_chars(&cs, 0, i),
                None => cs,
            };
            let t = trim_chars(&head);
            let mut out: Vec<char> = Vec::new();
            let mut i: usize = 0;
            while i < t.len()
                invariant
                    i <= t@.len(),
                    out@ == t@.take(i as int).map_values(|c: char| crate::documents::ascii_lower(c)),
                decreases t.len() - i,
            {
                out.push(crate::documents::lower_ascii(t[i]));
                proof {
                    assert(t@.take(i + 1).map_values(|c: char| crate::documents::ascii_lower(c))
                        =~= t@.take(i as int).map_values(|c: char| crate::documents::ascii_lower(c)).push(
                        crate::documents::ascii_lower(t@[i as int]),
                    ));
                }
                i = i + 1;
            }
            proof {
                assert(t@.take(t@.len() as int) =~= t@);
            }
            string_of(&out)
        },
    }
}

/// Whether a body is refused for its size: when the length it announces, or
/// what was read plus the next piece, passes the cap.
pub fn over_cap(announced: Option<u64>, read: usize, next: usize, max_bytes: usize) -> (r: bool)
    ensures
        r == ((announced matches Some(n) && n > max_bytes) || read + next > max_bytes),
{
    match announced {
        Some(n) => if n > max_bytes as u64 {
            return true;
        },
        None => {},
    }
    if next > max_bytes {
        return true;
    }
    read > max_bytes - next
}

} // verus!
