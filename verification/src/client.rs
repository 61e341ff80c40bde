//! Who made a request, for the audit log: the client's address as the proxy
//! reports it, and a bounded copy of its user agent. Reading the headers and
//! the connection is the caller's; these functions take what was read.
use vstd::prelude::*;
use crate::ingest::{byte_prefix, take_bytes};
use crate::search::{split_chars, split_seq};
use crate::text::{chars_of, string_of, trim_chars, trim_seq};

verus! {

/// The most of a user agent that is kept, in bytes.
pub const USER_AGENT_BYTES: usize = 256;

/// The client's address: the first hop of `X-Forwarded-For` (the one nearest
/// the client), else `X-Real-IP`, else the connection's peer; blank header
/// values count as absent.
pub open spec fn client_of(xff: Option<Seq<char>>, real_ip: Option<Seq<char>>, peer: Option<Seq<char>>) -> Option<Seq<char>> {
    let first = match xff {
        Some(x) => Some(trim_seq(split_seq(x, seq![','])[0])),
        None => None,
    };
    let real_hop = match real_ip {
        Some(r) => Some(trim_seq(r)),
        None => None,
    };
    if first is Some && first->0.len() > 0 {
        first
    } else if real_hop is Some && real_hop->0.len() > 0 {
        real_hop
    } else {
        peer
    }
}

proof fn lemma_first_hop(a: Seq<char>, b: Seq<char>)
    requires
        !a.contains(','),
    ensures
        split_seq(a + seq![','] + b, seq![','])[0] == a,
        split_seq(a, seq![','])[0] == a,
{
    let sep = seq![','];
    let x = a + sep + b;
    assert(x.subrange(a.len() as int, (a.len() + 1) as int) =~= sep);
    assert forall|j: int| 0 <= j < a.len() implies !#[trigger] crate::search::occurs_at(x, sep, j) by {
        if crate::search::occurs_at(x, sep, j) {
            assert(x.subrange(j, j + 1)[0] == x[j]);
            assert(a[j] == ',');
            assert(a.contains(','));
        }
    }
    assert(crate::search::first_at(x, sep, a.len() as int));
    crate::search::lemma_find_first_is(x, sep, a.len() as int);
    assert(x.take(a.len() as int) =~= a);
    assert forall|j: int| !#[trigger] crate::search::occurs_at(a, sep, j) by {
        if crate::search::occurs_at(a, sep, j) {
            assert(a.subrange(j, j + 1)[0] == a[j]);
            assert(a.contains(','));
        }
    }
}

/// The first hop of `X-Forwarded-For` (everything before its first comma,
/// trimmed) names the client whenever it is not blank, whatever `X-Real-IP`
/// and the peer say; only a blank or absent first hop falls back to
/// `X-Real-IP`, and only then to the peer.
pub proof fn law_first_forwarded_hop_wins(
    a: Seq<char>,
    b: Seq<char>,
    forwarded_real: Option<Seq<char>>,
    peer: Option<Seq<char>>,
)
    requires
        !a.contains(','),
    ensures
        trim_seq(a).len() > 0 ==> client_of(Some(a + seq![','] + b), forwarded_real, peer) == Some(trim_seq(a)),
        trim_seq(a).len() > 0 ==> client_of(Some(a), forwarded_real, peer) == Some(trim_seq(a)),
        trim_seq(a).len() == 0 && (forwarded_real matches Some(r) && trim_seq(r).len() > 0) ==> client_of(
            Some(a + seq![','] + b),
            forwarded_real,
            peer,
        ) == Some(trim_seq(forwarded_real->0)),
        (forwarded_real matches Some(r) && trim_seq(r).len() > 0) ==> client_of(None, forwarded_real, peer) == Some(
            trim_seq(forwarded_real->0),
        ),
        (forwarded_real is None || trim_seq(forwarded_real->0).len() == 0) ==> client_of(None, forwarded_real, peer) == peer,
{
    lemma_first_hop(a, b);
}

pub fn client_ip(xff: Option<&str>, real_ip: Option<&str>, peer: Option<String>) -> (r: Option<String>)
    ensures
        match (r, client_of(
            match xff {
                Some(x) => Some(x@),
                None => None,
            },
            match real_ip {
                Some(x) => Some(x@),
                None => None,
            },
            match peer {
                Some(p) => Some(p@),
                None => None,
            },
        )) {
            (Some(a), Some(b)) => a@ == b,
            (None, None) => true,
            _ => false,
        },
{
    if let Some(x) = xff {
        let comma: Vec<char> = vec![','];
        let parts = split_chars(&chars_of(x), &comma);
        proof {
            assert(comma@ =~= seq![',']);
            crate::search::lemma_split_nonempty(x@, comma@);
        }
        let first = trim_chars(&parts[0]);
        if first.len() > 0 {
            return Some(string_of(&first));
        }
    }
    if let Some(r) = real_ip {
        let t = trim_chars(&chars_of(r));
        if t.len() > 0 {
            return Some(string_of(&t));
        }
    }
    peer
}

/// The user agent kept: trimmed, not blank, and cut to at most 256 bytes at a
/// character boundary.
pub open spec fn agent_of(value: Option<Seq<char>>) -> Option<Seq<char>> {
    match value {
        None => None,
        Some(v) => if trim_seq(v).len() == 0 {
            None
        } else {
            Some(byte_prefix(trim_seq(v), USER_AGENT_BYTES as nat))
        },
    }
}

pub fn user_agent(value: Option<&str>) -> (r: Option<String>)
    ensures
        match (r, agent_of(
            match value {
                Some(v) => Some(v@),
                None => None,
            },
        )) {
            (Some(a), Some(b)) => a@ == b,
            (None, None) => true,
            _ => false,
        },
{
    match value {
        None => None,
        Some(v) => {
            let t = trim_chars(&chars_of(v));
            if t.len() == 0 {
                None
            } else {
                Some(string_of(&take_bytes(&t, USER_AGENT_BYTES)))
            }
        },
    }
}

/// Whether a header byte reads as text: visible ASCII, or a tab.
pub open spec fn visible_ascii(b: u8) -> bool {
    (32 <= b && b < 127) || b == 9
}

/// A header value's bytes read as text, as `HeaderValue::to_str` reads them:
/// nothing unless every byte is visible ASCII (or a tab), then those characters.
pub open spec fn header_text_of(bytes: Seq<u8>) -> Option<Seq<char>> {
    if forall|i: int| 0 <= i < bytes.len() ==> visible_ascii(#[trigger] bytes[i]) {
        Some(Seq::new(bytes.len(), |i: int| bytes[i] as char))
    } else {
        None
    }
}

pub fn header_text(bytes: &[u8]) -> (r: Option<String>)
    ensures
        crate::paging::opt_view(r) == header_text_of(bytes@),
{
    let mut out: Vec<char> = Vec::new();
    let mut i: usize = 0;
    while i < bytes.len()
        invariant
            i <= bytes@.len(),
            out@ =~= Seq::new(i as nat, |j: int| bytes@[j] as char),
            forall|j: int| 0 <= j < i ==> visible_ascii(#[trigger] bytes@[j]),
        decreases bytes.len() - i,
    {
        let b = bytes[i];
        if !((32 <= b && b < 127) || b == 9) {
            return None;
        }
        out.push(b as char);
        i = i + 1;
    }
    Some(string_of(&out))
}

/// The user agent of a request from the raw bytes of its header: a header
/// that does not read as text counts as absent (a mangled value is worse than
/// none).
pub fn user_agent_header(raw: Option<&[u8]>) -> (r: Option<String>)
    ensures
        crate::paging::opt_view(r) == match raw {
            None => None,
            Some(b) => match header_text_of(b@) {
                None => None,
                Some(t) => agent_of(Some(t)),
            },
        },
{
    match raw {
        None => None,
        Some(b) => match header_text(b) {
            None => None,
            Some(t) => {
                let r = user_agent(Some(t.as_str()));
                proof {
                    assert(crate::paging::opt_view(r) == agent_of(Some(t@)));
                }
                r
            },
        },
    }
}

} // verus!
