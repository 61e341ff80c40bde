//! Login tokens: the session a login issues (an HS256 JWT naming the user,
//! valid for seven days) and which token a request carries. Signing and
//! checking are jsonwebtoken's.
use vstd::prelude::*;
use uuid::Uuid;
use crate::search::starts_with;
use crate::text::{chars_of, string_of};

verus! {

/// The cookie a session token travels in.
pub const COOKIE_NAME: &'static str = "utopia_token";

/// How long a session lasts, in seconds (seven days).
pub const TOKEN_TTL_SECS: i64 = 604800;

/// The claims a session token carries, as the JSON text of `{sub, exp}`:
/// the user id (hyphenated) as a string, then the expiry in seconds.
pub open spec fn claims_text(sub: Uuid, exp: i64) -> Seq<char> {
    "{\"sub\":"@ + crate::chat::json_string(crate::admin::uuid_display(sub)) + ",\"exp\":"@
        + crate::lines::signed_text(exp as int) + "}"@
}

fn claims_of(sub: &Uuid, exp: i64) -> (r: String)
    ensures
        r@ == claims_text(*sub, exp),
{
    let mut out = chars_of("{\"sub\":");
    let mut id = chars_of(crate::chat::json_quote(crate::admin::uuid_string(sub).as_str()).as_str());
    let mut mid = chars_of(",\"exp\":");
    let mut n = crate::lines::signed_decimal(exp);
    let mut end = chars_of("}");
    let ghost (a, b, c, d, e) = (out@, id@, mid@, n@, end@);
    out.append(&mut id);
    out.append(&mut mid);
    out.append(&mut n);
    out.append(&mut end);
    proof {
        assert(out@ =~= a + b + c + d + e);
    }
    string_of(&out)
}

/// The token `jsonwebtoken::encode` writes with the default header (HS256)
/// and the secret as key for claims given as JSON text; `None` when encoding
/// fails. HMAC signing is deterministic, so this is a function of its
/// arguments alone.
pub uninterp spec fn hs256_token(secret: Seq<u8>, claims: Seq<char>) -> Option<Seq<char>>;

/// `jsonwebtoken::encode` of claims already written as JSON
/// (`serde_json::value::RawValue`, serialised as it stands). The wording of
/// the error is not stated.
#[verifier::external_body]
fn sign_claims(secret: &[u8], claims: &str) -> (r: Result<String, String>)
    ensures
        match r {
            Ok(t) => hs256_token(secret@, claims@) == Some(t@),
            Err(_) => hs256_token(secret@, claims@) is None,
        },
{
    let raw = serde_json::value::RawValue::from_string(claims.to_string()).map_err(|e| e.to_string())?;
    let key = jsonwebtoken::EncodingKey::from_secret(secret);
    jsonwebtoken::encode(&jsonwebtoken::Header::default(), &raw, &key).map_err(|e| e.to_string())
}

/// A session token for a user, issued at `now` (seconds since the epoch): its
/// claims name the user and expire `TOKEN_TTL_SECS` later; a failure reads
/// `Token issuance failed: ...`.
pub fn issue_token(secret: &[u8], user_id: &Uuid, now: i64) -> (r: Result<String, String>)
    requires
        now <= i64::MAX - TOKEN_TTL_SECS,
    ensures
        match hs256_token(secret@, claims_text(*user_id, (now + TOKEN_TTL_SECS) as i64)) {
            Some(t) => r matches Ok(x) && x@ == t,
            None => r matches Err(m) && exists|rest: Seq<char>| m@ == "Token issuance failed: "@ + rest,
        },
{
    let claims = claims_of(user_id, now + TOKEN_TTL_SECS);
    match sign_claims(secret, claims.as_str()) {
        Ok(t) => Ok(t),
        Err(e) => {
            let mut m = chars_of("Token issuance failed: ");
            let mut rest = chars_of(e.as_str());
            let ghost (a, b) = (m@, rest@);
            m.append(&mut rest);
            proof {
                assert(m@ =~= a + b);
            }
            Err(string_of(&m))
        },
    }
}

/// The user a token names when its expiry is set aside (what
/// `jsonwebtoken::decode` under the default validation with `validate_exp`
/// off finds): the token is an HS256 JWT signed with the secret, it carries an
/// `exp` claim, and its `sub` claim reads as a UUID; `None` otherwise. A
/// function of the secret and the token.
pub uninterp spec fn hs256_subject(secret: Seq<u8>, token: Seq<char>) -> Option<Uuid>;

/// `jsonwebtoken::decode` under the default validation (HS256, `exp` required
/// and not past, with a minute of leeway), then the `sub` claim read as a
/// UUID. Whether a token has expired depends on the clock, which is not
/// stated; the rest of the check (signature, an `exp` claim present, `sub` a
/// UUID) does not, so a user it finds is the user `hs256_subject` names.
#[verifier::external_body]
fn verify_token(secret: &[u8], token: &str) -> (r: Option<Uuid>)
    ensures
        r matches Some(u) ==> hs256_subject(secret@, token@) == Some(u),
{
    let key = jsonwebtoken::DecodingKey::from_secret(secret);
    let data = jsonwebtoken::decode::<serde_json::Value>(token, &key, &jsonwebtoken::Validation::default()).ok()?;
    Uuid::parse_str(data.claims["sub"].as_str()?).ok()
}

/// The token a request carries: the session cookie's value when there is one,
/// else what follows `Bearer ` in the `Authorization` header.
pub open spec fn token_of(cookie: Option<Seq<char>>, authorization: Option<Seq<char>>) -> Option<Seq<char>> {
    match cookie {
        Some(c) => Some(c),
        None => match authorization {
            Some(a) => if starts_with(a, "Bearer "@) {
                Some(a.skip(7))
            } else {
                None
            },
            None => None,
        },
    }
}

pub fn token_from(cookie: Option<&str>, authorization: Option<&str>) -> (r: Option<String>)
    ensures
        crate::paging::opt_view(r) == token_of(
            match cookie {
                Some(c) => Some(c@),
                None => None,
            },
            match authorization {
                Some(a) => Some(a@),
                None => None,
            },
        ),
{
    match cookie {
        Some(c) => Some(string_of(&chars_of(c))),
        None => match authorization {
            Some(a) => {
                let v = chars_of(a);
                let p = chars_of("Bearer ");
                proof {
                    reveal_strlit("Bearer ");
                }
                if crate::search::starts_with_chars(&v, &p) {
                    Some(string_of(&crate::text::slice_chars(&v, 7, v.len())))
                } else {
                    None
                }
            },
            None => None,
        },
    }
}

/// Who a request is from: the user its token names, when it carries a token
/// and the token checks out under the secret (and has not expired, which the
/// clock decides). A request without a token is from nobody.
pub fn authenticate(secret: &[u8], cookie: Option<&str>, authorization: Option<&str>) -> (r: Option<Uuid>)
    ensures
        ({
            let t = token_of(
                match cookie {
                    Some(c) => Some(c@),
                    None => None,
                },
                match authorization {
                    Some(a) => Some(a@),
                    None => None,
                },
            );
            &&& t is None ==> r is None
            &&& r matches Some(u) ==> (t matches Some(tok) && hs256_subject(secret@, tok) == Some(u))
        }),
{
    match token_from(cookie, authorization) {
        Some(t) => verify_token(secret, t.as_str()),
        None => None,
    }
}

} // verus!
