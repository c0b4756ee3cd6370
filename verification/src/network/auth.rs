//! Session security and network identity of the daemon: the bearer token
//! (from the environment or freshly random), its constant-time check on
//! REST requests and WebSocket upgrades, the CORS origin list, and the
//! address advertised over mDNS.

use vstd::prelude::*;
use vstd::string::*;
use vstd::utf8::*;
use crate::chars::{chars_of, starts_with, has_at};
use crate::network::errors::ServerError;
use crate::text::{hex_lower_char, hex_digit_str, decimal, push_decimal};

verus! {

broadcast use vstd::utf8::encode_utf8_decode_utf8;

/// `subtle::ConstantTimeEq::ct_eq` on byte slices, read as a `bool`: the
/// source answers false at once on different lengths and otherwise
/// compares every byte, so the result is exactly slice equality.
#[verifier::external_body]
fn ct_eq_bytes(a: &[u8], b: &[u8]) -> (r: bool)
    ensures
        r == (a@ == b@),
{
    bool::from(subtle::ConstantTimeEq::ct_eq(a, b))
}

/// Whether `provided` is the session token, compared in constant time on
/// the UTF-8 bytes of both.
pub fn tokens_match(expected: &str, provided: &str) -> (r: bool)
    ensures
        r == (expected@ == provided@),
{
    let e = expected.as_bytes();
    let p = provided.as_bytes();
    proof {
        assert(decode_utf8(encode_utf8(expected@)) == expected@);
        assert(decode_utf8(encode_utf8(provided@)) == provided@);
    }
    e.len() == p.len() && ct_eq_bytes(e, p)
}

/// The REST authentication decision for an `Authorization` header value
/// (absent, or not readable as text, when `None`).
pub open spec fn spec_authorize_bearer(header: Option<Seq<char>>, expected: Seq<char>) -> Result<
    (),
    Seq<char>,
> {
    match header {
        Some(h) => if !starts_with(h, "Bearer "@) {
            Err("missing Authorization header"@)
        } else if h.skip(7) == expected {
            Ok(())
        } else {
            Err("invalid bearer token"@)
        },
        None => Err("missing Authorization header"@),
    }
}

/// Whether `r` is the outcome `spec` of an authorisation decision, an
/// error being `Unauthorized` with the given detail.
pub open spec fn auth_outcome(r: Result<(), ServerError>, spec: Result<(), Seq<char>>) -> bool {
    match spec {
        Ok(()) => r is Ok,
        Err(d) => r is Err && r->Err_0 is Unauthorized && r->Err_0->Unauthorized_0@ == d,
    }
}

/// Check the bearer token of a REST request: the header must read
/// `Bearer <token>` with the session token.
pub fn authorize_bearer(header: Option<&str>, expected: &str) -> (r: Result<(), ServerError>)
    ensures
        auth_outcome(
            r,
            spec_authorize_bearer(
                match header {
                    Some(h) => Some(h@),
                    None => None,
                },
                expected@,
            ),
        ),
{
    proof {
        reveal_strlit("Bearer ");
        reveal_strlit("missing Authorization header");
        reveal_strlit("invalid bearer token");
    }
    match header {
        Some(h) => {
            let v = chars_of(h);
            let n = v.len();
            if !has_at(&v, 0, n, "Bearer ") {
                assert(v@.subrange(0, n as int) =~= h@);
                return Err(ServerError::Unauthorized(String::from_str("missing Authorization header")));
            }
            assert(v@.subrange(0, n as int) =~= h@);
            let token = h.substring_char(7, n);
            assert(token@ =~= h@.skip(7));
            if tokens_match(expected, token) {
                Ok(())
            } else {
                Err(ServerError::Unauthorized(String::from_str("invalid bearer token")))
            }
        },
        None => Err(ServerError::Unauthorized(String::from_str("missing Authorization header"))),
    }
}

/// Query parameters of the WebSocket upgrade request.
pub struct WsParams {
    pub token: Option<String>,
}

/// The WebSocket authentication decision for a `?token=` parameter.
pub open spec fn spec_authorize_ws(token: Option<Seq<char>>, expected: Seq<char>) -> Result<
    (),
    Seq<char>,
> {
    match token {
        Some(t) => if t == expected {
            Ok(())
        } else {
            Err("invalid WebSocket token"@)
        },
        None => Err("missing token query parameter"@),
    }
}

impl WsParams {
    /// Check the `?token=` parameter of a WebSocket upgrade against the
    /// session token (WebSockets bypass the REST middleware).
    pub fn authorize(&self, expected: &str) -> (r: Result<(), ServerError>)
        ensures
            auth_outcome(
                r,
                spec_authorize_ws(
                    match self.token {
                        Some(t) => Some(t@),
                        None => None,
                    },
                    expected@,
                ),
            ),
    {
        proof {
            reveal_strlit("invalid WebSocket token");
            reveal_strlit("missing token query parameter");
        }
        match &self.token {
            Some(t) => {
                if tokens_match(expected, t.as_str()) {
                    Ok(())
                } else {
                    Err(ServerError::Unauthorized(String::from_str("invalid WebSocket token")))
                }
            },
            None => Err(ServerError::Unauthorized(String::from_str("missing token query parameter"))),
        }
    }
}

/// Lower-case hexadecimal rendering of `bytes`, two digits per byte.
pub open spec fn hex_of(bytes: Seq<u8>) -> Seq<char>
    decreases bytes.len(),
{
    if bytes.len() == 0 {
        Seq::empty()
    } else {
        let b = bytes.last();
        hex_of(bytes.drop_last()) + seq![hex_lower_char((b / 16) as nat), hex_lower_char((b % 16) as nat)]
    }
}

pub proof fn lemma_hex_of_len(bytes: Seq<u8>)
    ensures
        hex_of(bytes).len() == 2 * bytes.len(),
    decreases bytes.len(),
{
    if bytes.len() > 0 {
        lemma_hex_of_len(bytes.drop_last());
    }
}

/// Render bytes as lower-case hexadecimal, two digits per byte.
pub fn hex_token(bytes: &[u8]) -> (s: String)
    ensures
        s@ == hex_of(bytes@),
{
    let mut s = String::new();
    let mut i: usize = 0;
    while i < bytes.len()
        invariant
            i <= bytes@.len(),
            s@ == hex_of(bytes@.take(i as int)),
        decreases bytes.len() - i,
    {
        let b = bytes[i];
        assert(bytes@.take(i + 1).drop_last() =~= bytes@.take(i as int));
        s.append(hex_digit_str(b / 16));
        s.append(hex_digit_str(b % 16));
        i = i + 1;
    }
    assert(bytes@.take(bytes@.len() as int) =~= bytes@);
    s
}

/// 32 bytes from `rand::thread_rng()`, filled with `rand::Rng::fill`.
/// The bytes are random: nothing is stated of their values.
#[verifier::external_body]
fn random_bytes_32() -> (b: [u8; 32]) {
    let mut bytes = [0u8; 32];
    rand::Rng::fill(&mut rand::thread_rng(), &mut bytes);
    bytes
}

/// Resolve the bearer token of this session: the token from the
/// environment (`IRONTRACK_TOKEN`) when it is set and non-empty, otherwise
/// 32 random bytes rendered as 64 lower-case hexadecimal digits.
pub fn resolve_bearer_token(env_token: Option<String>) -> (s: String)
    ensures
        env_token is Some && env_token->0@.len() > 0 ==> s == env_token->0,
        !(env_token is Some && env_token->0@.len() > 0) ==> exists|b: Seq<u8>|
            b.len() == 32 && s@ == hex_of(b),
{
    if let Some(t) = env_token {
        if t.as_str().unicode_len() > 0 {
            return t;
        }
    }
    let bytes = random_bytes_32();
    let s = hex_token(&bytes);
    assert(bytes@.len() == 32);
    s
}

/// Whether every byte may stand in an HTTP header value: visible ASCII,
/// horizontal tab, or any byte of 0x80 and above.
pub open spec fn header_bytes_ok(b: Seq<u8>) -> bool {
    forall|i: int| 0 <= i < b.len() ==> ((#[trigger] b[i] >= 32 && b[i] != 127) || b[i] == 9)
}

/// Whether `axum::http::HeaderValue::from_str` accepts `s`. Its source
/// refuses a string exactly when one of its UTF-8 bytes is a control
/// character other than tab, or DEL.
#[verifier::external_body]
fn header_value_ok(s: &str) -> (r: bool)
    ensures
        r == header_bytes_ok(encode_utf8(s@)),
{
    axum::http::HeaderValue::from_str(s).is_ok()
}

/// `http://localhost:{port}`.
pub open spec fn localhost_origin(port: nat) -> Seq<char> {
    "http://localhost:"@ + decimal(port)
}

/// `http://127.0.0.1:{port}`.
pub open spec fn loopback_origin(port: nat) -> Seq<char> {
    "http://127.0.0.1:"@ + decimal(port)
}

/// The origins allowed before filtering: the daemon's own origin under
/// both loopback names, the usual dev-server ports, then the extra ones.
pub open spec fn candidate_origins(port: nat, extra: Seq<Seq<char>>) -> Seq<Seq<char>> {
    seq![
        localhost_origin(port),
        loopback_origin(port),
        "http://localhost:3000"@,
        "http://localhost:5173"@,
        "http://127.0.0.1:3000"@,
        "http://127.0.0.1:5173"@,
    ] + extra
}

/// The candidates that are valid header values, in order, with runs of
/// equal neighbours reduced to one (`Vec::dedup`).
pub open spec fn allowed_origins(cands: Seq<Seq<char>>) -> Seq<Seq<char>>
    decreases cands.len(),
{
    if cands.len() == 0 {
        Seq::empty()
    } else {
        let rest = allowed_origins(cands.drop_last());
        let c = cands.last();
        if !header_bytes_ok(encode_utf8(c)) {
            rest
        } else if rest.len() > 0 && rest.last() == c {
            rest
        } else {
            rest.push(c)
        }
    }
}

/// Views of a list of strings.
pub open spec fn strings_view(v: Seq<String>) -> Seq<Seq<char>> {
    v.map_values(|s: String| s@)
}

/// The CORS origins the daemon allows: its own origin, the common
/// dev-server ports, and the extra origins given on the command line;
/// values that cannot be header values are dropped and adjacent
/// duplicates removed.
pub fn cors_origins(port: u16, extra: &Vec<String>) -> (r: Vec<String>)
    ensures
        strings_view(r@) == allowed_origins(candidate_origins(port as nat, strings_view(extra@))),
{
    proof {
        reveal_strlit("http://localhost:");
        reveal_strlit("http://127.0.0.1:");
    }
    let mut own = String::from_str("http://localhost:");
    push_decimal(&mut own, port as u64);
    let mut own_ip = String::from_str("http://127.0.0.1:");
    push_decimal(&mut own_ip, port as u64);
    let mut cands: Vec<String> = Vec::new();
    cands.push(own);
    cands.push(own_ip);
    cands.push(String::from_str("http://localhost:3000"));
    cands.push(String::from_str("http://localhost:5173"));
    cands.push(String::from_str("http://127.0.0.1:3000"));
    cands.push(String::from_str("http://127.0.0.1:5173"));
    let mut j: usize = 0;
    while j < extra.len()
        invariant
            j <= extra@.len(),
            cands@.len() == 6 + j,
            strings_view(cands@) == candidate_origins(port as nat, strings_view(extra@.take(j as int))),
        decreases extra.len() - j,
    {
        let ghost before = cands@;
        cands.push(extra[j].clone());
        assert(strings_view(cands@) =~= strings_view(before).push(extra@[j as int]@));
        assert(strings_view(extra@.take(j + 1)) =~= strings_view(extra@.take(j as int)).push(extra@[j as int]@));
        assert(strings_view(cands@) =~= candidate_origins(port as nat, strings_view(extra@.take(j + 1))));
        j = j + 1;
    }
    assert(extra@.take(extra@.len() as int) =~= extra@);
    let ghost cv = strings_view(cands@);
    let mut out: Vec<String> = Vec::new();
    let mut i: usize = 0;
    while i < cands.len()
        invariant
            i <= cands@.len(),
            cv == strings_view(cands@),
            strings_view(out@) == allowed_origins(cv.take(i as int)),
        decreases cands.len() - i,
    {
        assert(cv.take(i + 1).drop_last() =~= cv.take(i as int));
        let c = &cands[i];
        if header_value_ok(c.as_str()) {
            let n = out.len();
            let dup = n > 0 && out[n - 1] == *c;
            if !dup {
                out.push(c.clone());
                assert(strings_view(out@) =~= strings_view(out@.drop_last()).push(c@));
            }
        }
        i = i + 1;
    }
    assert(cv.take(cv.len() as int) =~= cv);
    out
}

/// The address to advertise over mDNS: the discovered one, unless there
/// is none or it is loopback or link-local, in which case `0.0.0.0`.
pub open spec fn spec_mdns_address(found: Option<Seq<char>>) -> Seq<char> {
    match found {
        Some(s) => if starts_with(s, "127."@) || starts_with(s, "169.254."@) {
            "0.0.0.0"@
        } else {
            s
        },
        None => "0.0.0.0"@,
    }
}

/// Choose the address to advertise over mDNS from the result of local
/// address discovery.
pub fn mdns_address(found: Option<String>) -> (r: String)
    ensures
        r@ == spec_mdns_address(
            match found {
                Some(s) => Some(s@),
                None => None,
            },
        ),
{
    proof {
        reveal_strlit("127.");
        reveal_strlit("169.254.");
        reveal_strlit("0.0.0.0");
    }
    match found {
        Some(s) => {
            let v = chars_of(s.as_str());
            let n = v.len();
            assert(v@.subrange(0, n as int) =~= s@);
            if has_at(&v, 0, n, "127.") || has_at(&v, 0, n, "169.254.") {
                String::from_str("0.0.0.0")
            } else {
                s
            }
        },
        None => String::from_str("0.0.0.0"),
    }
}

/// The warning printed when the discovered address is not advertised:
/// for a loopback or link-local address, and when discovery failed (with
/// the error's text).
pub open spec fn spec_mdns_warning(found: Result<Seq<char>, Seq<char>>) -> Option<Seq<char>> {
    match found {
        Ok(s) => if starts_with(s, "127."@) || starts_with(s, "169.254."@) {
            Some("warning: local_ip() returned "@ + s + ", falling back to 0.0.0.0 for mDNS"@)
        } else {
            None
        },
        Err(e) => Some(
            "warning: could not discover local IP ("@ + e + "), falling back to 0.0.0.0 for mDNS"@,
        ),
    }
}

/// A discovery outcome, by views.
pub open spec fn found_view(found: Result<String, String>) -> Result<Seq<char>, Seq<char>> {
    match found {
        Ok(s) => Ok(s@),
        Err(e) => Err(e@),
    }
}

/// The discovered address, when there is one.
pub open spec fn found_address(found: Result<Seq<char>, Seq<char>>) -> Option<Seq<char>> {
    match found {
        Ok(s) => Some(s),
        Err(_) => None,
    }
}

/// A warning, by views.
pub open spec fn warning_view(w: Option<String>) -> Option<Seq<char>> {
    match w {
        Some(m) => Some(m@),
        None => None,
    }
}

/// The address to advertise and the warning to print for the outcome of
/// local address discovery (see [`mdns_address`] and
/// [`spec_mdns_warning`]).
pub fn mdns_choice(found: Result<String, String>) -> (r: (String, Option<String>))
    ensures
        r.0@ == spec_mdns_address(found_address(found_view(found))),
        warning_view(r.1) == spec_mdns_warning(found_view(found)),
{
    proof {
        reveal_strlit("127.");
        reveal_strlit("169.254.");
    }
    match found {
        Ok(s) => {
            let v = chars_of(s.as_str());
            let n = v.len();
            assert(v@.subrange(0, n as int) =~= s@);
            let warn = if has_at(&v, 0, n, "127.") || has_at(&v, 0, n, "169.254.") {
                let mut m = String::from_str("warning: local_ip() returned ");
                m.append(s.as_str());
                m.append(", falling back to 0.0.0.0 for mDNS");
                Some(m)
            } else {
                None
            };
            (mdns_address(Some(s)), warn)
        },
        Err(e) => {
            let mut m = String::from_str("warning: could not discover local IP (");
            m.append(e.as_str());
            m.append("), falling back to 0.0.0.0 for mDNS");
            (mdns_address(None), Some(m))
        },
    }
}

/// `local_ip_address::local_ip()`, rendered with `to_string`, or the
/// error's text when discovery fails. What comes back depends on the
/// machine's network interfaces: nothing is stated of it.
#[verifier::external_body]
fn local_ip_text() -> (r: Result<String, String>) {
    match local_ip_address::local_ip() {
        Ok(ip) => Ok(ip.to_string()),
        Err(e) => Err(e.to_string()),
    }
}

/// Discover a local network address for mDNS advertisement, with the
/// warning to print when it falls back to `0.0.0.0` (see [`mdns_choice`]).
pub fn discover_local_ip_with_warning() -> (r: (String, Option<String>))
    ensures
        exists|f: Result<Seq<char>, Seq<char>>|
            r.0@ == spec_mdns_address(found_address(f)) && warning_view(r.1) == spec_mdns_warning(f),
        r.0@ == "0.0.0.0"@ || (!starts_with(r.0@, "127."@) && !starts_with(r.0@, "169.254."@)),
{
    let found = local_ip_text();
    let ghost f = found_view(found);
    let r = mdns_choice(found);
    proof {
        reveal_strlit("127.");
        reveal_strlit("169.254.");
        reveal_strlit("0.0.0.0");
    }
    r
}

/// Discover a non-loopback local network address for mDNS advertisement,
/// falling back to `0.0.0.0`.
pub fn discover_local_ip() -> (r: String)
    ensures
        r@ == "0.0.0.0"@ || (!starts_with(r@, "127."@) && !starts_with(r@, "169.254."@)),
{
    discover_local_ip_with_warning().0
}

} // verus!
