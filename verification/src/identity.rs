//! Client identification. A request is attributed either to an API key —
//! carried in an `Authorization: Bearer` header or an `X-API-Key` header —
//! or, with no credential at all, to the peer address. A key's externally
//! visible form is its fingerprint: `"fp_"` followed by the first sixteen
//! lowercase hex characters of the SHA-256 digest of the raw key bytes.

use vstd::prelude::*;
use vstd::string::StrSliceExecFns;
use vstd::string::StringExecFns;
use vstd::string::StringSliceAdditionalSpecFns;
use vstd::utf8::encode_utf8;
use sha2::Digest;

verus! {

/// The SHA-256 digest of a byte sequence, left abstract: the library
/// relies on the sha2 crate to compute it.
pub uninterp spec fn sha256_of(bytes: Seq<u8>) -> Seq<u8>;

/// Relies on sha2's `Sha256` through the `Digest` trait: the digest is 32
/// bytes and depends on the input bytes alone.
#[verifier::external_body]
fn sha256_digest(data: &str) -> (r: Vec<u8>)
    ensures
        r@ == sha256_of(data.spec_bytes()),
        r@.len() == 32,
{
    sha2::Sha256::digest(data.as_bytes()).to_vec()
}

/// Relies on `String::push`: appends exactly one character.
#[verifier::external_body]
pub(crate) fn push_char(s: &mut String, c: char)
    ensures
        final(s)@ == old(s)@.push(c),
{
    s.push(c);
}

/// The lowercase hex character for a value below sixteen.
pub open spec fn hex_digit_char(n: int) -> char {
    if n == 0 {
        '0'
    } else if n == 1 {
        '1'
    } else if n == 2 {
        '2'
    } else if n == 3 {
        '3'
    } else if n == 4 {
        '4'
    } else if n == 5 {
        '5'
    } else if n == 6 {
        '6'
    } else if n == 7 {
        '7'
    } else if n == 8 {
        '8'
    } else if n == 9 {
        '9'
    } else if n == 10 {
        'a'
    } else if n == 11 {
        'b'
    } else if n == 12 {
        'c'
    } else if n == 13 {
        'd'
    } else if n == 14 {
        'e'
    } else {
        'f'
    }
}

/// Lowercase hex encoding, two characters per byte, high nibble first.
pub open spec fn hex_of_bytes(s: Seq<u8>) -> Seq<char>
    decreases s.len(),
{
    if s.len() == 0 {
        Seq::empty()
    } else {
        hex_of_bytes(s.drop_last()) + seq![
            hex_digit_char(s.last() as int / 16),
            hex_digit_char(s.last() as int % 16),
        ]
    }
}

pub open spec fn is_lower_hex_char(c: char) -> bool {
    ('0' <= c && c <= '9') || ('a' <= c && c <= 'f')
}

/// Hex encoding yields two characters per byte, all lowercase hex.
pub proof fn lemma_hex_of_bytes_shape(s: Seq<u8>)
    ensures
        hex_of_bytes(s).len() == 2 * s.len(),
        forall|i: int| 0 <= i < 2 * s.len() ==> is_lower_hex_char(#[trigger] hex_of_bytes(s)[i]),
    decreases s.len(),
{
    if s.len() > 0 {
        lemma_hex_of_bytes_shape(s.drop_last());
    }
}

/// Encoding a prefix of the bytes gives the matching prefix of the
/// encoding: the first `k` bytes become the first `2 * k` characters.
pub proof fn lemma_hex_of_bytes_prefix(s: Seq<u8>, k: int)
    requires
        0 <= k <= s.len(),
    ensures
        hex_of_bytes(s.take(k)) =~= hex_of_bytes(s).take(2 * k),
    decreases s.len(),
{
    lemma_hex_of_bytes_shape(s);
    if k == s.len() {
        assert(s.take(k) =~= s);
        assert(hex_of_bytes(s).take(2 * k) =~= hex_of_bytes(s));
    } else {
        assert(s.drop_last().take(k) =~= s.take(k));
        lemma_hex_of_bytes_prefix(s.drop_last(), k);
        lemma_hex_of_bytes_shape(s.drop_last());
        assert(hex_of_bytes(s).take(2 * k) =~= hex_of_bytes(s.drop_last()).take(2 * k));
    }
}

pub(crate) fn hex_char(n: u8) -> (c: char)
    requires
        n < 16,
    ensures
        c == hex_digit_char(n as int),
{
    if n == 0 {
        '0'
    } else if n == 1 {
        '1'
    } else if n == 2 {
        '2'
    } else if n == 3 {
        '3'
    } else if n == 4 {
        '4'
    } else if n == 5 {
        '5'
    } else if n == 6 {
        '6'
    } else if n == 7 {
        '7'
    } else if n == 8 {
        '8'
    } else if n == 9 {
        '9'
    } else if n == 10 {
        'a'
    } else if n == 11 {
        'b'
    } else if n == 12 {
        'c'
    } else if n == 13 {
        'd'
    } else if n == 14 {
        'e'
    } else {
        'f'
    }
}

/// The fingerprint of a raw key, over its characters: `"fp_"` followed by
/// the hex encoding of the first eight digest bytes.
pub open spec fn spec_fingerprint(s: Seq<char>) -> Seq<char> {
    "fp_"@ + hex_of_bytes(sha256_of(encode_utf8(s)).take(8))
}

/// Computes a raw key's fingerprint: 19 characters, `"fp_"` and then the
/// first 16 lowercase hex characters of the key's SHA-256 digest.
pub fn fingerprint(raw: &str) -> (r: String)
    ensures
        r@ == spec_fingerprint(raw@),
        r@.len() == 19,
        r@.subrange(0, 3) == "fp_"@,
        forall|i: int| 3 <= i < 19 ==> is_lower_hex_char(r@[i]),
        r@.skip(3) == hex_of_bytes(sha256_of(encode_utf8(raw@)).take(8)),
        r@.skip(3) == hex_of_bytes(sha256_of(encode_utf8(raw@))).take(16),
{
    let digest = sha256_digest(raw);
    let mut r = String::from_str("fp_");
    proof {
        reveal_strlit("fp_");
        assert(digest@.take(0) =~= Seq::<u8>::empty());
    }
    let mut i: usize = 0;
    while i < 8
        invariant
            0 <= i <= 8,
            digest@.len() == 32,
            digest@ == sha256_of(encode_utf8(raw@)),
            r@ == "fp_"@ + hex_of_bytes(digest@.take(i as int)),
            "fp_"@.len() == 3,
        decreases 8 - i,
    {
        let b = digest[i];
        push_char(&mut r, hex_char(b / 16));
        push_char(&mut r, hex_char(b % 16));
        proof {
            assert(digest@.take(i + 1).drop_last() =~= digest@.take(i as int));
            assert(digest@.take(i + 1).last() == digest@[i as int]);
            assert(r@ =~= "fp_"@ + hex_of_bytes(digest@.take(i + 1)));
        }
        i += 1;
    }
    proof {
        lemma_hex_of_bytes_shape(digest@.take(8));
        lemma_hex_of_bytes_prefix(digest@, 8);
        assert(r@.subrange(0, 3) =~= "fp_"@);
        assert(r@.skip(3) =~= hex_of_bytes(digest@.take(8)));
    }
    r
}

/// A request header as the transport hands it over: its text if it decodes
/// as ASCII, or the bare fact that it was present but did not.
pub enum HeaderValue {
    Ascii(String),
    NonAscii,
}

/// The derived client principal.
#[derive(Debug)]
pub enum ClientIdentity {
    /// A credential: the raw key for lookup, its fingerprint for labels.
    ApiKey { raw: String, fingerprint: String },
    /// No credential: the peer address, in its textual form.
    IpAddress(String),
}

/// Why no identity could be derived.
#[derive(Debug)]
pub enum AuthError {
    /// An auth header was present but not usable: a non-Bearer
    /// `Authorization` value, or a header that was not ASCII.
    InvalidScheme,
}

/// The string `s` starts with the literal `"Bearer "`.
pub open spec fn has_bearer_prefix(s: Seq<char>) -> bool {
    s.len() >= 7 && s.subrange(0, 7) == "Bearer "@
}

/// What identity the headers denote, if any: `Some(Some(key))` for a raw
/// key, `Some(None)` for the address fallback, `None` for a scheme error.
pub open spec fn spec_resolve_key(
    authorization: Option<&HeaderValue>,
    x_api_key: Option<&HeaderValue>,
) -> Option<Option<Seq<char>>> {
    match authorization {
        Some(HeaderValue::Ascii(s)) => if has_bearer_prefix(s@) {
            Some(Some(s@.skip(7)))
        } else {
            None
        },
        Some(HeaderValue::NonAscii) => None,
        None => match x_api_key {
            Some(HeaderValue::Ascii(s)) => Some(Some(s@)),
            Some(HeaderValue::NonAscii) => None,
            None => Some(None),
        },
    }
}

impl ClientIdentity {
    /// The canonical string form: `"apikey:<fingerprint>"` or `"ip:<addr>"`.
    pub open spec fn spec_canonical(self) -> Seq<char> {
        match self {
            ClientIdentity::ApiKey { raw: _, fingerprint } => "apikey:"@ + fingerprint@,
            ClientIdentity::IpAddress(addr) => "ip:"@ + addr@,
        }
    }

    /// Renders the canonical string form.
    pub fn canonical(&self) -> (r: String)
        ensures
            r@ == self.spec_canonical(),
    {
        match self {
            ClientIdentity::ApiKey { raw: _, fingerprint } => {
                let mut r = String::from_str("apikey:");
                r.append(fingerprint.as_str());
                r
            },
            ClientIdentity::IpAddress(addr) => {
                let mut r = String::from_str("ip:");
                r.append(addr.as_str());
                r
            },
        }
    }

    /// Derives the identity from the two auth headers and the peer address,
    /// in strict order: `Authorization` (which must be Bearer), then
    /// `X-API-Key`, then the address. A present but unusable header is an
    /// error; it never falls through to the next source.
    pub fn from_request(
        authorization: Option<&HeaderValue>,
        x_api_key: Option<&HeaderValue>,
        peer_ip: &String,
    ) -> (r: Result<ClientIdentity, AuthError>)
        ensures
            match spec_resolve_key(authorization, x_api_key) {
                Some(Some(key)) => r matches Ok(ClientIdentity::ApiKey { raw, fingerprint })
                    && raw@ == key && fingerprint@ == spec_fingerprint(key),
                Some(None) => r matches Ok(ClientIdentity::IpAddress(a)) && a@ == peer_ip@,
                None => r matches Err(e) && e is InvalidScheme,
            },
    {
        match authorization {
            Some(HeaderValue::Ascii(s)) => {
                let sv = s.as_str();
                let n = sv.unicode_len();
                proof {
                    reveal_strlit("Bearer ");
                }
                if n >= 7 && sv.get_char(0) == 'B' && sv.get_char(1) == 'e' && sv.get_char(2)
                    == 'a' && sv.get_char(3) == 'r' && sv.get_char(4) == 'e' && sv.get_char(5)
                    == 'r' && sv.get_char(6) == ' ' {
                    proof {
                        assert(s@.subrange(0, 7) =~= "Bearer "@);
                    }
                    let rest = sv.substring_char(7, n);
                    let raw = String::from_str(rest);
                    let fp = fingerprint(rest);
                    proof {
                        assert(s@.subrange(7, s@.len() as int) =~= s@.skip(7));
                    }
                    Ok(ClientIdentity::ApiKey { raw, fingerprint: fp })
                } else {
                    proof {
                        if s@.len() >= 7 && s@.subrange(0, 7) == "Bearer "@ {
                            assert(s@[0] == 'B' && s@[1] == 'e' && s@[2] == 'a' && s@[3] == 'r'
                                && s@[4] == 'e' && s@[5] == 'r' && s@[6] == ' ') by {
                                assert(forall|i: int| 0 <= i < 7 ==> s@.subrange(0, 7)[i]
                                    == s@[i]);
                            }
                        }
                    }
                    Err(AuthError::InvalidScheme)
                }
            },
            Some(HeaderValue::NonAscii) => Err(AuthError::InvalidScheme),
            None => match x_api_key {
                Some(HeaderValue::Ascii(s)) => {
                    let raw = String::from_str(s.as_str());
                    let fp = fingerprint(s.as_str());
                    Ok(ClientIdentity::ApiKey { raw, fingerprint: fp })
                },
                Some(HeaderValue::NonAscii) => Err(AuthError::InvalidScheme),
                None => Ok(ClientIdentity::IpAddress(String::from_str(peer_ip.as_str()))),
            },
        }
    }

    /// The raw key when the identity is a credential, `None` otherwise.
    pub fn api_key_raw(&self) -> (r: Option<&str>)
        ensures
            match self {
                ClientIdentity::ApiKey { raw, fingerprint: _ } => r matches Some(s) && s@
                    == raw@,
                ClientIdentity::IpAddress(_) => r is None,
            },
    {
        match self {
            ClientIdentity::ApiKey { raw, fingerprint: _ } => Some(raw.as_str()),
            ClientIdentity::IpAddress(_) => None,
        }
    }
}

impl PartialEq for ClientIdentity {
    /// Identities are equal exactly when the tags match and the inner
    /// values match.
    fn eq(&self, other: &Self) -> (r: bool) {
        match (self, other) {
            (
                ClientIdentity::ApiKey { raw: r1, fingerprint: f1 },
                ClientIdentity::ApiKey { raw: r2, fingerprint: f2 },
            ) => *r1 == *r2 && *f1 == *f2,
            (ClientIdentity::IpAddress(a), ClientIdentity::IpAddress(b)) => *a == *b,
            _ => false,
        }
    }
}

impl vstd::std_specs::cmp::PartialEqSpecImpl for ClientIdentity {
    open spec fn obeys_eq_spec() -> bool {
        true
    }

    open spec fn eq_spec(&self, other: &Self) -> bool {
        match (self, other) {
            (
                ClientIdentity::ApiKey { raw: r1, fingerprint: f1 },
                ClientIdentity::ApiKey { raw: r2, fingerprint: f2 },
            ) => r1@ == r2@ && f1@ == f2@,
            (ClientIdentity::IpAddress(a), ClientIdentity::IpAddress(b)) => a@ == b@,
            _ => false,
        }
    }
}

} // verus!
