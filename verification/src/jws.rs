//! Bearer tokens: compact JWS, signed with HMAC-SHA-256.
//!
//! A token is opened here ([`authorize`], [`open_jws`]): split, and its three
//! segments decoded. Its header and its claims are JSON, which the caller reads
//! out of the opened token. [`verify_jws`] then judges the token.
use base64::Engine;
use hmac::Mac;
use vstd::prelude::*;

use crate::error;
use crate::error::AppError;
use crate::error::Failure;
use crate::text;

verus! {

/// The JSON header of a token.
#[derive(Debug)]
pub struct JwsHeader {
    pub alg: String,
}

/// Whom a token is meant for.
#[derive(Debug)]
pub enum JwsAudience {
    One(String),
    Many(Vec<String>),
}

impl View for JwsAudience {
    type V = Set<Seq<char>>;

    open spec fn view(&self) -> Set<Seq<char>> {
        match self {
            JwsAudience::One(value) => set![value@],
            JwsAudience::Many(values) => values.deep_view().to_set(),
        }
    }
}

impl JwsAudience {
    /// Whether `expected` is among those that the token is meant for.
    pub fn contains(&self, expected: &str) -> (r: bool)
        ensures
            r == self@.contains(expected@),
    {
        match self {
            JwsAudience::One(value) => text::same(value.as_str(), expected),
            JwsAudience::Many(values) => {
                let ghost all = values.deep_view();
                let mut i: usize = 0;
                while i < values.len()
                    invariant
                        all == values.deep_view(),
                        self@ == all.to_set(),
                        i <= values.len(),
                        forall|j: int| 0 <= j < i ==> all[j] != expected@,
                    decreases values.len() - i,
                {
                    assert(all[i as int] == values[i as int]@);
                    if text::same(values[i].as_str(), expected) {
                        assert(all.contains(expected@));
                        return true;
                    }
                    i = i + 1;
                }
                false
            },
        }
    }
}

/// The JSON claims of a token.
#[derive(Debug)]
pub struct JwsClaims {
    pub iss: String,
    pub aud: JwsAudience,
    pub exp: u64,
    pub nbf: Option<u64>,
}

/// The model of [`JwsClaims`].
pub struct ClaimsView {
    pub iss: Seq<char>,
    pub aud: Set<Seq<char>>,
    pub exp: u64,
    pub nbf: Option<u64>,
}

impl View for JwsClaims {
    type V = ClaimsView;

    open spec fn view(&self) -> ClaimsView {
        ClaimsView { iss: self.iss@, aud: self.aud@, exp: self.exp, nbf: self.nbf }
    }
}

/// A token whose segments have been split and decoded.
#[derive(Debug)]
pub struct JwsToken {
    /// The text that the signature covers.
    pub signing_input: String,
    /// The bytes of the header's JSON.
    pub header: Vec<u8>,
    /// The bytes of the claims' JSON.
    pub payload: Vec<u8>,
    pub signature: Vec<u8>,
}

/// The model of a [`JwsToken`].
pub struct TokenView {
    pub signing_input: Seq<char>,
    pub header: Seq<u8>,
    pub payload: Seq<u8>,
    pub signature: Seq<u8>,
}

impl View for JwsToken {
    type V = TokenView;

    open spec fn view(&self) -> TokenView {
        TokenView {
            signing_input: self.signing_input@,
            header: self.header@,
            payload: self.payload@,
            signature: self.signature@,
        }
    }
}

/// Whom the service accepts tokens from, and what it signs with.
pub struct TokenPolicy {
    pub secret: Seq<u8>,
    pub issuer: Seq<char>,
    pub audience: Seq<char>,
}

/// The bytes that `base64` decodes from a text in the URL-safe alphabet without
/// padding; `None` where it refuses the text.
pub uninterp spec fn base64url_bytes(s: Seq<char>) -> Option<Seq<u8>>;

/// The HMAC-SHA-256 code of a message under a key.
pub uninterp spec fn hmac_sha256(key: Seq<u8>, message: Seq<u8>) -> Seq<u8>;

/// The model of bytes that may not have been decoded.
pub open spec fn bytes_of(bytes: Option<Vec<u8>>) -> Option<Seq<u8>> {
    match bytes {
        Some(bytes) => Some(bytes@),
        None => None,
    }
}

/// `base64::Engine::decode` of `URL_SAFE_NO_PAD`: what it decodes from a text, or
/// that it refuses it, depends on the text alone.
#[verifier::external_body]
fn decode_base64url(s: &str) -> (r: Option<Vec<u8>>)
    ensures
        bytes_of(r) == base64url_bytes(s@),
{
    base64::engine::general_purpose::URL_SAFE_NO_PAD.decode(s).ok()
}

/// `hmac::Mac::verify_slice` of HMAC-SHA-256 under the key `key`, after `message`:
/// a key of any length is taken, and the check succeeds exactly on the whole code
/// of the message.
#[verifier::external_body]
fn check_hmac_sha256(key: &[u8], message: &[u8], code: &[u8]) -> (r: Result<bool, String>)
    ensures
        r is Ok,
        r matches Ok(valid) ==> valid == (code@ == hmac_sha256(key@, message@)),
{
    match hmac::Hmac::<sha2::Sha256>::new_from_slice(key) {
        Ok(mac) => Ok(mac.chain_update(message).verify_slice(code).is_ok()),
        Err(error) => Err(error.to_string()),
    }
}

/// The text of a header value that holds visible ASCII, spaces and tabs alone.
pub open spec fn header_text(value: Seq<u8>) -> Option<Seq<char>> {
    if forall|i: int| 0 <= i < value.len() ==> (32 <= #[trigger] value[i] < 127 || value[i] == 9) {
        Some(Seq::new(value.len(), |i: int| value[i] as char))
    } else {
        None
    }
}

/// The token in the text of an `Authorization` header: what follows `Bearer `,
/// without the white space around it, unless that is empty.
pub open spec fn bearer_token(value: Seq<char>) -> Option<Seq<char>> {
    if "Bearer "@.is_prefix_of(value) {
        let token = text::trimmed(value.skip("Bearer "@.len() as int));
        if token.len() > 0 {
            Some(token)
        } else {
            None
        }
    } else {
        None
    }
}

/// The token made of the segments for its header and its payload, and of what the
/// three segments decode to, if they all do.
pub open spec fn token_from(
    header_segment: Seq<char>,
    payload_segment: Seq<char>,
    header: Option<Seq<u8>>,
    payload: Option<Seq<u8>>,
    signature: Option<Seq<u8>>,
) -> Option<TokenView> {
    match (header, payload, signature) {
        (Some(header), Some(payload), Some(signature)) => Some(
            TokenView {
                signing_input: header_segment + "."@ + payload_segment,
                header,
                payload,
                signature,
            },
        ),
        _ => None,
    }
}

/// A token opened: exactly three segments, and all three can be decoded.
pub open spec fn opened(token: Seq<char>) -> Option<TokenView> {
    let segments = text::pieces(token, '.');
    if segments.len() == 3 {
        token_from(
            segments[0],
            segments[1],
            base64url_bytes(segments[0]),
            base64url_bytes(segments[1]),
            base64url_bytes(segments[2]),
        )
    } else {
        None
    }
}

/// A token, or that there is none, which is answered as unauthorized.
pub open spec fn or_unauthorized(token: Option<TokenView>) -> Result<TokenView, Failure> {
    match token {
        Some(token) => Ok(token),
        None => Err(Failure::Unauthorized),
    }
}

/// The token that the value of an `Authorization` header carries, opened.
pub open spec fn presented(authorization: Option<Seq<u8>>) -> Option<TokenView> {
    match authorization {
        None => None,
        Some(value) => match header_text(value) {
            None => None,
            Some(value) => match bearer_token(value) {
                None => None,
                Some(token) => opened(token),
            },
        },
    }
}

/// Whether the signature of a token is the code of what it covers.
pub open spec fn signed(token: TokenView, secret: Seq<u8>) -> bool {
    token.signature == hmac_sha256(secret, vstd::utf8::encode_utf8(token.signing_input))
}

/// Whether claims grant access: issued by the issuer, meant for the audience, not
/// expired, and already in effect.
pub open spec fn claims_hold(
    claims: ClaimsView,
    issuer: Seq<char>,
    audience: Seq<char>,
    now: u64,
) -> bool {
    &&& claims.iss == issuer
    &&& claims.aud.contains(audience)
    &&& now < claims.exp
    &&& claims.nbf matches Some(nbf) ==> nbf <= now
}

/// Whether a token grants access at the time `now`, where `alg` is what its header
/// reads as and `claims` what its claims read as, if they can be read.
pub open spec fn accepted(
    token: TokenView,
    alg: Option<Seq<char>>,
    claims: Option<ClaimsView>,
    policy: TokenPolicy,
    now: u64,
) -> bool {
    &&& alg == Some("HS256"@)
    &&& signed(token, policy.secret)
    &&& claims is Some
    &&& claims_hold(claims->0, policy.issuer, policy.audience, now)
}

/// The judgement of a token, where `signature` tells whether its signature is the
/// code of what it covers, or why that could not be found out.
pub open spec fn judged(
    alg: Option<Seq<char>>,
    signature: Result<bool, Seq<char>>,
    claims: Option<ClaimsView>,
    issuer: Seq<char>,
    audience: Seq<char>,
    now: u64,
) -> Result<(), Failure> {
    if alg != Some("HS256"@) {
        Err(Failure::Unauthorized)
    } else {
        match signature {
            Err(error) => Err(Failure::Internal("invalid JWS secret: "@ + error)),
            Ok(valid) => {
                if valid && claims is Some && claims_hold(claims->0, issuer, audience, now) {
                    Ok(())
                } else {
                    Err(Failure::Unauthorized)
                }
            },
        }
    }
}

/// The model of the outcome of a signature check.
pub open spec fn checked(signature: Result<bool, String>) -> Result<bool, Seq<char>> {
    match signature {
        Ok(valid) => Ok(valid),
        Err(error) => Err(error@),
    }
}

/// The algorithm that a header names, if the header could be read.
pub open spec fn alg_of(header: Option<JwsHeader>) -> Option<Seq<char>> {
    match header {
        Some(header) => Some(header.alg@),
        None => None,
    }
}

/// The model of claims that may not have been readable.
pub open spec fn claims_of(claims: Option<JwsClaims>) -> Option<ClaimsView> {
    match claims {
        Some(claims) => Some(claims@),
        None => None,
    }
}

/// The text of a header value, where it holds visible ASCII, spaces and tabs
/// alone.
pub fn read_header_text(value: &[u8]) -> (r: Option<String>)
    ensures
        r.deep_view() == header_text(value@),
{
    let mut s = String::new();
    let mut i: usize = 0;
    while i < value.len()
        invariant
            i <= value@.len(),
            forall|j: int|
                0 <= j < i ==> (32 <= #[trigger] value@[j] < 127 || value@[j] == 9),
            s@ == Seq::new(i as nat, |j: int| value@[j] as char),
        decreases value@.len() - i,
    {
        let byte = value[i];
        if !((32 <= byte && byte < 127) || byte == 9) {
            return None;
        }
        s.push(byte as char);
        i = i + 1;
    }
    Some(s)
}

/// The token made of its first two segments, and of what the three decode to.
pub fn decoded_jws(
    header_segment: &str,
    payload_segment: &str,
    header: Option<Vec<u8>>,
    payload: Option<Vec<u8>>,
    signature: Option<Vec<u8>>,
) -> (r: Result<JwsToken, AppError>)
    ensures
        error::outcome(r) == or_unauthorized(
            token_from(
                header_segment@,
                payload_segment@,
                bytes_of(header),
                bytes_of(payload),
                bytes_of(signature),
            ),
        ),
{
    match (header, payload, signature) {
        (Some(header), Some(payload), Some(signature)) => {
            let mut signing_input = header_segment.to_owned();
            signing_input.append(".");
            signing_input.append(payload_segment);
            Ok(JwsToken { signing_input, header, payload, signature })
        },
        _ => Err(AppError::Unauthorized),
    }
}

/// Splits a token and decodes its segments.
pub fn open_jws(token: &str) -> (r: Result<JwsToken, AppError>)
    ensures
        error::outcome(r) == or_unauthorized(opened(token@)),
{
    let parts = text::split(token, '.');
    let ghost segments = text::pieces(token@, '.');
    assert(parts.deep_view().len() == parts@.len());
    if parts.len() != 3 {
        return Err(AppError::Unauthorized);
    }
    assert(parts@[0]@ == segments[0] && parts@[1]@ == segments[1] && parts@[2]@ == segments[2]);
    decoded_jws(
        parts[0].as_str(),
        parts[1].as_str(),
        decode_base64url(parts[0].as_str()),
        decode_base64url(parts[1].as_str()),
        decode_base64url(parts[2].as_str()),
    )
}

/// The token that the value of an `Authorization` header carries, opened.
pub fn authorize(authorization: &Option<Vec<u8>>) -> (r: Result<JwsToken, AppError>)
    ensures
        error::outcome(r) == or_unauthorized(presented(authorization.deep_view())),
{
    let value = match authorization {
        None => {
            return Err(AppError::Unauthorized);
        },
        Some(value) => value,
    };
    assert(value.deep_view() == value@);
    let value = match read_header_text(value.as_slice()) {
        None => {
            return Err(AppError::Unauthorized);
        },
        Some(value) => value,
    };
    let token = match text::strip_prefix(value.as_str(), "Bearer ") {
        None => {
            return Err(AppError::Unauthorized);
        },
        Some(token) => text::trim(token),
    };
    if token.is_empty() {
        return Err(AppError::Unauthorized);
    }
    open_jws(token)
}

/// Judges an opened token at the time `now_epoch_seconds`: it must name the
/// algorithm, be signed with the secret, and carry claims that hold. `header` and
/// `claims` are what the token's JSON reads as, `None` where it cannot be read.
pub fn verify_jws(
    token: &JwsToken,
    header: &Option<JwsHeader>,
    claims: &Option<JwsClaims>,
    secret: &[u8],
    expected_issuer: &str,
    expected_audience: &str,
    now_epoch_seconds: u64,
) -> (r: Result<(), AppError>)
    ensures
        r is Ok <==> accepted(
            token@,
            alg_of(*header),
            claims_of(*claims),
            (TokenPolicy {
                secret: secret@,
                issuer: expected_issuer@,
                audience: expected_audience@,
            }),
            now_epoch_seconds,
        ),
        r matches Err(e) ==> e@ == Failure::Unauthorized,
{
    let signature = check_hmac_sha256(
        secret,
        token.signing_input.as_str().as_bytes(),
        token.signature.as_slice(),
    );
    judge_jws(
        header,
        &signature,
        claims,
        expected_issuer,
        expected_audience,
        now_epoch_seconds,
    )
}

/// Judges a token at the time `now_epoch_seconds`, where `signature` tells whether its
/// signature is the code of what it covers, or why that could not be found out.
pub fn judge_jws(
    header: &Option<JwsHeader>,
    signature: &Result<bool, String>,
    claims: &Option<JwsClaims>,
    expected_issuer: &str,
    expected_audience: &str,
    now_epoch_seconds: u64,
) -> (r: Result<(), AppError>)
    ensures
        error::outcome(r) == judged(
            alg_of(*header),
            checked(*signature),
            claims_of(*claims),
            expected_issuer@,
            expected_audience@,
            now_epoch_seconds,
        ),
{
    match header {
        None => {
            return Err(AppError::Unauthorized);
        },
        Some(header) => {
            if !text::same(header.alg.as_str(), "HS256") {
                return Err(AppError::Unauthorized);
            }
        },
    }
    match signature {
        Err(error) => {
            let mut message = "invalid JWS secret: ".to_owned();
            message.append(error.as_str());
            return Err(AppError::Internal(message));
        },
        Ok(valid) => {
            if !*valid {
                return Err(AppError::Unauthorized);
            }
        },
    }
    let claims = match claims {
        None => {
            return Err(AppError::Unauthorized);
        },
        Some(claims) => claims,
    };
    if !text::same(claims.iss.as_str(), expected_issuer) {
        return Err(AppError::Unauthorized);
    }
    if !claims.aud.contains(expected_audience) {
        return Err(AppError::Unauthorized);
    }
    if claims.exp <= now_epoch_seconds {
        return Err(AppError::Unauthorized);
    }
    if let Some(nbf) = claims.nbf {
        if now_epoch_seconds < nbf {
            return Err(AppError::Unauthorized);
        }
    }
    Ok(())
}

} // verus!
