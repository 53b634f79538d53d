//! Which requests carry a token, and which tokens grant access, told by what stands in
//! them.
use vstd::prelude::*;

use crate::error::Failure;
use crate::jws;
use crate::jws::ClaimsView;
use crate::jws::TokenPolicy;
use crate::jws::TokenView;
use crate::laws;
use crate::text;
use crate::text_laws;

verus! {

/// Whether claims are in order at the time `now`: from the issuer, for the audience,
/// in effect, and not expired. How long they are valid, and since when, does not matter.
pub open spec fn are_claims_in_order(
    claims: ClaimsView,
    issuer: Seq<char>,
    audience: Seq<char>,
    now: u64,
) -> bool {
    &&& claims.iss == issuer
    &&& claims.aud.contains(audience)
    &&& now < claims.exp
    &&& claims.nbf is None || claims.nbf->0 <= now
}

/// A token grants access exactly where its header names HS256, its signature is the
/// HMAC-SHA-256 code of what it covers under the secret, and its claims can be read and
/// are in order. Every such token does.
pub proof fn law_tokens_in_order_are_accepted(
    token: TokenView,
    alg: Option<Seq<char>>,
    claims: Option<ClaimsView>,
    policy: TokenPolicy,
    now: u64,
)
    ensures
        jws::accepted(token, alg, claims, policy, now) <==> {
            &&& alg == Some("HS256"@)
            &&& token.signature == jws::hmac_sha256(
                policy.secret,
                vstd::utf8::encode_utf8(token.signing_input),
            )
            &&& claims is Some
            &&& are_claims_in_order(claims->0, policy.issuer, policy.audience, now)
        },
{
}

/// The judgement of a token is for it exactly where the header names HS256, the
/// signature was found valid, and the claims can be read and are in order. It is
/// against it as unauthorized, unless the signature of a token with that header could
/// not be checked.
pub proof fn law_judgements(
    alg: Option<Seq<char>>,
    signature: Result<bool, Seq<char>>,
    claims: Option<ClaimsView>,
    issuer: Seq<char>,
    audience: Seq<char>,
    now: u64,
)
    ensures
        ({
            let judgement = jws::judged(alg, signature, claims, issuer, audience, now);
            let unchecked = alg == Some("HS256"@) && signature is Err;
            &&& judgement is Ok <==> {
                &&& alg == Some("HS256"@)
                &&& signature == Ok::<bool, Seq<char>>(true)
                &&& claims is Some
                &&& are_claims_in_order(claims->0, issuer, audience, now)
            }
            &&& judgement is Err && !unchecked ==> judgement->Err_0 == Failure::Unauthorized
            &&& unchecked ==> judgement == Err::<(), _>(
                Failure::Internal("invalid JWS secret: "@ + signature->Err_0),
            )
        }),
{
}

/// A token for one day or one second, with or without a start: what is accepted does
/// not depend on the time that it has run or will run, but on being inside it.
pub proof fn law_lifetimes_do_not_matter(
    token: TokenView,
    claims: ClaimsView,
    exp: u64,
    nbf: Option<u64>,
    policy: TokenPolicy,
    now: u64,
)
    requires
        jws::accepted(token, Some("HS256"@), Some(claims), policy, now),
        now < exp,
        nbf is None || nbf->0 <= now,
    ensures
        jws::accepted(
            token,
            Some("HS256"@),
            Some(ClaimsView { iss: claims.iss, aud: claims.aud, exp, nbf }),
            policy,
            now,
        ),
{
}

/// A header value has a text exactly where its bytes are visible ASCII, spaces and
/// tabs, and the text is those bytes as characters.
pub proof fn law_header_texts_are_ascii(value: Seq<u8>)
    ensures
        jws::header_text(value) is Some <==> forall|i: int|
            0 <= i < value.len() ==> (32 <= #[trigger] value[i] <= 126 || value[i] == 9),
        jws::header_text(value) matches Some(s) ==> s.len() == value.len() && forall|i: int|
            0 <= i < value.len() ==> #[trigger] s[i] as int == value[i] as int,
{
    if jws::header_text(value) is Some {
        let s = jws::header_text(value)->0;
        assert forall|i: int| 0 <= i < value.len() implies #[trigger] s[i] as int
            == value[i] as int by {
            assert(32 <= value[i] < 127 || value[i] == 9);
        }
    }
}

/// A bearer token is what follows `Bearer ` in the header, without the white space
/// around it.
pub proof fn law_bearer_tokens_follow_the_scheme(
    before: Seq<char>,
    token: Seq<char>,
    after: Seq<char>,
)
    requires
        text_laws::is_blank(before),
        text_laws::is_blank(after),
        laws::is_trim(token),
    ensures
        jws::bearer_token("Bearer "@ + before + token + after) == if token.len() > 0 {
            Some(token)
        } else {
            None
        },
{
    let value = "Bearer "@ + before + token + after;
    assert(value.subrange(0, "Bearer "@.len() as int) == "Bearer "@);
    assert(value.skip("Bearer "@.len() as int) == before + token + after);
    text_laws::law_trimming_keeps_the_middle(before, token, after);
}

/// A header that does not start with `Bearer ` carries no token.
pub proof fn law_other_schemes_carry_no_token(value: Seq<char>)
    requires
        !text_laws::stands_at(value, "Bearer "@, 0),
    ensures
        jws::bearer_token(value) is None,
{
    let scheme = "Bearer "@;
    if scheme.is_prefix_of(value) {
        assert forall|k: int| 0 <= k < scheme.len() implies #[trigger] value[0 + k]
            == scheme[k] by {
            assert(value.subrange(0, scheme.len() as int)[k] == value[k]);
        }
    }
}

/// Three segments without dots, with dots between them, are opened exactly where each
/// can be decoded: into what they decode to, signed over the first two.
pub proof fn law_three_segments_are_a_token(
    header: Seq<char>,
    payload: Seq<char>,
    signature: Seq<char>,
)
    requires
        !header.contains('.'),
        !payload.contains('.'),
        !signature.contains('.'),
    ensures
        ({
            let token = jws::opened(header + "."@ + payload + "."@ + signature);
            let decoded = (
                jws::base64url_bytes(header),
                jws::base64url_bytes(payload),
                jws::base64url_bytes(signature),
            );
            &&& token is Some <==> decoded.0 is Some && decoded.1 is Some && decoded.2 is Some
            &&& token matches Some(token) ==> {
                &&& token.signing_input == header + "."@ + payload
                &&& Some(token.header) == decoded.0
                &&& Some(token.payload) == decoded.1
                &&& Some(token.signature) == decoded.2
            }
        }),
{
    reveal_strlit(".");
    let parts = seq![header, payload, signature];
    text_laws::law_joined_parts_are_the_pieces(parts, '.');
    let two = parts.drop_last();
    let one = two.drop_last();
    assert(two.last() == payload && one[0] == header);
    assert(laws::joined(one, '.') == header);
    assert(laws::joined(two, '.') == header.push('.') + payload);
    assert(laws::joined(parts, '.') == (header.push('.') + payload).push('.') + signature);
    assert(laws::joined(parts, '.') == header + "."@ + payload + "."@ + signature);
}

/// What a request presents: the token after `Bearer ` in its header, opened; nothing
/// without the header, or with one that is no text.
pub proof fn law_requests_present_their_token(
    value: Seq<u8>,
    before: Seq<char>,
    token: Seq<char>,
    after: Seq<char>,
)
    requires
        text_laws::is_blank(before),
        text_laws::is_blank(after),
        laws::is_trim(token),
        token.len() > 0,
    ensures
        jws::presented(None) is None,
        jws::header_text(value) is None ==> jws::presented(Some(value)) is None,
        jws::header_text(value) == Some("Bearer "@ + before + token + after) ==> jws::presented(
            Some(value),
        ) == jws::opened(token),
        jws::header_text(value) == Some("Bearer "@ + before) ==> jws::presented(Some(value)) is None,
        jws::header_text(value) matches Some(s) && !text_laws::stands_at(s, "Bearer "@, 0)
            ==> jws::presented(Some(value)) is None,
{
    let none = Seq::<char>::empty();
    law_bearer_tokens_follow_the_scheme(before, token, after);
    law_bearer_tokens_follow_the_scheme(before, none, none);
    assert("Bearer "@ + before + none + none == "Bearer "@ + before);
    if jws::header_text(value) is Some {
        let s = jws::header_text(value)->0;
        if !text_laws::stands_at(s, "Bearer "@, 0) {
            law_other_schemes_carry_no_token(s);
        }
    }
}

/// A token is made of its segments where all three were decoded, whatever they hold,
/// and without a token a request is unauthorized.
pub proof fn law_decoded_segments_make_a_token(
    header_segment: Seq<char>,
    payload_segment: Seq<char>,
    header: Option<Seq<u8>>,
    payload: Option<Seq<u8>>,
    signature: Option<Seq<u8>>,
)
    ensures
        ({
            let token = jws::token_from(
                header_segment,
                payload_segment,
                header,
                payload,
                signature,
            );
            &&& token is Some <==> header is Some && payload is Some && signature is Some
            &&& token matches Some(t) ==> {
                &&& t.signing_input == header_segment + "."@ + payload_segment
                &&& Some(t.header) == header
                &&& Some(t.payload) == payload
                &&& Some(t.signature) == signature
                &&& jws::or_unauthorized(token) == Ok::<_, Failure>(t)
            }
            &&& token is None ==> jws::or_unauthorized(token) == Err::<TokenView, _>(
                Failure::Unauthorized,
            )
        }),
{
}

} // verus!
