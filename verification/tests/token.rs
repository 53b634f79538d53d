//! Tokens: how they are found, opened and judged.
use base64::engine::general_purpose::URL_SAFE_NO_PAD;
use base64::Engine;
use hmac::Mac;
use twow_gm_tool::jws::{
    authorize, decoded_jws, judge_jws, open_jws, read_header_text, verify_jws, JwsAudience,
    JwsClaims, JwsHeader, JwsToken,
};
use twow_gm_tool::AppError;

fn bearer(value: &str) -> Option<Vec<u8>> {
    Some(value.as_bytes().to_vec())
}

fn is_unauthorized<T>(r: Result<T, AppError>) -> bool {
    matches!(r, Err(AppError::Unauthorized))
}

fn code(secret: &[u8], message: &str) -> Vec<u8> {
    let mut mac = hmac::Hmac::<sha2::Sha256>::new_from_slice(secret).expect("any key length");
    mac.update(message.as_bytes());
    mac.finalize().into_bytes().to_vec()
}

fn token(secret: &[u8]) -> JwsToken {
    JwsToken {
        signing_input: "e30.e30".to_string(),
        header: b"{}".to_vec(),
        payload: b"{}".to_vec(),
        signature: code(secret, "e30.e30"),
    }
}

fn header(alg: &str) -> Option<JwsHeader> {
    Some(JwsHeader { alg: alg.to_string() })
}

fn claims(nbf: Option<u64>) -> Option<JwsClaims> {
    Some(JwsClaims {
        iss: "issuer".to_string(),
        aud: JwsAudience::One("audience".to_string()),
        exp: 20,
        nbf,
    })
}

fn judged(token: &JwsToken, alg: &str, claims: Option<JwsClaims>, now: u64) -> Result<(), AppError> {
    verify_jws(token, &header(alg), &claims, b"key", "issuer", "audience", now)
}

#[test]
fn opened_token_holds_its_decoded_segments() {
    let opened = open_jws("aGVhZA.Y2xhaW1z._-8").expect("three segments");
    assert_eq!(opened.signing_input, "aGVhZA.Y2xhaW1z");
    assert_eq!(opened.header, b"head");
    assert_eq!(opened.payload, b"claims");
    assert_eq!(opened.signature, [0xff, 0xef]);
}

#[test]
fn tokens_have_exactly_three_segments() {
    assert!(is_unauthorized(open_jws("")));
    assert!(is_unauthorized(open_jws("aGVhZA")));
    assert!(is_unauthorized(open_jws("aGVhZA.Y2xhaW1z")));
    assert!(is_unauthorized(open_jws("aGVhZA.Y2xhaW1z._-8.")));
    assert!(is_unauthorized(open_jws("aGVhZA.Y2xhaW1z._-8.AA")));
    assert!(open_jws("..").is_ok());
}

#[test]
fn segments_must_decode() {
    assert!(is_unauthorized(open_jws("aGVhZA==.Y2xhaW1z._-8")));
    assert!(is_unauthorized(open_jws("aGVhZA.Y2xh aW1z._-8")));
    assert!(is_unauthorized(open_jws("aGVhZA.Y2xhaW1z./+8")));
    assert!(is_unauthorized(open_jws("a.Y2xhaW1z._-8")));
}

#[test]
fn token_follows_the_scheme() {
    let opened = authorize(&bearer("Bearer  \taGVhZA.Y2xhaW1z._-8 ")).expect("bearer token");
    assert_eq!(opened.signing_input, "aGVhZA.Y2xhaW1z");
    assert!(is_unauthorized(authorize(&None)));
    assert!(is_unauthorized(authorize(&bearer(""))));
    assert!(is_unauthorized(authorize(&bearer("Bearer "))));
    assert!(is_unauthorized(authorize(&bearer("Bearer    "))));
    assert!(is_unauthorized(authorize(&bearer("bearer aGVhZA.Y2xhaW1z._-8"))));
    assert!(is_unauthorized(authorize(&bearer("Basic aGVhZA.Y2xhaW1z._-8"))));
    assert!(is_unauthorized(authorize(&bearer("aGVhZA.Y2xhaW1z._-8"))));
}

#[test]
fn header_text_is_visible_ascii() {
    assert_eq!(read_header_text(b"Bearer a\tb~"), Some("Bearer a\tb~".to_string()));
    assert_eq!(read_header_text(b""), Some(String::new()));
    assert_eq!(read_header_text(b"a\x7f"), None);
    assert_eq!(read_header_text(b"a\n"), None);
    assert_eq!(read_header_text("\u{e9}".as_bytes()), None);
    for byte in 0..=255u8 {
        let value = http::HeaderValue::from_bytes(&[byte]);
        if let Ok(value) = value {
            assert_eq!(
                read_header_text(value.as_bytes()),
                value.to_str().ok().map(String::from)
            );
        }
    }
}

#[test]
fn accepted_token() {
    assert!(judged(&token(b"key"), "HS256", claims(None), 19).is_ok());
    assert!(judged(&token(b"key"), "HS256", claims(Some(19)), 19).is_ok());
}

#[test]
fn token_is_accepted_until_it_expires() {
    let token = token(b"key");
    assert!(judged(&token, "HS256", claims(None), 0).is_ok());
    assert!(is_unauthorized(judged(&token, "HS256", claims(None), 20)));
    assert!(is_unauthorized(judged(&token, "HS256", claims(None), u64::MAX)));
    assert!(is_unauthorized(judged(&token, "HS256", claims(Some(10)), 9)));
    assert!(judged(&token, "HS256", claims(Some(10)), 10).is_ok());
}

#[test]
fn refused_tokens() {
    let good = token(b"key");
    assert!(is_unauthorized(judged(&good, "hs256", claims(None), 1)));
    assert!(is_unauthorized(judged(&good, "HS256", None, 1)));
    assert!(is_unauthorized(verify_jws(
        &good,
        &None,
        &claims(None),
        b"key",
        "issuer",
        "audience",
        1
    )));
    assert!(is_unauthorized(judged(&token(b"other"), "HS256", claims(None), 1)));
}

#[test]
fn signature_must_be_the_whole_code() {
    let mut short = token(b"key");
    short.signature.truncate(16);
    assert!(is_unauthorized(judged(&short, "HS256", claims(None), 1)));
    let mut long = token(b"key");
    long.signature.push(0);
    assert!(is_unauthorized(judged(&long, "HS256", claims(None), 1)));
    let mut moved = token(b"key");
    moved.signing_input = "e30.e31".to_string();
    assert!(is_unauthorized(judged(&moved, "HS256", claims(None), 1)));
}

#[test]
fn keys_of_any_length_sign() {
    for key in [&b""[..], &[7; 32], &[7; 64], &[7; 200]] {
        let r = verify_jws(
            &token(key),
            &header("HS256"),
            &claims(None),
            key,
            "issuer",
            "audience",
            1,
        );
        assert!(r.is_ok());
    }
}

#[test]
fn known_code_is_accepted() {
    let token = JwsToken {
        signing_input: "what do ya want for nothing?".to_string(),
        header: Vec::new(),
        payload: Vec::new(),
        signature: vec![
            0x5b, 0xdc, 0xc1, 0x46, 0xbf, 0x60, 0x75, 0x4e, 0x6a, 0x04, 0x24, 0x26, 0x08, 0x95,
            0x75, 0xc7, 0x5a, 0x00, 0x3f, 0x08, 0x9d, 0x27, 0x39, 0x83, 0x9d, 0xec, 0x58, 0xb9,
            0x64, 0xec, 0x38, 0x43,
        ],
    };
    let r = verify_jws(
        &token,
        &header("HS256"),
        &claims(None),
        b"Jefe",
        "issuer",
        "audience",
        1,
    );
    assert!(r.is_ok());
}

#[test]
fn audiences() {
    let one = JwsAudience::One("a".to_string());
    assert!(one.contains("a"));
    assert!(!one.contains("A"));
    let many = JwsAudience::Many(vec!["a".to_string(), "b".to_string()]);
    assert!(many.contains("a") && many.contains("b") && !many.contains("ab"));
    assert!(!JwsAudience::Many(Vec::new()).contains(""));
}

#[test]
fn encoded_segments_come_back() {
    let text = format!(
        "{}.{}.{}",
        URL_SAFE_NO_PAD.encode(b"\x00\xff"),
        URL_SAFE_NO_PAD.encode(b"{\"exp\":1}"),
        URL_SAFE_NO_PAD.encode(b"")
    );
    let opened = open_jws(&text).expect("three segments");
    assert_eq!(opened.header, b"\x00\xff");
    assert_eq!(opened.payload, b"{\"exp\":1}");
    assert!(opened.signature.is_empty());
    assert_eq!(format!("{}.", opened.signing_input), text);
}

#[test]
fn token_needs_all_its_segments() {
    let token = decoded_jws("aa", "bb", Some(vec![1]), Some(vec![2]), Some(vec![3]))
        .expect("all segments");
    assert_eq!(token.signing_input, "aa.bb");
    assert_eq!((token.header, token.payload, token.signature), (vec![1], vec![2], vec![3]));
    assert!(is_unauthorized(decoded_jws("a", "b", None, Some(vec![2]), Some(vec![3]))));
    assert!(is_unauthorized(decoded_jws("a", "b", Some(vec![1]), None, Some(vec![3]))));
    assert!(is_unauthorized(decoded_jws("a", "b", Some(vec![1]), Some(vec![2]), None)));
}

#[test]
fn judgement_follows_the_signature_check() {
    let judge = |alg: &str, signature: &Result<bool, String>, claims: Option<JwsClaims>| {
        judge_jws(&header(alg), signature, &claims, "issuer", "audience", 19)
    };
    assert!(judge("HS256", &Ok(true), claims(None)).is_ok());
    assert!(is_unauthorized(judge("HS256", &Ok(false), claims(None))));
    assert!(is_unauthorized(judge("HS256", &Ok(true), None)));
    assert!(is_unauthorized(judge("HS256", &Ok(true), claims(Some(20)))));
    let bad_key = Err("bad length".to_string());
    assert!(is_unauthorized(judge("RS256", &bad_key, claims(None))));
    assert!(matches!(
        judge("HS256", &bad_key, claims(None)),
        Err(AppError::Internal(m)) if m == "invalid JWS secret: bad length"
    ));
}
