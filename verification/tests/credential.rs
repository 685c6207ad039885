use base64::prelude::{Engine, BASE64_URL_SAFE_NO_PAD};
use deitos_upload::jwt::{
    decode_token, generate_token, issue_token, join, signed_token, Claims, Header, HeaderType,
    SigningError, TokenSigner,
};
use sp_core::crypto::{Pair as PairOps, Ss58Codec};
use sp_core::sr25519::{Pair, Signature};

const ALICE: &str = "5GrwvaEF5zXb26Fz9rcQpDWS57CtERHpNehXCPcNoHGKutQY";

fn alice() -> Pair {
    Pair::from_string("//Alice", None).unwrap()
}

fn issued_header() -> Header {
    Header { algorithm: "Sr25519".to_string(), type_: Some(HeaderType::JsonWebToken) }
}

#[test]
fn header_json_names_algorithm_and_type() {
    assert_eq!(issued_header().to_json(), b"{\"alg\":\"Sr25519\",\"typ\":\"JWT\"}".to_vec());
}

#[test]
fn header_json_leaves_out_a_missing_type() {
    let header = Header { algorithm: "none".to_string(), type_: None };
    assert_eq!(header.to_json(), b"{\"alg\":\"none\"}".to_vec());
    assert_eq!(header.type_(), None);
}

#[test]
fn claims_json_keeps_the_member_order() {
    let claims = Claims::new(ALICE.to_string(), 7, 1_700_086_400_000, 1_700_000_000_000);
    let expected = format!(
        "{{\"sub\":\"{}\",\"aud\":7,\"exp\":1700086400000,\"iat\":1700000000000}}",
        ALICE
    );
    assert_eq!(claims.to_json(), expected.into_bytes());
}

#[test]
fn claims_json_escapes_the_subject() {
    let claims = Claims::new("a\"b\\c\n\u{1}\u{e9}".to_string(), 0, u64::MAX, 0);
    let expected = "{\"sub\":\"a\\\"b\\\\c\\n\\u0001\u{e9}\",\"aud\":0,\"exp\":18446744073709551615,\"iat\":0}";
    assert_eq!(claims.to_json(), expected.as_bytes().to_vec());
}

#[test]
fn claims_json_escapes_each_control_character() {
    let claims = Claims::new("\u{8}\t\n\u{c}\r\u{1f}\u{7f}/".to_string(), 1, 2, 3);
    let expected = "{\"sub\":\"\\b\\t\\n\\f\\r\\u001f\u{7f}/\",\"aud\":1,\"exp\":2,\"iat\":3}";
    assert_eq!(claims.to_json(), expected.as_bytes().to_vec());
}

#[test]
fn join_puts_a_dot_between() {
    assert_eq!(join("abc", "def"), "abc.def");
    assert_eq!(join("", ""), ".");
}

#[test]
fn issued_token_has_three_segments_that_decode_to_what_was_signed() {
    let token = generate_token(alice(), 7, 1_700_000_000_000, 1_700_086_400_000).unwrap();
    let segments: Vec<&str> = token.split('.').collect();
    assert_eq!(segments.len(), 3);
    assert_eq!(segments[0], "eyJhbGciOiJTcjI1NTE5IiwidHlwIjoiSldUIn0");
    assert_eq!(
        segments[1],
        "eyJzdWIiOiI1R3J3dmFFRjV6WGIyNkZ6OXJjUXBEV1M1N0N0RVJIcE5laFhDUGNOb0hHS3V0UVkiLCJhdWQiOjcsImV4cCI6MTcwMDA4NjQwMDAwMCwiaWF0IjoxNzAwMDAwMDAwMDAwfQ"
    );
    let header = BASE64_URL_SAFE_NO_PAD.decode(segments[0]).unwrap();
    let claims = BASE64_URL_SAFE_NO_PAD.decode(segments[1]).unwrap();
    assert_eq!(header, b"{\"alg\":\"Sr25519\",\"typ\":\"JWT\"}".to_vec());
    let expected = format!(
        "{{\"sub\":\"{}\",\"aud\":7,\"exp\":1700086400000,\"iat\":1700000000000}}",
        ALICE
    );
    assert_eq!(claims, expected.into_bytes());
    assert!(!token.contains('='));
}

#[test]
fn issued_token_is_signed_over_the_first_two_segments() {
    let pair = alice();
    let public = pair.public();
    assert_eq!(public.to_ss58check(), ALICE);
    let token = generate_token(pair, 42, 5, 86_400_005).unwrap();
    let (header, claims, signature) = decode_token(&token).unwrap();
    assert_eq!(signature.len(), 64);
    let segments: Vec<&str> = token.split('.').collect();
    let message = format!("{}.{}", segments[0], segments[1]);
    let signature = Signature::try_from(signature.as_slice()).unwrap();
    assert!(Pair::verify(&signature, message.as_bytes(), &public));
    assert!(!Pair::verify(&signature, token.as_bytes(), &public));
    assert_eq!(header, issued_header().to_json());
    assert_eq!(claims, Claims::new(ALICE.to_string(), 42, 86_400_005, 5).to_json());
}

#[test]
fn signer_signs_header_dot_claims() {
    let pair = alice();
    let public = pair.public();
    let signer = TokenSigner::new(pair);
    let segment = signer.sign("aGVhZGVy", "Y2xhaW1z");
    assert_eq!(segment.len(), 86);
    let raw = BASE64_URL_SAFE_NO_PAD.decode(&segment).unwrap();
    let signature = Signature::try_from(raw.as_slice()).unwrap();
    assert!(Pair::verify(&signature, b"aGVhZGVy.Y2xhaW1z", &public));
    assert!(!Pair::verify(&signature, b"aGVhZGVyY2xhaW1z", &public));
}

#[test]
fn issue_token_signs_the_given_header_and_claims() {
    let signer = TokenSigner::new(alice());
    let header = Header { algorithm: "none".to_string(), type_: None };
    let claims = Claims::new("bob".to_string(), 3, 20, 10);
    let token = issue_token(&signer, &header, &claims).unwrap();
    assert!(token.starts_with("eyJhbGciOiJub25lIn0."));
    let (h, c, s) = decode_token(&token).unwrap();
    assert_eq!(h, b"{\"alg\":\"none\"}".to_vec());
    assert_eq!(c, b"{\"sub\":\"bob\",\"aud\":3,\"exp\":20,\"iat\":10}".to_vec());
    assert_eq!(s.len(), 64);
}

#[test]
fn tokens_for_different_claims_differ_in_the_claims_segment() {
    let a = generate_token(alice(), 1, 10, 20).unwrap();
    let b = generate_token(alice(), 2, 10, 20).unwrap();
    let c = generate_token(alice(), 1, 11, 20).unwrap();
    let d = generate_token(alice(), 1, 10, 21).unwrap();
    let claims = |t: &str| t.split('.').nth(1).unwrap().to_string();
    assert_ne!(claims(&a), claims(&b));
    assert_ne!(claims(&a), claims(&c));
    assert_ne!(claims(&a), claims(&d));
    assert_eq!(claims(&a), claims(&generate_token(alice(), 1, 10, 20).unwrap()));
}

#[test]
fn decode_token_takes_three_segments_only() {
    assert_eq!(decode_token("YQ.Yg.Yw"), Some((b"a".to_vec(), b"b".to_vec(), b"c".to_vec())));
    assert_eq!(decode_token(".."), Some((vec![], vec![], vec![])));
    assert_eq!(decode_token("YQ.Yg"), None);
    assert_eq!(decode_token("YQ"), None);
    assert_eq!(decode_token(""), None);
    assert_eq!(decode_token("YQ.Yg.Yw.ZA"), None);
}

#[test]
fn decode_token_refuses_what_is_not_base64url() {
    assert_eq!(decode_token("YQ==.Yg.Yw"), None);
    assert_eq!(decode_token("Y+.Yg.Yw"), None);
    assert_eq!(decode_token("YQ.Y g.Yw"), None);
    assert_eq!(decode_token("YQ.Yg.\u{e9}"), None);
    assert_eq!(decode_token("-_-_.Yg.Yw"), Some((vec![0xfb, 0xff, 0xbf], b"b".to_vec(), b"c".to_vec())));
}

#[test]
fn claims_json_reads_back_as_the_claims() {
    let claims = Claims::new("a \"b\" \\ c".to_string(), 4_294_967_295, u64::MAX, 1_700_000_000_000);
    let read: serde_json::Value = serde_json::from_slice(&claims.to_json()).unwrap();
    assert_eq!(read["sub"].as_str(), Some("a \"b\" \\ c"));
    assert_eq!(read["aud"].as_u64(), Some(4_294_967_295));
    assert_eq!(read["exp"].as_u64(), Some(u64::MAX));
    assert_eq!(read["iat"].as_u64(), Some(1_700_000_000_000));
    assert_eq!(read.as_object().unwrap().len(), 4);
}

#[test]
fn credential_issued_at_ledger_time_shows_the_window() {
    let issued = 1_700_000_000_000u64;
    let expiration = deitos_upload::upload::expiration_for(issued).unwrap();
    let token = generate_token(alice(), 11, issued, expiration).unwrap();
    let (header, claims, _) = decode_token(&token).unwrap();
    let header: serde_json::Value = serde_json::from_slice(&header).unwrap();
    let claims: serde_json::Value = serde_json::from_slice(&claims).unwrap();
    assert_eq!(header["alg"].as_str(), Some("Sr25519"));
    assert_eq!(header["typ"].as_str(), Some("JWT"));
    assert_eq!(claims["sub"].as_str(), Some(ALICE));
    assert_eq!(claims["aud"].as_u64(), Some(11));
    assert_eq!(claims["iat"].as_u64(), Some(issued));
    assert_eq!(claims["exp"].as_u64(), Some(issued + 86_400_000));
}

#[test]
fn signatures_are_fresh_but_the_signed_text_is_not() {
    let first = generate_token(alice(), 1, 10, 20).unwrap();
    let second = generate_token(alice(), 1, 10, 20).unwrap();
    let unsigned = |t: &str| t.rsplitn(2, '.').nth(1).unwrap().to_string();
    assert_eq!(unsigned(&first), unsigned(&second));
    let (_, _, one) = decode_token(&first).unwrap();
    let (_, _, other) = decode_token(&second).unwrap();
    assert_eq!(one.len(), 64);
    assert_eq!(other.len(), 64);
    // The signer draws a fresh nonce for each signature.
    assert_ne!(one, other);
}

#[test]
fn claims_give_back_what_they_were_made_of() {
    let claims = Claims::new("subject".to_string(), 5, 20, 10);
    assert_eq!(claims.sub(), "subject");
    assert_eq!(claims.aud(), 5);
    assert_eq!(claims.exp(), 20);
    assert_eq!(claims.iat(), 10);
    assert_eq!(claims, Claims::new("subject".to_string(), 5, 20, 10));
    assert_ne!(claims, Claims::new("subject".to_string(), 5, 10, 20));
}

fn is_url_safe(segment: &str) -> bool {
    segment.bytes().all(|b| b.is_ascii_alphanumeric() || b == b'-' || b == b'_')
}

#[test]
fn issued_token_has_the_shape_of_a_token() {
    let token = generate_token(alice(), 7, 1_700_000_000_000, 1_700_086_400_000).unwrap();
    assert_eq!(token.matches('.').count(), 2);
    let segments: Vec<&str> = token.split('.').collect();
    assert_eq!(segments.len(), 3);
    for segment in &segments {
        assert!(!segment.is_empty());
        assert!(is_url_safe(segment));
    }
    assert_eq!(segments[2].len(), 86);
}

#[test]
fn a_token_is_issued_for_any_window() {
    for (issued, expiration) in [(0u64, 0u64), (20, 10), (u64::MAX, 0), (u64::MAX, u64::MAX)] {
        for agreement in [0u32, u32::MAX] {
            let token = generate_token(alice(), agreement, issued, expiration);
            let (_, claims, signature) = decode_token(&token.unwrap()).unwrap();
            assert_eq!(claims, Claims::new(ALICE.to_string(), agreement, expiration, issued).to_json());
            assert_eq!(signature.len(), 64);
        }
    }
}

#[test]
fn subject_is_the_address_of_the_signing_key() {
    let bob = Pair::from_string("//Bob", None).unwrap();
    let address = bob.public().to_ss58check();
    assert_ne!(address, ALICE);
    assert!(address.len() <= 50);
    let (_, claims, _) = decode_token(&generate_token(bob, 1, 2, 3).unwrap()).unwrap();
    assert_eq!(claims, Claims::new(address, 1, 3, 2).to_json());
}

#[test]
fn raw_signature_is_good_for_header_dot_claims() {
    let pair = alice();
    let public = pair.public();
    let signer = TokenSigner::new(pair);
    let raw = signer.signature("aGVhZGVy", "Y2xhaW1z");
    assert_eq!(raw.len(), 64);
    let signature = Signature::try_from(raw.as_slice()).unwrap();
    assert!(Pair::verify(&signature, b"aGVhZGVy.Y2xhaW1z", &public));
    assert!(!Pair::verify(&signature, b"aGVhZGVy.Y2xhaW1", &public));
    let other = Pair::from_string("//Bob", None).unwrap().public();
    assert!(!Pair::verify(&signature, b"aGVhZGVy.Y2xhaW1z", &other));
}

#[test]
fn signed_token_joins_the_segments_and_the_signature() {
    let expected = format!("aGVhZGVy.Y2xhaW1z.{}", "A".repeat(86));
    assert_eq!(signed_token("aGVhZGVy", "Y2xhaW1z", &[0u8; 64]), Ok(expected));
    assert_eq!(signed_token("h", "c", b"foo"), Ok("h.c.Zm9v".to_string()));
    assert_eq!(signed_token("", "", &[]), Ok("..".to_string()));
    assert_eq!(
        signed_token("h", "c", &[0xfb, 0xff, 0xbf]).map_err(|_| SigningError::SegmentTooLong),
        Ok("h.c.-_-_".to_string())
    );
}

#[test]
fn signed_token_with_a_good_signature_is_what_is_issued() {
    let pair = alice();
    let public = pair.public();
    let signer = TokenSigner::new(pair);
    let raw = signer.signature("aGVhZGVy", "Y2xhaW1z");
    let token = signed_token("aGVhZGVy", "Y2xhaW1z", &raw).unwrap();
    let (header, claims, signature) = decode_token(&token).unwrap();
    assert_eq!(header, b"header".to_vec());
    assert_eq!(claims, b"claims".to_vec());
    assert_eq!(signature, raw);
    let signature = Signature::try_from(signature.as_slice()).unwrap();
    assert!(Pair::verify(&signature, b"aGVhZGVy.Y2xhaW1z", &public));
}
