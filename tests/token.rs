use zero2prod::claims::{decode_claims, encode_claims};
use zero2prod::ids::{id_from_text, id_to_text};
use zero2prod::token::{check_claims, ConfigError, TokenCodec, TokenError, SESSION_TTL_SECONDS};

const KEY: &[u8] = b"0123456789abcdef0123456789abcdef0123456789abcdef";
const ALICE: u128 = 0x67e5_5044_10b1_426f_9247_bb68_0e5f_e0c8;
const NOW: i64 = 1_700_000_000;

fn codec() -> TokenCodec {
    TokenCodec::new(KEY, SESSION_TTL_SECONDS).ok().unwrap()
}

#[test]
fn ids_are_written_as_hyphenated_lowercase_hex() {
    assert_eq!(id_to_text(ALICE), "67e55044-10b1-426f-9247-bb680e5fe0c8");
    assert_eq!(id_to_text(ALICE), uuid::Uuid::from_u128(ALICE).to_string());
    assert_eq!(id_from_text("67e55044-10b1-426f-9247-bb680e5fe0c8"), Some(ALICE));
}

#[test]
fn only_the_canonical_id_text_is_read() {
    assert_eq!(id_from_text("67E55044-10B1-426F-9247-BB680E5FE0C8"), None);
    assert_eq!(id_from_text("67e5504410b1426f9247bb680e5fe0c8"), None);
    assert_eq!(id_from_text("{67e55044-10b1-426f-9247-bb680e5fe0c8}"), None);
    assert_eq!(id_from_text(""), None);
}

#[test]
fn claims_are_a_compact_json_object() {
    let text = encode_claims(ALICE, 1_701_209_600);
    assert_eq!(
        text,
        "{\"user_id\":\"67e55044-10b1-426f-9247-bb680e5fe0c8\",\"exp\":1701209600}"
    );
    assert_eq!(decode_claims(&text), Some((ALICE, 1_701_209_600)));
    let negative = encode_claims(0, -5);
    assert_eq!(decode_claims(&negative), Some((0, -5)));
}

#[test]
fn non_canonical_claims_are_refused() {
    let spaced = "{\"user_id\": \"67e55044-10b1-426f-9247-bb680e5fe0c8\",\"exp\":1}";
    assert_eq!(decode_claims(spaced), None);
    let padded = "{\"user_id\":\"67e55044-10b1-426f-9247-bb680e5fe0c8\",\"exp\":01}";
    assert_eq!(decode_claims(padded), None);
    let plus = "{\"user_id\":\"67e55044-10b1-426f-9247-bb680e5fe0c8\",\"exp\":+1}";
    assert_eq!(decode_claims(plus), None);
    let reordered = "{\"exp\":1,\"user_id\":\"67e55044-10b1-426f-9247-bb680e5fe0c8\"}";
    assert_eq!(decode_claims(reordered), None);
}

#[test]
fn checked_claims_expire_after_their_expiry() {
    let text = encode_claims(ALICE, NOW);
    assert_eq!(check_claims(Some(&text), NOW), Ok(ALICE));
    assert_eq!(check_claims(Some(&text), NOW - 1), Ok(ALICE));
    assert_eq!(check_claims(Some(&text), NOW + 1), Err(TokenError::Invalid));
    assert_eq!(check_claims(None, NOW), Err(TokenError::Invalid));
    assert_eq!(check_claims(Some("{}"), NOW), Err(TokenError::Invalid));
}

#[test]
fn short_keys_are_refused() {
    assert!(matches!(
        TokenCodec::new(&KEY[..47], SESSION_TTL_SECONDS),
        Err(ConfigError::KeyTooShort)
    ));
    assert!(matches!(TokenCodec::new(KEY, 0), Err(ConfigError::NonPositiveTtl)));
    assert!(TokenCodec::new(KEY, SESSION_TTL_SECONDS).is_ok());
}

#[test]
fn an_issued_token_verifies_to_its_subject() {
    let codec = codec();
    let token = codec.issue(ALICE, NOW).unwrap();
    assert_eq!(token.split('.').count(), 3);
    assert_eq!(codec.verify(&token, NOW), Ok(ALICE));
    assert_eq!(codec.verify(&token, NOW + SESSION_TTL_SECONDS), Ok(ALICE));
}

#[test]
fn an_issued_token_expires_after_its_lifetime() {
    let codec = codec();
    let token = codec.issue(ALICE, NOW).unwrap();
    assert_eq!(
        codec.verify(&token, NOW + SESSION_TTL_SECONDS + 1),
        Err(TokenError::Invalid)
    );
}

#[test]
fn issuing_is_deterministic_for_a_fixed_time() {
    let codec = codec();
    assert_eq!(codec.issue(ALICE, NOW).unwrap(), codec.issue(ALICE, NOW).unwrap());
    assert_ne!(codec.issue(ALICE, NOW).unwrap(), codec.issue(ALICE, NOW + 1).unwrap());
}

#[test]
fn an_expiry_past_the_range_is_refused() {
    let codec = codec();
    assert_eq!(codec.issue(ALICE, i64::MAX), Err(TokenError::ExpiryOutOfRange));
}

#[test]
fn a_token_under_another_key_is_refused() {
    let other = TokenCodec::new(&[7u8; 64], SESSION_TTL_SECONDS).ok().unwrap();
    let token = other.issue(ALICE, NOW).unwrap();
    assert_eq!(codec().verify(&token, NOW), Err(TokenError::Invalid));
    assert_eq!(codec().verify("not.a.token", NOW), Err(TokenError::Invalid));
    assert_eq!(codec().verify("", NOW), Err(TokenError::Invalid));
}

#[test]
fn tampered_tokens_are_refused() {
    let codec = codec();
    let mut cases = 0;
    for (n, user) in [ALICE, 1, u128::MAX, 42, 0xdead_beef, 7, 1 << 64, 99, 12345, 0xffff, 3, 5]
        .iter()
        .enumerate()
    {
        let token = codec.issue(*user, NOW + n as i64).unwrap();
        let bytes = token.as_bytes().to_vec();
        let first_dot = token.find('.').unwrap();
        for position in (first_dot + 1)..bytes.len() {
            if bytes[position] == b'.' {
                continue;
            }
            for bit in 0..8 {
                let mut tampered = bytes.clone();
                tampered[position] ^= 1 << bit;
                if let Ok(text) = String::from_utf8(tampered) {
                    cases += 1;
                    assert_eq!(codec.verify(&text, NOW), Err(TokenError::Invalid));
                }
            }
        }
    }
    assert!(cases >= 10_000);
}
