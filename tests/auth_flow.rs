use blocchat_auth::auth::{
    authenticate_at, check_auth_at, extract_token, guard_request_at, is_admin, logout, parse_admin_addresses,
    request_challenge_at, AuthFailure, AuthRequest, GuardRejection,
};
use blocchat_auth::nonce::{
    challenge_message, generate_nonce, store_nonce_at, verify_nonce_at, NonceError, NonceStore, NONCE_TTL_MS,
};
use blocchat_auth::session::{
    cleanup_expired_at, create_session, create_session_at, generate_session_token, revoke_session, sweep_sessions, verify_session_at,
    SessionError, SessionStore, LATEST_SESSION_START, SESSION_TTL_MS,
};
use blocchat_auth::signature::{hash_message, personal_message_bytes, verify_signature, SignatureError};
use blocchat_auth::text::format_hex;
use ethers::signers::{LocalWallet, Signer};
use ethers::types::H256;

const KEY: &str = "4c0883a69102937d6231471b5dbb6204fe5129617082792ae468d01a3f362318";

fn signer() -> LocalWallet {
    KEY.parse::<LocalWallet>().unwrap()
}

fn address_of(w: &LocalWallet) -> String {
    format!("0x{}", hex::encode(w.address().as_bytes()))
}

fn sign(w: &LocalWallet, message: &str) -> String {
    let digest = ethers::utils::hash_message(message);
    let sig = w.sign_hash(digest).unwrap();
    format!("0x{}", hex::encode(sig.to_vec()))
}

#[test]
fn test_generate_nonce() {
    let nonce1 = generate_nonce();
    let nonce2 = generate_nonce();
    assert_ne!(nonce1, nonce2);
    assert_eq!(nonce1.len(), 16);
}

#[test]
fn test_hash_message() {
    let message = "Hello, BlocChat!";
    let hash = hash_message(message);
    assert_eq!(hash.len(), 32);
}

#[test]
fn hash_message_matches_the_personal_message_digest() {
    let hash = hash_message("Hello World");
    assert_eq!(hash, ethers::utils::hash_message("Hello World").as_bytes().to_vec());
    assert_eq!(
        hex::encode(&hash),
        "a1de988600a42c4b4ab089b619297c17d53cffae5d5120d82d8a92d0bb3b78f2"
    );
}

#[test]
fn personal_message_bytes_prefix_length_and_body() {
    let bytes = personal_message_bytes("abc");
    let mut expected = b"\x19Ethereum Signed Message:\n3".to_vec();
    expected.extend_from_slice(b"abc");
    assert_eq!(bytes, expected);
    let long = "x".repeat(120);
    let bytes = personal_message_bytes(&long);
    assert_eq!(&bytes[26..29], b"120");
    assert_eq!(bytes.len(), 26 + 3 + 120);
}

#[test]
fn nonce_is_sixteen_lowercase_hex_digits() {
    let n = generate_nonce();
    assert!(n.chars().all(|c| c.is_ascii_hexdigit() && !c.is_ascii_uppercase()));
}

#[test]
fn challenge_message_embeds_nonce() {
    let m = challenge_message("00ff00ff00ff00ff");
    assert_eq!(
        m,
        "Sign this message to authenticate with BlocChat Admin Dashboard.\n\nNonce: 00ff00ff00ff00ff\n\nThis signature will not trigger any blockchain transaction or cost gas fees."
    );
}

#[test]
fn issued_nonce_redeems_exactly_once() {
    let mut store = NonceStore::new();
    store_nonce_at(&mut store, "0xABCdef", "1234abcd1234abcd".to_string(), 1_000);
    assert_eq!(verify_nonce_at(&mut store, "0xabcDEF", "1234abcd1234abcd", 1_500), Ok(()));
    assert_eq!(
        verify_nonce_at(&mut store, "0xabcdef", "1234abcd1234abcd", 1_600),
        Err(NonceError::NotFound)
    );
}

#[test]
fn wrong_nonce_is_mismatch_and_keeps_record() {
    let mut store = NonceStore::new();
    store_nonce_at(&mut store, "0xabc", "aaaa".to_string(), 0);
    assert_eq!(verify_nonce_at(&mut store, "0xabc", "bbbb", 10), Err(NonceError::Mismatch));
    assert_eq!(verify_nonce_at(&mut store, "0xabc", "aaaa", 20), Ok(()));
}

#[test]
fn expired_nonce_fails_and_is_removed() {
    let mut store = NonceStore::new();
    store_nonce_at(&mut store, "0xabc", "aaaa".to_string(), 0);
    assert_eq!(
        verify_nonce_at(&mut store, "0xabc", "aaaa", NONCE_TTL_MS + 1),
        Err(NonceError::Expired)
    );
    assert_eq!(verify_nonce_at(&mut store, "0xabc", "aaaa", 0), Err(NonceError::NotFound));
}

#[test]
fn nonce_at_exact_ttl_is_still_valid() {
    let mut store = NonceStore::new();
    store_nonce_at(&mut store, "0xabc", "aaaa".to_string(), 100);
    assert_eq!(verify_nonce_at(&mut store, "0xabc", "aaaa", 100 + NONCE_TTL_MS), Ok(()));
}

#[test]
fn reissuing_replaces_the_earlier_nonce() {
    let mut store = NonceStore::new();
    store_nonce_at(&mut store, "0xabc", "first".to_string(), 0);
    store_nonce_at(&mut store, "0xABC", "second".to_string(), 5);
    assert_eq!(store.len(), 1);
    assert_eq!(verify_nonce_at(&mut store, "0xabc", "first", 10), Err(NonceError::Mismatch));
    assert_eq!(verify_nonce_at(&mut store, "0xabc", "second", 10), Ok(()));
}

#[test]
fn signature_from_wallet_verifies() {
    let w = signer();
    let message = "some message";
    let sig = sign(&w, message);
    assert_eq!(verify_signature(&address_of(&w), message, &sig), Ok(true));
    assert_eq!(verify_signature(&address_of(&w).to_uppercase().replace("0X", "0x"), message, &sig), Ok(true));
}

#[test]
fn changed_message_or_flipped_byte_does_not_verify() {
    let w = signer();
    let sig = sign(&w, "some message");
    let addr = address_of(&w);
    assert_eq!(verify_signature(&addr, "some other message", &sig), Ok(false));
    let mut bytes = hex::decode(&sig[2..]).unwrap();
    bytes[10] ^= 0x01;
    let flipped = format!("0x{}", hex::encode(&bytes));
    assert_ne!(verify_signature(&addr, "some message", &flipped), Ok(true));
}

#[test]
fn other_wallet_does_not_verify() {
    let w = signer();
    let sig = sign(&w, "m");
    assert_eq!(
        verify_signature("0x0000000000000000000000000000000000000001", "m", &sig),
        Ok(false)
    );
}

#[test]
fn malformed_inputs_are_classified() {
    let w = signer();
    let sig = sign(&w, "m");
    assert_eq!(verify_signature(&address_of(&w), "m", "0x1234"), Err(SignatureError::MalformedSignature));
    assert_eq!(verify_signature(&address_of(&w), "m", "zz"), Err(SignatureError::MalformedSignature));
    assert_eq!(verify_signature("not-an-address", "m", &sig), Err(SignatureError::MalformedAddress));
}

#[test]
fn session_valid_until_expiry_then_expired() {
    let mut store = SessionStore::new();
    let t = create_session_at(&mut store, "0xABC", "tok".to_string(), 1_000);
    assert_eq!(t, Ok("tok".to_string()));
    assert_eq!(verify_session_at(&mut store, "tok", 1_000), Ok("0xabc".to_string()));
    assert_eq!(
        verify_session_at(&mut store, "tok", 1_000 + SESSION_TTL_MS),
        Ok("0xabc".to_string())
    );
    assert_eq!(
        verify_session_at(&mut store, "tok", 1_001 + SESSION_TTL_MS),
        Err(SessionError::Expired)
    );
    assert_eq!(verify_session_at(&mut store, "tok", 1_000), Err(SessionError::NotFound));
}

#[test]
fn revoke_is_idempotent() {
    let mut store = SessionStore::new();
    create_session_at(&mut store, "0xabc", "tok".to_string(), 0).unwrap();
    revoke_session(&mut store, "tok");
    revoke_session(&mut store, "tok");
    revoke_session(&mut store, "unknown");
    assert_eq!(store.len(), 0);
    assert_eq!(verify_session_at(&mut store, "tok", 0), Err(SessionError::NotFound));
}

#[test]
fn wallet_may_hold_several_sessions() {
    let mut store = SessionStore::new();
    create_session_at(&mut store, "0xabc", "t1".to_string(), 0).unwrap();
    create_session_at(&mut store, "0xabc", "t2".to_string(), 0).unwrap();
    assert_eq!(store.len(), 2);
    assert!(verify_session_at(&mut store, "t1", 5).is_ok());
    assert!(verify_session_at(&mut store, "t2", 5).is_ok());
}

#[test]
fn sweep_drops_only_expired_sessions() {
    let mut store = SessionStore::new();
    create_session_at(&mut store, "0xa", "old".to_string(), 0).unwrap();
    create_session_at(&mut store, "0xb", "new".to_string(), SESSION_TTL_MS).unwrap();
    sweep_sessions(&mut store, SESSION_TTL_MS + 1);
    assert_eq!(store.len(), 1);
    assert_eq!(verify_session_at(&mut store, "new", SESSION_TTL_MS + 1), Ok("0xb".to_string()));
}

#[test]
fn session_token_is_sixty_four_hex_digits() {
    let t = generate_session_token();
    assert_eq!(t.len(), 64);
    assert!(t.chars().all(|c| c.is_ascii_hexdigit() && !c.is_ascii_uppercase()));
    assert_ne!(t, generate_session_token());
}

#[test]
fn whitelist_parsing_trims_lowercases_and_skips_empty() {
    let list = parse_admin_addresses(" 0xABC , ,0xDef,");
    assert_eq!(list, vec!["0xabc".to_string(), "0xdef".to_string()]);
    assert!(parse_admin_addresses("").is_empty());
}

#[test]
fn whitelist_check_ignores_case() {
    let admins = vec!["0xAbC".to_string()];
    assert!(is_admin("0xabc", &admins));
    assert!(is_admin("0XABC", &admins));
    assert!(!is_admin("0xabd", &admins));
}

#[test]
fn token_extraction_prefers_bearer_header() {
    assert_eq!(extract_token(Some("Bearer abc"), Some("cookie")), Some("abc".to_string()));
    assert_eq!(extract_token(Some("Basic abc"), Some("cookie")), Some("cookie".to_string()));
    assert_eq!(extract_token(None, Some("cookie")), Some("cookie".to_string()));
    assert_eq!(extract_token(Some("bearer abc"), None), None);
    assert_eq!(extract_token(None, None), None);
}

#[test]
fn end_to_end_sign_in_check_and_logout() {
    let w = signer();
    let addr = address_of(&w);
    let mixed = format!("0x{}", addr[2..].to_uppercase());
    let admins = parse_admin_addresses(&addr);
    let mut nonces = NonceStore::new();
    let mut sessions = SessionStore::new();

    let challenge = request_challenge_at(&mut nonces, &mixed, "0123456789abcdef".to_string(), 10_000);
    assert_eq!(challenge.nonce, "0123456789abcdef");
    assert_eq!(challenge.message, challenge_message("0123456789abcdef"));
    let sig = sign(&w, &challenge.message);

    let req = AuthRequest { wallet_address: mixed.clone(), signature: sig, nonce: challenge.nonce.clone() };
    let resp = authenticate_at(&mut sessions, &mut nonces, &admins, &req, 20_000, "T".to_string()).unwrap();
    assert!(resp.success);
    assert_eq!(resp.session_token, Some("T".to_string()));
    assert_eq!(resp.wallet_address, Some(addr.clone()));

    let status = check_auth_at(&mut sessions, Some("T"), 30_000);
    assert!(status.authenticated);
    assert_eq!(status.wallet_address, Some(addr.clone()));
    assert_eq!(guard_request_at(&mut sessions, Some("T"), 30_000), Ok(addr.clone()));

    logout(&mut sessions, Some("T"));
    let status = check_auth_at(&mut sessions, Some("T"), 30_000);
    assert!(!status.authenticated);
    assert_eq!(status.wallet_address, None);
    assert_eq!(
        guard_request_at(&mut sessions, Some("T"), 30_000),
        Err(GuardRejection::InvalidSession(SessionError::NotFound))
    );
    assert_eq!(guard_request_at(&mut sessions, None, 30_000), Err(GuardRejection::MissingCredential));
}

#[test]
fn non_admin_is_forbidden_before_nonce_is_used() {
    let w = signer();
    let mut nonces = NonceStore::new();
    let mut sessions = SessionStore::new();
    request_challenge_at(&mut nonces, "0x0000000000000000000000000000000000000002", "aa".to_string(), 0);
    let req = AuthRequest {
        wallet_address: "0x0000000000000000000000000000000000000002".to_string(),
        signature: sign(&w, "x"),
        nonce: "aa".to_string(),
    };
    let admins = vec![address_of(&w)];
    let r = authenticate_at(&mut sessions, &mut nonces, &admins, &req, 1, "T".to_string());
    assert_eq!(r.err(), Some(AuthFailure::Forbidden));
    assert_eq!(AuthFailure::Forbidden.status_code(), 403);
    assert_eq!(nonces.len(), 1);
}

#[test]
fn sign_in_failures_map_to_their_status() {
    let w = signer();
    let addr = address_of(&w);
    let admins = vec![addr.clone()];
    let mut nonces = NonceStore::new();
    let mut sessions = SessionStore::new();

    let req = AuthRequest { wallet_address: addr.clone(), signature: "0x00".to_string(), nonce: "n1".to_string() };
    let r = authenticate_at(&mut sessions, &mut nonces, &admins, &req, 0, "T".to_string());
    assert_eq!(r.err(), Some(AuthFailure::BadNonce(NonceError::NotFound)));
    assert_eq!(AuthFailure::BadNonce(NonceError::NotFound).status_code(), 400);

    request_challenge_at(&mut nonces, &addr, "n1".to_string(), 0);
    let stranger = "0101010101010101010101010101010101010101010101010101010101010101".parse::<LocalWallet>().unwrap();
    let req = AuthRequest {
        wallet_address: addr.clone(),
        signature: sign(&stranger, &challenge_message("n1")),
        nonce: "n1".to_string(),
    };
    let r = authenticate_at(&mut sessions, &mut nonces, &admins, &req, 0, "T".to_string());
    assert_eq!(r.err(), Some(AuthFailure::Unauthorized));
    assert_eq!(AuthFailure::Unauthorized.status_code(), 401);

    request_challenge_at(&mut nonces, &addr, "n2".to_string(), 0);
    let req = AuthRequest { wallet_address: addr.clone(), signature: "0xzz".to_string(), nonce: "n2".to_string() };
    let r = authenticate_at(&mut sessions, &mut nonces, &admins, &req, 0, "T".to_string());
    assert_eq!(r.err(), Some(AuthFailure::BadSignature(SignatureError::MalformedSignature)));
    assert_eq!(sessions.len(), 0);
    assert_eq!(AuthFailure::SessionUnavailable.status_code(), 500);
}

#[test]
fn signed_digest_is_recovered_to_the_signer() {
    let w = signer();
    let digest = hash_message("payload");
    let sig = w.sign_hash(H256::from_slice(&digest)).unwrap();
    let text = format!("0x{}", hex::encode(sig.to_vec()));
    assert_eq!(verify_signature(&address_of(&w), "payload", &text), Ok(true));
}

#[test]
fn cleanup_drops_expired_sessions_and_nonces() {
    let mut sessions = SessionStore::new();
    let mut nonces = NonceStore::new();
    create_session_at(&mut sessions, "0xa", "old".to_string(), 0).unwrap();
    create_session_at(&mut sessions, "0xb", "new".to_string(), 10 * NONCE_TTL_MS).unwrap();
    store_nonce_at(&mut nonces, "0xa", "n1".to_string(), 0);
    store_nonce_at(&mut nonces, "0xb", "n2".to_string(), SESSION_TTL_MS);
    cleanup_expired_at(&mut sessions, &mut nonces, SESSION_TTL_MS + 1);
    assert_eq!(sessions.len(), 1);
    assert_eq!(nonces.len(), 1);
    assert_eq!(verify_nonce_at(&mut nonces, "0xb", "n2", SESSION_TTL_MS + 1), Ok(()));
    assert_eq!(verify_session_at(&mut sessions, "old", 0), Err(SessionError::NotFound));
}

#[test]
fn session_creation_refuses_reused_token_and_late_clock() {
    let mut store = SessionStore::new();
    assert_eq!(create_session_at(&mut store, "0xa", "tok".to_string(), 0), Ok("tok".to_string()));
    assert_eq!(create_session_at(&mut store, "0xb", "tok".to_string(), 5), Err(SessionError::TokenInUse));
    assert_eq!(verify_session_at(&mut store, "tok", 5), Ok("0xa".to_string()));
    assert_eq!(
        create_session_at(&mut store, "0xa", "late".to_string(), LATEST_SESSION_START + 1),
        Err(SessionError::ClockOutOfRange)
    );
    assert_eq!(
        create_session_at(&mut store, "0xa", "edge".to_string(), LATEST_SESSION_START),
        Ok("edge".to_string())
    );
    assert_eq!(store.len(), 2);
}

#[test]
fn create_session_opens_a_session_under_a_hex_token() {
    let mut store = SessionStore::new();
    let t = create_session(&mut store, "0xABC").unwrap();
    assert_eq!(t.len(), 64);
    assert!(t.chars().all(|c| c.is_ascii_hexdigit() && !c.is_ascii_uppercase()));
    assert_eq!(store.len(), 1);
    let now = chrono::Utc::now().timestamp_millis();
    assert_eq!(verify_session_at(&mut store, &t, now), Ok("0xabc".to_string()));
}

#[test]
fn address_parsing_skips_whitespace_and_needs_forty_digits() {
    let w = signer();
    let sig = sign(&w, "m");
    let addr = address_of(&w);
    let spaced = format!("{} {}", &addr[..12], &addr[12..]);
    assert_eq!(verify_signature(&spaced, "m", &sig), Ok(true));
    assert_eq!(verify_signature(&addr[2..], "m", &sig), Ok(true));
    assert_eq!(verify_signature(&addr[..41], "m", &sig), Err(SignatureError::MalformedAddress));
    assert_eq!(verify_signature(&format!(" {}", addr), "m", &sig), Err(SignatureError::MalformedAddress));
}

#[test]
fn hex_formatting_pads_and_cuts() {
    assert_eq!(format_hex(0xabc, 4), "0abc");
    assert_eq!(format_hex(u64::MAX, 16), "ffffffffffffffff");
    assert_eq!(format_hex(0x1234, 2), "34");
    assert_eq!(format_hex(0, 0), "");
    assert_eq!(format_hex(0x0123456789abcdef, 16), format!("{:016x}", 0x0123456789abcdefu64));
}
