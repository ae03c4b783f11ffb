use js_engine::auth::{
    auth_gate, find_cookie, session_candidates, session_matches, AuthError, AuthGate,
    HashSessionToken, RateLimiter, RATE_LIMIT_WINDOW_MS,
};

#[test]
fn session_hash_is_lowered_base32_of_sha256() {
    let token = HashSessionToken::from_cookie("test-token");
    assert_eq!(
        token.hashed(),
        "jro4tn3qrec7o726luldc2257nbf42glgjw42vnimduqu5yhampa"
    );
    assert_eq!(
        token.as_hash(),
        "jro4tn3qrec7o726luldc2257nbf42glgjw42vnimduqu5yhampa"
    );
}

#[test]
fn empty_token_still_hashes() {
    let token = HashSessionToken::from_cookie("");
    assert_eq!(
        token.hashed(),
        "4oymiquy7qobjgx36tejs35zeqt24qpemsnzgtfeswmrw6csxbkq"
    );
}

#[test]
fn fresh_tokens_have_well_formed_hashes() {
    let a = HashSessionToken::new();
    let b = HashSessionToken::new();
    assert_eq!(a.hashed().len(), 52);
    assert_eq!(b.hashed().len(), 52);
    // Two random 16-byte tokens colliding would mean the generator is
    // handing the same bytes out.
    assert_ne!(a.hashed(), b.hashed());
}

#[test]
fn tokens_compare_by_hash() {
    let a = HashSessionToken::from_cookie("same");
    let b = HashSessionToken::from_cookie("same");
    let c = HashSessionToken::from_cookie("other");
    assert!(a == b);
    assert!(!(a == c));
}

#[test]
fn session_cookie_is_found_in_a_real_header() {
    let r = HashSessionToken::from_request_parts(Some("local=abc; session=test-token"));
    let token = r.unwrap();
    assert_eq!(
        token.hashed(),
        "jro4tn3qrec7o726luldc2257nbf42glgjw42vnimduqu5yhampa"
    );
}

#[test]
fn missing_or_foreign_cookies_are_unauthorized() {
    assert_eq!(
        HashSessionToken::from_request_parts(None).unwrap_err(),
        AuthError::Unauthorized
    );
    assert_eq!(
        HashSessionToken::from_request_parts(Some("flavor=oatmeal")).unwrap_err(),
        AuthError::Unauthorized
    );
}

#[test]
fn both_auth_cookies_are_picked_out_of_the_header() {
    let (local, session) = session_candidates(Some("local=abc; session=tok; other=x"));
    assert_eq!(local.unwrap(), "abc");
    assert_eq!(session.unwrap(), "tok");
    let (local, session) = session_candidates(None);
    assert!(local.is_none());
    assert!(session.is_none());
}

#[test]
fn cookie_lookup_returns_the_first_match() {
    let pairs = vec![
        ("a".to_owned(), "1".to_owned()),
        ("session".to_owned(), "first".to_owned()),
        ("session".to_owned(), "second".to_owned()),
    ];
    assert_eq!(find_cookie(&pairs, "session").unwrap(), "first");
    assert!(find_cookie(&pairs, "local").is_none());
}

#[test]
fn cookie_string_has_the_exact_shape() {
    let token = HashSessionToken::from_cookie("abc");
    assert_eq!(
        token.cookie_string(),
        "session=abc; Path=/; SameSite=Lax; Expires=Fri, 31 Dec 9999 23:59:59 GMT;"
    );
    assert!(token.header_value().is_ok());
}

#[test]
fn session_predicate_uses_the_safe_parenthesisation() {
    // The id must match, and then the logout test applies.
    assert!(session_matches("h1", None, "h1", 1000));
    assert!(session_matches("h1", Some(2000), "h1", 1000));
    assert!(!session_matches("h1", Some(500), "h1", 1000));
    // A future logout never admits a row with the wrong id.
    assert!(!session_matches("h2", Some(2000), "h1", 1000));
}

#[test]
fn rate_limiter_counts_failures_within_the_window() {
    let mut limiter = RateLimiter::new(0);
    assert!(!limiter.should_limit(0));
    limiter.record(100, true);
    limiter.record(200, true);
    limiter.record(300, true);
    assert!(limiter.should_limit(400));
    // Past the window the count starts over.
    limiter.record(300 + RATE_LIMIT_WINDOW_MS, true);
    assert!(!limiter.should_limit(300 + RATE_LIMIT_WINDOW_MS));
}

#[test]
fn auth_gate_decisions() {
    assert_eq!(auth_gate(true, true, false, false), AuthGate::Proceed);
    assert_eq!(
        auth_gate(false, true, false, false),
        AuthGate::RejectUnauthorized
    );
    assert_eq!(
        auth_gate(false, false, true, true),
        AuthGate::RejectRateLimited
    );
    assert_eq!(auth_gate(false, false, true, false), AuthGate::Proceed);
    assert_eq!(auth_gate(false, false, false, false), AuthGate::Proceed);
}
