use windbgr_mcp::security::bearer_authorized;

#[test]
fn no_token_admits_everything() {
    assert!(bearer_authorized(None, None));
    assert!(bearer_authorized(None, Some("Bearer anything")));
}

#[test]
fn token_requires_exact_bearer_header() {
    assert!(bearer_authorized(Some("s3"), Some("Bearer s3")));
    assert!(!bearer_authorized(Some("s3"), None));
    assert!(!bearer_authorized(Some("s3"), Some("Bearer s4")));
    assert!(!bearer_authorized(Some("s3"), Some("bearer s3")));
    assert!(!bearer_authorized(Some("s3"), Some("Bearer s3 ")));
    assert!(!bearer_authorized(Some("s3"), Some("s3")));
}
