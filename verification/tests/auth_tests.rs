use zenith_gateway::auth::AuthValidator;

#[test]
fn missing_header_is_rejected() {
    let err = AuthValidator::validate_header(None).err().unwrap();
    assert_eq!(err, "Missing Authorization header");
}

#[test]
fn non_bearer_header_is_rejected() {
    let err = AuthValidator::validate_header(Some("Basic dXNlcjpwYXNz")).err().unwrap();
    assert_eq!(err, "Invalid token format, expected 'Bearer <token>'");
    // The scheme is case-sensitive and needs its space.
    assert!(AuthValidator::validate_header(Some("bearer abc")).is_err());
    assert!(AuthValidator::validate_header(Some("Bearer")).is_err());
}

#[test]
fn empty_token_is_rejected() {
    let err = AuthValidator::validate_header(Some("Bearer ")).err().unwrap();
    assert_eq!(err, "Empty bearer token");
}

#[test]
fn bearer_token_yields_claims() {
    let claims = AuthValidator::validate_header(Some("Bearer abc.def.ghi")).unwrap();
    assert_eq!(claims.sub, "user-12345");
    assert_eq!(claims.exp, 9999999999u64 as usize);
    assert_eq!(claims.roles, Some(vec!["admin".to_string(), "user".to_string()]));
}

#[test]
fn any_non_empty_token_yields_the_same_claims() {
    let a = AuthValidator::validate_header(Some("Bearer x")).unwrap();
    let b = AuthValidator::validate_header(Some("Bearer   spaced token é")).unwrap();
    assert_eq!(a.sub, b.sub);
    assert_eq!(a.exp, b.exp);
    assert_eq!(a.roles, b.roles);
}
