use lobby_core::auth::{authenticate, issue_token, login_gate};
use lobby_core::model::{AuthError, Claims, OpError};

#[test]
fn token_round_trip_authenticates_subject() {
    let secret = b"test-signing-key";
    let claims = Claims { subject: "alice".to_string(), exp: usize::MAX / 2 };
    let token = issue_token(&claims, secret).unwrap();
    let user = authenticate(Some(token.as_str()), secret).unwrap();
    assert_eq!(user.username, "alice");
}

#[test]
fn authenticate_rejects_missing_and_invalid_tokens() {
    let secret = b"test-signing-key";
    assert!(matches!(authenticate(None, secret), Err(AuthError::MissingToken)));
    assert!(matches!(
        authenticate(Some("not.a.token"), secret),
        Err(AuthError::InvalidToken)
    ));
    let claims = Claims { subject: "alice".to_string(), exp: usize::MAX / 2 };
    let token = issue_token(&claims, secret).unwrap();
    assert!(matches!(
        authenticate(Some(token.as_str()), b"other-secret"),
        Err(AuthError::InvalidToken)
    ));
}

#[test]
fn authenticate_rejects_expired_token() {
    let secret = b"test-signing-key";
    let claims = Claims { subject: "alice".to_string(), exp: 1 };
    let token = issue_token(&claims, secret).unwrap();
    assert!(matches!(
        authenticate(Some(token.as_str()), secret),
        Err(AuthError::InvalidToken)
    ));
}

#[test]
fn login_gate_ladder() {
    let u = "alice".to_string();
    let p = "pass*word".to_string();
    let bad_u = "not a name".to_string();
    let bad_p = "pass word".to_string();
    assert!(matches!(login_gate(&bad_u, &p, true, true, false), Err(OpError::Validation)));
    assert!(matches!(login_gate(&u, &bad_p, true, true, false), Err(OpError::Validation)));
    assert!(matches!(login_gate(&u, &p, false, false, false), Err(OpError::NotFound)));
    assert!(matches!(login_gate(&u, &p, true, false, false), Err(OpError::Authorization)));
    assert!(matches!(login_gate(&u, &p, true, true, true), Err(OpError::Conflict)));
    assert!(login_gate(&u, &p, true, true, false).is_ok());
}

#[test]
fn auth_error_surfaces() {
    assert_eq!(AuthError::MissingToken.status_code(), 401);
    assert_eq!(AuthError::InvalidToken.status_code(), 401);
    assert_eq!(AuthError::MissingToken.message(), "Missing Token");
    assert_eq!(AuthError::InvalidToken.message(), "Invalid Token");
}

#[test]
fn op_error_status_codes() {
    assert_eq!(OpError::Validation.status_code(), 400);
    assert_eq!(OpError::Authorization.status_code(), 403);
    assert_eq!(OpError::Conflict.status_code(), 409);
    assert_eq!(OpError::NotFound.status_code(), 404);
    assert_eq!(OpError::Infrastructure.status_code(), 500);
}
