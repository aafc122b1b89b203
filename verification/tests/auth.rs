use rust_study::auth::{bearer_token, claims_at, claims_now, login_claims, ApiError};

#[test]
fn bearer_token_extraction() {
    assert_eq!(bearer_token(Some("Bearer abc.def")).unwrap(), "abc.def");
    assert_eq!(bearer_token(Some("Bearer ")).unwrap(), "");
    match bearer_token(None) {
        Err(ApiError::Unauthorized(m)) => assert_eq!(m, "缺少 Authorization header"),
        _ => panic!("expected unauthorized"),
    }
    match bearer_token(Some("Basic abc")) {
        Err(ApiError::Unauthorized(m)) => assert_eq!(m, "Authorization 格式应为: Bearer <token>"),
        _ => panic!("expected unauthorized"),
    }
    assert!(bearer_token(Some("bearer abc")).is_err());
}

#[test]
fn error_responses() {
    assert_eq!(ApiError::Unauthorized("无效的 token").status_and_message(), (401, "无效的 token"));
    assert_eq!(ApiError::Internal.status_and_message(), (500, "内部错误"));
}

#[test]
fn claims_expire_after_an_hour() {
    let c = login_claims(1_000);
    assert_eq!(c.sub, "user123");
    assert_eq!(c.exp, 4_600);
    let now = claims_now().unwrap();
    assert!(now.exp > 3600);
}

#[test]
fn claims_at_a_given_time() {
    let c = claims_at(7).unwrap();
    assert_eq!((c.sub.as_str(), c.exp), ("user123", 3607));
    if usize::BITS == 64 {
        assert_eq!(claims_at(i64::MAX).unwrap().exp, i64::MAX as usize + 3600);
    }
}
