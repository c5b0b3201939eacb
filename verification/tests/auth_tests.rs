use fontsync::auth::{
    bearer_token, client_id_hint, login_status, make_auth_user, parse_identity, AuthError,
    LoginOutcome,
};
use fontsync::ids::Id;

const A: u128 = 0x123e4567e89b12d3a456426614174000;

#[test]
fn bearer_token_extracted() {
    let header = b"Bearer abc.def.ghi".to_vec();
    assert_eq!(bearer_token(&header), Some(b"abc.def.ghi".to_vec()));
}

#[test]
fn bearer_prefix_required() {
    assert_eq!(bearer_token(&b"bearer abc".to_vec()), None);
    assert_eq!(bearer_token(&b"Basic abc".to_vec()), None);
    assert_eq!(bearer_token(&b"Beare".to_vec()), None);
    assert_eq!(bearer_token(&b"Bearer ".to_vec()), Some(Vec::new()));
}

#[test]
fn identity_parsed_from_token_subject() {
    let sub = b"123e4567-e89b-12d3-a456-426614174000".to_vec();
    assert_eq!(parse_identity(&sub), Some(Id(A)));
    let upper = b"123E4567-E89B-12D3-A456-426614174000".to_vec();
    assert_eq!(parse_identity(&upper), Some(Id(A)));
}

#[test]
fn identity_rejects_other_shapes() {
    assert_eq!(parse_identity(&b"123e4567".to_vec()), None);
    assert_eq!(parse_identity(&b"123e4567-e89b-12d3-a456-42661417400g".to_vec()), None);
    assert_eq!(parse_identity(&b"123e4567+e89b-12d3-a456-426614174000".to_vec()), None);
    assert_eq!(parse_identity(&b"123e4567-e89b-12d3-a456-4266141740000".to_vec()), None);
}

#[test]
fn client_hint_defaults_to_nil() {
    assert_eq!(client_id_hint(None), Id(0));
    assert_eq!(client_id_hint(Some(&b"not an id".to_vec())), Id(0));
    let hint = b"123e4567-e89b-12d3-a456-426614174000".to_vec();
    assert_eq!(client_id_hint(Some(&hint)), Id(A));
}

#[test]
fn auth_user_built_from_claims() {
    let sub = b"123e4567-e89b-12d3-a456-426614174000".to_vec();
    let user = make_auth_user(&sub, "a@b.c".to_string(), "authenticated".to_string(), None)
        .expect("a valid subject yields a user");
    assert_eq!(user.user_id, Id(A));
    assert_eq!(user.email, "a@b.c".to_string());
    assert_eq!(user.audience, "authenticated".to_string());
    assert_eq!(user.client_id, Id(0));
}

#[test]
fn auth_user_rejects_bad_subject() {
    let r = make_auth_user(&b"not-a-uuid".to_vec(), String::new(), String::new(), None);
    assert_eq!(r.err(), Some(AuthError::InvalidUserId));
}

#[test]
fn login_statuses() {
    assert_eq!(login_status(LoginOutcome::TokenGranted), 200);
    assert_eq!(login_status(LoginOutcome::NoToken), 401);
    assert_eq!(login_status(LoginOutcome::ParseFailed), 500);
    assert_eq!(login_status(LoginOutcome::ConnectFailed), 500);
}
