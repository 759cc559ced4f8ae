use annotator::user::{
    get_token_from_auth_string, to_dec_string, AuthController, CreateUserBody, PublicUser,
    SignInBody, UpdateUserBody, User, UserController,
};

fn stored_user() -> User {
    User {
        id: Some(12345),
        firstname: "Ada".to_string(),
        lastname: "Lovelace".to_string(),
        password: "$hashed$".to_string(),
        email: "ada@computing.org".to_string(),
        username: "ada".to_string(),
    }
}

fn sign_up_body() -> CreateUserBody {
    CreateUserBody {
        firstname: "Ada".to_string(),
        lastname: "Lovelace".to_string(),
        password: "Passw0rd!".to_string(),
        email: "ada@computing.org".to_string(),
        username: "ada".to_string(),
    }
}

#[test]
fn decimal_rendering_is_exact() {
    assert_eq!(to_dec_string(0), "0");
    assert_eq!(to_dec_string(7), "7");
    assert_eq!(to_dec_string(12345), "12345");
    assert_eq!(to_dec_string(1000), "1000");
    assert_eq!(to_dec_string(u64::MAX), "18446744073709551615");
}

#[test]
fn public_user_drops_the_hash_and_renders_the_id() {
    let public = PublicUser::from_user(stored_user());
    assert_eq!(public.id, "12345");
    assert_eq!(public.firstname, "Ada");
    assert_eq!(public.lastname, "Lovelace");
    assert_eq!(public.email, "ada@computing.org");
    assert_eq!(public.username, "ada");
    let unsaved = User { id: None, ..stored_user() };
    assert_eq!(PublicUser::from_user(unsaved).id, "");
}

#[test]
fn bearer_header_accepts_exactly_two_words() {
    assert_eq!(get_token_from_auth_string("Bearer abc").unwrap(), "abc");
    assert_eq!(get_token_from_auth_string("  Bearer   tok.en  ").unwrap(), "tok.en");
    assert_eq!(get_token_from_auth_string("bearer abc").unwrap_err().status, 401);
    assert_eq!(get_token_from_auth_string("Bearer").unwrap_err().status, 401);
    assert_eq!(get_token_from_auth_string("Bearer a b").unwrap_err().status, 401);
    assert_eq!(get_token_from_auth_string("").unwrap_err().status, 401);
    let err = get_token_from_auth_string("Basic abc").unwrap_err();
    assert_eq!(err.status, 401);
    assert_eq!(err.msg, "invalid token string");
    assert_eq!(get_token_from_auth_string("\tBearer\ttok\t").unwrap(), "tok");
    assert_eq!(get_token_from_auth_string("BearerX abc").unwrap_err().status, 401);
}

#[test]
fn sign_up_accepts_a_valid_free_identity() {
    let user =
        AuthController::sign_up(sign_up_body(), "$hashed$".to_string(), false, false).unwrap();
    assert_eq!(user.id, None);
    assert_eq!(user.email, "ada@computing.org");
    assert_eq!(user.password, "$hashed$");
    assert_eq!(user.username, "ada");
}

#[test]
fn sign_up_rejects_invalid_bodies() {
    let mut body = sign_up_body();
    body.email = "nope".to_string();
    let err = AuthController::sign_up(body, "$hashed$".to_string(), false, false).unwrap_err();
    assert_eq!(err.status, 422);
    assert_eq!(err.msg, "failed to validate body");
    assert_eq!(err.validation, vec!["\"email\": value is not an email".to_string()]);
}

#[test]
fn sign_up_rejects_taken_email_then_username() {
    let err = AuthController::sign_up(sign_up_body(), "$h$".to_string(), true, false).unwrap_err();
    assert_eq!(err.status, 409);
    assert_eq!(err.msg, "email already in use");
    let err = AuthController::sign_up(sign_up_body(), "$h$".to_string(), true, true).unwrap_err();
    assert_eq!(err.msg, "email already in use");
    let err = AuthController::sign_up(sign_up_body(), "$h$".to_string(), false, true).unwrap_err();
    assert_eq!(err.status, 409);
    assert_eq!(err.msg, "username already in use");
}

#[test]
fn sign_in_decides_in_order() {
    let body = SignInBody { login: "ada".to_string(), password: "Passw0rd!".to_string() };
    let err = AuthController::sign_in(
        SignInBody { login: "ada".to_string(), password: "weak".to_string() },
        Some(stored_user()),
        true,
    )
    .unwrap_err();
    assert_eq!(err.status, 422);
    assert_eq!(err.msg, "invalid request body");
    let err = AuthController::sign_in(body.clone(), None, true).unwrap_err();
    assert_eq!(err.status, 404);
    assert_eq!(err.msg, "user not found");
    let err = AuthController::sign_in(body.clone(), Some(stored_user()), false).unwrap_err();
    assert_eq!(err.status, 400);
    assert_eq!(err.msg, "login and password does not match any user");
    let user = AuthController::sign_in(body, Some(stored_user()), true).unwrap();
    assert_eq!(user.id, Some(12345));
}

#[test]
fn user_get_resolves_or_reports() {
    assert_eq!(UserController::get(Some(stored_user())).unwrap().username, "ada");
    let err = UserController::get(None).unwrap_err();
    assert_eq!(err.status, 404);
    assert_eq!(err.msg, "user not found");
}

#[test]
fn user_update_touches_only_given_fields() {
    let body = UpdateUserBody {
        firstname: Some("Augusta".to_string()),
        lastname: None,
        password: None,
        email: Some("ada@maths.org".to_string()),
    };
    let updated = UserController::update(Some(stored_user()), body).unwrap();
    assert_eq!(updated.firstname, "Augusta");
    assert_eq!(updated.lastname, "Lovelace");
    assert_eq!(updated.password, "$hashed$");
    assert_eq!(updated.email, "ada@maths.org");
    assert_eq!(updated.username, "ada");
    assert_eq!(updated.id, Some(12345));
    let none = UserController::update(
        None,
        UpdateUserBody { firstname: None, lastname: None, password: None, email: None },
    );
    assert!(none.is_none());
}
