//! Users as the service stores them, their public projection, the request
//! bodies that concern them, and the decisions behind the account
//! endpoints: sign-up, sign-in, profile reads and per-field updates.
//!
//! Credential hashing, token issuance and the user store are external
//! collaborators: the decisions here receive their outcomes (the hashed
//! password, whether a password matched, the loaded user) as plain values.

use vstd::prelude::*;
use vstd::string::StrSliceExecFns;
use vstd::string::StringExecFns;

use crate::common_validators::{email_ok, name_ok, password_ok, username_ok};
use crate::error::ApiError;
use crate::string_validator::unicode_whitespace;
use crate::user_validator::{CreateUserBodyValidationResult, SignInValidationResult};
use crate::validator::BodyValidationHelpers;

verus! {

/// A stored user account; the password field holds the hash, never the
/// plain credential.
#[derive(Debug, Clone)]
pub struct User {
    pub id: Option<u64>,
    pub firstname: String,
    pub lastname: String,
    pub password: String,
    pub email: String,
    pub username: String,
}

/// The projection of a [`User`] that leaves the crate: everything but the
/// password hash, with the id rendered in decimal.
#[derive(Debug, Clone)]
pub struct PublicUser {
    pub id: String,
    pub firstname: String,
    pub lastname: String,
    pub email: String,
    pub username: String,
}

/// Body of a sign-up request.
#[derive(Debug, Clone)]
pub struct CreateUserBody {
    pub firstname: String,
    pub lastname: String,
    pub password: String,
    pub email: String,
    pub username: String,
}

/// Body of a sign-in request: the login is an e-mail address or a
/// username.
#[derive(Debug, Clone)]
pub struct SignInBody {
    pub login: String,
    pub password: String,
}

/// Body of a profile update; absent fields are left untouched.
#[derive(Debug, Clone)]
pub struct UpdateUserBody {
    pub firstname: Option<String>,
    pub lastname: Option<String>,
    pub password: Option<String>,
    pub email: Option<String>,
}

/// The response to a successful sign-up or sign-in: a bearer token.
#[derive(Debug, Clone)]
pub struct UserAuthResponse {
    pub token: String,
}

/// The claims carried by a bearer token: the subject (a user id rendered
/// in decimal) and the expiry as a Unix timestamp.
#[derive(Debug, Clone)]
pub struct TokenClaims {
    pub sub: String,
    pub exp: i64,
}

/// The decimal digit character for `d`.
pub open spec fn dec_digit(d: nat) -> char {
    if d == 0 {
        '0'
    } else if d == 1 {
        '1'
    } else if d == 2 {
        '2'
    } else if d == 3 {
        '3'
    } else if d == 4 {
        '4'
    } else if d == 5 {
        '5'
    } else if d == 6 {
        '6'
    } else if d == 7 {
        '7'
    } else if d == 8 {
        '8'
    } else {
        '9'
    }
}

/// The decimal rendering of `n`, most significant digit first, without
/// leading zeroes.
pub open spec fn dec_digits(n: nat) -> Seq<char>
    decreases n,
{
    if n < 10 {
        seq![dec_digit(n)]
    } else {
        dec_digits(n / 10).push(dec_digit(n % 10))
    }
}

/// Appends the digit character for `d`.
fn push_dec_digit(out: &mut String, d: u64)
    requires
        d < 10,
    ensures
        final(out)@ == old(out)@.push(dec_digit(d as nat)),
{
    match d {
        0 => out.append("0"),
        1 => out.append("1"),
        2 => out.append("2"),
        3 => out.append("3"),
        4 => out.append("4"),
        5 => out.append("5"),
        6 => out.append("6"),
        7 => out.append("7"),
        8 => out.append("8"),
        _ => out.append("9"),
    }
    proof {
        reveal_strlit("0");
        reveal_strlit("1");
        reveal_strlit("2");
        reveal_strlit("3");
        reveal_strlit("4");
        reveal_strlit("5");
        reveal_strlit("6");
        reveal_strlit("7");
        reveal_strlit("8");
        reveal_strlit("9");
        assert(final(out)@ =~= old(out)@.push(dec_digit(d as nat)));
    }
}

/// Appends the decimal rendering of `n`.
fn write_dec(n: u64, out: &mut String)
    ensures
        final(out)@ == old(out)@ + dec_digits(n as nat),
    decreases n,
{
    if n >= 10 {
        write_dec(n / 10, out);
    }
    let ghost mid = out@;
    push_dec_digit(out, n % 10);
    proof {
        if n < 10 {
            assert(final(out)@ =~= old(out)@ + dec_digits(n as nat));
        } else {
            assert(mid == old(out)@ + dec_digits((n / 10) as nat));
            assert(final(out)@ =~= old(out)@ + dec_digits(n as nat));
        }
    }
}

/// The decimal rendering of `n` as a string.
pub fn to_dec_string(n: u64) -> (rendered: String)
    ensures
        rendered@ == dec_digits(n as nat),
{
    let mut out = String::new();
    write_dec(n, &mut out);
    proof {
        assert(Seq::<char>::empty() + dec_digits(n as nat) =~= dec_digits(n as nat));
    }
    out
}

impl PublicUser {
    /// The public projection of a stored user: the password hash is
    /// dropped and the id, when assigned, is rendered in decimal.
    pub fn from_user(user: User) -> (public: PublicUser)
        ensures
            public.id@ == match user.id {
                Some(v) => dec_digits(v as nat),
                None => Seq::<char>::empty(),
            },
            public.firstname == user.firstname,
            public.lastname == user.lastname,
            public.email == user.email,
            public.username == user.username,
    {
        let id = match user.id {
            Some(v) => to_dec_string(v),
            None => String::new(),
        };
        PublicUser {
            id,
            firstname: user.firstname,
            lastname: user.lastname,
            email: user.email,
            username: user.username,
        }
    }
}

/// The position of the first non-whitespace character at or after `from`,
/// or the length when none follows.
pub open spec fn skip_ws(s: Seq<char>, from: int) -> int
    decreases s.len() - from,
{
    if from < 0 || from >= s.len() {
        s.len() as int
    } else if unicode_whitespace(s[from]) {
        skip_ws(s, from + 1)
    } else {
        from
    }
}

/// The position of the first whitespace character at or after `from`, or
/// the length when none follows.
pub open spec fn skip_word(s: Seq<char>, from: int) -> int
    decreases s.len() - from,
{
    if from < 0 || from >= s.len() {
        s.len() as int
    } else if !unicode_whitespace(s[from]) {
        skip_word(s, from + 1)
    } else {
        from
    }
}

/// A well-shaped authorization header: exactly two whitespace-separated
/// words, the first being `Bearer`. The bounds of the two words are the
/// scan positions of [`skip_ws`] and [`skip_word`].
pub open spec fn bearer_token_shape(s: Seq<char>) -> bool {
    let i0 = skip_ws(s, 0);
    let i1 = skip_word(s, i0);
    let i2 = skip_ws(s, i1);
    let i3 = skip_word(s, i2);
    &&& i0 < i1
    &&& i2 < i3
    &&& skip_ws(s, i3) == s.len()
    &&& s.subrange(i0, i1) == "Bearer"@
}

/// The token of a well-shaped authorization header: its second word.
pub open spec fn bearer_token_of(s: Seq<char>) -> Seq<char> {
    let i1 = skip_word(s, skip_ws(s, 0));
    let i2 = skip_ws(s, i1);
    s.subrange(i2, skip_word(s, i2))
}

/// The bearer credential of an authorization header: the second of
/// exactly two whitespace-separated words, the first being `Bearer`;
/// every other header is rejected as unauthorized.
pub fn get_token_from_auth_string(auth: &str) -> (token: Result<String, ApiError>)
    ensures
        bearer_token_shape(auth@) ==> (token matches Ok(t) && t@ == bearer_token_of(auth@)),
        !bearer_token_shape(auth@) ==> (token matches Err(e) && e.status == 401 && e.msg@
            == "invalid token string"@),
{
    let n = auth.unicode_len();
    let mut i0: usize = 0;
    while i0 < n
        invariant_except_break
            i0 <= n,
            n == auth@.len(),
            skip_ws(auth@, 0) == skip_ws(auth@, i0 as int),
        ensures
            i0 <= n,
            n == auth@.len(),
            skip_ws(auth@, 0) == i0 as int,
        decreases n - i0,
    {
        if !crate::string_validator::char_is_whitespace(auth.get_char(i0)) {
            proof {
                assert(skip_ws(auth@, i0 as int) == i0 as int);
            }
            break ;
        }
        i0 += 1;
    }
    let mut i1: usize = i0;
    while i1 < n
        invariant_except_break
            i0 <= i1 <= n,
            n == auth@.len(),
            skip_word(auth@, i0 as int) == skip_word(auth@, i1 as int),
        ensures
            i0 <= i1 <= n,
            n == auth@.len(),
            skip_word(auth@, i0 as int) == i1 as int,
        decreases n - i1,
    {
        if crate::string_validator::char_is_whitespace(auth.get_char(i1)) {
            proof {
                assert(skip_word(auth@, i1 as int) == i1 as int);
            }
            break ;
        }
        i1 += 1;
    }
    let mut i2: usize = i1;
    while i2 < n
        invariant_except_break
            i1 <= i2 <= n,
            n == auth@.len(),
            skip_ws(auth@, i1 as int) == skip_ws(auth@, i2 as int),
        ensures
            i1 <= i2 <= n,
            n == auth@.len(),
            skip_ws(auth@, i1 as int) == i2 as int,
        decreases n - i2,
    {
        if !crate::string_validator::char_is_whitespace(auth.get_char(i2)) {
            proof {
                assert(skip_ws(auth@, i2 as int) == i2 as int);
            }
            break ;
        }
        i2 += 1;
    }
    let mut i3: usize = i2;
    while i3 < n
        invariant_except_break
            i2 <= i3 <= n,
            n == auth@.len(),
            skip_word(auth@, i2 as int) == skip_word(auth@, i3 as int),
        ensures
            i2 <= i3 <= n,
            n == auth@.len(),
            skip_word(auth@, i2 as int) == i3 as int,
        decreases n - i3,
    {
        if crate::string_validator::char_is_whitespace(auth.get_char(i3)) {
            proof {
                assert(skip_word(auth@, i3 as int) == i3 as int);
            }
            break ;
        }
        i3 += 1;
    }
    let mut i4: usize = i3;
    while i4 < n
        invariant_except_break
            i3 <= i4 <= n,
            n == auth@.len(),
            skip_ws(auth@, i3 as int) == skip_ws(auth@, i4 as int),
        ensures
            i3 <= i4 <= n,
            n == auth@.len(),
            skip_ws(auth@, i3 as int) == i4 as int,
        decreases n - i4,
    {
        if !crate::string_validator::char_is_whitespace(auth.get_char(i4)) {
            proof {
                assert(skip_ws(auth@, i4 as int) == i4 as int);
            }
            break ;
        }
        i4 += 1;
    }
    proof {
        reveal_strlit("Bearer");
    }
    if i0 == i1 || i2 == i3 || i4 != n {
        return Err(ApiError::new(401).set_msg("invalid token string"));
    }
    if i1 - i0 != 6 {
        proof {
            assert(auth@.subrange(i0 as int, i1 as int).len() != "Bearer"@.len());
        }
        return Err(ApiError::new(401).set_msg("invalid token string"));
    }
    let mut j: usize = 0;
    while j < 6
        invariant
            j <= 6,
            n == auth@.len(),
            i0 + 6 == i1 <= n,
            i0 < i1,
            i2 < i3 <= n,
            skip_ws(auth@, 0) == i0 as int,
            skip_word(auth@, i0 as int) == i1 as int,
            skip_ws(auth@, i1 as int) == i2 as int,
            skip_word(auth@, i2 as int) == i3 as int,
            skip_ws(auth@, i3 as int) == i4 as int,
            i4 == n,
            forall|p: int| 0 <= p < j ==> auth@[i0 + p] == "Bearer"@[p],
        decreases 6 - j,
    {
        let expected = "Bearer";
        proof {
            reveal_strlit("Bearer");
        }
        if auth.get_char(i0 + j) != expected.get_char(j) {
            proof {
                assert(auth@.subrange(i0 as int, i1 as int)[j as int] != "Bearer"@[j as int]);
                assert(auth@.subrange(i0 as int, i1 as int) != "Bearer"@);
            }
            return Err(ApiError::new(401).set_msg("invalid token string"));
        }
        j += 1;
    }
    proof {
        assert(auth@.subrange(i0 as int, i1 as int) =~= "Bearer"@);
        assert(bearer_token_shape(auth@));
    }
    let piece = auth.substring_char(i2, i3);
    Ok(piece.to_owned())
}

/// Decides the account endpoints' outcomes. Password hashing and
/// verification, uniqueness queries and token issuance happen outside;
/// their results arrive as plain values.
pub struct AuthController;

impl AuthController {
    /// The sign-up decision: the body must validate, then the e-mail and
    /// the username must be free; an accepted sign-up yields the user
    /// document to persist, carrying the hashed password.
    pub fn sign_up(
        body: CreateUserBody,
        hashed_password: String,
        email_taken: bool,
        username_taken: bool,
    ) -> (outcome: Result<User, ApiError>)
        ensures
            ({
                let ok = email_ok(body.email@) && name_ok(body.firstname@) && name_ok(
                    body.lastname@,
                ) && username_ok(body.username@) && password_ok(body.password@);
                &&& outcome is Ok <==> (ok && !email_taken && !username_taken)
                &&& !ok ==> (outcome matches Err(e) && e.status == 422 && e.msg@
                    == "failed to validate body"@)
                &&& (ok && email_taken) ==> (outcome matches Err(e) && e.status == 409 && e.msg@
                    == "email already in use"@)
                &&& (ok && !email_taken && username_taken) ==> (outcome matches Err(e) && e.status
                    == 409 && e.msg@ == "username already in use"@)
                &&& (outcome matches Ok(u) ==> u == (User {
                    id: None,
                    email: body.email,
                    firstname: body.firstname,
                    lastname: body.lastname,
                    password: hashed_password,
                    username: body.username,
                }))
            }),
    {
        let validation = CreateUserBodyValidationResult::new(&body);
        if !validation.is_valid() {
            return Err(
                ApiError::new(422).set_msg("failed to validate body").set_validation(
                    validation.to_vec(),
                ),
            );
        }
        if email_taken {
            return Err(ApiError::new(409).set_msg("email already in use"));
        }
        if username_taken {
            return Err(ApiError::new(409).set_msg("username already in use"));
        }
        Ok(
            User {
                id: None,
                email: body.email,
                firstname: body.firstname,
                lastname: body.lastname,
                password: hashed_password,
                username: body.username,
            },
        )
    }

    /// The sign-in decision: the password must have an admissible shape,
    /// the login must resolve to a user, and the password must match that
    /// user's hash; success yields the authenticated user.
    pub fn sign_in(body: SignInBody, found_user: Option<User>, password_matches: bool) -> (outcome:
        Result<User, ApiError>)
        ensures
            !password_ok(body.password@) ==> (outcome matches Err(e) && e.status == 422 && e.msg@
                == "invalid request body"@),
            password_ok(body.password@) && found_user is None ==> (outcome matches Err(e)
                && e.status == 404 && e.msg@ == "user not found"@),
            (password_ok(body.password@) && found_user is Some && !password_matches) ==> (outcome
                matches Err(e) && e.status == 400 && e.msg@
                == "login and password does not match any user"@),
            password_ok(body.password@) && password_matches ==> (found_user matches Some(u)
                ==> outcome == Ok::<User, ApiError>(u)),
    {
        let validation = SignInValidationResult::new(&body);
        if !validation.is_valid() {
            return Err(ApiError::new(422).set_msg("invalid request body"));
        }
        let user = match found_user {
            None => {
                return Err(ApiError::new(404).set_msg("user not found"));
            },
            Some(u) => u,
        };
        if !password_matches {
            return Err(ApiError::new(400).set_msg("login and password does not match any user"));
        }
        Ok(user)
    }
}

/// Serves and updates user profiles.
pub struct UserController {}

impl UserController {
    /// Resolves a fetched user, or reports that the id matched nobody.
    pub fn get(found: Option<User>) -> (outcome: Result<User, ApiError>)
        ensures
            match found {
                None => outcome matches Err(e) && e.status == 404 && e.msg@ == "user not found"@,
                Some(u) => outcome == Ok::<User, ApiError>(u),
            },
    {
        match found {
            None => Err(ApiError::new(404).set_msg("user not found")),
            Some(u) => Ok(u),
        }
    }

    /// Applies a per-field profile update to a fetched user: provided
    /// fields replace the stored ones, absent fields are left untouched;
    /// the id and the username never change.
    pub fn update(found: Option<User>, body: UpdateUserBody) -> (outcome: Option<User>)
        ensures
            match found {
                None => outcome is None,
                Some(u) => outcome matches Some(updated) && updated == (User {
                    firstname: match body.firstname {
                        Some(f) => f,
                        None => u.firstname,
                    },
                    lastname: match body.lastname {
                        Some(l) => l,
                        None => u.lastname,
                    },
                    password: match body.password {
                        Some(p) => p,
                        None => u.password,
                    },
                    email: match body.email {
                        Some(m) => m,
                        None => u.email,
                    },
                    ..u
                }),
            },
    {
        let user = match found {
            None => {
                return None;
            },
            Some(u) => u,
        };
        let firstname = match body.firstname {
            Some(f) => f,
            None => user.firstname,
        };
        let lastname = match body.lastname {
            Some(l) => l,
            None => user.lastname,
        };
        let password = match body.password {
            Some(p) => p,
            None => user.password,
        };
        let email = match body.email {
            Some(m) => m,
            None => user.email,
        };
        Some(
            User { id: user.id, firstname, lastname, password, email, username: user.username },
        )
    }
}

} // verus!
