use vstd::prelude::*;

use crate::errors::AppError;
use crate::jwt::{claims_view, create_token, token_claims, token_lifetime};
use crate::models::{LoginCredentials, LoginResponse, NewUser, User, UserView};
use crate::store::{Store, StoreView};

verus! {

/// Whether a password matches a bcrypt hash string. bcrypt verification
/// recomputes the hash from the password and the salt and cost embedded in
/// the hash string, so this is a function of the two strings alone.
pub uninterp spec fn bcrypt_matches(password: Seq<char>, hash: Seq<char>) -> bool;

#[verifier::external_type_specification]
#[verifier::external_body]
pub struct ExBcryptError(bcrypt::BcryptError);

/// Relies on bcrypt::hash with the crate's default cost: the hash string
/// it returns verifies against the hashed password (bcrypt::verify
/// recomputes the hash from the salt and cost embedded in the string).
/// The salt is drawn from the OS, so nothing else is promised.
#[verifier::external_body]
fn hash_password(password: &str) -> (r: Result<String, bcrypt::BcryptError>)
    ensures
        r matches Ok(h) ==> bcrypt_matches(password@, h@),
{
    bcrypt::hash(password, bcrypt::DEFAULT_COST)
}

/// Relies on bcrypt::verify: whether a password matches a bcrypt hash is a
/// function of the two strings alone. Failure comes only from a hash
/// string that does not parse as a bcrypt hash (or carries a cost outside
/// the allowed range), and such a pair can never verify, so an error also
/// refutes the match.
#[verifier::external_body]
fn verify_password(password: &str, hash: &str) -> (r: Result<bool, bcrypt::BcryptError>)
    ensures
        r matches Ok(b) ==> b == bcrypt_matches(password@, hash@),
        r is Err ==> !bcrypt_matches(password@, hash@),
{
    bcrypt::verify(password, hash)
}

/// The store after registering a user: one row appended, with the next
/// user id, the hashed password, no admin rights, and both timestamps
/// equal to `now`.
pub open spec fn register_view(
    s: StoreView,
    username: Seq<char>,
    hash: Seq<char>,
    now: int,
) -> StoreView {
    StoreView {
        users: s.users.push(
            UserView {
                id: s.next_user_id,
                username: username,
                password: hash,
                is_admin: false,
                created_at: now,
                updated_at: now,
            },
        ),
        next_user_id: s.next_user_id + 1,
        ..s
    }
}

/// Registers a new account. The password is one-way hashed before it is
/// stored; a taken username is reported as [`AppError::UsernameTakenError`]
/// and nothing else can claim that variant.
pub fn register(store: &mut Store, user_data: &LoginCredentials, now: i64) -> (r: Result<
    (),
    AppError,
>)
    requires
        old(store)@.wf(),
    ensures
        final(store)@.wf(),
        r is Err ==> final(store)@ == old(store)@,
        (r matches Err(e) && e is UsernameTakenError) <==> old(store)@.has_username(
            user_data.username@,
        ),
        old(store)@.has_username(user_data.username@) || old(store)@.next_user_id == i32::MAX
            ==> r is Err,
        r matches Err(e) ==> ({
            let s = old(store)@;
            if s.has_username(user_data.username@) {
                e matches AppError::UsernameTakenError(m) && m@ == "Username already exists"@
            } else if s.next_user_id == i32::MAX {
                e matches AppError::DatabaseError(m) && m@ == "Failed to create user"@
            } else {
                e matches AppError::DatabaseError(m) && m@ == "Password hashing failed"@
            }
        }),
        r is Ok ==> ({
            let stored = final(store)@.users.last();
            &&& !old(store)@.has_username(user_data.username@)
            &&& bcrypt_matches(user_data.password@, stored.password)
            &&& final(store)@ == register_view(
                old(store)@,
                user_data.username@,
                stored.password,
                now as int,
            )
        }),
{
    if store.find_user_by_name(&user_data.username).is_some() {
        return Err(AppError::UsernameTakenError("Username already exists".to_owned()));
    }
    if store.next_user_id == i32::MAX {
        return Err(AppError::DatabaseError("Failed to create user".to_owned()));
    }
    let hash = match hash_password(user_data.password.as_str()) {
        Ok(h) => h,
        Err(_) => {
            return Err(AppError::DatabaseError("Password hashing failed".to_owned()));
        },
    };
    let new_user = NewUser { username: user_data.username.clone(), password: hash, is_admin: false };
    let id = store.next_user_id;
    let row = User {
        id,
        username: new_user.username,
        password: new_user.password,
        is_admin: new_user.is_admin,
        created_at: now,
        updated_at: now,
    };
    store.users.push(row);
    store.next_user_id = id + 1;
    proof {
        let s0 = old(store)@;
        let s1 = store@;
        assert(s1.users =~= s0.users.push(s1.users.last()));
        assert(s1 =~= register_view(s0, user_data.username@, s1.users.last().password, now as int));
        s0.lemma_news_lookups(s1);
        s0.lemma_category_lookups(s1);
        assert forall|i: int| 0 <= i < s1.news_categories.len() implies s1.has_news(
            #[trigger] s1.news_categories[i].news_id,
        ) && s1.has_category(s1.news_categories[i].category_id) by {
            assert(s1.news_categories[i] == s0.news_categories[i]);
            assert(s0.has_news(s0.news_categories[i].news_id));
            assert(s0.has_category(s0.news_categories[i].category_id));
        }
    }
    Ok(())
}

/// A login attempt is valid when the username names an account and the
/// password matches its stored hash.
pub open spec fn credentials_valid(s: StoreView, username: Seq<char>, password: Seq<char>) -> bool {
    s.has_username(username) && bcrypt_matches(password, s.user_by_name(username).password)
}

/// The uniform rejection of a login attempt: the same variant and the same
/// message whether the username is unknown or the password is wrong, so
/// that a caller cannot tell which it was.
pub open spec fn is_invalid_credentials_error(r: Result<LoginResponse, AppError>) -> bool {
    r matches Err(e) && (e matches AppError::InvalidCredentialsError(m) && m@
        == "Invalid credentials"@)
}

/// Checks a username/password pair: a valid pair is answered with a token
/// that expires 24 hours after `now` and the account's admin flag, and an
/// invalid one — unknown username and wrong password alike — with the one
/// uniform rejection.
pub fn login(store: &Store, credentials: &LoginCredentials, secret: &str, now: i64) -> (r: Result<
    LoginResponse,
    AppError,
>)
    requires
        store@.wf(),
        0 <= now,
        now + token_lifetime() <= i64::MAX,
        now + token_lifetime() <= usize::MAX,
    ensures
        r is Ok <==> credentials_valid(store@, credentials.username@, credentials.password@),
        !credentials_valid(store@, credentials.username@, credentials.password@)
            ==> is_invalid_credentials_error(r),
        r matches Ok(resp) ==> ({
            let u = store@.user_by_name(credentials.username@);
            &&& resp.is_admin == u.is_admin
            &&& token_claims(resp.token@, secret@) == Some(
                claims_view(u.id, u.username, u.is_admin, now + token_lifetime()),
            )
        }),
{
    let idx = match store.find_user_by_name(&credentials.username) {
        Some(i) => i,
        None => {
            return Err(AppError::InvalidCredentialsError("Invalid credentials".to_owned()));
        },
    };
    let user = &store.users[idx];
    proof {
        store@.lemma_user_index_is(credentials.username@, idx as int);
    }
    let matched = match verify_password(credentials.password.as_str(), user.password.as_str()) {
        Ok(b) => b,
        Err(_) => {
            return Err(AppError::InvalidCredentialsError("Invalid credentials".to_owned()));
        },
    };
    if !matched {
        return Err(AppError::InvalidCredentialsError("Invalid credentials".to_owned()));
    }
    let token = create_token(user.id, user.username.as_str(), user.is_admin, secret, now).unwrap();
    Ok(LoginResponse { token, is_admin: user.is_admin })
}

} // verus!
