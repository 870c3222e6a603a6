use vstd::prelude::*;
use crate::db::{create_user, find_user_by_username, spec_find_user, spec_has_username, Database};
use crate::errors::AppError;
use crate::models::{AuthResponse, LoginUser, RegisterUser, User};
use crate::password::{bcrypt_matches, bcrypt_valid_hash, hash_password, verify_password};
use crate::token::{current_timestamp, encode_token, token_claims, token_of, JwtSecret};

verus! {

/// bcrypt work factor used for registration.
pub const HASH_COST: u32 = 10;

/// How long an issued token stays valid, in seconds: one day.
pub const SESSION_SECS: u64 = 86400;

/// The one message for every credential failure of login, the same whether
/// the username is unknown or the password wrong, so that the error body
/// does not reveal which usernames exist.
pub open spec fn invalid_credentials_msg() -> Seq<char> {
    "Invalid username or password"@
}

/// Registers a new user: hashes the password with the salted one-way
/// function and persists the username with the hash, never the plaintext.
/// A taken username is a `Conflict`; a hashing or store fault is an
/// `InternalServerError`, and then nothing was stored.
pub fn register_user(db: &mut Database, new_user: RegisterUser) -> (r: Result<User, AppError>)
    requires
        old(db).wf(),
        new_user.username@.len() > 0,
    ensures
        final(db).wf(),
        spec_has_username(old(db)@, new_user.username@) ==> (r matches Err(
            AppError::Conflict(m),
        ) && m@ == "Username already taken"@),
        match r {
            Ok(u) => {
                &&& !spec_has_username(old(db)@, new_user.username@)
                &&& u.username@ == new_user.username@
                &&& bcrypt_valid_hash(u.password_hash@)
                &&& bcrypt_matches(new_user.password@, u.password_hash@)
                &&& final(db)@.users == old(db)@.users.push(u)
                &&& final(db)@.payments == old(db)@.payments
                &&& final(db)@.properties == old(db)@.properties
                &&& spec_has_username(final(db)@, new_user.username@)
                &&& spec_find_user(final(db)@, new_user.username@) == Some(u)
                &&& final(db)@.next_id == old(db)@.next_id + 1
                &&& final(db)@.next_stamp == old(db)@.next_stamp + 1
            },
            Err(e) => {
                &&& final(db)@ == old(db)@
                &&& (e is Conflict <==> spec_has_username(old(db)@, new_user.username@))
                &&& (e is Conflict || e is InternalServerError)
            },
        },
{
    if find_user_by_username(db, new_user.username.as_str()).is_some() {
        return Err(AppError::Conflict("Username already taken".to_owned()));
    }
    let hashed = match hash_password(new_user.password.as_str(), HASH_COST) {
        Ok(h) => h,
        Err(()) => {
            return Err(AppError::InternalServerError("Failed to hash password".to_owned()));
        },
    };
    let result = create_user(db, new_user, hashed);
    proof {
        match &result {
            Ok(u) => {
                let n = db@.users.len() - 1;
                assert(db@.users[n] == u);
                assert(spec_has_username(db@, u.username@));
                let w = choose|i: int|
                    0 <= i < db@.users.len() && db@.users[i].username@ == u.username@;
                if w != n {
                    assert(db@.users[w].username@ != db@.users[n].username@);
                }
            },
            Err(_) => {},
        }
    }
    result
}

/// Logs a user in against the store as of the given time, in seconds since
/// the epoch: looks the username up, verifies the password against the
/// stored hash, and on a match issues a bearer token carrying the user's id
/// and username with an expiry one day ahead, signed with the server-held
/// secret. An unknown username and a wrong password fail with the same
/// `Unauthorized` message; a verification fault or an expiry overflow is an
/// `InternalServerError`.
pub fn login_user_at(db: &Database, secret: &JwtSecret, login_data: LoginUser, now: u64) -> (r:
    Result<AuthResponse, AppError>)
    requires
        db.wf(),
    ensures
        match spec_find_user(db@, login_data.username@) {
            None => r matches Err(AppError::Unauthorized(m)) && m@ == invalid_credentials_msg(),
            Some(u) => {
                if !bcrypt_valid_hash(u.password_hash@) {
                    r matches Err(e) && e is InternalServerError
                } else if !bcrypt_matches(login_data.password@, u.password_hash@) {
                    r matches Err(AppError::Unauthorized(m)) && m@ == invalid_credentials_msg()
                } else if now > u64::MAX - SESSION_SECS {
                    r matches Err(e) && e is InternalServerError
                } else {
                    r matches Ok(resp) && resp.user_id == u.id && resp.username@ == u.username@
                        && resp.token@ == token_of(
                        u.id,
                        u.username@,
                        (now + SESSION_SECS) as u64,
                        secret@,
                    ) && token_claims(resp.token@, secret@) == Some(
                        (u.id, u.username@, (now + SESSION_SECS) as u64),
                    )
                }
            },
        },
{
    let user = match find_user_by_username(db, login_data.username.as_str()) {
        Some(u) => u,
        None => {
            return Err(AppError::Unauthorized("Invalid username or password".to_owned()));
        },
    };
    let passwords_match = match verify_password(
        login_data.password.as_str(),
        user.password_hash.as_str(),
    ) {
        Ok(b) => b,
        Err(()) => {
            return Err(
                AppError::InternalServerError("Password verification error".to_owned()),
            );
        },
    };
    if !passwords_match {
        return Err(AppError::Unauthorized("Invalid username or password".to_owned()));
    }
    if now > u64::MAX - SESSION_SECS {
        return Err(
            AppError::InternalServerError("Failed to calculate token expiration".to_owned()),
        );
    }
    let expiration_time = now + SESSION_SECS;
    let token = encode_token(user.id, user.username.as_str(), expiration_time, secret.secret_str());
    Ok(AuthResponse { user_id: user.id, username: user.username, token })
}

/// Logs a user in at the current time. What the clock returns is not
/// pinned, so this contract states what holds of the outcome for any time:
/// an unknown username or a wrong password is the one `Unauthorized`
/// message, a malformed stored hash or an expiry overflow is an
/// `InternalServerError`, and a successful response carries the user's id
/// in its token's subject. `login_user_at` states the exact token for a
/// known time.
pub fn login_user(db: &Database, secret: &JwtSecret, login_data: LoginUser) -> (r: Result<
    AuthResponse,
    AppError,
>)
    requires
        db.wf(),
    ensures
        match spec_find_user(db@, login_data.username@) {
            None => r matches Err(AppError::Unauthorized(m)) && m@ == invalid_credentials_msg(),
            Some(u) => match r {
                Ok(resp) => {
                    &&& bcrypt_valid_hash(u.password_hash@)
                    &&& bcrypt_matches(login_data.password@, u.password_hash@)
                    &&& resp.user_id == u.id
                    &&& resp.username@ == u.username@
                    &&& exists|e: u64|
                        token_claims(resp.token@, secret@) == Some((u.id, u.username@, e))
                },
                Err(e) => {
                    &&& (bcrypt_valid_hash(u.password_hash@) && !bcrypt_matches(
                        login_data.password@,
                        u.password_hash@,
                    ) ==> (e matches AppError::Unauthorized(m) && m@ == invalid_credentials_msg()))
                    &&& (!bcrypt_valid_hash(u.password_hash@) ==> e is InternalServerError)
                    &&& (bcrypt_valid_hash(u.password_hash@) && bcrypt_matches(
                        login_data.password@,
                        u.password_hash@,
                    ) ==> e is InternalServerError)
                    &&& (e is Unauthorized || e is InternalServerError)
                },
            },
        },
{
    let t = current_timestamp();
    let now: u64 = if t < 0 {
        0
    } else {
        t as u64
    };
    login_user_at(db, secret, login_data, now)
}

} // verus!
