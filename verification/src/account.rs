//! Accounts: the rules for registering a user and for logging one in.

use rand::Rng;
use vstd::prelude::*;
use vstd::string::*;
use crate::error::{ApiError, ApiErrorView};
use crate::session::{Lookup, User, UserView};
use crate::text::{hex_text, lemma_hex_text_len};

verus! {

/// Whether the regular expression `pattern` matches somewhere in `text`;
/// `None` where `pattern` is not a regular expression.
pub uninterp spec fn regex_match(pattern: Seq<char>, text: Seq<char>) -> Option<bool>;

/// What `bcrypt` makes of checking `secret` against `hash`: whether they
/// agree, or the text of the error where `hash` is not a bcrypt hash.
pub uninterp spec fn bcrypt_check(secret: Seq<char>, hash: Seq<char>) -> Result<bool, Seq<char>>;

/// Searches `text` with `regex::Regex::new` and `Regex::is_match`. Trusted:
/// the answer is that of the `regex` crate for this pattern and text.
#[verifier::external_body]
fn regex_is_match(pattern: &str, text: &str) -> (r: Option<bool>)
    ensures
        r == regex_match(pattern@, text@),
{
    match regex::Regex::new(pattern) {
        Ok(compiled) => Some(compiled.is_match(text)),
        Err(_) => None,
    }
}

/// Hashes with `bcrypt::hash` at `bcrypt::DEFAULT_COST`. The salt is random,
/// so the hash is not determined by `secret`. Trusted: a hash that comes back
/// is one that `secret` checks against; an error comes back as its text.
#[verifier::external_body]
fn bcrypt_hash(secret: &str) -> (r: Result<String, String>)
    ensures
        match r {
            Ok(hash) => bcrypt_check(secret@, hash@) == Ok::<bool, Seq<char>>(true),
            Err(_) => true,
        },
{
    match bcrypt::hash(secret, bcrypt::DEFAULT_COST) {
        Ok(hash) => Ok(hash),
        Err(fault) => Err(fault.to_string()),
    }
}

/// Checks with `bcrypt::verify`. Trusted: the answer is that of `bcrypt` for
/// this secret and hash, an error being given as its text.
#[verifier::external_body]
fn bcrypt_verify(secret: &str, hash: &str) -> (r: Result<bool, String>)
    ensures
        match r {
            Ok(agrees) => bcrypt_check(secret@, hash@) == Ok::<bool, Seq<char>>(agrees),
            Err(fault) => bcrypt_check(secret@, hash@) == Err::<bool, Seq<char>>(fault@),
        },
{
    match bcrypt::verify(secret, hash) {
        Ok(agrees) => Ok(agrees),
        Err(fault) => Err(fault.to_string()),
    }
}

/// Draws one byte with `rand::thread_rng`. Trusted only to return.
#[verifier::external_body]
fn random_byte() -> u8 {
    rand::thread_rng().gen()
}

/// Encodes with `hex::encode`. Trusted: each byte becomes two lower-case
/// hexadecimal digits, the high one first.
#[verifier::external_body]
fn hex_encode(bytes: &Vec<u8>) -> (r: String)
    ensures
        r@ == hex_text(bytes@),
{
    hex::encode(bytes)
}

/// A random string of hexadecimal digits: one pair of digits for each two
/// characters asked for, so an odd `length` gives one digit less.
pub fn generate_random_hex(length: usize) -> (r: String)
    ensures
        r@.len() == 2 * (length / 2),
        exists|bytes: Seq<u8>| bytes.len() == length / 2 && r@ == hex_text(bytes),
{
    let num_bytes = length / 2;
    let mut bytes: Vec<u8> = Vec::new();
    while bytes.len() < num_bytes
        invariant
            bytes.len() <= num_bytes,
        decreases num_bytes - bytes.len(),
    {
        bytes.push(random_byte());
    }
    proof {
        lemma_hex_text_len(bytes@);
    }
    hex_encode(&bytes)
}

/// What is hashed for a user: the alias, the password, and the
/// installation's salt, in that order.
pub open spec fn salted(alias: Seq<char>, password: Seq<char>, salt: Seq<char>) -> Seq<char> {
    alias + password + salt
}

fn salt_password(alias: &str, password: &str, salt: &str) -> (r: String)
    ensures
        r@ == salted(alias@, password@, salt@),
{
    let mut r = String::from_str(alias);
    r.append(password);
    r.append(salt);
    r
}

/// What the hashing gave, as the service reports it: the hash, or a 500 that
/// quotes the failure.
pub fn hashed(outcome: Result<String, String>) -> (r: Result<String, ApiError>)
    ensures
        match outcome {
            Ok(hash) => r matches Ok(h) && h@ == hash@,
            Err(fault) => r matches Err(e) && e@ == (ApiErrorView {
                code: 500,
                message: "Hashing error: "@ + fault@,
            }),
        },
{
    match outcome {
        Ok(hash) => Ok(hash),
        Err(fault) => Err(ApiError::with_detail(500, "Hashing error: ", fault.as_str())),
    }
}

/// Whether `e` reports that the hashing failed.
pub open spec fn is_hashing_error(e: ApiErrorView) -> bool {
    e.code == 500 && exists|fault: Seq<char>| e.message == "Hashing error: "@ + fault
}

/// Hashes the password of the user `alias`. The hash differs from call to
/// call; each one checks against the same salted password. A failure of the
/// hashing is a 500 that quotes it.
pub fn hash_password(password: &str, alias: &str, salt: &str) -> (r: Result<String, ApiError>)
    ensures
        match r {
            Ok(hash) => bcrypt_check(salted(alias@, password@, salt@), hash@) == Ok::<
                bool,
                Seq<char>,
            >(true),
            Err(e) => is_hashing_error(e@),
        },
{
    let secret = salt_password(alias, password, salt);
    let outcome = bcrypt_hash(secret.as_str());
    let ghost fault = if outcome is Err {
        outcome->Err_0@
    } else {
        Seq::<char>::empty()
    };
    let r = hashed(outcome);
    proof {
        if r is Err {
            assert(r->Err_0@.message == "Hashing error: "@ + fault);
        }
    }
    r
}

/// The number of bytes that `s` takes in UTF-8, as `str::len` counts them.
pub open spec fn utf8_len(s: Seq<char>) -> usize {
    vstd::utf8::encode_utf8(s).len() as usize
}

/// What is wrong with a new password, if anything: the first of the five
/// rules that it breaks. `length` is the number of its bytes; the others say
/// whether it holds an upper-case letter, a lower-case letter, a digit and a
/// special character.
pub open spec fn complaint(length: usize, upper: bool, lower: bool, digit: bool, special: bool)
    -> Option<Seq<char>> {
    if length < 8 {
        Some("Password must be at least 8 characters long"@)
    } else if !upper {
        Some("Password must contain at least one uppercase letter"@)
    } else if !lower {
        Some("Password must contain at least one lowercase letter"@)
    } else if !digit {
        Some("Password must contain at least one digit"@)
    } else if !special {
        Some("Password must contain at least one special character"@)
    } else {
        None
    }
}

/// Whether `pattern` is found in `text`.
pub open spec fn holds(pattern: Seq<char>, text: Seq<char>) -> bool {
    regex_match(pattern, text) == Some(true)
}

/// What is wrong with `password` as a new password, if anything. The length
/// is that of its UTF-8 bytes; the four kinds of character are what the four
/// patterns find.
pub open spec fn password_complaint(password: Seq<char>) -> Option<Seq<char>> {
    complaint(
        utf8_len(password),
        holds("[A-Z]"@, password),
        holds("[a-z]"@, password),
        holds("\\d"@, password),
        holds("[!@#$%^&*(),.?\"':{}|<>-\\\\\\/_+-]|`="@, password),
    )
}

pub open spec fn refusal_text(r: Result<(), ApiError>) -> Option<Seq<char>> {
    match r {
        Ok(_) => None,
        Err(e) => Some(e@.message),
    }
}

/// Holds a new password against the password rules, given its length in
/// bytes and which kinds of character it holds. The refusal is a 400 that
/// names the first rule broken.
pub fn password_verdict(length: usize, upper: bool, lower: bool, digit: bool, special: bool) -> (r:
    Result<(), ApiError>)
    ensures
        refusal_text(r) == complaint(length, upper, lower, digit, special),
        r matches Err(e) ==> e@.code == 400,
{
    if length < 8 {
        return Err(ApiError::new(400, "Password must be at least 8 characters long"));
    }
    if !upper {
        return Err(ApiError::new(400, "Password must contain at least one uppercase letter"));
    }
    if !lower {
        return Err(ApiError::new(400, "Password must contain at least one lowercase letter"));
    }
    if !digit {
        return Err(ApiError::new(400, "Password must contain at least one digit"));
    }
    if !special {
        return Err(ApiError::new(400, "Password must contain at least one special character"));
    }
    Ok(())
}

fn finds(pattern: &str, text: &str) -> (b: bool)
    ensures
        b == holds(pattern@, text@),
{
    match regex_is_match(pattern, text) {
        Some(found) => found,
        None => false,
    }
}

/// Holds `password` against the password rules: at least eight bytes, an
/// upper-case letter, a lower-case letter, a digit and a special character.
/// The refusal is a 400 that names the first rule broken.
pub fn check_password(password: &str) -> (r: Result<(), ApiError>)
    ensures
        refusal_text(r) == password_complaint(password@),
        r matches Err(e) ==> e@.code == 400,
{
    let upper = finds("[A-Z]", password);
    let lower = finds("[a-z]", password);
    let digit = finds("\\d", password);
    let special = finds("[!@#$%^&*(),.?\"':{}|<>-\\\\\\/_+-]|`=", password);
    password_verdict(password.len(), upper, lower, digit, special)
}

/// Why a registration is refused before anything is hashed, if it is: the
/// store could not be asked; the alias or the email address is taken; or the
/// password breaks a rule, which `complaint` then names. In that order.
pub open spec fn registration_refusal(
    existing: Lookup<User>,
    alias: Seq<char>,
    email: Seq<char>,
    complaint: Option<Seq<char>>,
) -> Option<ApiErrorView> {
    match existing {
        Lookup::Failed(cause) => Some(
            ApiErrorView { code: 500, message: "Failed to query MongoDB: "@ + cause@ },
        ),
        Lookup::Found(user) if user.alias@ == alias => Some(
            ApiErrorView { code: 409, message: "A user with this username already exists"@ },
        ),
        Lookup::Found(user) if user.email@ == email => Some(
            ApiErrorView { code: 409, message: "A user with this email already exists"@ },
        ),
        _ => match complaint {
            Some(message) => Some(ApiErrorView { code: 400, message }),
            None => None,
        },
    }
}

pub open spec fn refusal_view(r: Result<(), ApiError>) -> Option<ApiErrorView> {
    match r {
        Ok(_) => None,
        Err(e) => Some(e@),
    }
}

/// Decides whether a registration may go on. `existing` is what the store
/// gave when it was asked for a user with this alias or this email address,
/// `password` what the password rules say of the password: a refusal on
/// their part is passed on as a 400 with their words.
pub fn registration_verdict(
    existing: &Lookup<User>,
    alias: &str,
    email: &str,
    password: Result<(), ApiError>,
) -> (r: Result<(), ApiError>)
    ensures
        refusal_view(r) == registration_refusal(*existing, alias@, email@, refusal_text(password)),
{
    match existing {
        Lookup::Failed(cause) => {
            return Err(ApiError::with_detail(500, "Failed to query MongoDB: ", cause.as_str()));
        },
        Lookup::Found(user) => {
            let wanted_alias = alias.to_string();
            let wanted_email = email.to_string();
            if user.alias == wanted_alias {
                return Err(ApiError::new(409, "A user with this username already exists"));
            }
            if user.email == wanted_email {
                return Err(ApiError::new(409, "A user with this email already exists"));
            }
        },
        Lookup::Missing => {},
    }
    match password {
        Ok(_) => Ok(()),
        Err(complaint) => Err(ApiError { code: 400, message: complaint.message }),
    }
}

/// The record of a new user: without an identifier, and with `hash` for the
/// password.
pub fn new_user(alias: String, email: String, full_name: String, hash: String, now: i64) -> (user:
    User)
    ensures
        user@ == (UserView {
            _id: None,
            alias: alias@,
            email: email@,
            password: hash@,
            full_name: full_name@,
            created_at: now as int,
            updated_at: now as int,
        }),
{
    User {
        _id: None,
        alias,
        email,
        full_name,
        password: hash,
        created_at: now,
        updated_at: now,
    }
}

/// Drafts the record of a new user. `existing` is what the store gave when it
/// was asked for a user with this alias or this email address. The record has
/// no identifier yet, and holds a hash of the password.
pub fn create_user(
    existing: Lookup<User>,
    alias: String,
    email: String,
    full_name: String,
    password: String,
    salt: &str,
    now: i64,
) -> (r: Result<User, ApiError>)
    ensures
        match registration_refusal(existing, alias@, email@, password_complaint(password@)) {
            Some(refusal) => r matches Err(e) && e@ == refusal,
            None => match r {
                Ok(user) => {
                    &&& user@._id is None
                    &&& user@.alias == alias@
                    &&& user@.email == email@
                    &&& user@.full_name == full_name@
                    &&& user@.created_at == now
                    &&& user@.updated_at == now
                    &&& bcrypt_check(salted(alias@, password@, salt@), user@.password) == Ok::<
                        bool,
                        Seq<char>,
                    >(true)
                },
                Err(e) => is_hashing_error(e@),
            },
        },
{
    let rules = check_password(password.as_str());
    match registration_verdict(&existing, alias.as_str(), email.as_str(), rules) {
        Err(e) => {
            return Err(e);
        },
        Ok(_) => {},
    }
    match hash_password(password.as_str(), alias.as_str(), salt) {
        Err(e) => Err(e),
        Ok(hash) => Ok(new_user(alias, email, full_name, hash, now)),
    }
}

/// What the registration answers once the store has been asked to insert the
/// record: the record itself when the store reports the identifier under
/// which it stands, which is what `Found(true)` says.
pub fn user_stored(user: User, inserted: Lookup<bool>) -> (r: Result<User, ApiError>)
    ensures
        match inserted {
            Lookup::Found(true) => r matches Ok(u) && u@ == user@,
            Lookup::Failed(cause) => r matches Err(e) && e@ == (ApiErrorView {
                code: 500,
                message: "Failed to insert user into MongoDB: "@ + cause@,
            }),
            _ => r matches Err(e) && e@ == (ApiErrorView {
                code: 500,
                message: "Failed to retrieve inserted ID"@,
            }),
        },
{
    match inserted {
        Lookup::Found(true) => Ok(user),
        Lookup::Failed(cause) => Err(
            ApiError::with_detail(500, "Failed to insert user into MongoDB: ", cause.as_str()),
        ),
        _ => Err(ApiError::new(500, "Failed to retrieve inserted ID")),
    }
}

/// An authorization: the access code that was issued to a user at login.
#[derive(Debug, Clone)]
pub struct Auth {
    /// The user's identifier, as 24 hexadecimal digits.
    pub user_id: String,
    /// 32 hexadecimal digits.
    pub code: String,
}

/// Why a password check refuses a login, if it does: the hash on record is
/// not one, or the password is wrong.
pub open spec fn check_refusal(checked: Result<bool, Seq<char>>) -> Option<ApiErrorView> {
    match checked {
        Err(fault) => Some(
            ApiErrorView { code: 500, message: "Hash verification error: "@ + fault },
        ),
        Ok(false) => Some(
            ApiErrorView { code: 404, message: "Username, email, or password not found"@ },
        ),
        Ok(true) => None,
    }
}

/// Why a login is refused, if it is: the store could not be asked; nobody
/// has this alias or email address; the hash on record is not one; or the
/// password is wrong. A wrong password and an unknown user are refused in the
/// same words.
pub open spec fn login_refusal(found: Lookup<User>, password: Seq<char>, salt: Seq<char>) -> Option<
    ApiErrorView,
> {
    match found {
        Lookup::Failed(cause) => Some(
            ApiErrorView { code: 500, message: "Failed to query MongoDB: "@ + cause@ },
        ),
        Lookup::Missing => Some(
            ApiErrorView { code: 404, message: "Username, email, or password not found"@ },
        ),
        Lookup::Found(user) => check_refusal(
            bcrypt_check(salted(user.alias@, password, salt), user.password@),
        ),
    }
}

pub open spec fn checked_view(checked: Result<bool, String>) -> Result<bool, Seq<char>> {
    match checked {
        Ok(agrees) => Ok(agrees),
        Err(fault) => Err(fault@),
    }
}

/// What a password check means for the login.
pub fn login_verdict(checked: Result<bool, String>) -> (r: Result<(), ApiError>)
    ensures
        refusal_view(r) == check_refusal(checked_view(checked)),
{
    match checked {
        Err(fault) => Err(ApiError::with_detail(500, "Hash verification error: ", fault.as_str())),
        Ok(false) => Err(ApiError::new(404, "Username, email, or password not found")),
        Ok(true) => Ok(()),
    }
}

/// The authorization of `user` under the access code `code`.
pub fn authorization(user: &User, code: String) -> (auth: Auth)
    requires
        user._id is Some,
    ensures
        Some(auth.user_id@) == user@._id,
        auth.code@ == code@,
{
    let user_id = user._id.as_ref().unwrap().clone();
    Auth { user_id, code }
}

/// Logs a user in. `found` is what the store gave when it was asked for the
/// user with this alias or email address. On success the answer is the user
/// and the authorization to store for the new session, with a fresh access
/// code.
pub fn authenticate_user(found: Lookup<User>, password: &str, salt: &str) -> (r: Result<
    (User, Auth),
    ApiError,
>)
    requires
        found matches Lookup::Found(user) ==> user._id is Some,
    ensures
        match login_refusal(found, password@, salt@) {
            Some(refusal) => r matches Err(e) && e@ == refusal,
            None => {
                &&& r matches Ok(session)
                &&& session.0@ == found->Found_0@
                &&& Some(session.1.user_id@) == session.0@._id
                &&& session.1.code@.len() == 32
                &&& exists|bytes: Seq<u8>| bytes.len() == 16 && session.1.code@ == hex_text(bytes)
            },
        },
{
    match found {
        Lookup::Failed(cause) => Err(
            ApiError::with_detail(500, "Failed to query MongoDB: ", cause.as_str()),
        ),
        Lookup::Missing => Err(ApiError::new(404, "Username, email, or password not found")),
        Lookup::Found(user) => {
            let secret = salt_password(user.alias.as_str(), password, salt);
            let checked = bcrypt_verify(secret.as_str(), user.password.as_str());
            match login_verdict(checked) {
                Err(e) => Err(e),
                Ok(_) => {
                    let auth = authorization(&user, generate_random_hex(32));
                    Ok((user, auth))
                },
            }
        },
    }
}

/// What the login answers once the store has been asked to insert the
/// authorization: a failure of the store is a 500 that quotes it.
pub fn access_stored(user: User, inserted: Result<(), String>) -> (r: Result<User, ApiError>)
    ensures
        match inserted {
            Ok(_) => r matches Ok(u) && u@ == user@,
            Err(cause) => r matches Err(e) && e@ == (ApiErrorView {
                code: 500,
                message: "Failed to insert access token into MongoDB: "@ + cause@,
            }),
        },
{
    match inserted {
        Ok(_) => Ok(user),
        Err(cause) => Err(
            ApiError::with_detail(
                500,
                "Failed to insert access token into MongoDB: ",
                cause.as_str(),
            ),
        ),
    }
}

/// Registering and then logging in with the same password is never refused
/// for the password: the hash that registration stores is one that the login
/// check accepts.
pub proof fn lemma_registered_password_logs_in(
    stored: User,
    alias: Seq<char>,
    password: Seq<char>,
    salt: Seq<char>,
)
    requires
        stored.alias@ == alias,
        bcrypt_check(salted(alias, password, salt), stored.password@) == Ok::<bool, Seq<char>>(
            true,
        ),
    ensures
        login_refusal(Lookup::Found(stored), password, salt) is None,
{
}

} // verus!
