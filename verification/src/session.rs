//! Sessions: who a client is, and whether the session it presents is valid.

use vstd::prelude::*;
use vstd::string::*;
use crate::error::{caused_by, ApiError, ApiErrorView};
use crate::text::text_of;

verus! {

/// A registered user, as the account store holds it.
#[derive(Debug, Clone)]
pub struct User {
    /// The identifier that the store gave the user, as 24 hexadecimal digits;
    /// `None` until the user has been stored.
    pub _id: Option<String>,
    pub alias: String,
    pub email: String,
    /// The password hash, never the password.
    pub password: String,
    pub full_name: String,
    /// Milliseconds since the Unix epoch.
    pub created_at: i64,
    /// Milliseconds since the Unix epoch.
    pub updated_at: i64,
}

/// The mathematical value of a `User`.
pub struct UserView {
    pub _id: Option<Seq<char>>,
    pub alias: Seq<char>,
    pub email: Seq<char>,
    pub password: Seq<char>,
    pub full_name: Seq<char>,
    pub created_at: int,
    pub updated_at: int,
}

impl View for User {
    type V = UserView;

    open spec fn view(&self) -> UserView {
        UserView {
            _id: text_of(self._id),
            alias: self.alias@,
            email: self.email@,
            password: self.password@,
            full_name: self.full_name@,
            created_at: self.created_at as int,
            updated_at: self.updated_at as int,
        }
    }
}

impl User {
    /// A second user record with the same value.
    pub fn duplicate(&self) -> (u: User)
        ensures
            u@ == self@,
    {
        let id = match &self._id {
            Some(id) => Some(id.clone()),
            None => None,
        };
        User {
            _id: id,
            alias: self.alias.clone(),
            email: self.email.clone(),
            password: self.password.clone(),
            full_name: self.full_name.clone(),
            created_at: self.created_at,
            updated_at: self.updated_at,
        }
    }
}

/// Why a client could not be authenticated.
#[derive(Debug, Clone, Copy, PartialEq, Eq, Structural)]
pub enum AuthFault {
    /// No valid session is established.
    Unauthenticated,
    /// The session that was presented matches no stored authorization.
    InvalidSession,
}

/// What `bson` makes of `s` as an object identifier: its 24 lower-case
/// hexadecimal digits, or the text of the error.
pub uninterp spec fn object_id_parsed(s: Seq<char>) -> Result<Seq<char>, Seq<char>>;

/// Parses an identifier with `bson::oid::ObjectId::parse_str`. Trusted: `Ok`
/// holds the identifier as `to_hex` prints it, `Err` the error as its
/// `Display` prints it.
#[verifier::external_body]
fn parse_object_id(s: &str) -> (r: Result<String, String>)
    ensures
        match r {
            Ok(hex) => object_id_parsed(s@) == Ok::<Seq<char>, Seq<char>>(hex@),
            Err(fault) => object_id_parsed(s@) == Err::<Seq<char>, Seq<char>>(fault@),
        },
{
    match bson::oid::ObjectId::parse_str(s) {
        Ok(id) => Ok(id.to_hex()),
        Err(fault) => Err(fault.to_string()),
    }
}

/// What identifies a session: the user it belongs to, and the access token
/// that was issued for it.
#[derive(Debug, Clone)]
pub struct Credentials {
    /// The user's identifier, as 24 lower-case hexadecimal digits.
    pub user_id: String,
    pub access_token: String,
}

/// The mathematical value of `Credentials`.
pub struct CredentialsView {
    pub user_id: Seq<char>,
    pub access_token: Seq<char>,
}

impl View for Credentials {
    type V = CredentialsView;

    open spec fn view(&self) -> CredentialsView {
        CredentialsView { user_id: self.user_id@, access_token: self.access_token@ }
    }
}

pub open spec fn parsed_view(parsed: Result<String, String>) -> Result<Seq<char>, Seq<char>> {
    match parsed {
        Ok(hex) => Ok(hex@),
        Err(fault) => Err(fault@),
    }
}

pub open spec fn some_parsed(identifier: Option<Result<String, String>>) -> Option<
    Result<Seq<char>, Seq<char>>,
> {
    match identifier {
        Some(parsed) => Some(parsed_view(parsed)),
        None => None,
    }
}

/// What `named_session` answers: a 400 where the identifier is missing,
/// where the access token is missing, or where the identifier is not an
/// object identifier, in that order; the credentials otherwise.
pub open spec fn credentials_outcome(
    identifier: Option<Result<Seq<char>, Seq<char>>>,
    access_token: Option<Seq<char>>,
) -> Result<CredentialsView, ApiErrorView> {
    match identifier {
        None => Err(ApiErrorView { code: 400, message: "Missing identifier in configuration"@ }),
        Some(parsed) => match access_token {
            None => Err(
                ApiErrorView { code: 400, message: "Missing access token in configuration"@ },
            ),
            Some(access_token) => match parsed {
                Ok(user_id) => Ok(CredentialsView { user_id, access_token }),
                Err(fault) => Err(
                    ApiErrorView { code: 400, message: "Invalid user ID format: "@ + fault },
                ),
            },
        },
    }
}

pub open spec fn credentials_view(r: Result<Credentials, ApiError>) -> Result<
    CredentialsView,
    ApiErrorView,
> {
    match r {
        Ok(c) => Ok(c@),
        Err(e) => Err(e@),
    }
}

/// What the identifier of the configuration is as an object identifier, if
/// the configuration has one.
pub open spec fn identifier_parsed(identifier: Option<Seq<char>>) -> Option<
    Result<Seq<char>, Seq<char>>,
> {
    match identifier {
        Some(text) => Some(object_id_parsed(text)),
        None => None,
    }
}

/// The session that the configuration names. `identifier` is what the
/// configured identifier parses to, `None` where none is configured.
pub fn named_session(identifier: Option<Result<String, String>>, access_token: Option<String>) -> (r:
    Result<Credentials, ApiError>)
    ensures
        credentials_view(r) == credentials_outcome(some_parsed(identifier), text_of(access_token)),
{
    let parsed = match identifier {
        Some(parsed) => parsed,
        None => {
            return Err(ApiError::new(400, "Missing identifier in configuration"));
        },
    };
    let access_token = match access_token {
        Some(access_token) => access_token,
        None => {
            return Err(ApiError::new(400, "Missing access token in configuration"));
        },
    };
    match parsed {
        Ok(user_id) => Ok(Credentials { user_id, access_token }),
        Err(fault) => Err(ApiError::with_detail(400, "Invalid user ID format: ", fault.as_str())),
    }
}

/// The session that the local configuration names, if it names one: the
/// identifier and the access token must both be there, and the identifier must
/// be an object identifier.
pub fn session_credentials(identifier: Option<String>, access_token: Option<String>) -> (r: Result<
    Credentials,
    ApiError,
>)
    ensures
        credentials_view(r) == credentials_outcome(
            identifier_parsed(text_of(identifier)),
            text_of(access_token),
        ),
{
    let parsed = match identifier {
        Some(text) => Some(parse_object_id(text.as_str())),
        None => None,
    };
    named_session(parsed, access_token)
}

/// What a query of the store gave: a record, none, or the text of a failure.
#[derive(Debug)]
pub enum Lookup<T> {
    Found(T),
    Missing,
    Failed(String),
}

/// What `session_authorized` answers.
pub open spec fn authorization_outcome(found: Lookup<()>) -> Result<(), ApiErrorView> {
    match found {
        Lookup::Found(_) => Ok(()),
        Lookup::Missing => Err(ApiErrorView { code: 404, message: "Invalid code or user ID"@ }),
        Lookup::Failed(cause) => Err(
            ApiErrorView { code: 500, message: "Failed to query MongoDB: "@ + cause@ },
        ),
    }
}

/// Whether the credentials are those of a stored authorization, given what
/// the query for it gave.
pub fn session_authorized(found: Lookup<()>) -> (r: Result<(), ApiError>)
    ensures
        match r {
            Ok(_) => authorization_outcome(found) == Ok::<(), ApiErrorView>(()),
            Err(e) => authorization_outcome(found) == Err::<(), ApiErrorView>(e@),
        },
{
    match found {
        Lookup::Found(_) => Ok(()),
        Lookup::Missing => Err(ApiError::new(404, "Invalid code or user ID")),
        Lookup::Failed(cause) => Err(
            ApiError::with_detail(500, "Failed to query MongoDB: ", cause.as_str()),
        ),
    }
}

/// What `verify_user_by_code` answers.
pub open spec fn verification_outcome(found: Lookup<User>) -> Result<UserView, ApiErrorView> {
    match found {
        Lookup::Found(user) => Ok(user@),
        Lookup::Missing => Err(ApiErrorView { code: 404, message: "User not found"@ }),
        Lookup::Failed(cause) => Err(
            ApiErrorView { code: 500, message: "Failed to query MongoDB: "@ + cause@ },
        ),
    }
}

/// The user of an authorized session, given what the query for the user
/// gave.
pub fn verify_user_by_code(found: Lookup<User>) -> (r: Result<User, ApiError>)
    ensures
        match r {
            Ok(user) => verification_outcome(found) == Ok::<UserView, ApiErrorView>(user@),
            Err(e) => verification_outcome(found) == Err::<UserView, ApiErrorView>(e@),
        },
{
    match found {
        Lookup::Found(user) => Ok(user),
        Lookup::Missing => Err(ApiError::new(404, "User not found")),
        Lookup::Failed(cause) => Err(
            ApiError::with_detail(500, "Failed to query MongoDB: ", cause.as_str()),
        ),
    }
}

/// The fault that a failed verification stands for: a session that matches
/// nothing stored is invalid; everything else means that no valid session
/// is established.
pub fn auth_fault(e: &ApiError) -> (f: AuthFault)
    ensures
        f == if e.code == 404 {
            AuthFault::InvalidSession
        } else {
            AuthFault::Unauthenticated
        },
{
    if e.code == 404 {
        AuthFault::InvalidSession
    } else {
        AuthFault::Unauthenticated
    }
}

/// Whether the session may be ended: only a verified one may. The refusal is
/// a 401 that quotes why the verification failed.
pub fn logout_user(session: Result<User, ApiError>) -> (r: Result<(), ApiError>)
    ensures
        match session {
            Ok(_) => r is Ok,
            Err(cause) => r matches Err(e) && e@ == caused_by(401, "Logout failed: "@, cause@),
        },
{
    match session {
        Ok(_) => Ok(()),
        Err(cause) => Err(ApiError::wrap(401, "Logout failed: ", &cause)),
    }
}

} // verus!
