//! Preparing an empty store: which collections are created, in which order,
//! and what is put into them.

use vstd::prelude::*;
use vstd::string::*;
use crate::account::{
    bcrypt_check, generate_random_hex, hash_password, is_hashing_error, new_user, salted, Auth,
};
use crate::error::ApiError;
use crate::message::{Message, MessageView};
use crate::session::{User, UserView};
use crate::text::hex_text;

verus! {

/// The collections of the store, in the order in which they are prepared.
#[derive(Debug, Clone, Copy, PartialEq, Eq, Structural)]
pub enum Collection {
    Users,
    Messages,
    Auths,
}

/// What follows from knowing whether a collection exists.
#[derive(Debug, Clone, Copy, PartialEq, Eq, Structural)]
pub enum Provision {
    /// Create the collection and put the sample records into it.
    Seed(Collection),
    /// The store is left as it is; nothing further is looked at.
    Finish,
}

/// The name under which the store holds `collection`.
pub fn collection_name(collection: Collection) -> (name: &'static str)
    ensures
        name@ == match collection {
            Collection::Users => "users"@,
            Collection::Messages => "messages"@,
            Collection::Auths => "auths"@,
        },
{
    match collection {
        Collection::Users => "users",
        Collection::Messages => "messages",
        Collection::Auths => "auths",
    }
}

/// Where the preparation starts.
pub fn first_collection() -> (c: Collection)
    ensures
        c == Collection::Users,
{
    Collection::Users
}

/// It is known whether `collection` is present. One that is missing is
/// created and filled; one that is present ends the preparation, whatever
/// comes after it.
pub fn on_checked(collection: Collection, present: bool) -> (p: Provision)
    ensures
        p == if present {
            Provision::Finish
        } else {
            Provision::Seed(collection)
        },
{
    if present {
        Provision::Finish
    } else {
        Provision::Seed(collection)
    }
}

/// `collection` has been filled. Returns the collection to look at next, if
/// there is one. The messages need users to be written by: where the store
/// reported no identifier for the sample users, the preparation ends.
pub fn after_seeded(collection: Collection, stored_users: usize) -> (next: Option<Collection>)
    ensures
        next == match collection {
            Collection::Users => if stored_users > 0 {
                Some(Collection::Messages)
            } else {
                None
            },
            Collection::Messages => Some(Collection::Auths),
            Collection::Auths => None,
        },
{
    match collection {
        Collection::Users => if stored_users > 0 {
            Some(Collection::Messages)
        } else {
            None
        },
        Collection::Messages => Some(Collection::Auths),
        Collection::Auths => None,
    }
}

/// A sample user, but for the hash of the password.
pub open spec fn is_sample_user(
    user: UserView,
    alias: Seq<char>,
    email: Seq<char>,
    full_name: Seq<char>,
    salt: Seq<char>,
    now: i64,
) -> bool {
    &&& user._id is None
    &&& user.alias == alias
    &&& user.email == email
    &&& user.full_name == full_name
    &&& user.created_at == now
    &&& user.updated_at == now
    &&& bcrypt_check(salted(alias, "P4ssw0rd!"@, salt), user.password) == Ok::<bool, Seq<char>>(
        true,
    )
}

/// The record of one sample user: the record of a new user with these
/// particulars and a hash of the sample password. Where the hashing fails,
/// its failure is the answer.
fn sample_user(alias: &str, email: &str, full_name: &str, salt: &str, now: i64) -> (r: Result<
    User,
    ApiError,
>)
    ensures
        match r {
            Ok(user) => is_sample_user(user@, alias@, email@, full_name@, salt@, now),
            Err(e) => is_hashing_error(e@),
        },
{
    match hash_password("P4ssw0rd!", alias, salt) {
        Err(e) => Err(e),
        Ok(hash) => Ok(
            new_user(alias.to_string(), email.to_string(), full_name.to_string(), hash, now),
        ),
    }
}

/// The two sample users, John Doe and Jane Smith, both with the password
/// `P4ssw0rd!`. Fails only where the hashing fails, and then with the failure
/// of the hashing: a 500 that quotes it.
pub fn seed_users(salt: &str, now: i64) -> (r: Result<Vec<User>, ApiError>)
    ensures
        match r {
            Ok(users) => {
                &&& users@.len() == 2
                &&& is_sample_user(
                    users@[0]@,
                    "john_doe"@,
                    "john.doe@example.com"@,
                    "John Doe"@,
                    salt@,
                    now,
                )
                &&& is_sample_user(
                    users@[1]@,
                    "jane_smith"@,
                    "jane.smith@example.com"@,
                    "Jane Smith"@,
                    salt@,
                    now,
                )
            },
            Err(e) => is_hashing_error(e@),
        },
{
    let john = match sample_user("john_doe", "john.doe@example.com", "John Doe", salt, now) {
        Ok(user) => user,
        Err(e) => {
            return Err(e);
        },
    };
    let jane = match sample_user("jane_smith", "jane.smith@example.com", "Jane Smith", salt, now) {
        Ok(user) => user,
        Err(e) => {
            return Err(e);
        },
    };
    let mut users: Vec<User> = Vec::new();
    users.push(john);
    users.push(jane);
    Ok(users)
}

pub open spec fn sample_message(author: Seq<char>, content: Seq<char>, now: i64) -> MessageView {
    MessageView { user_id: author, content, created_at: now as int, updated_at: now as int }
}

/// The three sample messages: two by the first user, one by the second.
pub fn seed_messages(user_ids: &Vec<String>, now: i64) -> (messages: Vec<Message>)
    requires
        user_ids@.len() >= 2,
    ensures
        messages@.len() == 3,
        messages@[0]@ == sample_message(user_ids@[0]@, "Hello, this is John!"@, now),
        messages@[1]@ == sample_message(user_ids@[0]@, "How are you?"@, now),
        messages@[2]@ == sample_message(user_ids@[1]@, "Hi, this is Jane!"@, now),
{
    let mut messages: Vec<Message> = Vec::new();
    messages.push(Message::new(user_ids[0].as_str(), "Hello, this is John!", now, now));
    messages.push(Message::new(user_ids[0].as_str(), "How are you?", now, now));
    messages.push(Message::new(user_ids[1].as_str(), "Hi, this is Jane!", now, now));
    messages
}

/// An authorization of `user` with some access code of 32 hexadecimal
/// digits.
pub open spec fn is_fresh_auth(auth: Auth, user: Seq<char>) -> bool {
    &&& auth.user_id@ == user
    &&& auth.code@.len() == 32
    &&& exists|bytes: Seq<u8>| bytes.len() == 16 && auth.code@ == hex_text(bytes)
}

/// One authorization for each of the two sample users, with fresh access
/// codes.
pub fn seed_auths(user_ids: &Vec<String>) -> (auths: Vec<Auth>)
    requires
        user_ids@.len() >= 2,
    ensures
        auths@.len() == 2,
        is_fresh_auth(auths@[0], user_ids@[0]@),
        is_fresh_auth(auths@[1], user_ids@[1]@),
{
    let mut auths: Vec<Auth> = Vec::new();
    auths.push(Auth { user_id: user_ids[0].clone(), code: generate_random_hex(32) });
    auths.push(Auth { user_id: user_ids[1].clone(), code: generate_random_hex(32) });
    auths
}

} // verus!
