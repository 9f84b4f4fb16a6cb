//! Chat messages, the presence notices that travel beside them, and the text
//! frames that go over the wire.

use vstd::prelude::*;
use vstd::string::*;
use crate::text::{
    decimal, decimal_text, find_member, hex_text, json_member_text, json_quote,
    json_string_literal, parse_object, text_of, texts_of,
};

verus! {

/// Two hundred and fifty-six to the power of `exponent`.
pub open spec fn place(exponent: int) -> int
    decreases exponent,
{
    if exponent <= 0 {
        1
    } else {
        256 * place(exponent - 1)
    }
}

/// The sixteen bytes of `id`, the most significant first.
pub open spec fn uuid_bytes(id: u128) -> Seq<u8> {
    Seq::new(16, |i: int| ((id as int / place(15 - i)) % 256) as u8)
}

/// The canonical text form of the UUID whose 128 bits are `id`: its sixteen
/// bytes in lower-case hexadecimal digits, in groups of four, two, two, two
/// and six bytes that hyphens separate.
pub open spec fn uuid_text(id: u128) -> Seq<char> {
    let bytes = uuid_bytes(id);
    hex_text(bytes.subrange(0, 4)) + "-"@ + hex_text(bytes.subrange(4, 6)) + "-"@ + hex_text(
        bytes.subrange(6, 8),
    ) + "-"@ + hex_text(bytes.subrange(8, 10)) + "-"@ + hex_text(bytes.subrange(10, 16))
}

/// Renders a connection identifier as text through `uuid::Uuid::from_u128`
/// and the `Display` of `Uuid`. Trusted: the result is the hyphenated
/// lower-case form of the identifier's bytes, the most significant first.
#[verifier::external_body]
pub(crate) fn connection_label(id: u128) -> (r: String)
    ensures
        r@ == uuid_text(id),
{
    uuid::Uuid::from_u128(id).to_string()
}

/// One broadcast entry: a chat message from a user, or a presence notice from
/// the relay itself.
#[derive(Debug, Clone)]
pub struct Message {
    /// Identifier of the author, as 24 hexadecimal digits.
    pub user_id: String,
    pub content: String,
    /// Milliseconds since the Unix epoch.
    pub created_at: i64,
    /// Milliseconds since the Unix epoch.
    pub updated_at: i64,
}

/// The mathematical value of a `Message`.
pub struct MessageView {
    pub user_id: Seq<char>,
    pub content: Seq<char>,
    pub created_at: int,
    pub updated_at: int,
}

impl View for Message {
    type V = MessageView;

    open spec fn view(&self) -> MessageView {
        MessageView {
            user_id: self.user_id@,
            content: self.content@,
            created_at: self.created_at as int,
            updated_at: self.updated_at as int,
        }
    }
}

/// What a client sends: the text it wants to say and, if it cares to, who it
/// claims to be. The claim is kept for the record only: the author of a
/// message is the user of the connection that it came over.
#[derive(Debug, Clone)]
pub struct IncomingMessage {
    pub user_id: Option<String>,
    pub content: String,
}

/// The mathematical value of an `IncomingMessage`.
pub struct IncomingView {
    pub user_id: Option<Seq<char>>,
    pub content: Seq<char>,
}

impl View for IncomingMessage {
    type V = IncomingView;

    open spec fn view(&self) -> IncomingView {
        IncomingView { user_id: text_of(self.user_id), content: self.content@ }
    }
}

/// The message that the two members make: there is one wherever there is a
/// content, with or without the claimed author.
pub open spec fn incoming_of(user_id: Option<Seq<char>>, content: Option<Seq<char>>) -> Option<
    IncomingView,
> {
    match content {
        Some(content) => Some(IncomingView { user_id, content }),
        None => None,
    }
}

/// What a client's text frame says, if it is well formed: a JSON object whose
/// member `content` is a string. Its member `user_id` is taken along where it
/// is a string too.
pub open spec fn decoded(frame: Seq<char>) -> Option<IncomingView> {
    incoming_of(json_member_text(frame, "user_id"@), json_member_text(frame, "content"@))
}

pub open spec fn some_incoming(m: Option<IncomingMessage>) -> Option<IncomingView> {
    match m {
        Some(m) => Some(m@),
        None => None,
    }
}

impl IncomingMessage {
    /// The message that the two members of a frame make. The content is
    /// required; the claimed author is not.
    pub fn from_members(user_id: Option<String>, content: Option<String>) -> (r: Option<
        IncomingMessage,
    >)
        ensures
            some_incoming(r) == incoming_of(text_of(user_id), text_of(content)),
    {
        match content {
            None => None,
            Some(content) => Some(IncomingMessage { user_id, content }),
        }
    }

    /// Decodes a client's text frame. A frame that is not a JSON object with
    /// a string member `content` is malformed.
    pub fn from_frame(frame: &str) -> (r: Option<IncomingMessage>)
        ensures
            some_incoming(r) == decoded(frame@),
    {
        match parse_object(frame) {
            None => None,
            Some(members) => {
                let user_id = find_member(&members, "user_id");
                let content = find_member(&members, "content");
                IncomingMessage::from_members(user_id, content)
            },
        }
    }
}

/// The author identifier carried by every presence notice. No stored user has
/// it.
pub open spec fn relay_author() -> Seq<char> {
    "000000000000000000000000"@
}

/// The presence notice that says `content` at `now`.
pub open spec fn notice(content: Seq<char>, now: i64) -> MessageView {
    MessageView {
        user_id: relay_author(),
        content,
        created_at: now as int,
        updated_at: now as int,
    }
}

/// What the join notice says of the connection with this label.
pub open spec fn join_line(label: Seq<char>) -> Seq<char> {
    label + " has joined"@
}

pub open spec fn join_text(id: u128) -> Seq<char> {
    join_line(uuid_text(id))
}

pub open spec fn leave_text() -> Seq<char> {
    "A user has left"@
}

/// The labels, each in double quotes, separated by a comma and a space.
pub open spec fn roster_entries(labels: Seq<Seq<char>>) -> Seq<char>
    decreases labels.len(),
{
    if labels.len() == 0 {
        Seq::<char>::empty()
    } else if labels.len() == 1 {
        "\""@ + labels[0] + "\""@
    } else {
        roster_entries(labels.drop_last()) + ", "@ + ("\""@ + labels.last() + "\""@)
    }
}

/// What the roster notice says of the connections with these labels.
pub open spec fn roster_line(labels: Seq<Seq<char>>) -> Seq<char> {
    "Current users: {"@ + roster_entries(labels) + "}"@
}

pub open spec fn uuid_texts(ids: Seq<u128>) -> Seq<Seq<char>> {
    ids.map_values(|id: u128| uuid_text(id))
}

pub open spec fn roster_text(ids: Seq<u128>) -> Seq<char> {
    roster_line(uuid_texts(ids))
}

/// A timestamp as it stands inside a frame, given its digits.
pub open spec fn date_frame(digits: Seq<char>) -> Seq<char> {
    "{\"$date\":{\"$numberLong\":\""@ + digits + "\"}}"@
}

/// A text frame, given the literals of the author and the content and the
/// digits of the two timestamps.
pub open spec fn frame_of(
    author_literal: Seq<char>,
    content_literal: Seq<char>,
    created_digits: Seq<char>,
    updated_digits: Seq<char>,
) -> Seq<char> {
    "{\"user_id\":{\"$oid\":"@ + author_literal + "},\"content\":"@ + content_literal
        + ",\"created_at\":"@ + date_frame(created_digits) + ",\"updated_at\":"@ + date_frame(
        updated_digits,
    ) + "}"@
}

/// The text frame that carries `m` to a client.
pub open spec fn frame_text(m: MessageView) -> Seq<char> {
    frame_of(
        json_string_literal(m.user_id),
        json_string_literal(m.content),
        decimal_text(m.created_at),
        decimal_text(m.updated_at),
    )
}

fn frame_date(digits: &str) -> (t: String)
    ensures
        t@ == date_frame(digits@),
{
    let mut t = String::from_str("{\"$date\":{\"$numberLong\":\"");
    t.append(digits);
    t.append("\"}}");
    t
}

/// Puts the four rendered parts of a message into its text frame: an object
/// with the members `user_id`, `content`, `created_at` and `updated_at`, in
/// that order.
pub fn frame(
    author_literal: &str,
    content_literal: &str,
    created_digits: &str,
    updated_digits: &str,
) -> (t: String)
    ensures
        t@ == frame_of(author_literal@, content_literal@, created_digits@, updated_digits@),
{
    let mut t = String::from_str("{\"user_id\":{\"$oid\":");
    t.append(author_literal);
    t.append("},\"content\":");
    t.append(content_literal);
    t.append(",\"created_at\":");
    let created = frame_date(created_digits);
    t.append(created.as_str());
    t.append(",\"updated_at\":");
    let updated = frame_date(updated_digits);
    t.append(updated.as_str());
    t.append("}");
    proof {
        assert(t@ =~= frame_of(
            author_literal@,
            content_literal@,
            created_digits@,
            updated_digits@,
        ));
    }
    t
}

/// Whether `id` is the identifier that is reserved for the relay.
pub fn is_relay_author(id: &String) -> (b: bool)
    ensures
        b == (id@ == relay_author()),
{
    let relay = String::from_str("000000000000000000000000");
    *id == relay
}

impl Message {
    pub fn new(user_id: &str, content: &str, created_at: i64, updated_at: i64) -> (m: Message)
        ensures
            m@ == (MessageView {
                user_id: user_id@,
                content: content@,
                created_at: created_at as int,
                updated_at: updated_at as int,
            }),
    {
        Message {
            user_id: user_id.to_string(),
            content: content.to_string(),
            created_at,
            updated_at,
        }
    }

    /// A second message with the same value.
    pub fn duplicate(&self) -> (m: Message)
        ensures
            m@ == self@,
    {
        Message {
            user_id: self.user_id.clone(),
            content: self.content.clone(),
            created_at: self.created_at,
            updated_at: self.updated_at,
        }
    }

    /// Whether the relay itself, not a user, is the author.
    pub fn is_presence(&self) -> (b: bool)
        ensures
            b == (self.user_id@ == relay_author()),
    {
        is_relay_author(&self.user_id)
    }

    /// The presence notice that says `content` at `now`.
    pub fn presence(content: String, now: i64) -> (m: Message)
        ensures
            m@ == notice(content@, now),
    {
        Message {
            user_id: String::from_str("000000000000000000000000"),
            content,
            created_at: now,
            updated_at: now,
        }
    }

    /// The notice that the connection with this label has joined.
    pub fn joined_as(label: &str, now: i64) -> (m: Message)
        ensures
            m@ == notice(join_line(label@), now),
    {
        let mut content = String::from_str(label);
        content.append(" has joined");
        Message::presence(content, now)
    }

    /// The notice that connection `id` has joined.
    pub fn joined(id: u128, now: i64) -> (m: Message)
        ensures
            m@ == notice(join_text(id), now),
    {
        let label = connection_label(id);
        Message::joined_as(label.as_str(), now)
    }

    /// The notice that some connection has left.
    pub fn left(now: i64) -> (m: Message)
        ensures
            m@ == notice(leave_text(), now),
    {
        Message::presence(String::from_str("A user has left"), now)
    }

    /// The notice that lists the connections with these labels, in their
    /// order.
    pub fn roster_of(labels: &Vec<String>, now: i64) -> (m: Message)
        ensures
            m@ == notice(roster_line(texts_of(labels@)), now),
    {
        let mut content = String::from_str("Current users: {");
        let ghost head = content@;
        let ghost all = texts_of(labels@);
        let mut i: usize = 0;
        while i < labels.len()
            invariant
                i <= labels.len(),
                all == texts_of(labels@),
                content@ == head + roster_entries(all.take(i as int)),
            decreases labels.len() - i,
        {
            proof {
                assert(all.take(i + 1).drop_last() =~= all.take(i as int));
            }
            if i > 0 {
                content.append(", ");
            }
            content.append("\"");
            content.append(labels[i].as_str());
            content.append("\"");
            proof {
                let done = all.take(i + 1);
                assert(done.last() == labels@[i as int]@);
                assert(content@ =~= head + roster_entries(done));
            }
            i = i + 1;
        }
        proof {
            assert(all.take(labels.len() as int) =~= all);
        }
        content.append("}");
        Message::presence(content, now)
    }

    /// The notice that lists who is connected, in the order of `ids`.
    pub fn roster(ids: &Vec<u128>, now: i64) -> (m: Message)
        ensures
            m@ == notice(roster_text(ids@), now),
    {
        let mut labels: Vec<String> = Vec::new();
        let mut i: usize = 0;
        while i < ids.len()
            invariant
                i <= ids.len(),
                texts_of(labels@) == uuid_texts(ids@.take(i as int)),
            decreases ids.len() - i,
        {
            let ghost before = texts_of(labels@);
            labels.push(connection_label(ids[i]));
            proof {
                assert(texts_of(labels@) =~= before.push(uuid_text(ids@[i as int])));
                assert(uuid_texts(ids@.take(i + 1)) =~= before.push(uuid_text(ids@[i as int])));
            }
            i = i + 1;
        }
        proof {
            assert(ids@.take(ids.len() as int) =~= ids@);
        }
        Message::roster_of(&labels, now)
    }

    /// The text frame that carries this message to a client.
    pub fn to_frame(&self) -> (t: String)
        ensures
            t@ == frame_text(self@),
    {
        let author = json_quote(self.user_id.as_str());
        let content = json_quote(self.content.as_str());
        let created = decimal(self.created_at);
        let updated = decimal(self.updated_at);
        frame(author.as_str(), content.as_str(), created.as_str(), updated.as_str())
    }
}

} // verus!
