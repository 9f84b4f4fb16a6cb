//! One client's connection, from the accepted socket to the closed one.
//!
//! The handler of a connection waits on the network; what it does between two
//! waits is decided here. Each method is one transition: it takes what the
//! handler has just learned, changes the connection and the shared relay
//! accordingly, and says what the handler has to do next.

use vstd::prelude::*;
use vstd::string::*;
use crate::bus::{cursor_after, next_delivery, Delivery, DeliveryView, Subscription};
use crate::error::{ApiError, ApiErrorView};
use crate::message::{
    decoded, frame_text, is_relay_author, join_text, leave_text, notice, relay_author,
    roster_text, some_incoming, IncomingMessage, IncomingView, Message, MessageView,
};
use crate::relay::Relay;
use crate::session::{AuthFault, User, UserView};
use crate::store::{blank, draft_message, drafted, is_blank};

verus! {

/// Where a connection stands in its life.
#[derive(Debug, Clone, Copy, PartialEq, Eq, Structural)]
pub enum Phase {
    /// The socket is accepted; the protocol upgrade is not done.
    Connecting,
    /// Upgraded; the session is being verified.
    Authenticating,
    /// The user is known; the connection is not announced yet.
    Joined,
    /// Announced and subscribed; messages flow both ways.
    Active,
    /// The transport is gone or the join failed; cleanup is due.
    Leaving,
    /// Nothing is held any more.
    Closed,
}

/// What the handler has to do with a text frame from its client.
#[derive(Debug)]
pub enum Inbound {
    /// Store this record, then report how that went.
    Store(Message),
    /// The store's rules refuse the message: drop it, tell nobody.
    Rejected(ApiError),
    /// The frame is malformed: drop it and carry on.
    Malformed,
    /// The connection is not active: nothing is to be done.
    Ignored,
}

/// What the handler has to do for its client next.
#[derive(Debug)]
pub enum Outbound {
    /// Write this text frame to the client.
    Write(String),
    /// The client fell behind and lost this many events: note it, carry on.
    Lagged(u64),
    /// Nothing is waiting: come back when something has been published.
    Idle,
    /// The connection no longer reads the bus: stop.
    Stop,
}

/// One client's connection: its identifier, where it stands, the user it
/// was authenticated as, and its subscription to the bus.
pub struct Connection {
    id: u128,
    phase: Phase,
    user: Option<User>,
    subscription: Option<Subscription>,
}

/// The mathematical value of a `Connection`.
pub struct ConnectionView {
    pub id: u128,
    pub phase: Phase,
    /// The authenticated user, bound for the rest of the connection's life.
    pub user: Option<UserView>,
    /// Where the connection stands in the history of the bus, while it holds
    /// a subscription.
    pub cursor: Option<nat>,
    /// Which bus its subscription reads.
    pub channel: Option<int>,
}

impl View for Connection {
    type V = ConnectionView;

    closed spec fn view(&self) -> ConnectionView {
        ConnectionView {
            id: self.id,
            phase: self.phase,
            user: match self.user {
                Some(u) => Some(u@),
                None => None,
            },
            cursor: match self.subscription {
                Some(s) => Some(s.cursor()),
                None => None,
            },
            channel: match self.subscription {
                Some(s) => Some(s.channel()),
                None => None,
            },
        }
    }
}

/// Whether `user` is a user that a connection can be bound to: one that has
/// an identifier, and not the identifier that the relay's own notices carry.
pub open spec fn is_real_user(user: Option<UserView>) -> bool {
    &&& user is Some
    &&& user->0._id is Some
    &&& user->0._id->0 != relay_author()
}

impl ConnectionView {
    /// A user is bound from `Joined` on, under an identifier that is not the
    /// one reserved for the relay, and a subscription is held exactly between
    /// the join and the cleanup.
    pub open spec fn wf(self) -> bool {
        &&& (self.phase == Phase::Joined || self.phase == Phase::Active) ==> is_real_user(
            self.user,
        )
        &&& self.phase == Phase::Active ==> self.cursor is Some
        &&& self.cursor is Some ==> self.phase == Phase::Active || self.phase == Phase::Leaving
        &&& self.cursor is Some <==> self.channel is Some
    }

    /// Whether the connection is subscribed to the bus of `relay`.
    pub open spec fn reads(self, relay: &Relay) -> bool {
        self.channel == Some(relay.bus.channel())
    }

    /// A connection that waits for the protocol upgrade goes on to the
    /// authentication when the upgrade succeeds, and is closed when it fails.
    pub open spec fn after_upgrade(self, ok: bool) -> ConnectionView {
        if self.phase == Phase::Connecting {
            ConnectionView {
                phase: if ok {
                    Phase::Authenticating
                } else {
                    Phase::Closed
                },
                ..self
            }
        } else {
            self
        }
    }

    /// A connection that waits for the authentication is bound to the user
    /// that was found, if one was found and is one that a connection can be
    /// bound to, and is closed otherwise.
    pub open spec fn after_auth(self, outcome: Result<UserView, AuthFault>) -> ConnectionView {
        if self.phase == Phase::Authenticating {
            match outcome {
                Ok(user) => if is_real_user(Some(user)) {
                    ConnectionView { phase: Phase::Joined, user: Some(user), ..self }
                } else {
                    ConnectionView { phase: Phase::Closed, ..self }
                },
                Err(_) => ConnectionView { phase: Phase::Closed, ..self },
            }
        } else {
            self
        }
    }

    /// An active connection that loses its transport has to clean up; one
    /// that was never announced is closed at once.
    pub open spec fn after_transport_lost(self) -> ConnectionView {
        match self.phase {
            Phase::Active => ConnectionView { phase: Phase::Leaving, ..self },
            Phase::Connecting | Phase::Authenticating | Phase::Joined => ConnectionView {
                phase: Phase::Closed,
                ..self
            },
            _ => self,
        }
    }
}

/// How far a phase is along the way from the accepted socket to the closed
/// one.
pub open spec fn rank(phase: Phase) -> nat {
    match phase {
        Phase::Connecting => 0,
        Phase::Authenticating => 1,
        Phase::Joined => 2,
        Phase::Active => 3,
        Phase::Leaving => 4,
        Phase::Closed => 5,
    }
}

/// What the handler learns without touching the relay never takes a
/// connection back to an earlier phase, and never takes it out of `Closed`.
pub proof fn lemma_phases_only_advance(
    c: ConnectionView,
    ok: bool,
    outcome: Result<UserView, AuthFault>,
)
    ensures
        rank(c.after_upgrade(ok).phase) >= rank(c.phase),
        rank(c.after_auth(outcome).phase) >= rank(c.phase),
        rank(c.after_transport_lost().phase) >= rank(c.phase),
        c.phase == Phase::Closed ==> c.after_upgrade(ok) == c && c.after_auth(outcome) == c
            && c.after_transport_lost() == c,
        c.wf() ==> c.after_upgrade(ok).wf() && c.after_transport_lost().wf(),
{
}

pub open spec fn auth_view(outcome: Result<User, AuthFault>) -> Result<UserView, AuthFault> {
    match outcome {
        Ok(user) => Ok(user@),
        Err(fault) => Err(fault),
    }
}

impl Connection {
    pub open spec fn wf(&self) -> bool {
        self@.wf()
    }

    /// The connection for a socket that has just been accepted.
    pub fn accept(id: u128) -> (c: Connection)
        ensures
            c.wf(),
            c@ == (ConnectionView {
                id,
                phase: Phase::Connecting,
                user: None,
                cursor: None,
                channel: None,
            }),
    {
        Connection { id, phase: Phase::Connecting, user: None, subscription: None }
    }

    pub fn id(&self) -> (id: u128)
        ensures
            id == self@.id,
    {
        self.id
    }

    pub fn phase(&self) -> (phase: Phase)
        ensures
            phase == self@.phase,
    {
        self.phase
    }

    /// The protocol upgrade has ended. A connection that is not waiting for
    /// it is left as it is.
    pub fn on_upgrade(&mut self, ok: bool)
        requires
            old(self).wf(),
        ensures
            final(self).wf(),
            final(self)@ == old(self)@.after_upgrade(ok),
    {
        if self.phase == Phase::Connecting {
            self.phase = if ok {
                Phase::Authenticating
            } else {
                Phase::Closed
            };
        }
    }

    /// The session authenticator has answered. With a user, the user is bound
    /// to the connection; without one the connection is closed, and so it is
    /// with a user that has no identifier or has the one that is reserved for
    /// the relay's own notices. Neither touches the registry or the bus.
    pub fn on_auth(&mut self, outcome: Result<User, AuthFault>)
        requires
            old(self).wf(),
        ensures
            final(self).wf(),
            final(self)@ == old(self)@.after_auth(auth_view(outcome)),
    {
        if self.phase == Phase::Authenticating {
            match outcome {
                Ok(user) => {
                    let bindable = match &user._id {
                        Some(id) => !is_relay_author(id),
                        None => false,
                    };
                    if bindable {
                        self.user = Some(user);
                        self.phase = Phase::Joined;
                    } else {
                        self.phase = Phase::Closed;
                    }
                },
                Err(_) => {
                    self.phase = Phase::Closed;
                },
            }
        }
    }

    /// The transport is closed or broken.
    pub fn on_transport_lost(&mut self)
        requires
            old(self).wf(),
        ensures
            final(self).wf(),
            final(self)@ == old(self)@.after_transport_lost(),
    {
        match self.phase {
            Phase::Active => {
                self.phase = Phase::Leaving;
            },
            Phase::Connecting | Phase::Authenticating | Phase::Joined => {
                self.phase = Phase::Closed;
            },
            _ => {},
        }
    }
}

/// The history of the bus once connection `id` has been announced: the join
/// notice, then the roster.
pub open spec fn announced(before: Seq<MessageView>, id: u128, roster: Seq<u128>, now: i64) -> Seq<
    MessageView,
> {
    before.push(notice(join_text(id), now)).push(notice(roster_text(roster), now))
}

/// What is to be done with a client's message: `Err(None)` for a frame that
/// could not be decoded, `Err(Some(..))` for a message that the store's rules
/// refuse, the record to store otherwise. The author of the record is `user`,
/// whoever the payload claims to be.
pub open spec fn inbound_outcome(
    user: UserView,
    payload: Option<IncomingView>,
    blank: bool,
    now: i64,
) -> Result<MessageView, Option<ApiErrorView>> {
    match payload {
        None => Err(None),
        Some(payload) => if blank {
            Err(Some(ApiErrorView { code: 400, message: "Message text cannot be empty"@ }))
        } else {
            Ok(drafted(user._id->0, payload.content, now))
        },
    }
}

/// Whether the content of `payload`, if there is one, is blank.
pub open spec fn payload_blank(payload: Option<IncomingView>) -> bool {
    payload matches Some(p) && is_blank(p.content)
}

impl Connection {
    /// Announces the connection: registers it, publishes the join notice and
    /// the roster, and subscribes it to the bus, in that order. Returns the
    /// roster that was announced. When the bus cannot take both notices, the
    /// connection goes to `Leaving` at once, still registered and without a
    /// subscription. A connection that is not in `Joined` is left as it is,
    /// and so is the relay.
    pub fn join(&mut self, relay: &mut Relay, now: i64) -> (roster: Vec<u128>)
        requires
            old(self).wf(),
            old(relay).wf(),
        ensures
            final(self).wf(),
            final(relay).wf(),
            final(relay).bus.channel() == old(relay).bus.channel(),
            final(relay).bus.capacity() == old(relay).bus.capacity(),
            old(self)@.phase != Phase::Joined ==> {
                &&& final(self)@ == old(self)@
                &&& final(relay).online() == old(relay).online()
                &&& final(relay).history() == old(relay).history()
                &&& roster@.len() == 0
            },
            old(self)@.phase == Phase::Joined ==> {
                final(relay).online() == old(relay).online().insert(old(self)@.id)
            },
            old(self)@.phase == Phase::Joined && old(relay).history().len() + 2 <= u64::MAX ==> {
                &&& roster@.to_set() == final(relay).online()
                &&& roster@.no_duplicates()
                &&& final(relay).history() == announced(
                    old(relay).history(),
                    old(self)@.id,
                    roster@,
                    now,
                )
                &&& final(self)@ == (ConnectionView {
                    phase: Phase::Active,
                    cursor: Some(final(relay).history().len()),
                    channel: Some(final(relay).bus.channel()),
                    ..old(self)@
                })
            },
            old(self)@.phase == Phase::Joined && old(relay).history().len() + 2 > u64::MAX ==> {
                &&& final(self)@ == (ConnectionView { phase: Phase::Leaving, ..old(self)@ })
                &&& final(relay).history() == if old(relay).history().len() < u64::MAX {
                    old(relay).history().push(notice(join_text(old(self)@.id), now))
                } else {
                    old(relay).history()
                }
            },
    {
        if self.phase != Phase::Joined {
            return Vec::new();
        }
        relay.registry.join(self.id);
        if relay.bus.publish(Message::joined(self.id, now)).is_err() {
            self.phase = Phase::Leaving;
            return Vec::new();
        }
        let roster = relay.registry.snapshot();
        if relay.bus.publish(Message::roster(&roster, now)).is_err() {
            self.phase = Phase::Leaving;
            return roster;
        }
        self.subscription = Some(relay.bus.subscribe());
        self.phase = Phase::Active;
        roster
    }

    /// The client has sent a message. `payload` is what its frame decodes to,
    /// `None` for a malformed one; `blank` says whether the content holds
    /// nothing but white space. The author of what is stored is the user
    /// bound to the connection, whoever the payload claims to be and whether
    /// or not it claims anything. What is stored is never taken for a
    /// presence notice.
    pub fn on_message(&self, payload: Option<IncomingMessage>, blank: bool, now: i64) -> (r:
        Inbound)
        requires
            self.wf(),
        ensures
            self@.phase != Phase::Active ==> r is Ignored,
            self@.phase == Phase::Active ==> match inbound_outcome(
                self@.user->0,
                some_incoming(payload),
                blank,
                now,
            ) {
                Ok(record) => r matches Inbound::Store(m) && m@ == record,
                Err(Some(refusal)) => r matches Inbound::Rejected(e) && e@ == refusal,
                Err(None) => r is Malformed,
            },
            r matches Inbound::Store(m) ==> m@.user_id != relay_author(),
    {
        if self.phase != Phase::Active {
            return Inbound::Ignored;
        }
        let payload = match payload {
            Some(payload) => payload,
            None => {
                return Inbound::Malformed;
            },
        };
        let user = match &self.user {
            Some(user) => user.duplicate(),
            None => {
                return Inbound::Ignored;
            },
        };
        match draft_message(Ok(user), payload.content, blank, now) {
            Ok(record) => Inbound::Store(record),
            Err(refusal) => Inbound::Rejected(refusal),
        }
    }

    /// The client has sent a text frame: decodes it and decides as
    /// `on_message` does.
    pub fn on_text(&self, frame: &str, now: i64) -> (r: Inbound)
        requires
            self.wf(),
        ensures
            self@.phase != Phase::Active ==> r is Ignored,
            self@.phase == Phase::Active ==> match inbound_outcome(
                self@.user->0,
                decoded(frame@),
                payload_blank(decoded(frame@)),
                now,
            ) {
                Ok(record) => r matches Inbound::Store(m) && m@ == record,
                Err(Some(refusal)) => r matches Inbound::Rejected(e) && e@ == refusal,
                Err(None) => r is Malformed,
            },
            r matches Inbound::Store(m) ==> m@.user_id != relay_author(),
    {
        let payload = IncomingMessage::from_frame(frame);
        let empty = match &payload {
            Some(payload) => blank(payload.content.as_str()),
            None => false,
        };
        self.on_message(payload, empty, now)
    }

    /// The message store has answered. What it stored is published; what it
    /// could not store is dropped, and nobody is told. A record under the
    /// identifier that is reserved for the relay is no user's message and is
    /// dropped as well. Returns whether the record was published.
    pub fn on_persisted(&self, relay: &mut Relay, outcome: Result<Message, ApiError>) -> (published:
        bool)
        requires
            self.wf(),
            old(relay).wf(),
        ensures
            final(relay).wf(),
            final(relay).online() == old(relay).online(),
            final(relay).bus.channel() == old(relay).bus.channel(),
            final(relay).bus.capacity() == old(relay).bus.capacity(),
            published == {
                &&& self@.phase == Phase::Active
                &&& outcome is Ok
                &&& outcome->Ok_0@.user_id != relay_author()
                &&& old(relay).history().len() < u64::MAX
            },
            published ==> final(relay).history() == old(relay).history().push(outcome->Ok_0@),
            !published ==> final(relay).history() == old(relay).history(),
    {
        if self.phase != Phase::Active {
            return false;
        }
        match outcome {
            Ok(record) => {
                if record.is_presence() {
                    return false;
                }
                relay.bus.publish(record).is_ok()
            },
            Err(_) => false,
        }
    }

    /// Takes the next event off the bus for the client, without waiting.
    /// Every event is passed on, also one that the client itself has caused.
    pub fn next_outbound(&mut self, relay: &Relay) -> (r: Outbound)
        requires
            old(self).wf(),
            relay.wf(),
        ensures
            final(self).wf(),
            old(self)@.phase != Phase::Active ==> r is Stop && final(self)@ == old(self)@,
            old(self)@.phase == Phase::Active && !old(self)@.reads(relay) ==> {
                &&& r is Stop
                &&& final(self)@ == (ConnectionView { phase: Phase::Leaving, ..old(self)@ })
            },
            old(self)@.phase == Phase::Active && old(self)@.reads(relay) ==> {
                &&& final(self)@ == (ConnectionView {
                    cursor: Some(
                        cursor_after(
                            relay.history(),
                            relay.bus.capacity(),
                            old(self)@.cursor->0,
                        ),
                    ),
                    ..old(self)@
                })
                &&& match next_delivery(
                    relay.history(),
                    relay.bus.capacity(),
                    old(self)@.cursor->0,
                ) {
                    DeliveryView::Event(event) => r matches Outbound::Write(frame) && frame@
                        == frame_text(event),
                    DeliveryView::Lagged(missed) => r == Outbound::Lagged(missed as u64),
                    DeliveryView::Empty => r is Idle,
                    DeliveryView::Closed => false,
                }
            },
    {
        if self.phase != Phase::Active {
            return Outbound::Stop;
        }
        let delivery = match &mut self.subscription {
            Some(subscription) => subscription.poll(&relay.bus),
            None => Delivery::Closed,
        };
        match delivery {
            Delivery::Event(event) => Outbound::Write(event.to_frame()),
            Delivery::Lagged(missed) => Outbound::Lagged(missed),
            Delivery::Empty => Outbound::Idle,
            Delivery::Closed => {
                self.phase = Phase::Leaving;
                Outbound::Stop
            },
        }
    }

    /// Cleans up after the connection: removes it from the registry,
    /// publishes the leave notice, and gives up the subscription. A
    /// connection that is not in `Leaving` is left as it is, and so is the
    /// relay.
    pub fn leave(&mut self, relay: &mut Relay, now: i64)
        requires
            old(self).wf(),
            old(relay).wf(),
        ensures
            final(self).wf(),
            final(relay).wf(),
            final(relay).bus.channel() == old(relay).bus.channel(),
            final(relay).bus.capacity() == old(relay).bus.capacity(),
            old(self)@.phase != Phase::Leaving ==> {
                &&& final(self)@ == old(self)@
                &&& final(relay).online() == old(relay).online()
                &&& final(relay).history() == old(relay).history()
            },
            old(self)@.phase == Phase::Leaving ==> {
                &&& final(self)@ == (ConnectionView {
                    phase: Phase::Closed,
                    cursor: None,
                    channel: None,
                    ..old(self)@
                })
                &&& final(relay).online() == old(relay).online().remove(old(self)@.id)
                &&& final(relay).history() == if old(relay).history().len() < u64::MAX {
                    old(relay).history().push(notice(leave_text(), now))
                } else {
                    old(relay).history()
                }
            },
    {
        if self.phase != Phase::Leaving {
            return ;
        }
        relay.registry.leave(self.id);
        let _ = relay.bus.publish(Message::left(now));
        self.subscription = None;
        self.phase = Phase::Closed;
    }
}

} // verus!
