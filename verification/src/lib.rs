//! Verified core of a chat service: a relay that broadcasts messages and
//! presence changes to every connected client, and the rules of the accounts,
//! sessions and files around it.
//!
//! The relay is made of three parts. The `presence` registry knows which
//! connections are online. The `bus` carries every event to every subscriber
//! in one order, and tells a subscriber that has fallen behind how much it
//! has lost. A `connection` is a state machine: the task that serves a client
//! hands it what it has learned from the network or from the store, and is
//! told what to do next. The `relay` holds the registry and the bus, the
//! `listener` decides what follows from a bind and from an accept.
//!
//! Nothing here touches a socket, a file or the store. The records that the
//! store holds are drafted and checked in `account`, `session`, `store` and
//! `bootstrap`; `files` and `watch` decide what of the file system is shown
//! and which of its events are passed on.

pub mod account;
pub mod bootstrap;
pub mod bus;
pub mod connection;
pub mod error;
pub mod files;
pub mod listener;
pub mod message;
pub mod presence;
pub mod relay;
pub mod session;
pub mod store;
pub mod text;
pub mod watch;
