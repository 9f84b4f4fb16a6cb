use ekilox::account::authenticate_user;
use ekilox::bootstrap::{
    after_seeded, collection_name, first_collection, on_checked, seed_auths, seed_messages,
    seed_users, Collection, Provision,
};
use ekilox::connection::Phase;
use ekilox::listener::{Listener, ListenerPhase};
use ekilox::session::Lookup;

#[test]
fn collections_are_prepared_in_order() {
    assert_eq!(first_collection(), Collection::Users);
    assert_eq!(collection_name(Collection::Users), "users");
    assert_eq!(collection_name(Collection::Messages), "messages");
    assert_eq!(collection_name(Collection::Auths), "auths");
    assert_eq!(on_checked(Collection::Users, true), Provision::Finish);
    assert_eq!(on_checked(Collection::Users, false), Provision::Seed(Collection::Users));
    assert_eq!(on_checked(Collection::Messages, false), Provision::Seed(Collection::Messages));
    assert_eq!(on_checked(Collection::Auths, true), Provision::Finish);
    assert_eq!(after_seeded(Collection::Users, 2), Some(Collection::Messages));
    assert_eq!(after_seeded(Collection::Users, 0), None);
    assert_eq!(after_seeded(Collection::Messages, 0), Some(Collection::Auths));
    assert_eq!(after_seeded(Collection::Auths, 2), None);
}

#[test]
fn sample_users_can_log_in() {
    let users = seed_users("pepper", 42).unwrap();
    assert_eq!(users.len(), 2);
    assert_eq!(users[0].alias, "john_doe");
    assert_eq!(users[0].email, "john.doe@example.com");
    assert_eq!(users[0].full_name, "John Doe");
    assert_eq!(users[1].alias, "jane_smith");
    assert_eq!(users[1].email, "jane.smith@example.com");
    assert_eq!(users[1].full_name, "Jane Smith");
    assert!(users.iter().all(|u| u._id.is_none() && u.created_at == 42 && u.updated_at == 42));
    assert_ne!(users[0].password, users[1].password);
    let mut jane = users[1].duplicate();
    jane._id = Some("65f0aa10c3d2e4b5a6978813".to_string());
    assert!(authenticate_user(Lookup::Found(jane), "P4ssw0rd!", "pepper").is_ok());
}

#[test]
fn sample_messages_and_authorizations() {
    let ids = vec!["65f0aa10c3d2e4b5a6978812".to_string(), "65f0aa10c3d2e4b5a6978813".to_string()];
    let messages = seed_messages(&ids, 7);
    let listed: Vec<(&str, &str, i64, i64)> = messages
        .iter()
        .map(|m| (m.user_id.as_str(), m.content.as_str(), m.created_at, m.updated_at))
        .collect();
    assert_eq!(
        listed,
        vec![
            ("65f0aa10c3d2e4b5a6978812", "Hello, this is John!", 7, 7),
            ("65f0aa10c3d2e4b5a6978812", "How are you?", 7, 7),
            ("65f0aa10c3d2e4b5a6978813", "Hi, this is Jane!", 7, 7),
        ]
    );
    let auths = seed_auths(&ids);
    assert_eq!(auths.len(), 2);
    assert_eq!(auths[0].user_id, ids[0]);
    assert_eq!(auths[1].user_id, ids[1]);
    assert_eq!(auths[0].code.len(), 32);
    assert_eq!(auths[1].code.len(), 32);
    assert_ne!(auths[0].code, auths[1].code);
}

#[test]
fn failed_bind_is_final() {
    let mut l = Listener::new();
    assert_eq!(l.phase(), ListenerPhase::Binding);
    assert!(l.on_accept(true).is_none());
    assert!(!l.on_bind(false));
    assert_eq!(l.phase(), ListenerPhase::Failed);
    assert!(!l.on_bind(true));
    assert_eq!(l.phase(), ListenerPhase::Failed);
    assert!(l.on_accept(true).is_none());
    assert!(l.receive(true, 5).is_none());
}

#[test]
fn failed_accept_does_not_stop_the_listener() {
    let mut l = Listener::new();
    assert!(l.on_bind(true));
    assert_eq!(l.phase(), ListenerPhase::Listening);
    assert!(l.on_accept(false).is_none());
    assert_eq!(l.phase(), ListenerPhase::Listening);
    let a = l.on_accept(true).unwrap();
    let b = l.on_accept(true).unwrap();
    assert_eq!(a.phase(), Phase::Connecting);
    assert_eq!(b.phase(), Phase::Connecting);
    assert_ne!(a.id(), b.id());
    assert_eq!((a.id() >> 76) & 0xf, 4);
    let c = l.receive(true, 99).unwrap();
    assert_eq!(c.id(), 99);
    assert!(l.receive(false, 100).is_none());
    assert_eq!(l.receive(true, 100).unwrap().id(), 100);
}

#[test]
fn every_accepted_socket_is_served_under_an_identifier_of_its_own() {
    let mut l = Listener::new();
    l.on_bind(true);
    assert_eq!(l.receive(true, 7).unwrap().id(), 7);
    assert_eq!(l.receive(true, 7).unwrap().id(), 0);
    assert_eq!(l.receive(true, 7).unwrap().id(), 1);
    assert_eq!(l.receive(true, 0).unwrap().id(), 2);
    assert_eq!(l.receive(true, 3).unwrap().id(), 3);
    assert_eq!(l.receive(true, 3).unwrap().id(), 4);
    let drawn = l.on_accept(true).unwrap().id();
    let other = l.receive(true, drawn).unwrap().id();
    assert_eq!(other, 5);
    l.release(1);
    assert_eq!(l.receive(true, 7).unwrap().id(), 1);
    l.release(7);
    assert_eq!(l.receive(true, 7).unwrap().id(), 7);
    l.release(1000);
    assert_eq!(l.phase(), ListenerPhase::Listening);
}

#[test]
fn many_accepts_fill_the_registry_one_by_one() {
    let mut l = Listener::new();
    l.on_bind(true);
    let mut relay = ekilox::relay::Relay::new(4);
    for n in 1..=40usize {
        let c = if n % 2 == 0 { l.on_accept(true).unwrap() } else { l.receive(true, 9).unwrap() };
        assert!(relay.registry.join(c.id()));
        assert_eq!(relay.registry.len(), n);
    }
}
