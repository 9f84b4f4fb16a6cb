use ekilox::connection::{Connection, Inbound, Outbound, Phase};
use ekilox::error::ApiError;
use ekilox::message::{IncomingMessage, Message};
use ekilox::relay::Relay;
use ekilox::session::{AuthFault, User};

const C1: u128 = 0x11111111_2222_4333_8444_555555555555;
const C2: u128 = 0xaaaaaaaa_bbbb_4ccc_8ddd_eeeeeeeeeeee;

fn user(id: &str, alias: &str) -> User {
    User {
        _id: Some(id.to_string()),
        alias: alias.to_string(),
        email: format!("{}@example.com", alias),
        password: "$2b$12$hash".to_string(),
        full_name: alias.to_uppercase(),
        created_at: 1,
        updated_at: 1,
    }
}

fn active(relay: &mut Relay, id: u128, who: User, now: i64) -> Connection {
    let mut c = Connection::accept(id);
    c.on_upgrade(true);
    c.on_auth(Ok(who));
    c.join(relay, now);
    assert_eq!(c.phase(), Phase::Active);
    c
}

fn written(o: Outbound) -> String {
    match o {
        Outbound::Write(frame) => frame,
        other => panic!("expected a frame, got {:?}", other),
    }
}

fn frame_of(user_id: &str, content: &str, at: i64) -> String {
    format!(
        "{{\"user_id\":{{\"$oid\":\"{}\"}},\"content\":\"{}\",\"created_at\":{{\"$date\":{{\"$numberLong\":\"{}\"}}}},\"updated_at\":{{\"$date\":{{\"$numberLong\":\"{}\"}}}}}}",
        user_id, content, at, at
    )
}

#[test]
fn new_connection_walks_through_the_phases() {
    let mut relay = Relay::new(16);
    let mut c = Connection::accept(C1);
    assert_eq!(c.id(), C1);
    assert_eq!(c.phase(), Phase::Connecting);
    c.on_upgrade(true);
    assert_eq!(c.phase(), Phase::Authenticating);
    c.on_auth(Ok(user("65f0aa10c3d2e4b5a6978812", "john_doe")));
    assert_eq!(c.phase(), Phase::Joined);
    let roster = c.join(&mut relay, 100);
    assert_eq!(c.phase(), Phase::Active);
    assert_eq!(roster, vec![C1]);
    c.on_transport_lost();
    assert_eq!(c.phase(), Phase::Leaving);
    c.leave(&mut relay, 200);
    assert_eq!(c.phase(), Phase::Closed);
    assert!(relay.registry.is_empty());
}

#[test]
fn failed_upgrade_closes_without_side_effects() {
    let mut relay = Relay::new(16);
    let mut c = Connection::accept(C1);
    c.on_upgrade(false);
    assert_eq!(c.phase(), Phase::Closed);
    assert!(c.join(&mut relay, 1).is_empty());
    c.leave(&mut relay, 2);
    assert!(relay.registry.is_empty());
    assert_eq!(relay.bus.published(), 0);
}

#[test]
fn invalid_session_closes_and_touches_nothing() {
    let mut relay = Relay::new(16);
    let mut watcher = active(&mut relay, C2, user("65f0aa10c3d2e4b5a6978813", "jane_smith"), 1);
    while !matches!(watcher.next_outbound(&relay), Outbound::Idle) {}
    let before = relay.bus.published();

    let mut c = Connection::accept(C1);
    c.on_upgrade(true);
    assert_eq!(c.phase(), Phase::Authenticating);
    c.on_auth(Err(AuthFault::InvalidSession));
    assert_eq!(c.phase(), Phase::Closed);
    c.join(&mut relay, 2);
    c.leave(&mut relay, 3);

    assert_eq!(relay.registry.snapshot(), vec![C2]);
    assert_eq!(relay.bus.published(), before);
    assert!(matches!(watcher.next_outbound(&relay), Outbound::Idle));
}

#[test]
fn unauthenticated_client_is_closed_too() {
    let mut c = Connection::accept(C1);
    c.on_upgrade(true);
    c.on_auth(Err(AuthFault::Unauthenticated));
    assert_eq!(c.phase(), Phase::Closed);
}

#[test]
fn user_without_identifier_is_turned_away() {
    let mut who = user("65f0aa10c3d2e4b5a6978812", "john_doe");
    who._id = None;
    let mut c = Connection::accept(C1);
    c.on_upgrade(true);
    c.on_auth(Ok(who));
    assert_eq!(c.phase(), Phase::Closed);
}

#[test]
fn join_announces_the_connection_and_then_the_roster() {
    let mut relay = Relay::new(16);
    let mut first = active(&mut relay, C1, user("65f0aa10c3d2e4b5a6978812", "john_doe"), 10);
    assert!(matches!(first.next_outbound(&relay), Outbound::Idle));

    let mut second = Connection::accept(C2);
    second.on_upgrade(true);
    second.on_auth(Ok(user("65f0aa10c3d2e4b5a6978813", "jane_smith")));
    let roster = second.join(&mut relay, 20);
    let mut sorted = roster.clone();
    sorted.sort();
    assert_eq!(sorted, vec![C1, C2]);

    let join = written(first.next_outbound(&relay));
    assert_eq!(
        join,
        frame_of("000000000000000000000000", "aaaaaaaa-bbbb-4ccc-8ddd-eeeeeeeeeeee has joined", 20)
    );
    let labels: Vec<String> = roster
        .iter()
        .map(|id| {
            if *id == C1 {
                "\\\"11111111-2222-4333-8444-555555555555\\\"".to_string()
            } else {
                "\\\"aaaaaaaa-bbbb-4ccc-8ddd-eeeeeeeeeeee\\\"".to_string()
            }
        })
        .collect();
    let listing = written(first.next_outbound(&relay));
    assert_eq!(
        listing,
        frame_of(
            "000000000000000000000000",
            &format!("Current users: {{{}}}", labels.join(", ")),
            20
        )
    );
    assert!(matches!(first.next_outbound(&relay), Outbound::Idle));
    assert!(matches!(second.next_outbound(&relay), Outbound::Idle));
}

#[test]
fn hello_reaches_both_clients_with_the_bound_author() {
    let mut relay = Relay::new(16);
    let mut c1 = active(&mut relay, C1, user("65f0aa10c3d2e4b5a6978812", "john_doe"), 10);
    let mut c2 = active(&mut relay, C2, user("65f0aa10c3d2e4b5a6978813", "jane_smith"), 11);
    while !matches!(c1.next_outbound(&relay), Outbound::Idle) {}
    while !matches!(c2.next_outbound(&relay), Outbound::Idle) {}

    let record = match c1.on_text("{\"user_id\":\"someone-else\",\"content\":\"hello\"}", 50) {
        Inbound::Store(record) => record,
        other => panic!("expected a record to store, got {:?}", other),
    };
    assert_eq!(record.user_id, "65f0aa10c3d2e4b5a6978812");
    assert_eq!(record.content, "hello");
    assert_eq!(record.created_at, 50);
    assert_eq!(record.updated_at, 50);

    let mut stored: Vec<Message> = Vec::new();
    stored.push(record.duplicate());
    assert!(c1.on_persisted(&mut relay, Ok(record)));
    assert_eq!(stored.len(), 1);

    let expected = frame_of("65f0aa10c3d2e4b5a6978812", "hello", 50);
    assert_eq!(written(c1.next_outbound(&relay)), expected);
    assert_eq!(written(c2.next_outbound(&relay)), expected);
    assert!(matches!(c1.next_outbound(&relay), Outbound::Idle));
    assert!(matches!(c2.next_outbound(&relay), Outbound::Idle));
    assert_eq!(stored[0].user_id, "65f0aa10c3d2e4b5a6978812");
    assert_eq!(stored[0].content, "hello");
}

#[test]
fn disconnect_sends_one_leave_notice_and_clears_the_registry() {
    let mut relay = Relay::new(16);
    let mut c1 = active(&mut relay, C1, user("65f0aa10c3d2e4b5a6978812", "john_doe"), 10);
    let mut c2 = active(&mut relay, C2, user("65f0aa10c3d2e4b5a6978813", "jane_smith"), 11);
    while !matches!(c2.next_outbound(&relay), Outbound::Idle) {}

    c1.on_transport_lost();
    assert_eq!(c1.phase(), Phase::Leaving);
    assert!(relay.registry.contains(C1));
    c1.leave(&mut relay, 99);
    assert_eq!(c1.phase(), Phase::Closed);

    assert_eq!(
        written(c2.next_outbound(&relay)),
        frame_of("000000000000000000000000", "A user has left", 99)
    );
    assert!(matches!(c2.next_outbound(&relay), Outbound::Idle));
    assert_eq!(relay.registry.snapshot(), vec![C2]);
    assert!(!relay.registry.contains(C1));

    c1.leave(&mut relay, 100);
    assert!(matches!(c2.next_outbound(&relay), Outbound::Idle));
    assert!(matches!(c1.next_outbound(&relay), Outbound::Stop));
}

#[test]
fn store_failure_is_dropped_in_silence() {
    let mut relay = Relay::new(16);
    let mut c1 = active(&mut relay, C1, user("65f0aa10c3d2e4b5a6978812", "john_doe"), 10);
    let mut c2 = active(&mut relay, C2, user("65f0aa10c3d2e4b5a6978813", "jane_smith"), 11);
    while !matches!(c1.next_outbound(&relay), Outbound::Idle) {}
    while !matches!(c2.next_outbound(&relay), Outbound::Idle) {}
    let before = relay.bus.published();

    assert!(matches!(c1.on_text("{\"user_id\":\"x\",\"content\":\"lost\"}", 50), Inbound::Store(_)));
    let failure = ApiError::new(500, "Failed to insert message into MongoDB: timeout");
    assert!(!c1.on_persisted(&mut relay, Err(failure)));

    assert_eq!(relay.bus.published(), before);
    assert!(matches!(c1.next_outbound(&relay), Outbound::Idle));
    assert!(matches!(c2.next_outbound(&relay), Outbound::Idle));
    assert_eq!(c1.phase(), Phase::Active);

    let record = match c1.on_text("{\"user_id\":\"x\",\"content\":\"kept\"}", 51) {
        Inbound::Store(record) => record,
        other => panic!("expected a record to store, got {:?}", other),
    };
    assert!(c1.on_persisted(&mut relay, Ok(record)));
    assert_eq!(
        written(c2.next_outbound(&relay)),
        frame_of("65f0aa10c3d2e4b5a6978812", "kept", 51)
    );
}

#[test]
fn malformed_frames_are_dropped_and_the_connection_goes_on() {
    let mut relay = Relay::new(16);
    let c = active(&mut relay, C1, user("65f0aa10c3d2e4b5a6978812", "john_doe"), 10);
    assert!(matches!(c.on_text("not json", 1), Inbound::Malformed));
    assert!(matches!(c.on_text("[\"a\",\"b\"]", 1), Inbound::Malformed));
    assert!(matches!(c.on_text("{\"content\":[\"no text\"]}", 1), Inbound::Malformed));
    assert!(matches!(c.on_text("{}", 1), Inbound::Malformed));
    assert!(matches!(c.on_text("{\"user_id\":\"x\"}", 1), Inbound::Malformed));
    assert!(matches!(c.on_text("{\"user_id\":\"x\",\"content\":7}", 1), Inbound::Malformed));
    assert!(matches!(
        c.on_text("{\"user_id\":\"x\",\"content\":\"ok\",\"extra\":[1,2]}", 1),
        Inbound::Store(_)
    ));
    assert_eq!(c.phase(), Phase::Active);
}

#[test]
fn blank_text_is_refused_by_the_store_rules() {
    let mut relay = Relay::new(16);
    let c = active(&mut relay, C1, user("65f0aa10c3d2e4b5a6978812", "john_doe"), 10);
    match c.on_text("{\"user_id\":\"x\",\"content\":\" \\t\\n \"}", 1) {
        Inbound::Rejected(e) => {
            assert_eq!(e.code, 400);
            assert_eq!(e.message, "Message text cannot be empty");
        }
        other => panic!("expected a refusal, got {:?}", other),
    }
    assert!(matches!(c.on_text("{\"user_id\":\"x\",\"content\":\"\"}", 1), Inbound::Rejected(_)));
}

#[test]
fn text_is_ignored_unless_the_connection_is_active() {
    let mut c = Connection::accept(C1);
    assert!(matches!(c.on_text("{\"user_id\":\"x\",\"content\":\"hi\"}", 1), Inbound::Ignored));
    c.on_upgrade(true);
    c.on_auth(Ok(user("65f0aa10c3d2e4b5a6978812", "john_doe")));
    assert!(matches!(c.on_text("{\"user_id\":\"x\",\"content\":\"hi\"}", 1), Inbound::Ignored));
}

#[test]
fn lagging_client_is_told_and_keeps_its_connection() {
    let mut relay = Relay::new(2);
    let mut slow = active(&mut relay, C1, user("65f0aa10c3d2e4b5a6978812", "john_doe"), 10);
    let talker = active(&mut relay, C2, user("65f0aa10c3d2e4b5a6978813", "jane_smith"), 11);
    for n in 0..3 {
        let text = format!("{{\"user_id\":\"x\",\"content\":\"m{}\"}}", n);
        match talker.on_text(&text, 60 + n) {
            Inbound::Store(record) => assert!(talker.on_persisted(&mut relay, Ok(record))),
            other => panic!("expected a record to store, got {:?}", other),
        }
    }
    assert!(matches!(slow.next_outbound(&relay), Outbound::Lagged(3)));
    assert_eq!(slow.phase(), Phase::Active);
    assert_eq!(
        written(slow.next_outbound(&relay)),
        frame_of("65f0aa10c3d2e4b5a6978813", "m1", 61)
    );
    assert_eq!(
        written(slow.next_outbound(&relay)),
        frame_of("65f0aa10c3d2e4b5a6978813", "m2", 62)
    );
    assert!(matches!(slow.next_outbound(&relay), Outbound::Idle));
}

#[test]
fn connection_of_another_relay_stops_and_leaves() {
    let mut home = Relay::new(4);
    let elsewhere = Relay::new(4);
    let mut c = active(&mut home, C1, user("65f0aa10c3d2e4b5a6978812", "john_doe"), 10);
    assert!(matches!(c.next_outbound(&elsewhere), Outbound::Stop));
    assert_eq!(c.phase(), Phase::Leaving);
    c.leave(&mut home, 11);
    assert!(home.registry.is_empty());
}

#[test]
fn transport_loss_before_the_join_closes_at_once() {
    let mut c = Connection::accept(C1);
    c.on_transport_lost();
    assert_eq!(c.phase(), Phase::Closed);
    let mut d = Connection::accept(C2);
    d.on_upgrade(true);
    d.on_auth(Ok(user("65f0aa10c3d2e4b5a6978812", "john_doe")));
    d.on_transport_lost();
    assert_eq!(d.phase(), Phase::Closed);
}

#[test]
fn same_user_may_hold_two_connections() {
    let mut relay = Relay::new(16);
    let _a = active(&mut relay, C1, user("65f0aa10c3d2e4b5a6978812", "john_doe"), 10);
    let _b = active(&mut relay, C2, user("65f0aa10c3d2e4b5a6978812", "john_doe"), 11);
    assert_eq!(relay.registry.len(), 2);
}

#[test]
fn decoded_message_is_stored_under_the_bound_user() {
    let mut relay = Relay::new(16);
    let c = active(&mut relay, C1, user("65f0aa10c3d2e4b5a6978812", "john_doe"), 10);
    let payload =
        IncomingMessage { user_id: Some("forged".to_string()), content: "hi".to_string() };
    match c.on_message(Some(payload.clone()), false, 9) {
        Inbound::Store(m) => {
            assert_eq!(m.user_id, "65f0aa10c3d2e4b5a6978812");
            assert_eq!(m.content, "hi");
            assert_eq!((m.created_at, m.updated_at), (9, 9));
        }
        other => panic!("expected a record to store, got {:?}", other),
    }
    assert!(matches!(c.on_message(Some(payload.clone()), true, 9), Inbound::Rejected(_)));
    assert!(matches!(c.on_message(None, false, 9), Inbound::Malformed));
    assert!(matches!(c.on_message(None, true, 9), Inbound::Malformed));
    let idle = Connection::accept(C2);
    assert!(matches!(idle.on_message(Some(payload), false, 9), Inbound::Ignored));
}

#[test]
fn payload_with_content_alone_reaches_both_clients() {
    let mut relay = Relay::new(16);
    let mut c1 = active(&mut relay, C1, user("65f0aa10c3d2e4b5a6978812", "john_doe"), 10);
    let mut c2 = active(&mut relay, C2, user("65f0aa10c3d2e4b5a6978813", "jane_smith"), 11);
    while !matches!(c1.next_outbound(&relay), Outbound::Idle) {}
    while !matches!(c2.next_outbound(&relay), Outbound::Idle) {}

    let record = match c1.on_text("{\"content\":\"hello\"}", 50) {
        Inbound::Store(record) => record,
        other => panic!("expected a record to store, got {:?}", other),
    };
    assert_eq!(record.user_id, "65f0aa10c3d2e4b5a6978812");
    assert_eq!(record.content, "hello");
    let stored = record.duplicate();
    assert!(c1.on_persisted(&mut relay, Ok(record)));

    let expected = frame_of("65f0aa10c3d2e4b5a6978812", "hello", 50);
    assert_eq!(written(c1.next_outbound(&relay)), expected);
    assert_eq!(written(c2.next_outbound(&relay)), expected);
    assert!(matches!(c1.next_outbound(&relay), Outbound::Idle));
    assert!(matches!(c2.next_outbound(&relay), Outbound::Idle));
    assert_eq!((stored.user_id.as_str(), stored.content.as_str()),
        ("65f0aa10c3d2e4b5a6978812", "hello"));

    let bare = IncomingMessage { user_id: None, content: "again".to_string() };
    assert!(matches!(c2.on_message(Some(bare), false, 51), Inbound::Store(_)));
}

#[test]
fn user_under_the_relays_identifier_is_turned_away() {
    let mut c = Connection::accept(C1);
    c.on_upgrade(true);
    c.on_auth(Ok(user("000000000000000000000000", "impostor")));
    assert_eq!(c.phase(), Phase::Closed);
    let mut relay = Relay::new(4);
    assert!(c.join(&mut relay, 1).is_empty());
    assert!(relay.registry.is_empty());
    assert_eq!(relay.bus.published(), 0);
}

#[test]
fn record_under_the_relays_identifier_is_not_published() {
    let mut relay = Relay::new(16);
    let mut c = active(&mut relay, C1, user("65f0aa10c3d2e4b5a6978812", "john_doe"), 10);
    while !matches!(c.next_outbound(&relay), Outbound::Idle) {}
    let before = relay.bus.published();
    let forged = Message::new("000000000000000000000000", "A user has left", 1, 1);
    assert!(!c.on_persisted(&mut relay, Ok(forged)));
    assert_eq!(relay.bus.published(), before);
    assert!(matches!(c.next_outbound(&relay), Outbound::Idle));
}
