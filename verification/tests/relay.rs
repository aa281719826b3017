use astro_relay::ids::{ConnId, UserId};
use astro_relay::messages::{ClientMsg, Outgoing, PeerInfo, Recipient, ServerMsg};
use astro_relay::relay::{AppState, Frame, Session};

const ALICE: UserId = 0xa11ce;
const BOB: UserId = 0xb0b;
const CAROL: UserId = 0xca401;

fn s(text: &str) -> String {
    text.to_string()
}

fn hello(name: &str, id: Option<UserId>) -> ClientMsg {
    ClientMsg::Hello { username: s(name), user_id: id }
}

fn join(channel: &str) -> ClientMsg {
    ClientMsg::JoinChannel { channel_id: s(channel) }
}

fn leave(channel: &str) -> ClientMsg {
    ClientMsg::LeaveChannel { channel_id: s(channel) }
}

fn chat(channel: &str, content: &str, id: &str) -> ClientMsg {
    ClientMsg::Chat { channel_id: s(channel), content: s(content), message_id: Some(s(id)) }
}

fn enter(state: &mut AppState, conn: ConnId, name: &str, id: UserId) -> Session {
    let mut session = Session::with_id(conn, 1000 + conn as u128);
    state.handle_message(&mut session, hello(name, Some(id)), 0);
    session
}

fn who(out: &Outgoing) -> Vec<(UserId, ConnId)> {
    let mut list: Vec<(UserId, ConnId)> = out.to.iter().map(|r| (r.user_id, r.conn)).collect();
    list.sort();
    list
}

fn error(session: &Session, text: &str) -> Vec<Outgoing> {
    vec![Outgoing {
        to: vec![Recipient { user_id: session.user_id, conn: session.conn }],
        msg: ServerMsg::Error { message: s(text) },
    }]
}

#[test]
fn a_fresh_session_has_a_name_made_of_its_identity() {
    let session = Session::with_id(7, 0x0011_2233_4455_6677_8899_aabb_ccdd_eeff);
    assert_eq!(session.username, "user-00112233");
    assert_eq!(session.conn, 7);
    assert!(!session.registered);
}

#[test]
fn a_random_identity_is_of_version_four() {
    let first = Session::open(1);
    let second = Session::open(2);
    assert_ne!(first.user_id, second.user_id);
    assert_eq!((first.user_id >> 76) & 0xf, 4);
    assert_eq!((first.user_id >> 62) & 0x3, 2);
    let digits = uuid::Uuid::from_u128(first.user_id).simple().to_string();
    assert_eq!(first.username, format!("user-{}", &digits[..8]));
}

#[test]
fn nothing_but_hello_counts_before_hello() {
    let mut state = AppState::new();
    let _bob = enter(&mut state, 2, "bob", BOB);
    let mut session = Session::with_id(1, ALICE);
    for msg in vec![
        join("general"),
        leave("general"),
        chat("general", "hey", "m1"),
        ClientMsg::Signal { to: BOB, payload: serde_json::Value::Null },
    ] {
        let out = state.handle_message(&mut session, msg, 0);
        assert_eq!(out, error(&session, "send hello before anything else"));
    }
    assert!(!session.registered);
    // The refused join has made no channel.
    state.handle_message(&mut session, hello("alice", None), 0);
    let out = state.handle_message(&mut session, chat("general", "hey", "m1"), 0);
    assert_eq!(out, error(&session, "not a member of that channel"));
}

#[test]
fn hello_welcomes_the_newcomer_and_tells_everyone_else() {
    let mut state = AppState::new();
    let mut alice = Session::with_id(1, ALICE);
    let out = state.handle_message(&mut alice, hello("alice", None), 0);
    assert_eq!(out.len(), 2);
    assert_eq!(who(&out[0]), vec![(ALICE, 1)]);
    assert_eq!(out[0].msg, ServerMsg::Welcome { user_id: ALICE, peers: vec![] });
    assert_eq!(who(&out[1]), vec![]);

    let mut bob = Session::with_id(2, 99);
    let out = state.handle_message(&mut bob, hello("bob", Some(BOB)), 0);
    assert_eq!(bob.user_id, BOB);
    assert_eq!(bob.username, "bob");
    assert!(bob.registered);
    assert_eq!(who(&out[0]), vec![(BOB, 2)]);
    assert_eq!(
        out[0].msg,
        ServerMsg::Welcome {
            user_id: BOB,
            peers: vec![PeerInfo { user_id: ALICE, username: s("alice") }],
        }
    );
    assert_eq!(who(&out[1]), vec![(ALICE, 1)]);
    assert_eq!(out[1].msg, ServerMsg::PeerJoined { user_id: BOB, username: s("bob") });
}

#[test]
fn a_welcome_lists_everyone_once() {
    let mut state = AppState::new();
    for n in 0..50u64 {
        enter(&mut state, n, "someone", 5000 + n as u128);
    }
    let mut late = Session::with_id(100, 1);
    let out = state.handle_message(&mut late, hello("late", None), 0);
    match &out[0].msg {
        ServerMsg::Welcome { peers, .. } => {
            let mut ids: Vec<UserId> = peers.iter().map(|p| p.user_id).collect();
            ids.sort();
            let expected: Vec<UserId> = (5000..5050).collect();
            assert_eq!(ids, expected);
        }
        other => panic!("{:?}", other),
    }
    assert_eq!(out[1].to.len(), 50);
}

#[test]
fn an_identity_survives_a_reconnect_and_moves_to_the_new_connection() {
    let mut state = AppState::new();
    let _old = enter(&mut state, 1, "alice", ALICE);
    let new = enter(&mut state, 9, "alice2", ALICE);
    assert_eq!(new.user_id, ALICE);
    let mut bob = enter(&mut state, 2, "bob", BOB);
    let payload = serde_json::Value::from("ring");
    let out = state.handle_message(&mut bob, ClientMsg::Signal { to: ALICE, payload }, 0);
    assert_eq!(who(&out[0]), vec![(ALICE, 9)]);
}

#[test]
fn joining_tells_the_joiner_who_is_there() {
    let mut state = AppState::new();
    let mut alice = enter(&mut state, 1, "alice", ALICE);
    let mut bob = enter(&mut state, 2, "bob", BOB);
    let out = state.handle_message(&mut alice, join("general"), 0);
    assert_eq!(
        out,
        vec![Outgoing {
            to: vec![Recipient { user_id: ALICE, conn: 1 }],
            msg: ServerMsg::ChannelJoined { channel_id: s("general"), members: vec![ALICE] },
        }]
    );
    let out = state.handle_message(&mut bob, join("general"), 0);
    assert_eq!(who(&out[0]), vec![(BOB, 2)]);
    match &out[0].msg {
        ServerMsg::ChannelJoined { channel_id, members } => {
            let mut members = members.clone();
            members.sort();
            assert_eq!(channel_id, "general");
            assert_eq!(members, vec![BOB, ALICE]);
        }
        other => panic!("{:?}", other),
    }
}

#[test]
fn joining_twice_is_joining_once() {
    let mut state = AppState::new();
    let mut alice = enter(&mut state, 1, "alice", ALICE);
    state.handle_message(&mut alice, join("general"), 0);
    let out = state.handle_message(&mut alice, join("general"), 0);
    assert_eq!(
        out[0].msg,
        ServerMsg::ChannelJoined { channel_id: s("general"), members: vec![ALICE] }
    );
    let out = state.handle_message(&mut alice, chat("general", "hey", "m1"), 5);
    assert_eq!(out[0].to.len(), 1);
}

#[test]
fn chat_and_what_follows_it_go_to_everyone_in_the_channel() {
    let mut state = AppState::new();
    let mut alice = enter(&mut state, 1, "alice", ALICE);
    let mut bob = enter(&mut state, 2, "bob", BOB);
    let mut carol = enter(&mut state, 3, "carol", CAROL);
    state.handle_message(&mut alice, join("general"), 0);
    state.handle_message(&mut bob, join("general"), 0);
    state.handle_message(&mut carol, join("elsewhere"), 0);

    let both = vec![(BOB, 2), (ALICE, 1)];
    let out = state.handle_message(&mut alice, chat("general", "hey", "m1"), 1234567890);
    assert_eq!(out.len(), 1);
    assert_eq!(who(&out[0]), both);
    assert_eq!(
        out[0].msg,
        ServerMsg::Chat {
            message_id: Some(s("m1")),
            from: ALICE,
            channel_id: s("general"),
            content: s("hey"),
            ts: 1234567890,
        }
    );

    let edit = ClientMsg::EditMessage {
        channel_id: s("general"),
        message_id: s("m1"),
        content: s("hello"),
    };
    let out = state.handle_message(&mut alice, edit, 0);
    assert_eq!(who(&out[0]), both);
    assert_eq!(
        out[0].msg,
        ServerMsg::MessageEdited {
            message_id: s("m1"),
            channel_id: s("general"),
            content: s("hello"),
        }
    );

    let add = ClientMsg::AddReaction {
        channel_id: s("general"),
        message_id: s("m1"),
        emoji: s("+1"),
    };
    let out = state.handle_message(&mut bob, add, 0);
    assert_eq!(who(&out[0]), both);
    assert_eq!(
        out[0].msg,
        ServerMsg::ReactionAdded {
            message_id: s("m1"),
            channel_id: s("general"),
            emoji: s("+1"),
            user_id: BOB,
        }
    );

    let remove = ClientMsg::RemoveReaction {
        channel_id: s("general"),
        message_id: s("m1"),
        emoji: s("+1"),
    };
    let out = state.handle_message(&mut bob, remove, 0);
    assert_eq!(who(&out[0]), both);
    assert_eq!(
        out[0].msg,
        ServerMsg::ReactionRemoved {
            message_id: s("m1"),
            channel_id: s("general"),
            emoji: s("+1"),
            user_id: BOB,
        }
    );

    // Nobody checks who wrote the message, nor that the sender is in the channel.
    let delete = ClientMsg::DeleteMessage { channel_id: s("general"), message_id: s("m1") };
    let out = state.handle_message(&mut carol, delete, 0);
    assert_eq!(who(&out[0]), both);
    assert_eq!(
        out[0].msg,
        ServerMsg::MessageDeleted { message_id: s("m1"), channel_id: s("general") }
    );
}

#[test]
fn without_a_channel_chat_is_refused_and_the_rest_goes_nowhere() {
    let mut state = AppState::new();
    let mut alice = enter(&mut state, 1, "alice", ALICE);
    let out = state.handle_message(&mut alice, chat("nowhere", "hey", "m1"), 0);
    assert_eq!(out, error(&alice, "not a member of that channel"));
    let rest = vec![
        ClientMsg::EditMessage { channel_id: s("nowhere"), message_id: s("m"), content: s("x") },
        ClientMsg::DeleteMessage { channel_id: s("nowhere"), message_id: s("m") },
        ClientMsg::AddReaction { channel_id: s("nowhere"), message_id: s("m"), emoji: s("x") },
        ClientMsg::RemoveReaction { channel_id: s("nowhere"), message_id: s("m"), emoji: s("x") },
    ];
    for msg in rest {
        assert_eq!(state.handle_message(&mut alice, msg, 0), vec![]);
    }
}

#[test]
fn leaving_stops_the_messages_and_keeps_the_channel() {
    let mut state = AppState::new();
    let mut alice = enter(&mut state, 1, "alice", ALICE);
    let mut bob = enter(&mut state, 2, "bob", BOB);
    state.handle_message(&mut alice, join("general"), 0);
    state.handle_message(&mut bob, join("general"), 0);
    assert_eq!(state.handle_message(&mut bob, leave("general"), 0), vec![]);
    let out = state.handle_message(&mut bob, chat("general", "bye", "m1"), 0);
    assert_eq!(who(&out[0]), vec![(ALICE, 1)]);
    state.handle_message(&mut alice, leave("general"), 0);
    let out = state.handle_message(&mut alice, chat("general", "echo", "m2"), 0);
    assert_eq!(out.len(), 1);
    assert_eq!(who(&out[0]), vec![]);
    // Leaving what one is not in, or what does not exist, does nothing.
    assert_eq!(state.handle_message(&mut bob, leave("general"), 0), vec![]);
    assert_eq!(state.handle_message(&mut bob, leave("nowhere"), 0), vec![]);
    let out = state.handle_message(&mut bob, chat("nowhere", "x", "m3"), 0);
    assert_eq!(out, error(&bob, "not a member of that channel"));
}

#[test]
fn a_signal_goes_to_the_named_peer_as_it_came() {
    let mut state = AppState::new();
    let mut alice = enter(&mut state, 1, "alice", ALICE);
    let _bob = enter(&mut state, 2, "bob", BOB);
    let mut fields = serde_json::Map::new();
    fields.insert(s("sdp"), serde_json::Value::from("v=0"));
    fields.insert(s("kind"), serde_json::Value::from("offer"));
    let payload = serde_json::Value::Object(fields);
    let msg = ClientMsg::Signal { to: BOB, payload: payload.clone() };
    let out = state.handle_message(&mut alice, msg, 0);
    assert_eq!(
        out,
        vec![Outgoing {
            to: vec![Recipient { user_id: BOB, conn: 2 }],
            msg: ServerMsg::Signal { from: ALICE, payload: payload.clone() },
        }]
    );
    let msg = ClientMsg::Signal { to: CAROL, payload };
    let out = state.handle_message(&mut alice, msg, 0);
    assert_eq!(out, error(&alice, "target peer not connected"));
}

#[test]
fn the_end_of_a_connection_leaves_nothing_behind() {
    let mut state = AppState::new();
    let mut alice = enter(&mut state, 1, "alice", ALICE);
    let mut bob = enter(&mut state, 2, "bob", BOB);
    for channel in vec!["general", "games", "music"] {
        state.handle_message(&mut alice, join(channel), 0);
        state.handle_message(&mut bob, join(channel), 0);
    }
    let turn = state.handle_frame(&mut alice, Frame::Close);
    assert!(!turn.open);
    assert_eq!(
        turn.out,
        vec![Outgoing {
            to: vec![Recipient { user_id: BOB, conn: 2 }],
            msg: ServerMsg::PeerLeft { user_id: ALICE },
        }]
    );
    // Someone new under the same identity is in no channel.
    let _alice = enter(&mut state, 3, "alice", ALICE);
    for channel in vec!["general", "games", "music"] {
        let out = state.handle_message(&mut bob, chat(channel, "still there?", "m"), 0);
        assert_eq!(who(&out[0]), vec![(BOB, 2)]);
    }
}

#[test]
fn a_second_hello_does_not_keep_anyone_in_a_channel() {
    let mut state = AppState::new();
    let mut alice = enter(&mut state, 1, "alice", ALICE);
    let mut bob = enter(&mut state, 2, "bob", BOB);
    state.handle_message(&mut alice, join("general"), 0);
    state.handle_message(&mut alice, hello("alice", Some(ALICE)), 0);
    let turn = state.handle_frame(&mut alice, Frame::Close);
    assert_eq!(turn.out.len(), 1);
    let out = state.handle_message(&mut bob, join("general"), 0);
    assert_eq!(
        out[0].msg,
        ServerMsg::ChannelJoined { channel_id: s("general"), members: vec![BOB] }
    );
    let _alice = enter(&mut state, 3, "alice", ALICE);
    let out = state.handle_message(&mut bob, chat("general", "hey", "m"), 0);
    assert_eq!(who(&out[0]), vec![(BOB, 2)]);
}

#[test]
fn two_connections_of_one_user_leave_nothing_behind() {
    let mut state = AppState::new();
    let mut first = enter(&mut state, 1, "alice", ALICE);
    let mut second = enter(&mut state, 2, "alice", ALICE);
    state.handle_frame(&mut first, Frame::Close);
    state.handle_message(&mut second, join("games"), 0);
    state.handle_frame(&mut second, Frame::Lost);
    let mut bob = enter(&mut state, 3, "bob", BOB);
    let out = state.handle_message(&mut bob, join("games"), 0);
    assert_eq!(
        out[0].msg,
        ServerMsg::ChannelJoined { channel_id: s("games"), members: vec![BOB] }
    );
}

#[test]
fn a_connection_that_never_said_hello_ends_unannounced() {
    let mut state = AppState::new();
    let _bob = enter(&mut state, 2, "bob", BOB);
    let mut session = Session::open(1);
    let turn = state.handle_frame(&mut session, Frame::Lost);
    assert!(!turn.open);
    assert_eq!(turn.out, vec![]);
}

#[test]
fn frames_that_are_no_message() {
    let mut state = AppState::new();
    let mut alice = enter(&mut state, 1, "alice", ALICE);
    let turn = state.handle_frame(&mut alice, Frame::Malformed);
    assert!(turn.open);
    assert_eq!(turn.out, error(&alice, "could not parse message"));
    let turn = state.handle_frame(&mut alice, Frame::NotText);
    assert!(turn.open);
    assert_eq!(turn.out, vec![]);
}

#[test]
fn chat_is_stamped_with_the_time() {
    let mut state = AppState::new();
    let mut alice = enter(&mut state, 1, "alice", ALICE);
    state.handle_message(&mut alice, join("general"), 0);
    let before = chrono::Utc::now().timestamp_millis();
    let turn = state.handle_frame(&mut alice, Frame::Message(chat("general", "hey", "m1")));
    let after = chrono::Utc::now().timestamp_millis();
    assert!(turn.open);
    match &turn.out[0].msg {
        ServerMsg::Chat { ts, content, .. } => {
            assert!(before <= *ts && *ts <= after);
            assert_eq!(content, "hey");
        }
        other => panic!("{:?}", other),
    }
    let fixed = state.handle_frame_at(
        &mut alice,
        Frame::Message(chat("general", "hey", "m2")),
        42,
    );
    match &fixed.out[0].msg {
        ServerMsg::Chat { ts, .. } => assert_eq!(*ts, 42),
        other => panic!("{:?}", other),
    }
}

#[test]
fn broadcasts_can_leave_one_out() {
    let mut state = AppState::new();
    enter(&mut state, 1, "alice", ALICE);
    enter(&mut state, 2, "bob", BOB);
    let all = state.broadcast_all(ServerMsg::PeerLeft { user_id: 5 }, None);
    assert_eq!(who(&all), vec![(BOB, 2), (ALICE, 1)]);
    let one = state.broadcast_all(ServerMsg::PeerLeft { user_id: 5 }, Some(BOB));
    assert_eq!(who(&one), vec![(ALICE, 1)]);
    assert_eq!(one.msg, ServerMsg::PeerLeft { user_id: 5 });
}

#[test]
fn a_connection_under_two_names_is_reached_under_both() {
    let mut state = AppState::new();
    let mut alice = enter(&mut state, 1, "alice", ALICE);
    let mut bob = enter(&mut state, 2, "bob", BOB);
    state.handle_message(&mut alice, hello("carol", Some(CAROL)), 0);
    for to in vec![ALICE, CAROL] {
        let msg = ClientMsg::Signal { to, payload: serde_json::Value::Null };
        let out = state.handle_message(&mut bob, msg, 0);
        assert_eq!(who(&out[0]), vec![(to, 1)]);
    }
    // Both go with the connection, and everyone left is told of both.
    state.handle_message(&mut alice, join("general"), 0);
    assert_eq!(alice.former, vec![ALICE]);
    let out = state.disconnect(&alice);
    assert_eq!(out.len(), 2);
    assert_eq!(who(&out[0]), vec![(BOB, 2)]);
    assert_eq!(out[0].msg, ServerMsg::PeerLeft { user_id: CAROL });
    assert_eq!(who(&out[1]), vec![(BOB, 2)]);
    assert_eq!(out[1].msg, ServerMsg::PeerLeft { user_id: ALICE });
    for to in vec![ALICE, CAROL] {
        let msg = ClientMsg::Signal { to, payload: serde_json::Value::Null };
        let out = state.handle_message(&mut bob, msg, 0);
        assert_eq!(out, error(&bob, "target peer not connected"));
    }
}

#[test]
fn a_former_identity_that_someone_else_holds_stays() {
    let mut state = AppState::new();
    let mut first = enter(&mut state, 1, "alice", ALICE);
    state.handle_message(&mut first, hello("carol", Some(CAROL)), 0);
    let mut second = enter(&mut state, 2, "alice", ALICE);
    state.handle_message(&mut second, join("general"), 0);
    let out = state.disconnect(&first);
    assert_eq!(out.len(), 1);
    assert_eq!(who(&out[0]), vec![(ALICE, 2)]);
    assert_eq!(out[0].msg, ServerMsg::PeerLeft { user_id: CAROL });
    let out = state.handle_message(&mut second, chat("general", "still here", "m"), 0);
    assert_eq!(who(&out[0]), vec![(ALICE, 2)]);
}

#[test]
fn going_back_and_forth_between_identities() {
    let mut state = AppState::new();
    let mut bob = enter(&mut state, 2, "bob", BOB);
    let mut alice = enter(&mut state, 1, "alice", ALICE);
    for id in vec![CAROL, ALICE, CAROL, CAROL, ALICE] {
        state.handle_message(&mut alice, hello("someone", Some(id)), 0);
    }
    assert_eq!(alice.former, vec![ALICE, CAROL]);
    let out = state.disconnect(&alice);
    assert_eq!(out.len(), 2);
    assert_eq!(out[0].msg, ServerMsg::PeerLeft { user_id: ALICE });
    assert_eq!(out[1].msg, ServerMsg::PeerLeft { user_id: CAROL });
    assert_eq!(who(&out[1]), vec![(BOB, 2)]);
    let out = state.handle_message(&mut bob, hello("bob", None), 0);
    assert_eq!(
        out[0].msg,
        ServerMsg::Welcome {
            user_id: BOB,
            peers: vec![PeerInfo { user_id: BOB, username: s("bob") }],
        }
    );
}

#[test]
fn chat_may_go_without_a_message_id() {
    let mut state = AppState::new();
    let mut alice = enter(&mut state, 1, "alice", ALICE);
    state.handle_message(&mut alice, join("general"), 0);
    let msg = ClientMsg::Chat {
        channel_id: s("general"),
        content: s("hey"),
        message_id: None,
    };
    let out = state.handle_message(&mut alice, msg, 7);
    assert_eq!(
        out[0].msg,
        ServerMsg::Chat {
            message_id: None,
            from: ALICE,
            channel_id: s("general"),
            content: s("hey"),
            ts: 7,
        }
    );
}

#[test]
fn leaving_undoes_joining() {
    let mut state = AppState::new();
    let mut alice = enter(&mut state, 1, "alice", ALICE);
    let mut bob = enter(&mut state, 2, "bob", BOB);
    state.handle_message(&mut bob, join("general"), 0);
    state.handle_message(&mut alice, join("general"), 0);
    state.handle_message(&mut alice, leave("general"), 0);
    let out = state.handle_message(&mut bob, join("general"), 0);
    assert_eq!(
        out[0].msg,
        ServerMsg::ChannelJoined { channel_id: s("general"), members: vec![BOB] }
    );
    // A channel made by joining stays when its only member leaves.
    state.handle_message(&mut alice, join("attic"), 0);
    state.handle_message(&mut alice, leave("attic"), 0);
    let out = state.handle_message(&mut alice, chat("attic", "anyone?", "m1"), 0);
    assert_eq!(out.len(), 1);
    assert_eq!(who(&out[0]), vec![]);
}

#[test]
fn nobody_is_touched_by_what_others_do() {
    let mut state = AppState::new();
    let mut alice = enter(&mut state, 1, "alice", ALICE);
    let mut bob = enter(&mut state, 2, "bob", BOB);
    let mut carol = enter(&mut state, 3, "carol", CAROL);
    state.handle_message(&mut alice, join("general"), 0);
    state.handle_message(&mut bob, join("general"), 0);
    state.handle_message(&mut bob, leave("general"), 0);
    state.handle_message(&mut bob, leave("games"), 0);
    state.handle_frame(&mut bob, Frame::Close);
    let out = state.handle_message(&mut carol, chat("general", "hey", "m1"), 0);
    assert_eq!(who(&out[0]), vec![(ALICE, 1)]);
}

#[test]
fn forwarding_leaves_no_trace() {
    let mut state = AppState::new();
    let mut alice = enter(&mut state, 1, "alice", ALICE);
    state.handle_message(&mut alice, join("general"), 0);
    for n in 0..3i64 {
        let out = state.handle_message(&mut alice, chat("general", "hey", "m1"), n);
        assert_eq!(who(&out[0]), vec![(ALICE, 1)]);
    }
    let mut bob = Session::with_id(2, BOB);
    let out = state.handle_message(&mut bob, hello("bob", None), 0);
    assert_eq!(out.len(), 2);
    assert_eq!(
        out[0].msg,
        ServerMsg::Welcome {
            user_id: BOB,
            peers: vec![PeerInfo { user_id: ALICE, username: s("alice") }],
        }
    );
    let out = state.handle_message(&mut bob, join("general"), 0);
    assert_eq!(out.len(), 1);
}

#[test]
fn the_time_shows_in_chat_alone() {
    let mut state = AppState::new();
    let mut alice = enter(&mut state, 1, "alice", ALICE);
    state.handle_message(&mut alice, join("general"), 0);
    let delete = || ClientMsg::DeleteMessage { channel_id: s("general"), message_id: s("m1") };
    let early = state.handle_message(&mut alice, delete(), 1);
    let late = state.handle_message(&mut alice, delete(), 2);
    assert_eq!(early, late);
}
