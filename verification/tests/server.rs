use webrtc_signaling::handler::{
    broadcast_peer_joined, broadcast_peer_left, broadcast_to_room, disconnect, existing_peers,
    handle_connection, process_message, send_message, ConnectionPhase, Incoming, Outbound,
    PeerState, Peers, Session,
};
use webrtc_signaling::model::{PeerInfo, SignalMessage};

fn s(text: &str) -> String {
    text.to_string()
}

fn targets(out: &[Outbound]) -> Vec<String> {
    let mut t: Vec<String> = out.iter().map(|o| o.target.clone()).collect();
    t.sort();
    t
}

fn join(peers: &mut Peers, peer: &str, room: &str) -> Vec<Outbound> {
    process_message(&s(peer), SignalMessage::Join { room: s(room) }, peers)
}

/// alice and bob in "r1", carol in "r2", dave nowhere.
fn sample() -> Peers {
    let mut peers = Peers::new();
    peers.register(s("a"), s("alice"));
    peers.register(s("b"), s("bob"));
    peers.register(s("c"), s("carol"));
    peers.register(s("d"), s("dave"));
    join(&mut peers, "a", "r1");
    join(&mut peers, "b", "r1");
    join(&mut peers, "c", "r2");
    peers
}

#[test]
fn register_records_name_without_room() {
    let mut peers = Peers::new();
    assert!(!peers.contains(&s("p1")));
    peers.register(s("p1"), s("alice"));
    assert!(peers.contains(&s("p1")));
    assert_eq!(
        peers.state(&s("p1")),
        Some(PeerState { username: Some(s("alice")), room: None })
    );
    assert_eq!(peers.state(&s("p2")), None);
}

#[test]
fn login_renames_and_keeps_room() {
    let mut peers = sample();
    let out = process_message(&s("a"), SignalMessage::Login { username: s("alicia") }, &mut peers);
    assert!(out.is_empty());
    assert_eq!(
        peers.state(&s("a")),
        Some(PeerState { username: Some(s("alicia")), room: Some(s("r1")) })
    );
}

#[test]
fn login_of_unknown_peer_changes_nothing() {
    let mut peers = sample();
    let out = process_message(&s("zz"), SignalMessage::Login { username: s("x") }, &mut peers);
    assert!(out.is_empty());
    assert!(!peers.contains(&s("zz")));
}

#[test]
fn signal_is_relayed_with_sender_id() {
    let mut peers = sample();
    let out = process_message(
        &s("a"),
        SignalMessage::Signal { target: s("c"), data: s("{\"sdp\":\"offer\"}") },
        &mut peers,
    );
    assert_eq!(
        out,
        vec![Outbound {
            target: s("c"),
            message: SignalMessage::Signal { target: s("a"), data: s("{\"sdp\":\"offer\"}") },
        }]
    );
}

#[test]
fn signal_to_unknown_peer_is_dropped() {
    let mut peers = sample();
    let out = process_message(
        &s("a"),
        SignalMessage::Signal { target: s("nobody"), data: s("1") },
        &mut peers,
    );
    assert!(out.is_empty());
}

#[test]
fn server_messages_from_clients_are_ignored() {
    let mut peers = sample();
    for msg in [
        SignalMessage::PeerLeft { peer_id: s("b") },
        SignalMessage::PeerJoined { peer_id: s("b"), username: s("x") },
        SignalMessage::ExistingPeers { peers: vec![] },
    ] {
        let out = process_message(&s("a"), msg, &mut peers);
        assert!(out.is_empty());
    }
    assert_eq!(
        peers.state(&s("b")),
        Some(PeerState { username: Some(s("bob")), room: Some(s("r1")) })
    );
}

#[test]
fn join_discovers_room_members_both_ways() {
    let mut peers = sample();
    let out = join(&mut peers, "d", "r1");
    assert_eq!(out.len(), 3);
    // announcements first, to a and b
    assert_eq!(targets(&out[..2]), vec![s("a"), s("b")]);
    for o in &out[..2] {
        assert_eq!(o.message, SignalMessage::PeerJoined { peer_id: s("d"), username: s("dave") });
    }
    // then the list, to d
    assert_eq!(out[2].target, s("d"));
    match &out[2].message {
        SignalMessage::ExistingPeers { peers: list } => {
            let mut list = list.clone();
            list.sort_by(|x, y| x.peer_id.cmp(&y.peer_id));
            assert_eq!(
                list,
                vec![
                    PeerInfo { peer_id: s("a"), username: s("alice") },
                    PeerInfo { peer_id: s("b"), username: s("bob") },
                ]
            );
        }
        other => panic!("unexpected {:?}", other),
    }
    assert_eq!(
        peers.state(&s("d")),
        Some(PeerState { username: Some(s("dave")), room: Some(s("r1")) })
    );
}

#[test]
fn switching_rooms_tells_both_rooms() {
    let mut peers = sample();
    let out = join(&mut peers, "a", "r2");
    assert_eq!(out.len(), 3);
    assert_eq!(out[0], Outbound { target: s("b"), message: SignalMessage::PeerLeft { peer_id: s("a") } });
    assert_eq!(
        out[1],
        Outbound {
            target: s("c"),
            message: SignalMessage::PeerJoined { peer_id: s("a"), username: s("alice") },
        }
    );
    assert_eq!(
        out[2],
        Outbound {
            target: s("a"),
            message: SignalMessage::ExistingPeers {
                peers: vec![PeerInfo { peer_id: s("c"), username: s("carol") }],
            },
        }
    );
}

#[test]
fn rejoining_the_same_room_announces_leave_then_join() {
    let mut peers = sample();
    let out = join(&mut peers, "a", "r1");
    assert_eq!(out.len(), 3);
    assert_eq!(out[0], Outbound { target: s("b"), message: SignalMessage::PeerLeft { peer_id: s("a") } });
    assert_eq!(
        out[1],
        Outbound {
            target: s("b"),
            message: SignalMessage::PeerJoined { peer_id: s("a"), username: s("alice") },
        }
    );
    assert_eq!(out[2].target, s("a"));
}

#[test]
fn join_of_empty_room_only_answers_the_joiner() {
    let mut peers = sample();
    let out = join(&mut peers, "d", "empty");
    assert_eq!(
        out,
        vec![Outbound { target: s("d"), message: SignalMessage::ExistingPeers { peers: vec![] } }]
    );
}

#[test]
fn join_of_unknown_peer_is_announced_without_name() {
    let mut peers = sample();
    let out = join(&mut peers, "ghost", "r2");
    assert_eq!(
        out,
        vec![Outbound {
            target: s("c"),
            message: SignalMessage::PeerJoined { peer_id: s("ghost"), username: s("") },
        }]
    );
    assert!(!peers.contains(&s("ghost")));
}

#[test]
fn existing_peers_lists_room_but_self() {
    let peers = sample();
    let mut list = existing_peers(&s("r1"), &s("a"), &peers);
    assert_eq!(list, vec![PeerInfo { peer_id: s("b"), username: s("bob") }]);
    list = existing_peers(&s("r1"), &s("d"), &peers);
    list.sort_by(|x, y| x.peer_id.cmp(&y.peer_id));
    assert_eq!(
        list,
        vec![
            PeerInfo { peer_id: s("a"), username: s("alice") },
            PeerInfo { peer_id: s("b"), username: s("bob") },
        ]
    );
    assert!(existing_peers(&s("r3"), &s("a"), &peers).is_empty());
}

#[test]
fn broadcast_to_room_skips_sender_and_other_rooms() {
    let peers = sample();
    let msg = SignalMessage::PeerLeft { peer_id: s("a") };
    let out = broadcast_to_room(&s("r1"), &msg, &s("a"), &peers);
    assert_eq!(out, vec![Outbound { target: s("b"), message: msg.clone() }]);
    let out = broadcast_to_room(&s("r1"), &msg, &s("zz"), &peers);
    assert_eq!(targets(&out), vec![s("a"), s("b")]);
    let out = broadcast_to_room(&s("nowhere"), &msg, &s("a"), &peers);
    assert!(out.is_empty());
}

#[test]
fn broadcast_helpers_build_their_messages() {
    let peers = sample();
    let out = broadcast_peer_joined(&s("r2"), &s("a"), &s("alice"), &peers);
    assert_eq!(
        out,
        vec![Outbound {
            target: s("c"),
            message: SignalMessage::PeerJoined { peer_id: s("a"), username: s("alice") },
        }]
    );
    let out = broadcast_peer_left(&s("r1"), &s("b"), &peers);
    assert_eq!(out, vec![Outbound { target: s("a"), message: SignalMessage::PeerLeft { peer_id: s("b") } }]);
}

#[test]
fn send_message_reaches_connected_peers_only() {
    let peers = sample();
    let msg = SignalMessage::PeerLeft { peer_id: s("q") };
    assert_eq!(send_message(&s("d"), msg.clone(), &peers), vec![Outbound { target: s("d"), message: msg.clone() }]);
    assert!(send_message(&s("q"), msg, &peers).is_empty());
}

#[test]
fn disconnect_removes_and_tells_room() {
    let mut peers = sample();
    let out = disconnect(&s("a"), &mut peers);
    assert_eq!(out, vec![Outbound { target: s("b"), message: SignalMessage::PeerLeft { peer_id: s("a") } }]);
    assert!(!peers.contains(&s("a")));
    assert!(peers.contains(&s("b")));
    // a peer in no room leaves silently
    assert!(disconnect(&s("d"), &mut peers).is_empty());
    assert!(!peers.contains(&s("d")));
    // an unknown peer: nothing happens
    assert!(disconnect(&s("a"), &mut peers).is_empty());
}

#[test]
fn session_start_gives_uuid_v4_ids() {
    let a = Session::start();
    let b = Session::start();
    assert_eq!(a.phase(), ConnectionPhase::AwaitingLogin);
    let id = a.peer_id();
    assert_eq!(id.len(), 36);
    for (i, ch) in id.chars().enumerate() {
        if [8, 13, 18, 23].contains(&i) {
            assert_eq!(ch, '-');
        } else {
            assert!(ch.is_ascii_hexdigit() && !ch.is_ascii_uppercase());
        }
    }
    assert_eq!(id.chars().nth(14), Some('4'));
    assert!(matches!(id.chars().nth(19), Some('8' | '9' | 'a' | 'b')));
    assert_ne!(a.peer_id(), b.peer_id());
}

#[test]
fn session_login_then_messages_then_close() {
    let mut peers = sample();
    let mut session = Session::with_peer_id(s("e"));
    let out = handle_connection(
        &mut session,
        Incoming::Text(Some(SignalMessage::Login { username: s("eve") })),
        &mut peers,
    );
    assert!(out.is_empty());
    assert_eq!(session.phase(), ConnectionPhase::Active);
    assert_eq!(peers.state(&s("e")), Some(PeerState { username: Some(s("eve")), room: None }));

    let out = handle_connection(&mut session, Incoming::Text(Some(SignalMessage::Join { room: s("r2") })), &mut peers);
    assert_eq!(out.len(), 2);
    assert_eq!(out[0].target, s("c"));

    // unparsable text and other frames are ignored
    assert!(handle_connection(&mut session, Incoming::Text(None), &mut peers).is_empty());
    assert!(handle_connection(&mut session, Incoming::Other, &mut peers).is_empty());
    assert_eq!(session.phase(), ConnectionPhase::Active);

    let out = handle_connection(&mut session, Incoming::Close, &mut peers);
    assert_eq!(out, vec![Outbound { target: s("c"), message: SignalMessage::PeerLeft { peer_id: s("e") } }]);
    assert_eq!(session.phase(), ConnectionPhase::Closed);
    assert!(!peers.contains(&s("e")));

    // a closed session ignores everything
    let out = handle_connection(&mut session, Incoming::Text(Some(SignalMessage::Join { room: s("r1") })), &mut peers);
    assert!(out.is_empty());
    assert_eq!(session.phase(), ConnectionPhase::Closed);
    assert!(!peers.contains(&s("e")));
}

#[test]
fn session_first_message_must_be_login() {
    for first in [
        Incoming::Text(Some(SignalMessage::Join { room: s("r1") })),
        Incoming::Text(None),
        Incoming::Close,
        Incoming::Other,
        Incoming::Failed,
        Incoming::Ended,
    ] {
        let mut peers = sample();
        let mut session = Session::with_peer_id(s("f"));
        let out = handle_connection(&mut session, first, &mut peers);
        assert!(out.is_empty());
        assert_eq!(session.phase(), ConnectionPhase::Closed);
        assert!(!peers.contains(&s("f")));
    }
}

#[test]
fn session_ends_on_error_or_end_of_stream() {
    for last in [Incoming::Failed, Incoming::Ended] {
        let mut peers = sample();
        let mut session = Session::with_peer_id(s("g"));
        handle_connection(&mut session, Incoming::Text(Some(SignalMessage::Login { username: s("gus") })), &mut peers);
        handle_connection(&mut session, Incoming::Text(Some(SignalMessage::Join { room: s("r1") })), &mut peers);
        let out = handle_connection(&mut session, last, &mut peers);
        assert_eq!(targets(&out), vec![s("a"), s("b")]);
        assert_eq!(session.phase(), ConnectionPhase::Closed);
        assert!(!peers.contains(&s("g")));
    }
}
