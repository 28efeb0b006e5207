use webrtc_signaling::connection::{
    local_description_sdp, send_readiness, ChannelReadyState, ClientError, SharedState,
};
use webrtc_signaling::manager::PeerManager;

#[test]
fn send_needs_an_open_channel() {
    assert_eq!(send_readiness(None), Err(ClientError::DataChannelNotEstablished));
    assert_eq!(send_readiness(Some(ChannelReadyState::Open)), Ok(()));
    for state in [ChannelReadyState::Connecting, ChannelReadyState::Closing, ChannelReadyState::Closed] {
        assert_eq!(send_readiness(Some(state)), Err(ClientError::DataChannelNotOpen(state)));
    }
}

#[test]
fn error_texts() {
    assert_eq!(ClientError::DataChannelNotEstablished.message(), "Data channel not established");
    assert_eq!(
        ClientError::DataChannelNotOpen(ChannelReadyState::Connecting).message(),
        "Data channel not open. Current state: Connecting"
    );
    assert_eq!(
        ClientError::DataChannelNotOpen(ChannelReadyState::Closing).message(),
        "Data channel not open. Current state: Closing"
    );
    assert_eq!(
        ClientError::DataChannelNotOpen(ChannelReadyState::Closed).message(),
        "Data channel not open. Current state: Closed"
    );
    assert_eq!(ClientError::NoLocalDescription.message(), "No local description");
    assert_eq!(ClientError::PeerNotFound.message(), "Peer not found");
    assert_eq!(ChannelReadyState::Open.name(), "Open");
}

#[test]
fn local_description_is_required() {
    assert_eq!(local_description_sdp(Some("v=0".to_string())), Ok("v=0".to_string()));
    assert_eq!(local_description_sdp(None), Err(ClientError::NoLocalDescription));
}

#[test]
fn message_callback_attached_when_channel_comes_later() {
    let mut state: SharedState<&str, u32> = SharedState::new();
    assert!(state.data_channel().is_none());
    assert!(!state.set_on_message(1));
    assert_eq!(state.message_callback(), Some(&1));
    assert!(state.attach_channel("chat"));
    assert_eq!(state.data_channel(), Some(&"chat"));
}

#[test]
fn message_callback_attached_when_registered_later() {
    let mut state: SharedState<&str, u32> = SharedState::new();
    assert!(!state.attach_channel("chat"));
    assert!(state.set_on_message(2));
    assert_eq!(state.message_callback(), Some(&2));
    assert_eq!(state.data_channel(), Some(&"chat"));
}

#[test]
fn close_forgets_the_channel() {
    let mut state: SharedState<&str, u32> = SharedState::new();
    assert_eq!(state.close(), None);
    state.attach_channel("chat");
    state.set_on_message(3);
    assert_eq!(state.close(), Some("chat"));
    assert!(state.data_channel().is_none());
    assert_eq!(state.message_callback(), Some(&3));
    assert_eq!(send_readiness(state.data_channel().map(|_| ChannelReadyState::Open)), Err(ClientError::DataChannelNotEstablished));
    // a later channel gets the callback again
    assert!(state.attach_channel("again"));
}

#[test]
fn callbacks_are_kept_apart() {
    let mut state: SharedState<&str, u32> = SharedState::new();
    assert!(state.ice_candidate_callback().is_none());
    assert!(state.connection_state_change_callback().is_none());
    assert!(state.ice_connection_state_change_callback().is_none());
    state.set_on_ice_candidate(10);
    state.set_on_connection_state_change(20);
    state.set_on_ice_connection_state_change(30);
    assert_eq!(state.ice_candidate_callback(), Some(&10));
    assert_eq!(state.connection_state_change_callback(), Some(&20));
    assert_eq!(state.ice_connection_state_change_callback(), Some(&30));
    assert!(state.message_callback().is_none());
    state.set_on_ice_candidate(11);
    assert_eq!(state.ice_candidate_callback(), Some(&11));
}

#[test]
fn manager_add_lookup_remove() {
    let mut m: PeerManager<u32, &str> = PeerManager::new();
    assert!(!m.has_peer(&"p1".to_string()));
    assert_eq!(m.add_peer("p1".to_string(), 1), None);
    assert_eq!(m.add_peer("p2".to_string(), 2), None);
    assert!(m.has_peer(&"p1".to_string()));
    assert_eq!(m.connection(&"p2".to_string()), Ok(&2));
    assert_eq!(m.connection(&"p3".to_string()), Err(ClientError::PeerNotFound));
    assert_eq!(m.remove_peer(&"p1".to_string()), Some(1));
    assert!(!m.has_peer(&"p1".to_string()));
    assert_eq!(m.remove_peer(&"p1".to_string()), None);
    assert_eq!(m.connection(&"p2".to_string()), Ok(&2));
}

#[test]
fn manager_add_replaces_in_place() {
    let mut m: PeerManager<u32, &str> = PeerManager::new();
    m.add_peer("a".to_string(), 1);
    m.add_peer("b".to_string(), 2);
    m.add_peer("c".to_string(), 3);
    assert_eq!(m.add_peer("b".to_string(), 20), Some(2));
    let all: Vec<u32> = m.connections().into_iter().copied().collect();
    assert_eq!(all, vec![1, 20, 3]);
    assert_eq!(m.connection(&"b".to_string()), Ok(&20));
}

#[test]
fn manager_remove_undoes_add() {
    let mut m: PeerManager<u32, &str> = PeerManager::new();
    m.add_peer("a".to_string(), 1);
    m.add_peer("b".to_string(), 2);
    m.add_peer("new".to_string(), 9);
    assert_eq!(m.remove_peer(&"new".to_string()), Some(9));
    let all: Vec<u32> = m.connections().into_iter().copied().collect();
    assert_eq!(all, vec![1, 2]);
}

#[test]
fn manager_callbacks() {
    let mut m: PeerManager<u32, &str> = PeerManager::new();
    assert!(m.peer_message_callback().is_none());
    assert!(m.peer_ice_candidate_callback().is_none());
    assert!(m.peer_connection_state_change_callback().is_none());
    m.set_on_peer_message("msg");
    m.set_on_peer_ice_candidate("ice");
    m.set_on_peer_connection_state_change("state");
    assert_eq!(m.peer_message_callback(), Some(&"msg"));
    assert_eq!(m.peer_ice_candidate_callback(), Some(&"ice"));
    assert_eq!(m.peer_connection_state_change_callback(), Some(&"state"));
}
