//! The messages that the signalling server and its clients exchange.
//!
//! On the wire each message is a JSON object `{"type": <variant>, "payload": {..}}`;
//! the encoding itself is done by the program around the library, which holds
//! a copy of these types with serde's derives.
use vstd::prelude::*;

verus! {

/// One peer of a room as announced to a peer that joins it.
#[derive(Clone, Debug, PartialEq, Eq)]
pub struct PeerInfo {
    pub peer_id: String,
    pub username: String,
}

/// The mathematical value of a [`PeerInfo`].
pub struct PeerInfoView {
    pub peer_id: Seq<char>,
    pub username: Seq<char>,
}

impl View for PeerInfo {
    type V = PeerInfoView;

    open spec fn view(&self) -> PeerInfoView {
        PeerInfoView { peer_id: self.peer_id@, username: self.username@ }
    }
}

impl PeerInfo {
    /// A copy of this entry.
    pub fn duplicate(&self) -> (r: PeerInfo)
        ensures
            r@ == self@,
    {
        PeerInfo { peer_id: self.peer_id.clone(), username: self.username.clone() }
    }
}

/// The view of a list of peer entries.
pub open spec fn peer_infos_view(peers: Seq<PeerInfo>) -> Seq<PeerInfoView> {
    peers.map_values(|p: PeerInfo| p@)
}

/// A message of the signalling protocol.
///
/// `Login`, `Join` and `Signal` travel from a client to the server;
/// `Signal`, `PeerJoined`, `PeerLeft` and `ExistingPeers` travel from the
/// server to a client. The `data` of a `Signal` is an offer, an answer or an
/// ICE candidate, held as its JSON text and relayed untouched.
#[derive(Clone, Debug, PartialEq, Eq)]
pub enum SignalMessage {
    Login { username: String },
    Join { room: String },
    Signal { target: String, data: String },
    PeerJoined { peer_id: String, username: String },
    PeerLeft { peer_id: String },
    ExistingPeers { peers: Vec<PeerInfo> },
}

/// The mathematical value of a [`SignalMessage`].
pub enum MessageView {
    Login { username: Seq<char> },
    Join { room: Seq<char> },
    Signal { target: Seq<char>, data: Seq<char> },
    PeerJoined { peer_id: Seq<char>, username: Seq<char> },
    PeerLeft { peer_id: Seq<char> },
    ExistingPeers { peers: Seq<PeerInfoView> },
}

impl View for SignalMessage {
    type V = MessageView;

    open spec fn view(&self) -> MessageView {
        match self {
            SignalMessage::Login { username } => MessageView::Login { username: username@ },
            SignalMessage::Join { room } => MessageView::Join { room: room@ },
            SignalMessage::Signal { target, data } => MessageView::Signal {
                target: target@,
                data: data@,
            },
            SignalMessage::PeerJoined { peer_id, username } => MessageView::PeerJoined {
                peer_id: peer_id@,
                username: username@,
            },
            SignalMessage::PeerLeft { peer_id } => MessageView::PeerLeft { peer_id: peer_id@ },
            SignalMessage::ExistingPeers { peers } => MessageView::ExistingPeers {
                peers: peer_infos_view(peers@),
            },
        }
    }
}

/// A copy of a list of peer entries.
pub fn duplicate_peer_infos(peers: &Vec<PeerInfo>) -> (r: Vec<PeerInfo>)
    ensures
        peer_infos_view(r@) == peer_infos_view(peers@),
{
    let mut r: Vec<PeerInfo> = Vec::new();
    let mut i: usize = 0;
    while i < peers.len()
        invariant
            i <= peers.len(),
            r.len() == i,
            forall|j: int| 0 <= j < i ==> (#[trigger] r@[j])@ == peers@[j]@,
        decreases peers.len() - i,
    {
        r.push(peers[i].duplicate());
        i = i + 1;
    }
    assert(peer_infos_view(r@) =~= peer_infos_view(peers@));
    r
}

impl SignalMessage {
    /// A copy of this message.
    pub fn duplicate(&self) -> (r: SignalMessage)
        ensures
            r@ == self@,
    {
        match self {
            SignalMessage::Login { username } => SignalMessage::Login {
                username: username.clone(),
            },
            SignalMessage::Join { room } => SignalMessage::Join { room: room.clone() },
            SignalMessage::Signal { target, data } => SignalMessage::Signal {
                target: target.clone(),
                data: data.clone(),
            },
            SignalMessage::PeerJoined { peer_id, username } => SignalMessage::PeerJoined {
                peer_id: peer_id.clone(),
                username: username.clone(),
            },
            SignalMessage::PeerLeft { peer_id } => SignalMessage::PeerLeft {
                peer_id: peer_id.clone(),
            },
            SignalMessage::ExistingPeers { peers } => SignalMessage::ExistingPeers {
                peers: duplicate_peer_infos(peers),
            },
        }
    }
}

} // verus!
