//! The signalling server's logic: who is connected, in which room, and which
//! message goes to whom.
//!
//! The server keeps one record per connected peer. A peer logs in, joins a
//! room, and relays offers, answers and ICE candidates to other peers through
//! the server. The program around the library owns the sockets: it hands each
//! received message to [`handle_connection`] and writes out the deliveries
//! that come back.
use vstd::prelude::*;

use crate::model::{MessageView, PeerInfo, PeerInfoView, SignalMessage, peer_infos_view};
use crate::peer_map::{
    PeerMap, peer_entries, peer_map_entries, peer_map_get, peer_map_insert, peer_map_new,
    peer_map_remove,
};

verus! {

/// What the server records of a connected peer.
#[derive(Clone, Debug, PartialEq, Eq)]
pub struct PeerState {
    pub username: Option<String>,
    pub room: Option<String>,
}

/// The mathematical value of a [`PeerState`].
pub struct PeerStateView {
    pub username: Option<Seq<char>>,
    pub room: Option<Seq<char>>,
}

impl View for PeerState {
    type V = PeerStateView;

    open spec fn view(&self) -> PeerStateView {
        PeerStateView { username: self.username.deep_view(), room: self.room.deep_view() }
    }
}

/// A copy of an optional string.
pub fn duplicate_opt(s: &Option<String>) -> (r: Option<String>)
    ensures
        r.deep_view() == s.deep_view(),
{
    match s {
        Some(v) => Some(v.clone()),
        None => None,
    }
}

impl PeerState {
    /// A copy of this record.
    pub fn duplicate(&self) -> (r: PeerState)
        ensures
            r@ == self@,
    {
        PeerState { username: duplicate_opt(&self.username), room: duplicate_opt(&self.room) }
    }
}

/// The connected peers: each peer id with what the server records of it.
pub struct Peers {
    map: PeerMap,
}

/// The table of connected peers as a mathematical map.
pub type PeerTable = Map<Seq<char>, PeerStateView>;

impl View for Peers {
    type V = PeerTable;

    closed spec fn view(&self) -> PeerTable {
        peer_entries(self.map)
    }
}

impl Peers {
    /// No peer is connected.
    pub fn new() -> (peers: Peers)
        ensures
            peers@.dom().is_empty(),
    {
        Peers { map: peer_map_new() }
    }

    /// What the server records of `peer_id`, if it is connected.
    pub fn state(&self, peer_id: &String) -> (found: Option<PeerState>)
        ensures
            found is Some <==> self@.contains_key(peer_id@),
            found matches Some(p) ==> p@ == self@[peer_id@],
    {
        peer_map_get(&self.map, peer_id)
    }

    /// Whether `peer_id` is connected.
    pub fn contains(&self, peer_id: &String) -> (b: bool)
        ensures
            b == self@.contains_key(peer_id@),
    {
        peer_map_get(&self.map, peer_id).is_some()
    }

    /// Records a peer that has just logged in: it has a name and no room yet.
    pub fn register(&mut self, peer_id: String, username: String)
        ensures
            final(self)@ == old(self)@.insert(
                peer_id@,
                PeerStateView { username: Some(username@), room: None },
            ),
    {
        let _ = peer_map_insert(&mut self.map, peer_id, PeerState { username: Some(username), room: None });
    }
}

/// A message that the server sends to one connected peer.
#[derive(Clone, Debug, PartialEq, Eq)]
pub struct Outbound {
    pub target: String,
    pub message: SignalMessage,
}

/// The mathematical value of an [`Outbound`].
pub struct OutboundView {
    pub target: Seq<char>,
    pub message: MessageView,
}

impl View for Outbound {
    type V = OutboundView;

    open spec fn view(&self) -> OutboundView {
        OutboundView { target: self.target@, message: self.message@ }
    }
}

/// The view of a list of deliveries.
pub open spec fn outbound_view(out: Seq<Outbound>) -> Seq<OutboundView> {
    out.map_values(|o: Outbound| o@)
}

/// `k` is connected and in `room`.
pub open spec fn in_room(m: PeerTable, k: Seq<char>, room: Seq<char>) -> bool {
    m.contains_key(k) && m[k].room == Some(room)
}

/// `k` is connected, in `room`, and is not `exclude`.
pub open spec fn room_member_other_than(
    m: PeerTable,
    k: Seq<char>,
    room: Seq<char>,
    exclude: Seq<char>,
) -> bool {
    in_room(m, k, room) && k != exclude
}

/// `out` sends `msg` once to each peer of `room` but `exclude`, and to nobody else.
pub open spec fn is_room_broadcast(
    out: Seq<OutboundView>,
    m: PeerTable,
    room: Seq<char>,
    exclude: Seq<char>,
    msg: MessageView,
) -> bool {
    &&& forall|i: int|
        0 <= i < out.len() ==> (#[trigger] out[i]).message == msg && room_member_other_than(
            m,
            out[i].target,
            room,
            exclude,
        )
    &&& forall|k: Seq<char>|
        #[trigger] room_member_other_than(m, k, room, exclude) ==> exists|i: int|
            0 <= i < out.len() && (#[trigger] out[i]).target == k
    &&& forall|i: int, j: int|
        0 <= i < j < out.len() ==> (#[trigger] out[i]).target != (#[trigger] out[j]).target
}

/// The name under which a peer is announced: its username, or `Anonymous`.
pub open spec fn display_name(username: Option<Seq<char>>) -> Seq<char> {
    match username {
        Some(name) => name,
        None => "Anonymous"@,
    }
}

/// `list` names each peer of `room` but `exclude` once, with its display name,
/// and nobody else.
pub open spec fn is_room_listing(
    list: Seq<PeerInfoView>,
    m: PeerTable,
    room: Seq<char>,
    exclude: Seq<char>,
) -> bool {
    &&& forall|i: int|
        0 <= i < list.len() ==> room_member_other_than(m, (#[trigger] list[i]).peer_id, room, exclude)
            && list[i].username == display_name(m[list[i].peer_id].username)
    &&& forall|k: Seq<char>|
        #[trigger] room_member_other_than(m, k, room, exclude) ==> exists|i: int|
            0 <= i < list.len() && (#[trigger] list[i]).peer_id == k
    &&& forall|i: int, j: int|
        0 <= i < j < list.len() ==> (#[trigger] list[i]).peer_id != (#[trigger] list[j]).peer_id
}

/// Whether an optional room is `room`.
fn room_is(candidate: &Option<String>, room: &String) -> (b: bool)
    ensures
        b == (candidate.deep_view() == Some(room@)),
{
    match candidate {
        Some(r) => *r == *room,
        None => false,
    }
}

/// Sends `msg` to every peer in `room` except `exclude_peer_id`.
pub fn broadcast_to_room(
    room: &String,
    msg: &SignalMessage,
    exclude_peer_id: &String,
    peers: &Peers,
) -> (out: Vec<Outbound>)
    ensures
        is_room_broadcast(outbound_view(out@), peers@, room@, exclude_peer_id@, msg@),
{
    let entries = peer_map_entries(&peers.map);
    let ghost m = peers@;
    let mut out: Vec<Outbound> = Vec::new();
    let ghost mut src: Seq<int> = Seq::empty();
    let mut idx: usize = 0;
    while idx < entries.len()
        invariant
            m == peers@,
            idx <= entries.len(),
            forall|i: int|
                0 <= i < entries.len() ==> m.contains_key(#[trigger] entries@[i].0@)
                    && m[entries@[i].0@] == entries@[i].1@,
            forall|i: int, j: int|
                0 <= i < j < entries.len() ==> #[trigger] entries@[i].0@ != #[trigger] entries@[j].0@,
            src.len() == out.len(),
            forall|i: int|
                0 <= i < out.len() ==> 0 <= #[trigger] src[i] < idx && out@[i].target@
                    == entries@[src[i]].0@,
            forall|i: int, j: int| 0 <= i < j < out.len() ==> #[trigger] src[i] < #[trigger] src[j],
            forall|i: int|
                0 <= i < out.len() ==> (#[trigger] out@[i]).message@ == msg@
                    && room_member_other_than(m, out@[i].target@, room@, exclude_peer_id@),
            forall|j: int|
                0 <= j < idx && #[trigger] room_member_other_than(
                    m,
                    entries@[j].0@,
                    room@,
                    exclude_peer_id@,
                ) ==> exists|i: int| 0 <= i < out.len() && src[i] == j,
        decreases entries.len() - idx,
    {
        let entry = &entries[idx];
        if !(entry.0 == *exclude_peer_id) && room_is(&entry.1.room, room) {
            let ghost old_src = src;
            let ghost old_len = out.len();
            proof {
                src = src.push(idx as int);
            }
            out.push(Outbound { target: entry.0.clone(), message: msg.duplicate() });
            assert forall|j: int|
                0 <= j < idx + 1 && #[trigger] room_member_other_than(
                    m,
                    entries@[j].0@,
                    room@,
                    exclude_peer_id@,
                ) implies exists|i: int| 0 <= i < out.len() && src[i] == j by {
                if j == idx {
                    assert(src[out.len() - 1] == j);
                } else {
                    let i = choose|i: int| 0 <= i < old_len && old_src[i] == j;
                    assert(src[i] == j);
                }
            }
        }
        idx = idx + 1;
    }
    let ghost ov = outbound_view(out@);
    assert forall|i: int, j: int| 0 <= i < j < ov.len() implies (#[trigger] ov[i]).target != (
    #[trigger] ov[j]).target by {
        assert(src[i] < src[j]);
    }
    assert forall|k: Seq<char>| #[trigger]
        room_member_other_than(m, k, room@, exclude_peer_id@) implies exists|i: int|
        0 <= i < ov.len() && (#[trigger] ov[i]).target == k by {
        let j = choose|j: int| 0 <= j < entries.len() && #[trigger] entries@[j].0@ == k;
        assert(room_member_other_than(m, entries@[j].0@, room@, exclude_peer_id@));
        let i = choose|i: int| 0 <= i < out.len() && src[i] == j;
        assert(ov[i].target == k);
    }
    out
}

/// Lists each peer of `room` but `exclude_peer_id`, with its display name.
pub fn existing_peers(room: &String, exclude_peer_id: &String, peers: &Peers) -> (list: Vec<PeerInfo>)
    ensures
        is_room_listing(peer_infos_view(list@), peers@, room@, exclude_peer_id@),
{
    let entries = peer_map_entries(&peers.map);
    let ghost m = peers@;
    let mut list: Vec<PeerInfo> = Vec::new();
    let ghost mut src: Seq<int> = Seq::empty();
    let mut idx: usize = 0;
    while idx < entries.len()
        invariant
            m == peers@,
            idx <= entries.len(),
            forall|i: int|
                0 <= i < entries.len() ==> m.contains_key(#[trigger] entries@[i].0@)
                    && m[entries@[i].0@] == entries@[i].1@,
            forall|i: int, j: int|
                0 <= i < j < entries.len() ==> #[trigger] entries@[i].0@ != #[trigger] entries@[j].0@,
            src.len() == list.len(),
            forall|i: int|
                0 <= i < list.len() ==> 0 <= #[trigger] src[i] < idx && list@[i].peer_id@
                    == entries@[src[i]].0@,
            forall|i: int, j: int| 0 <= i < j < list.len() ==> #[trigger] src[i] < #[trigger] src[j],
            forall|i: int|
                0 <= i < list.len() ==> room_member_other_than(
                    m,
                    (#[trigger] list@[i]).peer_id@,
                    room@,
                    exclude_peer_id@,
                ) && list@[i].username@ == display_name(m[list@[i].peer_id@].username),
            forall|j: int|
                0 <= j < idx && #[trigger] room_member_other_than(
                    m,
                    entries@[j].0@,
                    room@,
                    exclude_peer_id@,
                ) ==> exists|i: int| 0 <= i < list.len() && src[i] == j,
        decreases entries.len() - idx,
    {
        let entry = &entries[idx];
        if !(entry.0 == *exclude_peer_id) && room_is(&entry.1.room, room) {
            let ghost old_src = src;
            let ghost old_len = list.len();
            proof {
                src = src.push(idx as int);
            }
            let username = match &entry.1.username {
                Some(name) => name.clone(),
                None => anonymous(),
            };
            list.push(PeerInfo { peer_id: entry.0.clone(), username });
            assert forall|j: int|
                0 <= j < idx + 1 && #[trigger] room_member_other_than(
                    m,
                    entries@[j].0@,
                    room@,
                    exclude_peer_id@,
                ) implies exists|i: int| 0 <= i < list.len() && src[i] == j by {
                if j == idx {
                    assert(src[list.len() - 1] == j);
                } else {
                    let i = choose|i: int| 0 <= i < old_len && old_src[i] == j;
                    assert(src[i] == j);
                }
            }
        }
        idx = idx + 1;
    }
    let ghost lv = peer_infos_view(list@);
    assert forall|i: int, j: int| 0 <= i < j < lv.len() implies (#[trigger] lv[i]).peer_id != (
    #[trigger] lv[j]).peer_id by {
        assert(src[i] < src[j]);
    }
    assert forall|k: Seq<char>| #[trigger]
        room_member_other_than(m, k, room@, exclude_peer_id@) implies exists|i: int|
        0 <= i < lv.len() && (#[trigger] lv[i]).peer_id == k by {
        let j = choose|j: int| 0 <= j < entries.len() && #[trigger] entries@[j].0@ == k;
        assert(room_member_other_than(m, entries@[j].0@, room@, exclude_peer_id@));
        let i = choose|i: int| 0 <= i < list.len() && src[i] == j;
        assert(lv[i].peer_id == k);
    }
    assert forall|i: int| 0 <= i < lv.len() implies room_member_other_than(
        m,
        (#[trigger] lv[i]).peer_id,
        room@,
        exclude_peer_id@,
    ) && lv[i].username == display_name(m[lv[i].peer_id].username) by {
        assert(lv[i] == list@[i]@);
    }
    list
}

/// A delivery of `msg` to `peer_id` if that peer is connected, else nothing.
pub open spec fn deliver_if_connected(
    m: PeerTable,
    peer_id: Seq<char>,
    msg: MessageView,
) -> Seq<OutboundView> {
    if m.contains_key(peer_id) {
        seq![OutboundView { target: peer_id, message: msg }]
    } else {
        Seq::empty()
    }
}

/// Sends `msg` to `peer_id`, if that peer is connected.
pub fn send_message(peer_id: &String, msg: SignalMessage, peers: &Peers) -> (out: Vec<Outbound>)
    ensures
        outbound_view(out@) == deliver_if_connected(peers@, peer_id@, msg@),
{
    let mut out: Vec<Outbound> = Vec::new();
    if peers.contains(peer_id) {
        out.push(Outbound { target: peer_id.clone(), message: msg });
    }
    assert(outbound_view(out@) =~= deliver_if_connected(peers@, peer_id@, msg@));
    out
}

/// Announces to the rest of `room` that `peer_id` has joined under `username`.
pub fn broadcast_peer_joined(room: &String, peer_id: &String, username: &String, peers: &Peers) -> (out: Vec<
    Outbound,
>)
    ensures
        is_room_broadcast(
            outbound_view(out@),
            peers@,
            room@,
            peer_id@,
            MessageView::PeerJoined { peer_id: peer_id@, username: username@ },
        ),
{
    let msg = SignalMessage::PeerJoined { peer_id: peer_id.clone(), username: username.clone() };
    broadcast_to_room(room, &msg, peer_id, peers)
}

/// Announces to the rest of `room` that `peer_id` has left it.
pub fn broadcast_peer_left(room: &String, peer_id: &String, peers: &Peers) -> (out: Vec<Outbound>)
    ensures
        is_room_broadcast(
            outbound_view(out@),
            peers@,
            room@,
            peer_id@,
            MessageView::PeerLeft { peer_id: peer_id@ },
        ),
{
    let msg = SignalMessage::PeerLeft { peer_id: peer_id.clone() };
    broadcast_to_room(room, &msg, peer_id, peers)
}

/// The table after `peer_id` renamed itself `username` (if it is connected).
pub open spec fn renamed(m: PeerTable, peer_id: Seq<char>, username: Seq<char>) -> PeerTable {
    if m.contains_key(peer_id) {
        m.insert(peer_id, PeerStateView { username: Some(username), room: m[peer_id].room })
    } else {
        m
    }
}

/// The table after `peer_id` moved into `room` (if it is connected).
pub open spec fn moved(m: PeerTable, peer_id: Seq<char>, room: Seq<char>) -> PeerTable {
    if m.contains_key(peer_id) {
        m.insert(peer_id, PeerStateView { username: m[peer_id].username, room: Some(room) })
    } else {
        m
    }
}

/// The name under which `peer_id` is announced when it joins a room: its display
/// name, or the empty name if it is not connected.
pub open spec fn announced_name(m: PeerTable, peer_id: Seq<char>) -> Seq<char> {
    if m.contains_key(peer_id) {
        display_name(m[peer_id].username)
    } else {
        Seq::empty()
    }
}

/// The room `peer_id` was in, if it is connected and in one.
pub open spec fn room_of(m: PeerTable, peer_id: Seq<char>) -> Option<Seq<char>> {
    if m.contains_key(peer_id) {
        m[peer_id].room
    } else {
        None
    }
}

/// What `peer_id` joining `room` sends, from the table `m` as it was before.
///
/// In this order: `PeerLeft` to the rest of the room it left (if it was in
/// one), `PeerJoined` to the rest of `room`, and, if it is connected, the
/// list of the other peers of `room` to `peer_id` itself.
pub open spec fn is_join_outcome(
    out: Seq<OutboundView>,
    m: PeerTable,
    peer_id: Seq<char>,
    room: Seq<char>,
) -> bool {
    let after = moved(m, peer_id, room);
    exists|a: int, b: int|
        0 <= a <= b <= out.len() && #[trigger] join_parts(out, after, m, peer_id, room, a, b)
}

/// `out` splits at `a` and `b` into the three parts that a join sends.
pub open spec fn join_parts(
    out: Seq<OutboundView>,
    after: PeerTable,
    m: PeerTable,
    peer_id: Seq<char>,
    room: Seq<char>,
    a: int,
    b: int,
) -> bool {
    &&& match room_of(m, peer_id) {
        Some(old_room) => is_room_broadcast(
            out.subrange(0, a),
            after,
            old_room,
            peer_id,
            MessageView::PeerLeft { peer_id },
        ),
        None => a == 0,
    }
    &&& is_room_broadcast(
        out.subrange(a, b),
        after,
        room,
        peer_id,
        MessageView::PeerJoined { peer_id, username: announced_name(m, peer_id) },
    )
    &&& if m.contains_key(peer_id) {
        &&& out.len() == b + 1
        &&& out[b].target == peer_id
        &&& out[b].message matches MessageView::ExistingPeers { peers } && is_room_listing(
            peers,
            after,
            room,
            peer_id,
        )
    } else {
        out.len() == b
    }
}

/// What handling `msg` from `peer_id` does: the table goes from `before` to
/// `after`, and `out` is delivered.
pub open spec fn message_outcome(
    msg: MessageView,
    peer_id: Seq<char>,
    before: PeerTable,
    after: PeerTable,
    out: Seq<OutboundView>,
) -> bool {
    match msg {
        MessageView::Login { username } => {
            &&& after == renamed(before, peer_id, username)
            &&& out.len() == 0
        },
        MessageView::Join { room } => {
            &&& after == moved(before, peer_id, room)
            &&& is_join_outcome(out, before, peer_id, room)
        },
        MessageView::Signal { target, data } => {
            &&& after == before
            &&& out == deliver_if_connected(
                before,
                target,
                MessageView::Signal { target: peer_id, data },
            )
        },
        _ => {
            &&& after == before
            &&& out.len() == 0
        },
    }
}

/// What `peer_id` going away does: its record is dropped and the rest of its
/// room, if it was in one, is told.
pub open spec fn departure_outcome(
    peer_id: Seq<char>,
    before: PeerTable,
    after: PeerTable,
    out: Seq<OutboundView>,
) -> bool {
    &&& after == before.remove(peer_id)
    &&& match room_of(before, peer_id) {
        Some(room) => is_room_broadcast(out, after, room, peer_id, MessageView::PeerLeft { peer_id }),
        None => out.len() == 0,
    }
}

/// Drops the record of `peer_id` and tells the rest of its room that it left.
pub fn disconnect(peer_id: &String, peers: &mut Peers) -> (out: Vec<Outbound>)
    ensures
        departure_outcome(peer_id@, old(peers)@, final(peers)@, outbound_view(out@)),
{
    let removed = peer_map_remove(&mut peers.map, peer_id);
    match removed {
        Some((_, state)) => match &state.room {
            Some(room) => broadcast_peer_left(room, peer_id, peers),
            None => Vec::new(),
        },
        None => Vec::new(),
    }
}

/// Handles one message that `peer_id` sent, and says what to deliver to whom.
///
/// `Login` renames the peer; `Join` moves it into a room, tells the room it
/// left and the room it joined, and tells it who is already there; `Signal`
/// is relayed to its target with the target field naming the sender. Every
/// other message is ignored.
pub fn process_message(peer_id: &String, msg: SignalMessage, peers: &mut Peers) -> (out: Vec<
    Outbound,
>)
    ensures
        message_outcome(msg@, peer_id@, old(peers)@, final(peers)@, outbound_view(out@)),
        msg@ matches MessageView::Join { room } ==> old(peers)@.contains_key(peer_id@) ==> {
            &&& final(peers)@.contains_key(peer_id@)
            &&& final(peers)@[peer_id@].room == Some(room)
            &&& final(peers)@[peer_id@].username == old(peers)@[peer_id@].username
        },
        msg@ matches MessageView::Login { username } ==> old(peers)@.contains_key(peer_id@) ==> {
            &&& final(peers)@.contains_key(peer_id@)
            &&& final(peers)@[peer_id@].username == Some(username)
            &&& final(peers)@[peer_id@].room == old(peers)@[peer_id@].room
        },
        msg@ matches MessageView::Signal { target, data } ==> old(peers)@.contains_key(target) ==> {
            &&& out@.len() == 1
            &&& out@[0]@ == (OutboundView {
                target,
                message: MessageView::Signal { target: peer_id@, data },
            })
        },
{
    match msg {
        SignalMessage::Login { username } => {
            match peers.state(peer_id) {
                Some(state) => {
                    let _ = peer_map_insert(
                        &mut peers.map,
                        peer_id.clone(),
                        PeerState { username: Some(username), room: state.room },
                    );
                },
                None => {},
            }
            Vec::new()
        },
        SignalMessage::Join { room } => {
            let ghost m = peers@;
            let mut old_room: Option<String> = None;
            let mut username = String::new();
            match peers.state(peer_id) {
                Some(state) => {
                    old_room = state.room;
                    username = match &state.username {
                        Some(name) => name.clone(),
                        None => anonymous(),
                    };
                    let _ = peer_map_insert(
                        &mut peers.map,
                        peer_id.clone(),
                        PeerState { username: state.username, room: Some(room.clone()) },
                    );
                },
                None => {},
            }
            assert(peers@ == moved(m, peer_id@, room@));
            assert(old_room.deep_view() == room_of(m, peer_id@));
            assert(username@ == announced_name(m, peer_id@));
            let mut out: Vec<Outbound> = Vec::new();
            match &old_room {
                Some(r) => {
                    let mut left = broadcast_peer_left(r, peer_id, peers);
                    out.append(&mut left);
                },
                None => {},
            }
            let ghost part_left = out@;
            let a = out.len();
            let mut joined = broadcast_peer_joined(&room, peer_id, &username, peers);
            let ghost part_joined = joined@;
            out.append(&mut joined);
            let b = out.len();
            let existing = existing_peers(&room, peer_id, peers);
            let mut direct = send_message(
                peer_id,
                SignalMessage::ExistingPeers { peers: existing },
                peers,
            );
            let ghost part_direct = direct@;
            out.append(&mut direct);
            proof {
                let ov = outbound_view(out@);
                assert(out@ == part_left + part_joined + part_direct);
                assert(ov.subrange(0, a as int) =~= outbound_view(part_left));
                assert(ov.subrange(a as int, b as int) =~= outbound_view(part_joined));
                assert(ov.subrange(b as int, ov.len() as int) =~= outbound_view(part_direct));
                if m.contains_key(peer_id@) {
                    assert(outbound_view(part_direct).len() == 1);
                    assert(ov[b as int] == outbound_view(part_direct)[0]);
                }
                assert(join_parts(ov, peers@, m, peer_id@, room@, a as int, b as int));
            }
            out
        },
        SignalMessage::Signal { target, data } => {
            let out = send_message(&target, SignalMessage::Signal { target: peer_id.clone(), data }, peers);
            proof {
                assert(outbound_view(out@).len() == out@.len());
                if out@.len() > 0 {
                    assert(outbound_view(out@)[0] == out@[0]@);
                }
            }
            out
        },
        _ => Vec::new(),
    }
}

/// Where a connection stands.
#[derive(Clone, Copy, Debug, PartialEq, Eq)]
pub enum ConnectionPhase {
    /// Connected; its first message must be a `Login`.
    AwaitingLogin,
    /// Logged in and registered.
    Active,
    /// Gone; nothing more is read from it.
    Closed,
}

/// What the socket of a connection produced.
#[derive(Clone, Debug, PartialEq, Eq)]
pub enum Incoming {
    /// A text frame, with the message it parsed to (`None` where it did not parse).
    Text(Option<SignalMessage>),
    /// A close frame.
    Close,
    /// Any other frame (binary, ping, pong).
    Other,
    /// An error while receiving.
    Failed,
    /// The end of the stream.
    Ended,
}

/// One client connection of the server.
pub struct Session {
    peer_id: String,
    phase: ConnectionPhase,
}

/// The text form of a version 4 UUID: 36 characters, lower-case hex digits
/// with hyphens at 8, 13, 18 and 23, a `4` at 14 and a variant digit at 19.
pub open spec fn is_hyphenated_uuid_v4(s: Seq<char>) -> bool {
    &&& s.len() == 36
    &&& forall|i: int|
        0 <= i < 36 ==> if i == 8 || i == 13 || i == 18 || i == 23 {
            #[trigger] s[i] == '-'
        } else {
            ('0' <= s[i] <= '9') || ('a' <= s[i] <= 'f')
        }
    &&& s[14] == '4'
    &&& s[19] == '8' || s[19] == '9' || s[19] == 'a' || s[19] == 'b'
}

/// `uuid::Uuid::new_v4()` written out with `to_string`: a fresh random
/// version 4 UUID in its hyphenated lower-case form. Which one comes out is
/// left to chance; only its form is stated.
#[verifier::external_body]
fn new_peer_id() -> (id: String)
    ensures
        is_hyphenated_uuid_v4(id@),
{
    uuid::Uuid::new_v4().to_string()
}

impl Session {
    /// A new connection with a fresh random peer id, waiting for its login.
    pub fn start() -> (s: Session)
        ensures
            s.phase() == ConnectionPhase::AwaitingLogin,
            is_hyphenated_uuid_v4(s.peer_id_view()),
    {
        Session::with_peer_id(new_peer_id())
    }

    /// A new connection under the given peer id, waiting for its login.
    pub fn with_peer_id(peer_id: String) -> (s: Session)
        ensures
            s.phase() == ConnectionPhase::AwaitingLogin,
            s.peer_id_view() == peer_id@,
    {
        Session { peer_id, phase: ConnectionPhase::AwaitingLogin }
    }

    /// The peer id of this connection.
    pub closed spec fn peer_id_view(&self) -> Seq<char> {
        self.peer_id@
    }

    /// Where this connection stands.
    pub closed spec fn phase_view(&self) -> ConnectionPhase {
        self.phase
    }

    /// The peer id of this connection.
    pub fn peer_id(&self) -> (id: &String)
        ensures
            id@ == self.peer_id_view(),
    {
        &self.peer_id
    }

    /// Where this connection stands.
    #[verifier::when_used_as_spec(phase_view)]
    pub fn phase(&self) -> (p: ConnectionPhase)
        ensures
            p == self.phase_view(),
    {
        self.phase
    }
}

/// Handles what the socket of `session` produced, and says what to deliver to whom.
///
/// The first message must be a `Login`: it registers the peer under its
/// username. Anything else first ends the connection. Once logged in, each
/// parsed message is handled by [`process_message`]; unparsable text and
/// other frames are ignored; a close frame, an error or the end of the stream
/// ends the connection. Ending a connection drops its record and tells the
/// rest of its room. A closed connection ignores everything.
pub fn handle_connection(session: &mut Session, event: Incoming, peers: &mut Peers) -> (out: Vec<
    Outbound,
>)
    ensures
        final(session).peer_id_view() == old(session).peer_id_view(),
        ({
            let id = old(session).peer_id_view();
            let before = old(peers)@;
            let after = final(peers)@;
            let ov = outbound_view(out@);
            match old(session).phase() {
                ConnectionPhase::AwaitingLogin => match event {
                    Incoming::Text(Some(SignalMessage::Login { username })) => {
                        &&& final(session).phase() == ConnectionPhase::Active
                        &&& after == before.insert(
                            id,
                            PeerStateView { username: Some(username@), room: None },
                        )
                        &&& ov.len() == 0
                    },
                    _ => {
                        &&& final(session).phase() == ConnectionPhase::Closed
                        &&& departure_outcome(id, before, after, ov)
                    },
                },
                ConnectionPhase::Active => match event {
                    Incoming::Text(Some(msg)) => {
                        &&& final(session).phase() == ConnectionPhase::Active
                        &&& message_outcome(msg@, id, before, after, ov)
                    },
                    Incoming::Text(None) | Incoming::Other => {
                        &&& final(session).phase() == ConnectionPhase::Active
                        &&& after == before
                        &&& ov.len() == 0
                    },
                    _ => {
                        &&& final(session).phase() == ConnectionPhase::Closed
                        &&& departure_outcome(id, before, after, ov)
                    },
                },
                ConnectionPhase::Closed => {
                    &&& final(session).phase() == ConnectionPhase::Closed
                    &&& after == before
                    &&& ov.len() == 0
                },
            }
        }),
{
    match session.phase {
        ConnectionPhase::AwaitingLogin => match event {
            Incoming::Text(Some(SignalMessage::Login { username })) => {
                peers.register(session.peer_id.clone(), username);
                session.phase = ConnectionPhase::Active;
                Vec::new()
            },
            _ => {
                session.phase = ConnectionPhase::Closed;
                disconnect(&session.peer_id, peers)
            },
        },
        ConnectionPhase::Active => match event {
            Incoming::Text(Some(msg)) => process_message(&session.peer_id, msg, peers),
            Incoming::Text(None) | Incoming::Other => Vec::new(),
            _ => {
                session.phase = ConnectionPhase::Closed;
                disconnect(&session.peer_id, peers)
            },
        },
        ConnectionPhase::Closed => Vec::new(),
    }
}

/// Mutual discovery: when a connected peer `joiner` joins `room`, every other
/// peer already in `room` is told that `joiner` joined (under its announced
/// name), and `joiner` is told of every such peer, under its display name.
pub proof fn lemma_join_mutual_discovery(
    out: Seq<OutboundView>,
    before: PeerTable,
    joiner: Seq<char>,
    room: Seq<char>,
    member: Seq<char>,
)
    requires
        is_join_outcome(out, before, joiner, room),
        before.contains_key(joiner),
        in_room(before, member, room),
        member != joiner,
    ensures
        exists|i: int|
            0 <= i < out.len() && #[trigger] out[i] == (OutboundView {
                target: member,
                message: MessageView::PeerJoined {
                    peer_id: joiner,
                    username: display_name(before[joiner].username),
                },
            }),
        exists|i: int|
            0 <= i < out.len() && (#[trigger] out[i]).target == joiner && (
            out[i].message matches MessageView::ExistingPeers { peers } && exists|j: int|
                0 <= j < peers.len() && #[trigger] peers[j] == (PeerInfoView {
                    peer_id: member,
                    username: display_name(before[member].username),
                })),
{
    let after = moved(before, joiner, room);
    let (a, b) = choose|a: int, b: int|
        0 <= a <= b <= out.len() && #[trigger] join_parts(out, after, before, joiner, room, a, b);
    assert(join_parts(out, after, before, joiner, room, a, b));
    assert(room_member_other_than(after, member, room, joiner));
    let joined = out.subrange(a, b);
    let i = choose|i: int| 0 <= i < joined.len() && (#[trigger] joined[i]).target == member;
    assert(out[a + i] == joined[i]);
    assert(out[a + i] == (OutboundView {
        target: member,
        message: MessageView::PeerJoined {
            peer_id: joiner,
            username: display_name(before[joiner].username),
        },
    }));
    let peers = out[b].message->peers;
    let j = choose|j: int| 0 <= j < peers.len() && (#[trigger] peers[j]).peer_id == member;
    assert(peers[j] == (PeerInfoView {
        peer_id: member,
        username: display_name(before[member].username),
    }));
}

/// A peer is announced under the name it logged in with: after a peer logs in
/// as `username` and then joins `room`, every other peer of `room` is told
/// that it joined under `username`.
pub proof fn lemma_login_name_announced(
    out: Seq<OutboundView>,
    before: PeerTable,
    peer_id: Seq<char>,
    username: Seq<char>,
    room: Seq<char>,
    member: Seq<char>,
)
    requires
        is_join_outcome(
            out,
            before.insert(peer_id, PeerStateView { username: Some(username), room: None }),
            peer_id,
            room,
        ),
        in_room(before, member, room),
        member != peer_id,
    ensures
        exists|i: int|
            0 <= i < out.len() && #[trigger] out[i] == (OutboundView {
                target: member,
                message: MessageView::PeerJoined { peer_id, username },
            }),
{
    let registered = before.insert(peer_id, PeerStateView { username: Some(username), room: None });
    assert(in_room(registered, member, room));
    lemma_join_mutual_discovery(out, registered, peer_id, room, member);
}

/// Joining records the room: after a connected peer asks to join `room`, its
/// record names `room`, whatever room it was in before; its name is kept, and
/// no other peer's record changes.
pub proof fn lemma_join_records_room(
    peer_id: Seq<char>,
    room: Seq<char>,
    before: PeerTable,
    after: PeerTable,
    out: Seq<OutboundView>,
)
    requires
        message_outcome(MessageView::Join { room }, peer_id, before, after, out),
        before.contains_key(peer_id),
    ensures
        after.contains_key(peer_id),
        after[peer_id].room == Some(room),
        after[peer_id].username == before[peer_id].username,
        forall|k: Seq<char>|
            k != peer_id ==> (#[trigger] after.contains_key(k) == before.contains_key(k))
                && (before.contains_key(k) ==> after[k] == before[k]),
{
}

/// Logging in records the name: after a connected peer logs in as `username`,
/// its record holds `username`, whether or not it is in a room; its room is
/// kept, nothing is sent, and no other peer's record changes.
pub proof fn lemma_login_records_name(
    peer_id: Seq<char>,
    username: Seq<char>,
    before: PeerTable,
    after: PeerTable,
    out: Seq<OutboundView>,
)
    requires
        message_outcome(MessageView::Login { username }, peer_id, before, after, out),
        before.contains_key(peer_id),
    ensures
        after.contains_key(peer_id),
        after[peer_id].username == Some(username),
        after[peer_id].room == before[peer_id].room,
        out.len() == 0,
        forall|k: Seq<char>|
            k != peer_id ==> (#[trigger] after.contains_key(k) == before.contains_key(k))
                && (before.contains_key(k) ==> after[k] == before[k]),
{
}

/// A signal reaches its target whatever it carries: a signal from `sender` to
/// a connected `target` is delivered once, to `target`, naming `sender` and
/// carrying `data` unchanged, for data of any length; to a target that is not
/// connected, nothing is sent. The table does not change.
pub proof fn lemma_signal_relayed_unchanged(
    sender: Seq<char>,
    target: Seq<char>,
    data: Seq<char>,
    before: PeerTable,
    after: PeerTable,
    out: Seq<OutboundView>,
)
    requires
        message_outcome(MessageView::Signal { target, data }, sender, before, after, out),
    ensures
        after == before,
        before.contains_key(target) ==> out.len() == 1 && out[0] == (OutboundView {
            target,
            message: MessageView::Signal { target: sender, data },
        }),
        !before.contains_key(target) ==> out.len() == 0,
{
}

/// Peers are listed under their username, or as `Anonymous` where they have none.
pub proof fn lemma_display_name(name: Seq<char>)
    ensures
        display_name(Some(name)) == name,
        display_name(None) == "Anonymous"@,
{
}

/// Leaving is announced: when a connected peer in `room` goes away, every
/// other peer of `room` is told once that it left, and nobody outside `room`
/// is told anything.
pub proof fn lemma_departure_announced(
    peer_id: Seq<char>,
    room: Seq<char>,
    before: PeerTable,
    after: PeerTable,
    out: Seq<OutboundView>,
    member: Seq<char>,
)
    requires
        departure_outcome(peer_id, before, after, out),
        before.contains_key(peer_id),
        before[peer_id].room == Some(room),
        in_room(before, member, room),
        member != peer_id,
    ensures
        exists|i: int|
            0 <= i < out.len() && #[trigger] out[i] == (OutboundView {
                target: member,
                message: MessageView::PeerLeft { peer_id },
            }),
        forall|i: int|
            0 <= i < out.len() ==> in_room(before, (#[trigger] out[i]).target, room)
                && out[i].message == (MessageView::PeerLeft { peer_id }),
{
    assert(room_member_other_than(after, member, room, peer_id));
    let i = choose|i: int| 0 <= i < out.len() && (#[trigger] out[i]).target == member;
    assert(out[i].message == (MessageView::PeerLeft { peer_id }));
}

/// Deliveries reach connected peers only: whatever handling a message sends
/// goes to peers that are connected once it is handled.
pub proof fn lemma_deliveries_reach_connected_peers(
    msg: MessageView,
    peer_id: Seq<char>,
    before: PeerTable,
    after: PeerTable,
    out: Seq<OutboundView>,
)
    requires
        message_outcome(msg, peer_id, before, after, out),
    ensures
        forall|i: int| 0 <= i < out.len() ==> after.contains_key(#[trigger] out[i].target),
{
    match msg {
        MessageView::Join { room } => {
            let (a, b) = choose|a: int, b: int|
                0 <= a <= b <= out.len() && #[trigger] join_parts(out, after, before, peer_id, room, a, b);
            assert(join_parts(out, after, before, peer_id, room, a, b));
            assert forall|i: int| 0 <= i < out.len() implies after.contains_key(
                #[trigger] out[i].target,
            ) by {
                if i < a {
                    let left = out.subrange(0, a);
                    assert(left[i] == out[i]);
                } else if i < b {
                    let joined = out.subrange(a, b);
                    assert(joined[i - a] == out[i]);
                }
            }
        },
        _ => {},
    }
}

/// A departed peer is unreachable: once a peer has gone, it is no longer
/// connected and nothing is sent to it; each other peer of its room is told
/// once.
pub proof fn lemma_departed_peer_unreachable(
    peer_id: Seq<char>,
    before: PeerTable,
    after: PeerTable,
    out: Seq<OutboundView>,
)
    requires
        departure_outcome(peer_id, before, after, out),
    ensures
        !after.contains_key(peer_id),
        forall|i: int| 0 <= i < out.len() ==> (#[trigger] out[i]).target != peer_id
            && after.contains_key(out[i].target),
{
}

/// Broadcasts skip their sender: a message to the rest of a room never goes
/// back to the peer it excludes, and never goes twice to the same peer.
pub proof fn lemma_broadcast_skips_sender(
    out: Seq<OutboundView>,
    m: PeerTable,
    room: Seq<char>,
    sender: Seq<char>,
    msg: MessageView,
)
    requires
        is_room_broadcast(out, m, room, sender, msg),
    ensures
        forall|i: int| 0 <= i < out.len() ==> (#[trigger] out[i]).target != sender,
        forall|i: int, j: int| 0 <= i < j < out.len() ==> (#[trigger] out[i]).target != (#[trigger] out[j]).target,
{
}

/// The display name of a peer without a username.
fn anonymous() -> (s: String)
    ensures
        s@ == "Anonymous"@,
{
    "Anonymous".to_string()
}

} // verus!
