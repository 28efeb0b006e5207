//! The browser-side table of peer connections, one per remote peer id, and the
//! callbacks through which events of every connection reach the page.
//!
//! The connections and callbacks themselves belong to the browser; the program
//! around the library stores them here as opaque values of the types `C` and
//! `F`.
use vstd::prelude::*;

use crate::connection::ClientError;

verus! {

/// The kept connections in the order they were first added: each peer id with
/// its connection.
pub type PeerEntries<C> = Seq<(Seq<char>, C)>;

/// No peer id occurs twice.
pub open spec fn keys_distinct<C>(entries: PeerEntries<C>) -> bool {
    forall|i: int, j: int|
        0 <= i < j < entries.len() ==> (#[trigger] entries[i]).0 != (#[trigger] entries[j]).0
}

/// `peer_id` has a connection at index `i`.
pub open spec fn has_key_at<C>(entries: PeerEntries<C>, peer_id: Seq<char>, i: int) -> bool {
    0 <= i < entries.len() && entries[i].0 == peer_id
}

/// `peer_id` has a connection.
pub open spec fn has_key<C>(entries: PeerEntries<C>, peer_id: Seq<char>) -> bool {
    exists|i: int| #[trigger] has_key_at(entries, peer_id, i)
}

/// The index of the connection of `peer_id` (meaningful where it has one).
pub open spec fn key_index<C>(entries: PeerEntries<C>, peer_id: Seq<char>) -> int {
    choose|i: int| #[trigger] has_key_at(entries, peer_id, i)
}

/// The kept connections as a map from peer id to connection.
pub open spec fn table_of<C>(entries: PeerEntries<C>) -> Map<Seq<char>, C> {
    Map::new(
        |k: Seq<char>| has_key(entries, k),
        |k: Seq<char>| entries[key_index(entries, k)].1,
    )
}

/// The entries after keeping `connection` for `peer_id`: it takes the place of
/// the one `peer_id` had, or is added last.
pub open spec fn with_connection<C>(
    entries: PeerEntries<C>,
    peer_id: Seq<char>,
    connection: C,
) -> PeerEntries<C> {
    if has_key(entries, peer_id) {
        entries.update(key_index(entries, peer_id), (peer_id, connection))
    } else {
        entries.push((peer_id, connection))
    }
}

/// The entries after dropping the connection of `peer_id`, if it has one.
pub open spec fn without_connection<C>(entries: PeerEntries<C>, peer_id: Seq<char>) -> PeerEntries<
    C,
> {
    if has_key(entries, peer_id) {
        entries.remove(key_index(entries, peer_id))
    } else {
        entries
    }
}

/// With distinct keys, the index of a key is the one where it stands.
pub proof fn lemma_key_index_unique<C>(entries: PeerEntries<C>, peer_id: Seq<char>, i: int)
    requires
        keys_distinct(entries),
        has_key_at(entries, peer_id, i),
    ensures
        has_key(entries, peer_id),
        key_index(entries, peer_id) == i,
        table_of(entries).contains_key(peer_id),
        table_of(entries)[peer_id] == entries[i].1,
{
    let j = key_index(entries, peer_id);
    assert(has_key_at(entries, peer_id, j));
    if i < j {
        assert(entries[i].0 != entries[j].0);
    } else if j < i {
        assert(entries[j].0 != entries[i].0);
    }
}

/// Keeping a connection for a peer id sets it in the map, and keeps the keys distinct.
pub proof fn lemma_with_connection<C>(entries: PeerEntries<C>, peer_id: Seq<char>, connection: C)
    requires
        keys_distinct(entries),
    ensures
        keys_distinct(with_connection(entries, peer_id, connection)),
        table_of(with_connection(entries, peer_id, connection)) == table_of(entries).insert(
            peer_id,
            connection,
        ),
{
    let after = with_connection(entries, peer_id, connection);
    if has_key(entries, peer_id) {
        let i = key_index(entries, peer_id);
        assert(has_key_at(entries, peer_id, i));
        assert(keys_distinct(after)) by {
            assert forall|a: int, b: int| 0 <= a < b < after.len() implies (#[trigger] after[a]).0
                != (#[trigger] after[b]).0 by {
                assert(entries[a].0 != entries[b].0);
                if a == i {
                    assert(entries[i].0 == peer_id);
                }
                if b == i {
                    assert(entries[i].0 == peer_id);
                }
            }
        }
    } else {
        assert(keys_distinct(after)) by {
            assert forall|a: int, b: int| 0 <= a < b < after.len() implies (#[trigger] after[a]).0
                != (#[trigger] after[b]).0 by {
                if b == entries.len() {
                    assert(!has_key_at(entries, peer_id, a));
                } else {
                    assert(entries[a].0 != entries[b].0);
                }
            }
        }
    }
    let expected = table_of(entries).insert(peer_id, connection);
    assert forall|k: Seq<char>| #[trigger] table_of(after).contains_key(k) <==> expected.contains_key(
        k,
    ) by {
        if table_of(after).contains_key(k) {
            let j = choose|j: int| #[trigger] has_key_at(after, k, j);
            if k != peer_id {
                if has_key(entries, peer_id) {
                    assert(has_key_at(entries, k, j));
                } else {
                    assert(j < entries.len());
                    assert(has_key_at(entries, k, j));
                }
            }
        }
        if expected.contains_key(k) {
            if k == peer_id {
                if has_key(entries, peer_id) {
                    assert(has_key_at(after, k, key_index(entries, peer_id)));
                } else {
                    assert(has_key_at(after, k, entries.len() as int));
                }
            } else {
                let j = choose|j: int| #[trigger] has_key_at(entries, k, j);
                assert(has_key_at(after, k, j));
            }
        }
    }
    assert forall|k: Seq<char>| #[trigger] table_of(after).contains_key(k) implies table_of(after)[k]
        == expected[k] by {
        let j = choose|j: int| #[trigger] has_key_at(after, k, j);
        lemma_key_index_unique(after, k, j);
        if k != peer_id {
            assert(has_key_at(entries, k, j));
            lemma_key_index_unique(entries, k, j);
        } else if has_key(entries, peer_id) {
            let i = key_index(entries, peer_id);
            assert(has_key_at(entries, peer_id, i));
            if j != i {
                assert(has_key_at(entries, peer_id, j));
                lemma_key_index_unique(entries, peer_id, j);
            }
        } else {
            if j < entries.len() {
                assert(has_key_at(entries, peer_id, j));
            }
        }
    }
    assert(table_of(after) =~= expected);
}

/// Dropping the connection of a peer id removes it from the map, and keeps the
/// keys distinct.
pub proof fn lemma_without_connection<C>(entries: PeerEntries<C>, peer_id: Seq<char>)
    requires
        keys_distinct(entries),
    ensures
        keys_distinct(without_connection(entries, peer_id)),
        table_of(without_connection(entries, peer_id)) == table_of(entries).remove(peer_id),
{
    let after = without_connection(entries, peer_id);
    let expected = table_of(entries).remove(peer_id);
    if has_key(entries, peer_id) {
        let i = key_index(entries, peer_id);
        assert(has_key_at(entries, peer_id, i));
        assert(keys_distinct(after)) by {
            assert forall|a: int, b: int| 0 <= a < b < after.len() implies (#[trigger] after[a]).0
                != (#[trigger] after[b]).0 by {
                let a0 = if a < i { a } else { a + 1 };
                let b0 = if b < i { b } else { b + 1 };
                assert(after[a] == entries[a0]);
                assert(after[b] == entries[b0]);
                assert(entries[a0].0 != entries[b0].0);
            }
        }
        assert forall|k: Seq<char>| #[trigger] table_of(after).contains_key(k)
            <==> expected.contains_key(k) by {
            if table_of(after).contains_key(k) {
                let j = choose|j: int| #[trigger] has_key_at(after, k, j);
                let j0 = if j < i { j } else { j + 1 };
                assert(after[j] == entries[j0]);
                assert(has_key_at(entries, k, j0));
                if k == peer_id {
                    lemma_key_index_unique(entries, k, j0);
                }
            }
            if expected.contains_key(k) {
                let j0 = choose|j: int| #[trigger] has_key_at(entries, k, j);
                if j0 < i {
                    assert(has_key_at(after, k, j0));
                } else {
                    assert(j0 != i);
                    assert(after[j0 - 1] == entries[j0]);
                    assert(has_key_at(after, k, j0 - 1));
                }
            }
        }
        assert forall|k: Seq<char>| #[trigger] table_of(after).contains_key(k) implies table_of(
            after,
        )[k] == expected[k] by {
            let j = choose|j: int| #[trigger] has_key_at(after, k, j);
            lemma_key_index_unique(after, k, j);
            let j0 = if j < i { j } else { j + 1 };
            assert(after[j] == entries[j0]);
            lemma_key_index_unique(entries, k, j0);
        }
    } else {
        assert forall|k: Seq<char>| #[trigger] table_of(after).contains_key(k)
            <==> expected.contains_key(k) by {}
    }
    assert(table_of(after) =~= expected);
}

/// Removing undoes adding: adding a connection for a peer id that has none and
/// then removing it gives back the entries as they were, in the same order.
pub proof fn lemma_remove_undoes_add<C>(entries: PeerEntries<C>, peer_id: Seq<char>, connection: C)
    requires
        keys_distinct(entries),
        !table_of(entries).contains_key(peer_id),
    ensures
        without_connection(with_connection(entries, peer_id, connection), peer_id) == entries,
{
    let added = entries.push((peer_id, connection));
    assert(with_connection(entries, peer_id, connection) == added);
    lemma_with_connection(entries, peer_id, connection);
    lemma_key_index_unique(added, peer_id, entries.len() as int);
    assert(added.remove(entries.len() as int) =~= entries);
}

/// Adding is seen by lookups: after keeping `connection` for `peer_id`, that
/// is the connection of `peer_id`, and every other peer id keeps its own.
pub proof fn lemma_add_then_lookup<C>(
    entries: PeerEntries<C>,
    peer_id: Seq<char>,
    connection: C,
    other: Seq<char>,
)
    requires
        keys_distinct(entries),
        other != peer_id,
    ensures
        table_of(with_connection(entries, peer_id, connection)).contains_key(peer_id),
        table_of(with_connection(entries, peer_id, connection))[peer_id] == connection,
        table_of(with_connection(entries, peer_id, connection)).contains_key(other)
            == table_of(entries).contains_key(other),
        table_of(entries).contains_key(other) ==> table_of(
            with_connection(entries, peer_id, connection),
        )[other] == table_of(entries)[other],
{
    lemma_with_connection(entries, peer_id, connection);
}

/// The table of peer connections and the page's callbacks for their events.
pub struct PeerManager<C, F> {
    peers: Vec<(String, C)>,
    on_peer_message: Option<F>,
    on_peer_ice_candidate: Option<F>,
    on_peer_connection_state_change: Option<F>,
}

/// The mathematical value of a [`PeerManager`].
pub struct PeerManagerView<C, F> {
    pub peers: PeerEntries<C>,
    pub on_peer_message: Option<F>,
    pub on_peer_ice_candidate: Option<F>,
    pub on_peer_connection_state_change: Option<F>,
}

impl<C, F> View for PeerManager<C, F> {
    type V = PeerManagerView<C, F>;

    closed spec fn view(&self) -> PeerManagerView<C, F> {
        PeerManagerView {
            peers: self.peers@.map_values(|e: (String, C)| (e.0@, e.1)),
            on_peer_message: self.on_peer_message,
            on_peer_ice_candidate: self.on_peer_ice_candidate,
            on_peer_connection_state_change: self.on_peer_connection_state_change,
        }
    }
}

impl<C, F> PeerManager<C, F> {
    /// The manager is well formed: no peer id has two connections.
    pub open spec fn wf(&self) -> bool {
        keys_distinct(self@.peers)
    }

    /// The kept connections as a map from peer id to connection.
    pub open spec fn table(&self) -> Map<Seq<char>, C> {
        table_of(self@.peers)
    }

    /// No connection and no callback.
    pub fn new() -> (m: Self)
        ensures
            m.wf(),
            m@.peers.len() == 0,
            m@.on_peer_message is None,
            m@.on_peer_ice_candidate is None,
            m@.on_peer_connection_state_change is None,
    {
        let m = PeerManager {
            peers: Vec::new(),
            on_peer_message: None,
            on_peer_ice_candidate: None,
            on_peer_connection_state_change: None,
        };
        assert(m@.peers =~= Seq::empty());
        m
    }

    /// Where the connection of `peer_id` stands, if there is one.
    fn find(&self, peer_id: &String) -> (found: Option<usize>)
        ensures
            match found {
                Some(i) => has_key_at(self@.peers, peer_id@, i as int),
                None => !has_key(self@.peers, peer_id@),
            },
    {
        let mut i: usize = 0;
        while i < self.peers.len()
            invariant
                i <= self.peers.len(),
                forall|j: int| 0 <= j < i ==> !#[trigger] has_key_at(self@.peers, peer_id@, j),
            decreases self.peers.len() - i,
        {
            if self.peers[i].0 == *peer_id {
                assert(self@.peers[i as int] == (self.peers@[i as int].0@, self.peers@[i as int].1));
                return Some(i);
            }
            assert(self@.peers[i as int] == (self.peers@[i as int].0@, self.peers@[i as int].1));
            i = i + 1;
        }
        None
    }

    /// Keeps `connection` for `peer_id`. A connection that `peer_id` had is
    /// replaced, and handed back.
    pub fn add_peer(&mut self, peer_id: String, connection: C) -> (replaced: Option<C>)
        requires
            old(self).wf(),
        ensures
            final(self).wf(),
            final(self)@ == (PeerManagerView {
                peers: with_connection(old(self)@.peers, peer_id@, connection),
                ..old(self)@
            }),
            final(self).table() == old(self).table().insert(peer_id@, connection),
            replaced is Some <==> old(self).table().contains_key(peer_id@),
            replaced matches Some(c) ==> c == old(self).table()[peer_id@],
    {
        let ghost before = self@.peers;
        let ghost key = peer_id@;
        proof {
            lemma_with_connection(before, key, connection);
        }
        match self.find(&peer_id) {
            Some(i) => {
                proof {
                    lemma_key_index_unique(before, key, i as int);
                }
                let old_entry = self.peers.remove(i);
                self.peers.insert(i, (peer_id, connection));
                assert(self@.peers =~= with_connection(before, key, connection));
                Some(old_entry.1)
            },
            None => {
                self.peers.push((peer_id, connection));
                assert(self@.peers =~= with_connection(before, key, connection));
                None
            },
        }
    }

    /// Drops the connection of `peer_id` and hands it back, if there is one.
    pub fn remove_peer(&mut self, peer_id: &String) -> (removed: Option<C>)
        requires
            old(self).wf(),
        ensures
            final(self).wf(),
            final(self)@ == (PeerManagerView {
                peers: without_connection(old(self)@.peers, peer_id@),
                ..old(self)@
            }),
            final(self).table() == old(self).table().remove(peer_id@),
            removed is Some <==> old(self).table().contains_key(peer_id@),
            removed matches Some(c) ==> c == old(self).table()[peer_id@],
    {
        let ghost before = self@.peers;
        proof {
            lemma_without_connection(before, peer_id@);
        }
        match self.find(peer_id) {
            Some(i) => {
                proof {
                    lemma_key_index_unique(before, peer_id@, i as int);
                }
                let old_entry = self.peers.remove(i);
                assert(self@.peers =~= without_connection(before, peer_id@));
                Some(old_entry.1)
            },
            None => None,
        }
    }

    /// Whether a connection is kept for `peer_id`.
    pub fn has_peer(&self, peer_id: &String) -> (b: bool)
        ensures
            b == self.table().contains_key(peer_id@),
    {
        self.find(peer_id).is_some()
    }

    /// The connection of `peer_id`, or `PeerNotFound`.
    pub fn connection(&self, peer_id: &String) -> (r: Result<&C, ClientError>)
        requires
            self.wf(),
        ensures
            r is Ok <==> self.table().contains_key(peer_id@),
            r matches Ok(c) ==> *c == self.table()[peer_id@],
            r matches Err(e) ==> e == ClientError::PeerNotFound,
    {
        match self.find(peer_id) {
            Some(i) => {
                proof {
                    lemma_key_index_unique(self@.peers, peer_id@, i as int);
                }
                Ok(&self.peers[i].1)
            },
            None => Err(ClientError::PeerNotFound),
        }
    }

    /// Every kept connection, in the order of the entries.
    pub fn connections(&self) -> (all: Vec<&C>)
        ensures
            all@.len() == self@.peers.len(),
            forall|i: int| 0 <= i < all@.len() ==> *(#[trigger] all@[i]) == self@.peers[i].1,
    {
        let mut all: Vec<&C> = Vec::new();
        let mut i: usize = 0;
        while i < self.peers.len()
            invariant
                i <= self.peers.len(),
                all@.len() == i,
                forall|j: int| 0 <= j < i ==> *(#[trigger] all@[j]) == self@.peers[j].1,
            decreases self.peers.len() - i,
        {
            all.push(&self.peers[i].1);
            i = i + 1;
        }
        all
    }

    /// Registers the page's callback for messages from any peer.
    pub fn set_on_peer_message(&mut self, callback: F)
        ensures
            final(self)@ == (PeerManagerView { on_peer_message: Some(callback), ..old(self)@ }),
    {
        self.on_peer_message = Some(callback);
        assert(self@.peers =~= old(self)@.peers);
    }

    /// Registers the page's callback for ICE candidates of any peer.
    pub fn set_on_peer_ice_candidate(&mut self, callback: F)
        ensures
            final(self)@ == (PeerManagerView { on_peer_ice_candidate: Some(callback), ..old(self)@ }),
    {
        self.on_peer_ice_candidate = Some(callback);
        assert(self@.peers =~= old(self)@.peers);
    }

    /// Registers the page's callback for connection state changes of any peer.
    pub fn set_on_peer_connection_state_change(&mut self, callback: F)
        ensures
            final(self)@ == (PeerManagerView {
                on_peer_connection_state_change: Some(callback),
                ..old(self)@
            }),
    {
        self.on_peer_connection_state_change = Some(callback);
        assert(self@.peers =~= old(self)@.peers);
    }

    /// The page's callback for messages from any peer, if one is registered.
    pub fn peer_message_callback(&self) -> (callback: Option<&F>)
        ensures
            callback is Some <==> self@.on_peer_message is Some,
            callback matches Some(f) ==> *f == self@.on_peer_message->0,
    {
        self.on_peer_message.as_ref()
    }

    /// The page's callback for ICE candidates of any peer, if one is registered.
    pub fn peer_ice_candidate_callback(&self) -> (callback: Option<&F>)
        ensures
            callback is Some <==> self@.on_peer_ice_candidate is Some,
            callback matches Some(f) ==> *f == self@.on_peer_ice_candidate->0,
    {
        self.on_peer_ice_candidate.as_ref()
    }

    /// The page's callback for connection state changes of any peer, if one is registered.
    pub fn peer_connection_state_change_callback(&self) -> (callback: Option<&F>)
        ensures
            callback is Some <==> self@.on_peer_connection_state_change is Some,
            callback matches Some(f) ==> *f == self@.on_peer_connection_state_change->0,
    {
        self.on_peer_connection_state_change.as_ref()
    }
}

} // verus!
