//! The bookkeeping of one browser-side peer connection: its data channel, the
//! callbacks its user registered, and the checks made before a message is sent.
//!
//! The connection object, the data channel and the callbacks themselves belong
//! to the browser; the program around the library stores them here as opaque
//! values of the types `Ch` and `Cb`, and asks the library what to do with them.
use vstd::prelude::*;

verus! {

/// The ready state of a data channel, as the browser reports it.
#[derive(Clone, Copy, Debug, PartialEq, Eq)]
pub enum ChannelReadyState {
    Connecting,
    Open,
    Closing,
    Closed,
}

/// The name of a ready state, as the browser's binding prints it.
pub open spec fn ready_state_name(state: ChannelReadyState) -> Seq<char> {
    match state {
        ChannelReadyState::Connecting => "Connecting"@,
        ChannelReadyState::Open => "Open"@,
        ChannelReadyState::Closing => "Closing"@,
        ChannelReadyState::Closed => "Closed"@,
    }
}

impl ChannelReadyState {
    /// The name of this ready state.
    pub fn name(&self) -> (s: &'static str)
        ensures
            s@ == ready_state_name(*self),
    {
        match self {
            ChannelReadyState::Connecting => "Connecting",
            ChannelReadyState::Open => "Open",
            ChannelReadyState::Closing => "Closing",
            ChannelReadyState::Closed => "Closed",
        }
    }
}

/// Why a request of the browser-side client failed.
#[derive(Clone, Copy, Debug, PartialEq, Eq)]
pub enum ClientError {
    /// No data channel has been created or received yet (or it was closed).
    DataChannelNotEstablished,
    /// The data channel exists but is not open.
    DataChannelNotOpen(ChannelReadyState),
    /// The browser holds no local session description after setting one.
    NoLocalDescription,
    /// No connection is kept for the requested peer.
    PeerNotFound,
}

/// The text of an error, as the client reports it to its caller.
pub open spec fn error_text(e: ClientError) -> Seq<char> {
    match e {
        ClientError::DataChannelNotEstablished => "Data channel not established"@,
        ClientError::DataChannelNotOpen(state) => "Data channel not open. Current state: "@
            + ready_state_name(state),
        ClientError::NoLocalDescription => "No local description"@,
        ClientError::PeerNotFound => "Peer not found"@,
    }
}

impl ClientError {
    /// The text of this error.
    pub fn message(&self) -> (s: String)
        ensures
            s@ == error_text(*self),
    {
        match self {
            ClientError::DataChannelNotEstablished => "Data channel not established".to_string(),
            ClientError::DataChannelNotOpen(state) => {
                let mut s = "Data channel not open. Current state: ".to_string();
                s.append(state.name());
                s
            },
            ClientError::NoLocalDescription => "No local description".to_string(),
            ClientError::PeerNotFound => "Peer not found".to_string(),
        }
    }
}

/// Whether a message may be sent now, from the ready state of the data
/// channel (`None` where there is no data channel).
pub fn send_readiness(channel_state: Option<ChannelReadyState>) -> (r: Result<(), ClientError>)
    ensures
        r == match channel_state {
            None => Err(ClientError::DataChannelNotEstablished),
            Some(ChannelReadyState::Open) => Ok(()),
            Some(state) => Err(ClientError::DataChannelNotOpen(state)),
        },
{
    match channel_state {
        None => Err(ClientError::DataChannelNotEstablished),
        Some(ChannelReadyState::Open) => Ok(()),
        Some(state) => Err(ClientError::DataChannelNotOpen(state)),
    }
}

/// The session description to hand back once a local description was set:
/// its SDP text, or an error where the browser holds none.
pub fn local_description_sdp(sdp: Option<String>) -> (r: Result<String, ClientError>)
    ensures
        match sdp {
            Some(text) => r matches Ok(t) && t@ == text@,
            None => r == Err::<String, ClientError>(ClientError::NoLocalDescription),
        },
{
    match sdp {
        Some(text) => Ok(text),
        None => Err(ClientError::NoLocalDescription),
    }
}

/// What a peer connection keeps: its data channel and the callbacks that its
/// user registered.
pub struct SharedState<Ch, Cb> {
    data_channel: Option<Ch>,
    on_message_callback: Option<Cb>,
    on_ice_candidate_callback: Option<Cb>,
    on_connection_state_change_callback: Option<Cb>,
    on_ice_connection_state_change_callback: Option<Cb>,
}

/// The mathematical value of a [`SharedState`].
pub struct SharedStateView<Ch, Cb> {
    pub data_channel: Option<Ch>,
    pub on_message_callback: Option<Cb>,
    pub on_ice_candidate_callback: Option<Cb>,
    pub on_connection_state_change_callback: Option<Cb>,
    pub on_ice_connection_state_change_callback: Option<Cb>,
}

impl<Ch, Cb> View for SharedState<Ch, Cb> {
    type V = SharedStateView<Ch, Cb>;

    closed spec fn view(&self) -> SharedStateView<Ch, Cb> {
        SharedStateView {
            data_channel: self.data_channel,
            on_message_callback: self.on_message_callback,
            on_ice_candidate_callback: self.on_ice_candidate_callback,
            on_connection_state_change_callback: self.on_connection_state_change_callback,
            on_ice_connection_state_change_callback: self.on_ice_connection_state_change_callback,
        }
    }
}

/// The state after keeping `channel` as the data channel.
pub open spec fn with_channel<Ch, Cb>(v: SharedStateView<Ch, Cb>, channel: Ch) -> SharedStateView<
    Ch,
    Cb,
> {
    SharedStateView { data_channel: Some(channel), ..v }
}

/// The state after registering `callback` for messages.
pub open spec fn with_message_callback<Ch, Cb>(
    v: SharedStateView<Ch, Cb>,
    callback: Cb,
) -> SharedStateView<Ch, Cb> {
    SharedStateView { on_message_callback: Some(callback), ..v }
}

/// Whether keeping a data channel in state `v` attaches the message callback to it.
pub open spec fn attaches_on_channel<Ch, Cb>(v: SharedStateView<Ch, Cb>) -> bool {
    v.on_message_callback is Some
}

/// Whether registering a message callback in state `v` attaches it to the data channel.
pub open spec fn attaches_on_registration<Ch, Cb>(v: SharedStateView<Ch, Cb>) -> bool {
    v.data_channel is Some
}

/// The message callback is attached once, whichever comes first: starting with
/// neither a data channel nor a message callback, keeping a channel and
/// registering a callback, in either order, attach the callback exactly once
/// and end in the same state.
pub proof fn lemma_message_callback_attached_once<Ch, Cb>(
    v: SharedStateView<Ch, Cb>,
    channel: Ch,
    callback: Cb,
)
    requires
        v.data_channel is None,
        v.on_message_callback is None,
    ensures
        !attaches_on_channel(v) && attaches_on_registration(with_channel(v, channel)),
        !attaches_on_registration(v) && attaches_on_channel(with_message_callback(v, callback)),
        with_message_callback(with_channel(v, channel), callback) == with_channel(
            with_message_callback(v, callback),
            channel,
        ),
{
}

/// A registered message callback reaches every data channel: whatever the
/// state (a channel held or not, a callback registered before or not), keeping
/// a channel attaches the message callback exactly when one is registered,
/// and after registering a callback, any channel kept later gets it.
pub proof fn lemma_every_channel_gets_the_callback<Ch, Cb>(
    v: SharedStateView<Ch, Cb>,
    channel: Ch,
    callback: Cb,
)
    ensures
        attaches_on_channel(v) <==> v.on_message_callback is Some,
        attaches_on_channel(with_message_callback(v, callback)),
        attaches_on_channel(with_channel(with_message_callback(v, callback), channel)),
        with_channel(v, channel).data_channel == Some(channel),
        with_channel(v, channel).on_message_callback == v.on_message_callback,
{
}

/// A newly registered callback reaches the data channel held: whatever the
/// state (a callback registered before or not), registering a message
/// callback attaches it exactly when a data channel is held, and once a
/// channel is kept, every callback registered later is attached to it.
pub proof fn lemma_every_callback_reaches_the_channel<Ch, Cb>(
    v: SharedStateView<Ch, Cb>,
    channel: Ch,
    callback: Cb,
)
    ensures
        attaches_on_registration(v) <==> v.data_channel is Some,
        attaches_on_registration(with_channel(v, channel)),
        attaches_on_registration(with_message_callback(with_channel(v, channel), callback)),
        with_message_callback(v, callback).on_message_callback == Some(callback),
        with_message_callback(v, callback).data_channel == v.data_channel,
{
}

impl<Ch, Cb> SharedState<Ch, Cb> {
    /// No data channel and no callback.
    pub fn new() -> (s: Self)
        ensures
            s@.data_channel is None,
            s@.on_message_callback is None,
            s@.on_ice_candidate_callback is None,
            s@.on_connection_state_change_callback is None,
            s@.on_ice_connection_state_change_callback is None,
    {
        SharedState {
            data_channel: None,
            on_message_callback: None,
            on_ice_candidate_callback: None,
            on_connection_state_change_callback: None,
            on_ice_connection_state_change_callback: None,
        }
    }

    /// Keeps `channel` as the data channel (created here or received from the
    /// remote peer). The result says whether the message callback is to be
    /// attached to it now: it is, where one is registered.
    pub fn attach_channel(&mut self, channel: Ch) -> (attach_message_callback: bool)
        ensures
            final(self)@ == with_channel(old(self)@, channel),
            attach_message_callback == attaches_on_channel(old(self)@),
            attach_message_callback == (old(self)@.on_message_callback is Some),
            final(self)@.data_channel == Some(channel),
            final(self)@.on_message_callback == old(self)@.on_message_callback,
    {
        self.data_channel = Some(channel);
        self.on_message_callback.is_some()
    }

    /// Registers the callback for messages on the data channel. The result
    /// says whether it is to be attached to a data channel now: it is, where
    /// one exists.
    pub fn set_on_message(&mut self, callback: Cb) -> (attach_now: bool)
        ensures
            final(self)@ == with_message_callback(old(self)@, callback),
            attach_now == attaches_on_registration(old(self)@),
            attach_now == (old(self)@.data_channel is Some),
            final(self)@.on_message_callback == Some(callback),
            final(self)@.data_channel == old(self)@.data_channel,
    {
        self.on_message_callback = Some(callback);
        self.data_channel.is_some()
    }

    /// Registers the callback for local ICE candidates.
    pub fn set_on_ice_candidate(&mut self, callback: Cb)
        ensures
            final(self)@ == (SharedStateView {
                on_ice_candidate_callback: Some(callback),
                ..old(self)@
            }),
    {
        self.on_ice_candidate_callback = Some(callback);
    }

    /// Registers the callback for changes of the connection state.
    pub fn set_on_connection_state_change(&mut self, callback: Cb)
        ensures
            final(self)@ == (SharedStateView {
                on_connection_state_change_callback: Some(callback),
                ..old(self)@
            }),
    {
        self.on_connection_state_change_callback = Some(callback);
    }

    /// Registers the callback for changes of the ICE connection state.
    pub fn set_on_ice_connection_state_change(&mut self, callback: Cb)
        ensures
            final(self)@ == (SharedStateView {
                on_ice_connection_state_change_callback: Some(callback),
                ..old(self)@
            }),
    {
        self.on_ice_connection_state_change_callback = Some(callback);
    }

    /// Forgets the data channel and hands it back, to be closed.
    pub fn close(&mut self) -> (channel: Option<Ch>)
        ensures
            final(self)@ == (SharedStateView { data_channel: None, ..old(self)@ }),
            channel == old(self)@.data_channel,
    {
        self.data_channel.take()
    }

    /// The data channel, if there is one.
    pub fn data_channel(&self) -> (channel: Option<&Ch>)
        ensures
            channel is Some <==> self@.data_channel is Some,
            channel matches Some(x) ==> *x == self@.data_channel->0,
    {
        self.data_channel.as_ref()
    }

    /// The callback for messages on the data channel, if one is registered.
    pub fn message_callback(&self) -> (callback: Option<&Cb>)
        ensures
            callback is Some <==> self@.on_message_callback is Some,
            callback matches Some(x) ==> *x == self@.on_message_callback->0,
    {
        self.on_message_callback.as_ref()
    }

    /// The callback for local ICE candidates, if one is registered.
    pub fn ice_candidate_callback(&self) -> (callback: Option<&Cb>)
        ensures
            callback is Some <==> self@.on_ice_candidate_callback is Some,
            callback matches Some(x) ==> *x == self@.on_ice_candidate_callback->0,
    {
        self.on_ice_candidate_callback.as_ref()
    }

    /// The callback for changes of the connection state, if one is registered.
    pub fn connection_state_change_callback(&self) -> (callback: Option<&Cb>)
        ensures
            callback is Some <==> self@.on_connection_state_change_callback is Some,
            callback matches Some(x) ==> *x == self@.on_connection_state_change_callback->0,
    {
        self.on_connection_state_change_callback.as_ref()
    }

    /// The callback for changes of the ICE connection state, if one is registered.
    pub fn ice_connection_state_change_callback(&self) -> (callback: Option<&Cb>)
        ensures
            callback is Some <==> self@.on_ice_connection_state_change_callback is Some,
            callback matches Some(x) ==> *x == self@.on_ice_connection_state_change_callback->0,
    {
        self.on_ice_connection_state_change_callback.as_ref()
    }
}

} // verus!
