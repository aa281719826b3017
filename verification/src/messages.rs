//! What clients say to the relay and what the relay says to them.
//!
//! Each message has a view in which text is a sequence of characters. A list that
//! comes out of a hash table comes in no particular order, so its view is a set;
//! `once_each` adds that nothing stands in such a list twice.

use vstd::prelude::*;

use crate::ids::{ConnId, UserId};

verus! {

/// A JSON document. The relay carries such values and never looks inside.
#[verifier::external_type_specification]
#[verifier::external_body]
pub struct ExJsonValue(serde_json::Value);

/// What a client may ask of the relay.
#[allow(inconsistent_fields)]
#[derive(Debug, PartialEq)]
pub enum ClientMsg {
    /// The first thing a client says. `user_id`, when present, is the permanent
    /// identity that the client keeps for itself: taking it over, in place of the
    /// one drawn at random, is what makes friendships and history mean something
    /// from one connection to the next. It is not authenticated.
    Hello { username: String, user_id: Option<UserId> },
    JoinChannel { channel_id: String },
    LeaveChannel { channel_id: String },
    /// The sender makes up `message_id`, so that everyone who gets the message
    /// calls it by the same name in a later edit, deletion or reaction. A sender
    /// that wants none of these may leave it out.
    Chat { channel_id: String, content: String, message_id: Option<String> },
    /// Authorship of the edited message is not verified, here or below.
    EditMessage { channel_id: String, message_id: String, content: String },
    DeleteMessage { channel_id: String, message_id: String },
    AddReaction { channel_id: String, message_id: String, emoji: String },
    RemoveReaction { channel_id: String, message_id: String, emoji: String },
    /// Passed through to `to` as it is: session descriptions, candidates, friend
    /// requests, avatars.
    Signal { to: UserId, payload: serde_json::Value },
}

/// The characters of a text, where there is one.
pub open spec fn optional_text(text: Option<String>) -> Option<Seq<char>> {
    match text {
        Some(text) => Some(text@),
        None => None,
    }
}

/// The view of a `ClientMsg`.
#[allow(inconsistent_fields)]
pub enum ClientMsgView {
    Hello { username: Seq<char>, user_id: Option<UserId> },
    JoinChannel { channel_id: Seq<char> },
    LeaveChannel { channel_id: Seq<char> },
    Chat { channel_id: Seq<char>, content: Seq<char>, message_id: Option<Seq<char>> },
    EditMessage { channel_id: Seq<char>, message_id: Seq<char>, content: Seq<char> },
    DeleteMessage { channel_id: Seq<char>, message_id: Seq<char> },
    AddReaction { channel_id: Seq<char>, message_id: Seq<char>, emoji: Seq<char> },
    RemoveReaction { channel_id: Seq<char>, message_id: Seq<char>, emoji: Seq<char> },
    Signal { to: UserId, payload: serde_json::Value },
}

impl View for ClientMsg {
    type V = ClientMsgView;

    open spec fn view(&self) -> ClientMsgView {
        match *self {
            ClientMsg::Hello { username, user_id } => ClientMsgView::Hello {
                username: username@,
                user_id,
            },
            ClientMsg::JoinChannel { channel_id } => ClientMsgView::JoinChannel {
                channel_id: channel_id@,
            },
            ClientMsg::LeaveChannel { channel_id } => ClientMsgView::LeaveChannel {
                channel_id: channel_id@,
            },
            ClientMsg::Chat { channel_id, content, message_id } => ClientMsgView::Chat {
                channel_id: channel_id@,
                content: content@,
                message_id: optional_text(message_id),
            },
            ClientMsg::EditMessage { channel_id, message_id, content } => {
                ClientMsgView::EditMessage {
                    channel_id: channel_id@,
                    message_id: message_id@,
                    content: content@,
                }
            },
            ClientMsg::DeleteMessage { channel_id, message_id } => ClientMsgView::DeleteMessage {
                channel_id: channel_id@,
                message_id: message_id@,
            },
            ClientMsg::AddReaction { channel_id, message_id, emoji } => {
                ClientMsgView::AddReaction {
                    channel_id: channel_id@,
                    message_id: message_id@,
                    emoji: emoji@,
                }
            },
            ClientMsg::RemoveReaction { channel_id, message_id, emoji } => {
                ClientMsgView::RemoveReaction {
                    channel_id: channel_id@,
                    message_id: message_id@,
                    emoji: emoji@,
                }
            },
            ClientMsg::Signal { to, payload } => ClientMsgView::Signal { to, payload },
        }
    }
}

/// Someone who is online, as a newcomer is told of them.
#[derive(Debug, PartialEq)]
pub struct PeerInfo {
    pub user_id: UserId,
    pub username: String,
}

/// The view of a `PeerInfo`.
pub struct PeerInfoView {
    pub user_id: UserId,
    pub username: Seq<char>,
}

impl View for PeerInfo {
    type V = PeerInfoView;

    open spec fn view(&self) -> PeerInfoView {
        PeerInfoView { user_id: self.user_id, username: self.username@ }
    }
}

/// What the relay may tell a client.
#[allow(inconsistent_fields)]
#[derive(Debug, PartialEq)]
pub enum ServerMsg {
    Welcome { user_id: UserId, peers: Vec<PeerInfo> },
    PeerJoined { user_id: UserId, username: String },
    PeerLeft { user_id: UserId },
    ChannelJoined { channel_id: String, members: Vec<UserId> },
    Chat {
        message_id: Option<String>,
        from: UserId,
        channel_id: String,
        content: String,
        ts: i64,
    },
    MessageEdited { message_id: String, channel_id: String, content: String },
    MessageDeleted { message_id: String, channel_id: String },
    ReactionAdded { message_id: String, channel_id: String, emoji: String, user_id: UserId },
    ReactionRemoved { message_id: String, channel_id: String, emoji: String, user_id: UserId },
    Signal { from: UserId, payload: serde_json::Value },
    Error { message: String },
}

/// The view of a `ServerMsg`.
#[allow(inconsistent_fields)]
#[verifier::ext_equal]
pub enum ServerMsgView {
    Welcome { user_id: UserId, peers: Set<PeerInfoView> },
    PeerJoined { user_id: UserId, username: Seq<char> },
    PeerLeft { user_id: UserId },
    ChannelJoined { channel_id: Seq<char>, members: Set<UserId> },
    Chat {
        message_id: Option<Seq<char>>,
        from: UserId,
        channel_id: Seq<char>,
        content: Seq<char>,
        ts: i64,
    },
    MessageEdited { message_id: Seq<char>, channel_id: Seq<char>, content: Seq<char> },
    MessageDeleted { message_id: Seq<char>, channel_id: Seq<char> },
    ReactionAdded {
        message_id: Seq<char>,
        channel_id: Seq<char>,
        emoji: Seq<char>,
        user_id: UserId,
    },
    ReactionRemoved {
        message_id: Seq<char>,
        channel_id: Seq<char>,
        emoji: Seq<char>,
        user_id: UserId,
    },
    Signal { from: UserId, payload: serde_json::Value },
    Error { message: Seq<char> },
}

impl View for ServerMsg {
    type V = ServerMsgView;

    open spec fn view(&self) -> ServerMsgView {
        match *self {
            ServerMsg::Welcome { user_id, peers } => ServerMsgView::Welcome {
                user_id,
                peers: peers@.map_values(|p: PeerInfo| p@).to_set(),
            },
            ServerMsg::PeerJoined { user_id, username } => ServerMsgView::PeerJoined {
                user_id,
                username: username@,
            },
            ServerMsg::PeerLeft { user_id } => ServerMsgView::PeerLeft { user_id },
            ServerMsg::ChannelJoined { channel_id, members } => ServerMsgView::ChannelJoined {
                channel_id: channel_id@,
                members: members@.to_set(),
            },
            ServerMsg::Chat { message_id, from, channel_id, content, ts } => ServerMsgView::Chat {
                message_id: optional_text(message_id),
                from,
                channel_id: channel_id@,
                content: content@,
                ts,
            },
            ServerMsg::MessageEdited { message_id, channel_id, content } => {
                ServerMsgView::MessageEdited {
                    message_id: message_id@,
                    channel_id: channel_id@,
                    content: content@,
                }
            },
            ServerMsg::MessageDeleted { message_id, channel_id } => {
                ServerMsgView::MessageDeleted {
                    message_id: message_id@,
                    channel_id: channel_id@,
                }
            },
            ServerMsg::ReactionAdded { message_id, channel_id, emoji, user_id } => {
                ServerMsgView::ReactionAdded {
                    message_id: message_id@,
                    channel_id: channel_id@,
                    emoji: emoji@,
                    user_id,
                }
            },
            ServerMsg::ReactionRemoved { message_id, channel_id, emoji, user_id } => {
                ServerMsgView::ReactionRemoved {
                    message_id: message_id@,
                    channel_id: channel_id@,
                    emoji: emoji@,
                    user_id,
                }
            },
            ServerMsg::Signal { from, payload } => ServerMsgView::Signal { from, payload },
            ServerMsg::Error { message } => ServerMsgView::Error { message: message@ },
        }
    }
}

impl ServerMsg {
    /// Nobody is listed twice.
    pub open spec fn once_each(self) -> bool {
        match self {
            ServerMsg::Welcome { peers, .. } => {
                forall|i: int, j: int|
                    0 <= i < j < peers@.len() ==> #[trigger] peers@[i].user_id
                        != #[trigger] peers@[j].user_id
            },
            ServerMsg::ChannelJoined { members, .. } => members@.no_duplicates(),
            _ => true,
        }
    }
}

/// Someone that a message goes to, and the connection on which it goes there.
#[derive(Debug, Clone, Copy, PartialEq)]
pub struct Recipient {
    pub user_id: UserId,
    pub conn: ConnId,
}

/// One message, to be put in the queue of each recipient's connection once.
#[derive(Debug, PartialEq)]
pub struct Outgoing {
    pub to: Vec<Recipient>,
    pub msg: ServerMsg,
}

/// The view of an `Outgoing`.
#[verifier::ext_equal]
pub struct OutgoingView {
    pub to: Set<Recipient>,
    pub msg: ServerMsgView,
}

impl View for Outgoing {
    type V = OutgoingView;

    open spec fn view(&self) -> OutgoingView {
        OutgoingView { to: self.to@.to_set(), msg: self.msg@ }
    }
}

impl Outgoing {
    /// No user gets the message twice, and nobody is listed twice in it.
    pub open spec fn once_each(self) -> bool {
        distinct_users(self.to@) && self.msg.once_each()
    }
}

/// No two of the recipients are the same user.
pub open spec fn distinct_users(to: Seq<Recipient>) -> bool {
    forall|i: int, j: int|
        0 <= i < j < to.len() ==> #[trigger] to[i].user_id != #[trigger] to[j].user_id
}

/// `out` is what `expected` says, message by message and in the same order, each
/// message once to each recipient.
pub open spec fn delivers(out: Seq<Outgoing>, expected: Seq<OutgoingView>) -> bool {
    &&& out.len() == expected.len()
    &&& forall|i: int| 0 <= i < out.len() ==> (#[trigger] out[i])@ == expected[i]
    &&& forall|i: int| 0 <= i < out.len() ==> (#[trigger] out[i]).once_each()
}

} // verus!
