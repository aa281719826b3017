//! The relay as a state machine: what it knows, how each message changes that,
//! and what each message is answered with.

use vstd::prelude::*;

use crate::ids::{ConnId, UserId};
use crate::messages::{ClientMsgView, OutgoingView, PeerInfoView, Recipient, ServerMsgView};

verus! {

/// Someone who is online: the name they go by and the connection they are on.
pub struct PeerView {
    pub username: Seq<char>,
    pub conn: ConnId,
}

/// One connection, from its opening to its close. Before the first hello the
/// identity is one drawn at random, which nobody has been told of. A client may
/// say hello again, under another identity: then `former` has the one before.
pub struct SessionView {
    pub conn: ConnId,
    pub user_id: UserId,
    pub username: Seq<char>,
    pub registered: bool,
    pub former: Seq<UserId>,
}

impl SessionView {
    /// Whoever has not said hello has no former identity.
    pub open spec fn valid(self) -> bool {
        !self.registered ==> self.former.len() == 0
    }

    /// The client has said hello under this identity.
    pub open spec fn speaks_for(self, id: UserId) -> bool {
        self.registered && (id == self.user_id || self.former.contains(id))
    }

    /// The former identities after a hello under `id`.
    pub open spec fn former_after(self, id: UserId) -> Seq<UserId> {
        if self.registered && id != self.user_id && !self.former.contains(self.user_id) {
            self.former.push(self.user_id)
        } else {
            self.former
        }
    }

    /// The session after `msg`: only a hello changes it.
    pub open spec fn after(self, msg: ClientMsgView) -> SessionView {
        match msg {
            ClientMsgView::Hello { username, user_id } => {
                let id = match user_id {
                    Some(id) => id,
                    None => self.user_id,
                };
                SessionView {
                    conn: self.conn,
                    user_id: id,
                    username,
                    registered: true,
                    former: self.former_after(id),
                }
            },
            _ => self,
        }
    }

    /// The session after `frame`.
    pub open spec fn after_frame(self, frame: FrameView) -> SessionView {
        match frame {
            FrameView::Message(msg) => self.after(msg),
            _ => self,
        }
    }

    /// A connection that has just been opened, with the identity drawn for it. The
    /// name it goes by is made of the first eight digits of that identity.
    pub open spec fn opened(conn: ConnId, id: UserId) -> SessionView {
        SessionView {
            conn,
            user_id: id,
            username: "user-"@ + crate::ids::hyphenated(id).take(8),
            registered: false,
            former: Seq::empty(),
        }
    }

    /// The client at the other end of this connection.
    pub open spec fn itself(self) -> Set<Recipient> {
        set![Recipient { user_id: self.user_id, conn: self.conn }]
    }

    /// `msg` sent back to this client alone.
    pub open spec fn told(self, msg: ServerMsgView) -> Seq<OutgoingView> {
        seq![OutgoingView { to: self.itself(), msg }]
    }

    /// An error report to this client.
    pub open spec fn refused(self, text: Seq<char>) -> Seq<OutgoingView> {
        self.told(ServerMsgView::Error { message: text })
    }
}

/// The view of what arrives on a connection.
pub enum FrameView {
    Message(ClientMsgView),
    Malformed,
    NotText,
    Close,
    Lost,
}

impl FrameView {
    /// The connection is over with this.
    pub open spec fn ends(self) -> bool {
        self is Close || self is Lost
    }
}

/// Everything the relay knows: who is online, who is in each channel, and for each
/// user who is online the channels that they have joined since they said hello.
#[verifier::ext_equal]
pub struct StateView {
    pub peers: Map<UserId, PeerView>,
    pub channels: Map<Seq<char>, Set<UserId>>,
    pub peer_channels: Map<UserId, Set<Seq<char>>>,
}

impl StateView {
    /// Nobody is online and there is no channel.
    pub open spec fn empty() -> StateView {
        StateView { peers: Map::empty(), channels: Map::empty(), peer_channels: Map::empty() }
    }

    pub open spec fn online(self, id: UserId) -> bool {
        self.peers.contains_key(id)
    }

    /// The user is in the channel.
    pub open spec fn member(self, channel: Seq<char>, id: UserId) -> bool {
        self.channels.contains_key(channel) && self.channels[channel].contains(id)
    }

    /// The channel is on the user's list.
    pub open spec fn recorded(self, id: UserId, channel: Seq<char>) -> bool {
        self.peer_channels.contains_key(id) && self.peer_channels[id].contains(channel)
    }

    /// What every step keeps: exactly those who are online have a list of channels,
    /// and a user is in every channel on their list.
    pub open spec fn consistent(self) -> bool {
        &&& self.peers.dom() == self.peer_channels.dom()
        &&& forall|id: UserId, channel: Seq<char>| #[trigger]
            self.recorded(id, channel) ==> self.member(channel, id)
    }

    /// The user is online, on that connection.
    pub open spec fn reaches(self, r: Recipient) -> bool {
        self.online(r.user_id) && self.peers[r.user_id].conn == r.conn
    }

    /// Everyone online but the one excluded, if any.
    pub open spec fn everyone_but(self, exclude: Option<UserId>) -> Set<Recipient> {
        Set::new(|r: Recipient| self.reaches(r) && exclude != Some(r.user_id))
    }

    /// Everyone in the channel who is online.
    pub open spec fn audience(self, channel: Seq<char>) -> Set<Recipient> {
        Set::new(|r: Recipient| self.reaches(r) && self.member(channel, r.user_id))
    }

    /// Everyone online, by identity and name.
    pub open spec fn presence(self) -> Set<PeerInfoView> {
        Set::new(
            |p: PeerInfoView| self.online(p.user_id) && self.peers[p.user_id].username == p.username,
        )
    }

    /// The members of the channel after `id` has joined it.
    pub open spec fn members_with(self, channel: Seq<char>, id: UserId) -> Set<UserId> {
        if self.channels.contains_key(channel) {
            self.channels[channel].insert(id)
        } else {
            Set::empty().insert(id)
        }
    }

    /// The user goes online, with an empty list of channels, in place of whoever
    /// held that identity before.
    pub open spec fn hello(self, id: UserId, peer: PeerView) -> StateView {
        StateView {
            peers: self.peers.insert(id, peer),
            channels: self.channels,
            peer_channels: self.peer_channels.insert(id, Set::empty()),
        }
    }

    /// The user joins the channel, which is made if there is none of that name.
    pub open spec fn join(self, id: UserId, channel: Seq<char>) -> StateView {
        StateView {
            peers: self.peers,
            channels: self.channels.insert(channel, self.members_with(channel, id)),
            peer_channels: if self.peer_channels.contains_key(id) {
                self.peer_channels.insert(id, self.peer_channels[id].insert(channel))
            } else {
                self.peer_channels
            },
        }
    }

    /// The user leaves the channel, which stays even where nobody is left in it.
    pub open spec fn leave(self, id: UserId, channel: Seq<char>) -> StateView {
        StateView {
            peers: self.peers,
            channels: if self.channels.contains_key(channel) {
                self.channels.insert(channel, self.channels[channel].remove(id))
            } else {
                self.channels
            },
            peer_channels: if self.peer_channels.contains_key(id) {
                self.peer_channels.insert(id, self.peer_channels[id].remove(channel))
            } else {
                self.peer_channels
            },
        }
    }

    /// The user goes offline, has no list any more and is out of every channel.
    pub open spec fn disconnect(self, id: UserId) -> StateView {
        StateView {
            peers: self.peers.remove(id),
            channels: self.channels.map_values(|members: Set<UserId>| members.remove(id)),
            peer_channels: self.peer_channels.remove(id),
        }
    }

    /// The same for all of these users.
    pub open spec fn without(self, ids: Set<UserId>) -> StateView {
        StateView {
            peers: self.peers.remove_keys(ids),
            channels: self.channels.map_values(|members: Set<UserId>| members.difference(ids)),
            peer_channels: self.peer_channels.remove_keys(ids),
        }
    }

    /// Who goes when the connection of `session` ends: the identity it has, and each
    /// that it had before, unless that one is online on another connection by now.
    pub open spec fn departing(self, session: SessionView) -> Set<UserId> {
        Set::new(
            |id: UserId|
                id == session.user_id || (session.former.contains(id) && !(self.online(id)
                    && self.peers[id].conn != session.conn)),
        )
    }

    /// The state when the connection of `session` has ended: nothing is left of
    /// whoever goes with it.
    pub open spec fn close(self, session: SessionView) -> StateView {
        self.without(self.departing(session))
    }

    /// The state after `msg` on `session`. Before hello only hello counts.
    pub open spec fn after(self, session: SessionView, msg: ClientMsgView) -> StateView {
        match msg {
            ClientMsgView::Hello { username, .. } => {
                self.hello(
                    session.after(msg).user_id,
                    PeerView { username, conn: session.conn },
                )
            },
            ClientMsgView::JoinChannel { channel_id } if session.registered => {
                self.join(session.user_id, channel_id)
            },
            ClientMsgView::LeaveChannel { channel_id } if session.registered => {
                self.leave(session.user_id, channel_id)
            },
            _ => self,
        }
    }

    /// `msg` to everyone in the channel who is online; nothing where there is no
    /// such channel.
    pub open spec fn posted(self, channel: Seq<char>, msg: ServerMsgView) -> Seq<OutgoingView> {
        if self.channels.contains_key(channel) {
            seq![OutgoingView { to: self.audience(channel), msg }]
        } else {
            Seq::empty()
        }
    }

    /// What goes out in answer to `msg` on `session`, `ts` being the time in
    /// milliseconds since 1970.
    pub open spec fn replies(
        self,
        session: SessionView,
        msg: ClientMsgView,
        ts: i64,
    ) -> Seq<OutgoingView> {
        if !(msg is Hello) && !session.registered {
            session.refused("send hello before anything else"@)
        } else {
            match msg {
                ClientMsgView::Hello { username, .. } => {
                    let user_id = session.after(msg).user_id;
                    session.after(msg).told(
                        ServerMsgView::Welcome { user_id, peers: self.presence() },
                    ).push(
                        OutgoingView {
                            to: self.after(session, msg).everyone_but(Some(user_id)),
                            msg: ServerMsgView::PeerJoined { user_id, username },
                        },
                    )
                },
                ClientMsgView::JoinChannel { channel_id } => {
                    session.told(
                        ServerMsgView::ChannelJoined {
                            channel_id,
                            members: self.members_with(channel_id, session.user_id),
                        },
                    )
                },
                ClientMsgView::LeaveChannel { .. } => Seq::empty(),
                ClientMsgView::Chat { channel_id, content, message_id } => {
                    if self.channels.contains_key(channel_id) {
                        self.posted(
                            channel_id,
                            ServerMsgView::Chat {
                                message_id,
                                from: session.user_id,
                                channel_id,
                                content,
                                ts,
                            },
                        )
                    } else {
                        session.refused("not a member of that channel"@)
                    }
                },
                ClientMsgView::EditMessage { channel_id, message_id, content } => {
                    self.posted(
                        channel_id,
                        ServerMsgView::MessageEdited { message_id, channel_id, content },
                    )
                },
                ClientMsgView::DeleteMessage { channel_id, message_id } => {
                    self.posted(
                        channel_id,
                        ServerMsgView::MessageDeleted { message_id, channel_id },
                    )
                },
                ClientMsgView::AddReaction { channel_id, message_id, emoji } => {
                    self.posted(
                        channel_id,
                        ServerMsgView::ReactionAdded {
                            message_id,
                            channel_id,
                            emoji,
                            user_id: session.user_id,
                        },
                    )
                },
                ClientMsgView::RemoveReaction { channel_id, message_id, emoji } => {
                    self.posted(
                        channel_id,
                        ServerMsgView::ReactionRemoved {
                            message_id,
                            channel_id,
                            emoji,
                            user_id: session.user_id,
                        },
                    )
                },
                ClientMsgView::Signal { to, payload } => {
                    if self.online(to) {
                        seq![
                            OutgoingView {
                                to: set![Recipient { user_id: to, conn: self.peers[to].conn }],
                                msg: ServerMsgView::Signal { from: session.user_id, payload },
                            },
                        ]
                    } else {
                        session.refused("target peer not connected"@)
                    }
                },
            }
        }
    }

    /// The former identities that go offline when the connection of `session` ends.
    pub open spec fn also_leaving(self, session: SessionView) -> Seq<UserId> {
        session.former.filter(
            |id: UserId|
                id != session.user_id && self.reaches(
                    Recipient { user_id: id, conn: session.conn },
                ),
        )
    }

    /// That `id` has left, to everyone who is online.
    pub open spec fn departure(self, id: UserId) -> OutgoingView {
        OutgoingView {
            to: self.everyone_but(None),
            msg: ServerMsgView::PeerLeft { user_id: id },
        }
    }

    /// What goes out when the connection of `session` ends: everyone left is told
    /// who has gone, first the identity that the session had last.
    pub open spec fn farewell(self, session: SessionView) -> Seq<OutgoingView> {
        if session.registered {
            (seq![session.user_id] + self.also_leaving(session)).map_values(
                |id: UserId| self.close(session).departure(id),
            )
        } else {
            Seq::empty()
        }
    }

    /// The state after `frame` on `session`.
    pub open spec fn after_frame(self, session: SessionView, frame: FrameView) -> StateView {
        match frame {
            FrameView::Message(msg) => self.after(session, msg),
            FrameView::Malformed | FrameView::NotText => self,
            FrameView::Close | FrameView::Lost => self.close(session),
        }
    }

    /// What goes out when `frame` arrives on `session`.
    pub open spec fn frame_replies(
        self,
        session: SessionView,
        frame: FrameView,
        ts: i64,
    ) -> Seq<OutgoingView> {
        match frame {
            FrameView::Message(msg) => self.replies(session, msg, ts),
            FrameView::Malformed => session.refused("could not parse message"@),
            FrameView::NotText => Seq::empty(),
            FrameView::Close | FrameView::Lost => self.farewell(session),
        }
    }
}

} // verus!
