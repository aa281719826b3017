//! The relay at work: one call for each thing that happens on a connection.

use vstd::prelude::*;
use vstd::string::*;

use crate::collections::{
    channels_add, channels_contains, channels_drop, channels_members, channels_names, channels_new,
    lists_add, lists_contains, lists_drop, lists_new, lists_remove, lists_reset, peers_get,
    peers_insert, peers_iter, peers_new, peers_remove, Peer,
};
use crate::ids::{id_text, random_id, ConnId, UserId};
use crate::messages::{ClientMsg, Outgoing, PeerInfo, Recipient, ServerMsg};
use crate::model::{FrameView, SessionView, StateView};
use dashmap::{DashMap, DashSet};

verus! {

/// One connection, from its opening to its close, with the identity it has and those
/// it had before.
#[derive(Debug)]
pub struct Session {
    pub conn: ConnId,
    pub user_id: UserId,
    pub username: String,
    pub registered: bool,
    pub former: Vec<UserId>,
}

impl View for Session {
    type V = SessionView;

    open spec fn view(&self) -> SessionView {
        SessionView {
            conn: self.conn,
            user_id: self.user_id,
            username: self.username@,
            registered: self.registered,
            former: self.former@,
        }
    }
}

/// What arrives on a connection.
#[derive(Debug, PartialEq)]
pub enum Frame {
    /// Text that reads as a message.
    Message(ClientMsg),
    /// Text that does not.
    Malformed,
    /// Neither text nor the close of the connection.
    NotText,
    /// The client closes the connection.
    Close,
    /// The connection failed, or there is nothing more on it.
    Lost,
}

impl View for Frame {
    type V = FrameView;

    open spec fn view(&self) -> FrameView {
        match *self {
            Frame::Message(msg) => FrameView::Message(msg@),
            Frame::Malformed => FrameView::Malformed,
            Frame::NotText => FrameView::NotText,
            Frame::Close => FrameView::Close,
            Frame::Lost => FrameView::Lost,
        }
    }
}

/// What to do after a frame: the messages to send, in this order, and whether to
/// go on reading from the connection.
#[derive(Debug, PartialEq)]
pub struct Turn {
    pub out: Vec<Outgoing>,
    pub open: bool,
}

/// `chrono::Utc::now` and `DateTime::timestamp_millis`: the milliseconds since the
/// start of 1970. The call panics where the clock of the machine is set before that.
#[verifier::external_body]
fn now_millis() -> (now: i64)
    ensures
        now >= 0,
{
    chrono::Utc::now().timestamp_millis()
}

/// The clock of the machine can give this reading: it is what a call of
/// `now_millis` came back with. Nothing but such a call shows it of any number.
pub closed spec fn clock_read(now: i64) -> bool {
    call_ensures(now_millis, (), now)
}

/// The identity is one that was drawn at random: it is what a call of `random_id`
/// came back with. Nothing but such a call shows it of any identity.
pub closed spec fn drawn(id: UserId) -> bool {
    call_ensures(random_id, (), id)
}

/// A reading of the clock, and an identity drawn at random, come from the calls that
/// read the clock and draw identities, and from nowhere else.
proof fn law_readings_and_draws_come_from_their_calls(now: i64, id: UserId)
    ensures
        clock_read(now) ==> call_ensures(now_millis, (), now) && now >= 0,
        drawn(id) ==> call_ensures(random_id, (), id),
{
}

/// Everything the relay knows. It is all in memory: a new process starts from
/// nothing.
pub struct AppState {
    peers: DashMap<UserId, Peer>,
    channels: DashMap<String, DashSet<UserId>>,
    peer_channels: DashMap<UserId, DashSet<String>>,
}

impl View for AppState {
    type V = StateView;

    closed spec fn view(&self) -> StateView {
        StateView {
            peers: crate::collections::peers_held(self.peers),
            channels: crate::collections::channels_held(self.channels),
            peer_channels: crate::collections::lists_held(self.peer_channels),
        }
    }
}

impl AppState {
    /// What the relay knows is what its three tables hold.
    proof fn law_the_state_is_what_the_tables_hold(self)
        ensures
            self@.peers == crate::collections::peers_held(self.peers),
            self@.channels == crate::collections::channels_held(self.channels),
            self@.peer_channels == crate::collections::lists_held(self.peer_channels),
    {
    }

    /// A relay that knows of nobody.
    pub fn new() -> (state: AppState)
        ensures
            state@ == StateView::empty(),
            state@.peers.dom() == Set::<UserId>::empty(),
            state@.channels.dom() == Set::<Seq<char>>::empty(),
            state@.peer_channels.dom() == Set::<UserId>::empty(),
            state@.consistent(),
    {
        let state = AppState {
            peers: peers_new(),
            channels: channels_new(),
            peer_channels: lists_new(),
        };
        assert(state@.peers.dom() =~= state@.peer_channels.dom());
        assert(state@.channels.dom() =~= Set::<Seq<char>>::empty());
        state
    }

    /// Everyone online, by identity and name.
    fn presence(&self) -> (infos: Vec<PeerInfo>)
        ensures
            infos@.map_values(|p: PeerInfo| p@).to_set() == self@.presence(),
            forall|i: int, j: int|
                0 <= i < j < infos@.len() ==> #[trigger] infos@[i].user_id
                    != #[trigger] infos@[j].user_id,
    {
        let list = peers_iter(&self.peers);
        let mut infos: Vec<PeerInfo> = Vec::new();
        for i in 0..list.len()
            invariant
                crate::collections::lists_peers(list@, self@.peers),
                infos@.len() == i,
                forall|k: int|
                    0 <= k < i ==> (#[trigger] infos@[k]).user_id == list@[k].0
                        && infos@[k].username@ == list@[k].1@.username,
        {
            infos.push(PeerInfo { user_id: list[i].0, username: list[i].1.username.clone() });
        }
        proof {
            let views = infos@.map_values(|p: PeerInfo| p@);
            assert forall|p| #[trigger] self@.presence().contains(p) implies views.to_set().contains(
                p,
            ) by {
                assert(self@.peers.contains_key(p.user_id));
                let k = choose|k: int| 0 <= k < list@.len() && (#[trigger] list@[k]).0 == p.user_id;
                assert(infos@[k].user_id == p.user_id);
                assert(views[k] == p);
            }
            assert(views.to_set() =~= self@.presence());
            assert forall|i: int, j: int| 0 <= i < j < infos@.len() implies #[trigger] infos@[i].user_id
                != #[trigger] infos@[j].user_id by {
                assert(list@[i].0 != list@[j].0);
            }
        }
        infos
    }

    /// `msg` to everyone online but the one excluded, if any.
    pub fn broadcast_all(&self, msg: ServerMsg, exclude: Option<UserId>) -> (out: Outgoing)
        ensures
            out.to@.to_set() == self@.everyone_but(exclude),
            forall|r: Recipient| #[trigger]
                out.to@.contains(r) <==> self@.peers.contains_key(r.user_id)
                    && self@.peers[r.user_id].conn == r.conn && exclude != Some(r.user_id),
            crate::messages::distinct_users(out.to@),
            forall|i: int, j: int|
                0 <= i < j < out.to@.len() ==> #[trigger] out.to@[i].user_id
                    != #[trigger] out.to@[j].user_id,
            out.msg == msg,
    {
        let list = peers_iter(&self.peers);
        let mut to: Vec<Recipient> = Vec::new();
        let ghost mut from: Seq<int> = Seq::empty();
        for i in 0..list.len()
            invariant
                crate::collections::lists_peers(list@, self@.peers),
                from.len() == to@.len(),
                forall|k: int| #![trigger to@[k]] #![trigger from[k]]
                    0 <= k < to@.len() ==> {
                        &&& 0 <= from[k] < i
                        &&& to@[k].user_id == list@[from[k]].0
                        &&& to@[k].conn == list@[from[k]].1.conn
                        &&& exclude != Some(to@[k].user_id)
                    },
                forall|a: int, b: int| 0 <= a < b < from.len() ==> from[a] < from[b],
                forall|n: int|
                    0 <= n < i && exclude != Some((#[trigger] list@[n]).0) ==> from.contains(n),
        {
            let excluded = match exclude {
                Some(id) => id == list[i].0,
                None => false,
            };
            if !excluded {
                to.push(Recipient { user_id: list[i].0, conn: list[i].1.conn });
                proof {
                    let before = from;
                    from = from.push(i as int);
                    assert(from[before.len() as int] == i);
                    assert forall|n: int| before.contains(n) implies from.contains(n) by {
                        assert(from[before.index_of(n)] == n);
                    }
                }
            }
        }
        proof {
            assert forall|r| #[trigger] self@.everyone_but(exclude).contains(r) implies to@.contains(
                r,
            ) by {
                assert(self@.peers.contains_key(r.user_id));
                let n = choose|n: int| 0 <= n < list@.len() && (#[trigger] list@[n]).0 == r.user_id;
                let k = from.index_of(n);
                assert(from[k] == n);
                assert(to@[k] == r);
            }
            assert(to@.to_set() =~= self@.everyone_but(exclude));
            assert forall|a: int, b: int| 0 <= a < b < to@.len() implies #[trigger] to@[a].user_id
                != #[trigger] to@[b].user_id by {
                assert(from[a] < from[b]);
                assert(list@[from[a]].0 != list@[from[b]].0);
            }
        }
        Outgoing { to, msg }
    }

    /// Everyone in the channel who is online, or `None` where there is no such
    /// channel.
    fn audience(&self, channel_id: &str) -> (to: Option<Vec<Recipient>>)
        ensures
            to is Some <==> self@.channels.contains_key(channel_id@),
            to is Some ==> to->0@.to_set() == self@.audience(channel_id@),
            to is Some ==> crate::messages::distinct_users(to->0@),
    {
        let members = match channels_members(&self.channels, channel_id) {
            Some(members) => members,
            None => {
                return None;
            },
        };
        let mut to: Vec<Recipient> = Vec::new();
        let ghost mut from: Seq<int> = Seq::empty();
        for i in 0..members.len()
            invariant
                from.len() == to@.len(),
                forall|k: int| #![trigger to@[k]] #![trigger from[k]]
                    0 <= k < to@.len() ==> {
                        &&& 0 <= from[k] < i
                        &&& to@[k].user_id == members@[from[k]]
                        &&& self@.reaches(to@[k])
                    },
                forall|a: int, b: int| 0 <= a < b < from.len() ==> from[a] < from[b],
                forall|n: int|
                    0 <= n < i && self@.online(#[trigger] members@[n]) ==> from.contains(n),
        {
            if let Some(conn) = peers_get(&self.peers, members[i]) {
                to.push(Recipient { user_id: members[i], conn });
                proof {
                    let before = from;
                    from = from.push(i as int);
                    assert(from[before.len() as int] == i);
                    assert forall|n: int| before.contains(n) implies from.contains(n) by {
                        assert(from[before.index_of(n)] == n);
                    }
                }
            }
        }
        proof {
            let expected = self@.audience(channel_id@);
            assert forall|r| #[trigger] expected.contains(r) implies to@.contains(r) by {
                assert(members@.to_set().contains(r.user_id));
                let n = members@.index_of(r.user_id);
                let k = from.index_of(n);
                assert(from[k] == n);
                assert(to@[k] == r);
            }
            assert forall|r| #[trigger] to@.contains(r) implies expected.contains(r) by {
                let k = to@.index_of(r);
                assert(members@.to_set().contains(members@[from[k]]));
            }
            assert(to@.to_set() =~= expected);
            assert forall|a: int, b: int| 0 <= a < b < to@.len() implies #[trigger] to@[a].user_id
                != #[trigger] to@[b].user_id by {
                assert(from[a] < from[b]);
            }
        }
        Some(to)
    }

    /// The client says who they are: they go online under the identity they claim,
    /// or else the one of the session, are told who was online before, and everyone
    /// else is told of them.
    fn hello(
        &mut self,
        session: &mut Session,
        username: String,
        persistent_id: Option<UserId>,
    ) -> (out: Vec<Outgoing>)
        ensures
            ({
                let msg = crate::messages::ClientMsgView::Hello {
                    username: username@,
                    user_id: persistent_id,
                };
                &&& final(self)@ == old(self)@.after(old(session)@, msg)
                &&& final(session)@ == old(session)@.after(msg)
                &&& forall|ts: i64|
                    crate::messages::delivers(
                        out@,
                        #[trigger] old(self)@.replies(old(session)@, msg, ts),
                    )
            }),
    {
        session.username = username.clone();
        if let Some(id) = persistent_id {
            session.rename(id);
        }
        let user_id = session.user_id;
        let peers = self.presence();
        peers_insert(
            &mut self.peers,
            user_id,
            Peer { username: username.clone(), conn: session.conn },
        );
        lists_reset(&mut self.peer_channels, user_id);
        session.registered = true;

        let welcome = session.tell(ServerMsg::Welcome { user_id, peers });
        let joined = self.broadcast_all(
            ServerMsg::PeerJoined { user_id, username },
            Some(user_id),
        );
        vec![welcome, joined]
    }

    /// What the client asks for in one message, on a session that has said hello or
    /// not, at `now` milliseconds since 1970.
    pub fn handle_message(&mut self, session: &mut Session, msg: ClientMsg, now: i64) -> (out: Vec<
        Outgoing,
    >)
        ensures
            final(self)@ == old(self)@.after(old(session)@, msg@),
            final(session)@ == old(session)@.after(msg@),
            crate::messages::delivers(out@, old(self)@.replies(old(session)@, msg@, now)),
            old(self)@.consistent() ==> final(self)@.consistent(),
    {
        proof {
            if self@.consistent() {
                crate::laws::law_messages_keep_consistency(self@, session@, msg@);
            }
        }
        match msg {
            ClientMsg::Hello { username, user_id } => {
                let out = self.hello(session, username, user_id);
                assert(crate::messages::delivers(
                    out@,
                    old(self)@.replies(old(session)@, msg@, now),
                ));
                out
            },
            _ if !session.registered => vec![session.send_err("send hello before anything else")],
            ClientMsg::JoinChannel { channel_id } => self.join_channel(session, channel_id),
            ClientMsg::LeaveChannel { channel_id } => {
                self.leave_channel(session, channel_id);
                Vec::new()
            },
            ClientMsg::Chat { channel_id, content, message_id } => {
                match self.audience(&channel_id) {
                    Some(to) => {
                        let from = session.user_id;
                        let msg = ServerMsg::Chat {
                            message_id,
                            from,
                            channel_id,
                            content,
                            ts: now,
                        };
                        vec![Outgoing { to, msg }]
                    },
                    None => vec![session.send_err("not a member of that channel")],
                }
            },
            ClientMsg::EditMessage { channel_id, message_id, content } => {
                match self.audience(&channel_id) {
                    Some(to) => {
                        let msg = ServerMsg::MessageEdited { message_id, channel_id, content };
                        vec![Outgoing { to, msg }]
                    },
                    None => Vec::new(),
                }
            },
            ClientMsg::DeleteMessage { channel_id, message_id } => {
                match self.audience(&channel_id) {
                    Some(to) => {
                        let msg = ServerMsg::MessageDeleted { message_id, channel_id };
                        vec![Outgoing { to, msg }]
                    },
                    None => Vec::new(),
                }
            },
            ClientMsg::AddReaction { channel_id, message_id, emoji } => {
                match self.audience(&channel_id) {
                    Some(to) => {
                        let user_id = session.user_id;
                        let msg = ServerMsg::ReactionAdded {
                            message_id,
                            channel_id,
                            emoji,
                            user_id,
                        };
                        vec![Outgoing { to, msg }]
                    },
                    None => Vec::new(),
                }
            },
            ClientMsg::RemoveReaction { channel_id, message_id, emoji } => {
                match self.audience(&channel_id) {
                    Some(to) => {
                        let user_id = session.user_id;
                        let msg = ServerMsg::ReactionRemoved {
                            message_id,
                            channel_id,
                            emoji,
                            user_id,
                        };
                        vec![Outgoing { to, msg }]
                    },
                    None => Vec::new(),
                }
            },
            ClientMsg::Signal { to, payload } => self.signal(session, to, payload),
        }
    }

    /// The user of the session joins the channel and is told who is in it.
    fn join_channel(&mut self, session: &Session, channel_id: String) -> (out: Vec<Outgoing>)
        ensures
            final(self)@ == old(self)@.join(session.user_id, channel_id@),
            crate::messages::delivers(
                out@,
                session@.told(
                    crate::messages::ServerMsgView::ChannelJoined {
                        channel_id: channel_id@,
                        members: old(self)@.members_with(channel_id@, session.user_id),
                    },
                ),
            ),
    {
        let user_id = session.user_id;
        channels_add(&mut self.channels, channel_id.clone(), user_id);
        if lists_contains(&self.peer_channels, user_id) {
            lists_add(&mut self.peer_channels, user_id, channel_id.clone());
        }
        match channels_members(&self.channels, &channel_id) {
            Some(members) => vec![session.tell(ServerMsg::ChannelJoined { channel_id, members })],
            None => Vec::new(),
        }
    }

    /// The user of the session leaves the channel.
    fn leave_channel(&mut self, session: &Session, channel_id: String)
        ensures
            final(self)@ == old(self)@.leave(session.user_id, channel_id@),
    {
        let user_id = session.user_id;
        if channels_contains(&self.channels, &channel_id) {
            channels_drop(&mut self.channels, &channel_id, user_id);
        }
        if lists_contains(&self.peer_channels, user_id) {
            lists_drop(&mut self.peer_channels, user_id, &channel_id);
        }
    }

    /// `payload` to the user named, as it is.
    fn signal(&self, session: &Session, to: UserId, payload: serde_json::Value) -> (out: Vec<
        Outgoing,
    >)
        requires
            session.registered,
        ensures
            forall|ts: i64|
                crate::messages::delivers(
                    out@,
                    #[trigger] self@.replies(
                        session@,
                        crate::messages::ClientMsgView::Signal { to, payload },
                        ts,
                    ),
                ),
    {
        match peers_get(&self.peers, to) {
            Some(conn) => {
                let recipients = vec![Recipient { user_id: to, conn }];
                assert(recipients@.to_set() =~= set![Recipient { user_id: to, conn }]) by {
                    assert(recipients@[0] == Recipient { user_id: to, conn });
                }
                let from = session.user_id;
                vec![Outgoing { to: recipients, msg: ServerMsg::Signal { from, payload } }]
            },
            None => vec![session.send_err("target peer not connected")],
        }
    }

    /// The user goes offline and out of every channel.
    fn sign_off(&mut self, id: UserId)
        ensures
            final(self)@ == old(self)@.disconnect(id),
    {
        peers_remove(&mut self.peers, id);
        lists_remove(&mut self.peer_channels, id);
        let list = channels_names(&self.channels);
        let ghost names = list@.map_values(|name: String| name@);
        let ghost before = self@.channels;
        for i in 0..list.len()
            invariant
                names == list@.map_values(|name: String| name@),
                names.to_set() == before.dom(),
                self@.peers == old(self)@.peers.remove(id),
                self@.peer_channels == old(self)@.peer_channels.remove(id),
                self@.channels.dom() == before.dom(),
                forall|c: Seq<char>| #[trigger]
                    before.contains_key(c) ==> self@.channels[c] == (if names.take(
                        i as int,
                    ).contains(c) {
                        before[c].remove(id)
                    } else {
                        before[c]
                    }),
        {
            proof {
                assert(names.to_set().contains(names[i as int]));
                let done = names.take(i as int);
                let done_next = names.take(i + 1);
                assert(done_next =~= done.push(names[i as int]));
                assert forall|c: Seq<char>| done_next.contains(c) <==> done.contains(c) || c
                    == names[i as int] by {
                    if done.contains(c) {
                        assert(done_next[done.index_of(c)] == c);
                    }
                    assert(done_next[i as int] == names[i as int]);
                }
            }
            channels_drop(&mut self.channels, &list[i], id);
        }
        proof {
            assert(names.take(list@.len() as int) =~= names);
            assert forall|c: Seq<char>| before.contains_key(c) implies names.contains(c) by {
                assert(names.to_set().contains(c));
            }
            assert(self@.channels =~= old(self)@.disconnect(id).channels);
        }
    }

    /// The connection of the session has ended: the identity it has goes offline and
    /// out of every channel, and so does each that it had before, unless that one is
    /// online on another connection by now. Everyone left is told who has gone.
    pub fn disconnect(&mut self, session: &Session) -> (out: Vec<Outgoing>)
        ensures
            final(self)@ == old(self)@.close(session@),
            crate::messages::delivers(out@, old(self)@.farewell(session@)),
            old(self)@.consistent() ==> final(self)@.consistent(),
    {
        proof {
            if self@.consistent() {
                crate::laws::law_close_keeps_consistency(self@, session@);
            }
        }
        let ghost s = self@;
        let ghost leaving = |id: UserId|
            id != session.user_id && s.reaches(Recipient { user_id: id, conn: session.conn });
        let mut gone: Vec<UserId> = vec![session.user_id];
        let mut announced: Vec<UserId> = vec![session.user_id];
        proof {
            assert(session.former@.take(0).filter(leaving) =~= Seq::empty()) by {
                reveal(Seq::filter);
            }
            assert(gone@[0] == session.user_id);
        }
        for i in 0..session.former.len()
            invariant
                self@ == s,
                leaving == (|id: UserId|
                    id != session.user_id && s.reaches(
                        Recipient { user_id: id, conn: session.conn },
                    )),
                forall|id: UserId| #[trigger]
                    gone@.contains(id) <==> id == session.user_id || (
                    session.former@.take(i as int).contains(id) && s.departing(session@).contains(
                        id,
                    )),
                announced@ == seq![session.user_id] + session.former@.take(i as int).filter(
                    leaving,
                ),
        {
            let id = session.former[i];
            let ghost before = gone@;
            let ghost done = session.former@.take(i as int);
            let ghost done_next = session.former@.take(i + 1);
            match peers_get(&self.peers, id) {
                Some(conn) => {
                    if conn == session.conn {
                        gone.push(id);
                        if id != session.user_id {
                            announced.push(id);
                        }
                    }
                },
                None => {
                    gone.push(id);
                },
            }
            proof {
                reveal(Seq::filter);
                assert(done_next.drop_last() =~= done);
                assert(session.former@.contains(id));
                assert forall|x: UserId| done_next.contains(x) <==> done.contains(x) || x == id by {
                    if done.contains(x) {
                        assert(done_next[done.index_of(x)] == x);
                    }
                    assert(done_next[i as int] == id);
                }
                assert forall|x: UserId| #[trigger] gone@.contains(x) <==> before.contains(x) || (x
                    == id && gone@.len() > before.len()) by {
                    if before.contains(x) {
                        assert(gone@[before.index_of(x)] == x);
                    }
                    if gone@.len() > before.len() {
                        assert(gone@[before.len() as int] == id);
                    }
                }
            }
        }
        assert(session.former@.take(session.former@.len() as int) =~= session.former@);
        assert(gone@.to_set() =~= s.departing(session@));
        assert(gone@.take(0).to_set() =~= Set::empty());
        assert(s.without(Set::empty()) =~= s) by {
            lemma_without_nobody(s);
        }
        for i in 0..gone.len()
            invariant
                self@ == s.without(gone@.take(i as int).to_set()),
        {
            proof {
                let done = gone@.take(i as int);
                assert(gone@.take(i + 1) =~= done.push(gone@[i as int]));
                lemma_without_one_more(s, done, gone@[i as int]);
            }
            self.sign_off(gone[i]);
        }
        assert(gone@.take(gone@.len() as int) =~= gone@);
        if !session.registered {
            return Vec::new();
        }
        let mut out: Vec<Outgoing> = Vec::new();
        for i in 0..announced.len()
            invariant
                self@ == s.close(session@),
                out@.len() == i,
                forall|k: int|
                    0 <= k < i ==> (#[trigger] out@[k])@ == self@.departure(announced@[k])
                        && out@[k].once_each(),
        {
            let user_id = announced[i];
            out.push(self.broadcast_all(ServerMsg::PeerLeft { user_id }, None));
        }
        out
    }

    /// One thing that arrives on the connection of the session, at `now`
    /// milliseconds since 1970.
    pub fn handle_frame_at(&mut self, session: &mut Session, frame: Frame, now: i64) -> (turn: Turn)
        ensures
            final(self)@ == old(self)@.after_frame(old(session)@, frame@),
            final(session)@ == old(session)@.after_frame(frame@),
            crate::messages::delivers(
                turn.out@,
                old(self)@.frame_replies(old(session)@, frame@, now),
            ),
            turn.open == !frame@.ends(),
            old(self)@.consistent() ==> final(self)@.consistent(),
    {
        match frame {
            Frame::Message(msg) => Turn {
                out: self.handle_message(session, msg, now),
                open: true,
            },
            Frame::Malformed => Turn {
                out: vec![session.send_err("could not parse message")],
                open: true,
            },
            Frame::NotText => Turn { out: Vec::new(), open: true },
            Frame::Close | Frame::Lost => Turn { out: self.disconnect(session), open: false },
        }
    }

    /// One thing that arrives on the connection of the session, now. What the clock
    /// says shows in nothing but the time stamp of a chat message, and nothing else
    /// looks at the clock.
    pub fn handle_frame(&mut self, session: &mut Session, frame: Frame) -> (turn: Turn)
        ensures
            final(self)@ == old(self)@.after_frame(old(session)@, frame@),
            final(session)@ == old(session)@.after_frame(frame@),
            exists|now: i64|
                now >= 0 && crate::messages::delivers(
                    turn.out@,
                    #[trigger] old(self)@.frame_replies(old(session)@, frame@, now),
                ),
            (frame matches Frame::Message(ClientMsg::Chat { channel_id, .. }) && old(
                session,
            ).registered && old(self)@.channels.contains_key(channel_id@)) ==> exists|now: i64|
                clock_read(now) && crate::messages::delivers(
                    turn.out@,
                    #[trigger] old(self)@.frame_replies(old(session)@, frame@, now),
                ),
            forall|k: int| #![trigger turn.out@[k]]
                0 <= k < turn.out@.len() ==> (turn.out@[k].msg matches ServerMsg::Chat { ts, .. }
                    ==> clock_read(ts)),
            turn.open == !frame@.ends(),
            old(self)@.consistent() ==> final(self)@.consistent(),
    {
        let stamped = match &frame {
            Frame::Message(ClientMsg::Chat { channel_id, .. }) => {
                session.registered && channels_contains(&self.channels, channel_id)
            },
            _ => false,
        };
        let now: i64 = if stamped {
            now_millis()
        } else {
            0
        };
        let turn = self.handle_frame_at(session, frame, now);
        proof {
            crate::promises::law_chat_alone_is_stamped(
                old(self)@,
                *old(session),
                frame,
                now,
                turn.out@,
            );
        }
        turn
    }
}

impl Session {
    /// A connection that has just been opened, with an identity drawn at random: one
    /// of version 4 with the variant bits `10`.
    pub fn open(conn: ConnId) -> (session: Session)
        ensures
            session@ == SessionView::opened(conn, session.user_id),
            drawn(session.user_id),
            session.user_id & 0xf000_0000_0000_0000_0000u128 == 0x4000_0000_0000_0000_0000u128,
            session.user_id & 0xc000_0000_0000_0000u128 == 0x8000_0000_0000_0000u128,
    {
        Session::with_id(conn, random_id())
    }

    /// A connection that has just been opened, with the identity given.
    pub fn with_id(conn: ConnId, user_id: UserId) -> (session: Session)
        ensures
            session@ == SessionView::opened(conn, user_id),
            session.conn == conn,
            session.user_id == user_id,
            session.username@ == "user-"@ + crate::ids::hyphenated(user_id).take(8),
            !session.registered,
            session.former@.len() == 0,
    {
        let text = id_text(user_id);
        let mut username = "user-".to_owned();
        username.append(text.as_str().substring_char(0, 8));
        Session { conn, user_id, username, registered: false, former: Vec::new() }
    }

    /// The client goes by another identity from now on.
    fn rename(&mut self, id: UserId)
        ensures
            final(self)@ == (SessionView {
                user_id: id,
                former: old(self)@.former_after(id),
                ..old(self)@
            }),
    {
        if self.registered && id != self.user_id && !lists_id(&self.former, self.user_id) {
            self.former.push(self.user_id);
        }
        self.user_id = id;
    }

    /// `msg` to the client of this session alone.
    fn tell(&self, msg: ServerMsg) -> (out: Outgoing)
        ensures
            out@ == self@.told(msg@)[0],
            crate::messages::distinct_users(out.to@),
            out.msg == msg,
    {
        let to = vec![Recipient { user_id: self.user_id, conn: self.conn }];
        assert(to@.to_set() =~= self@.itself()) by {
            assert(to@[0] == Recipient { user_id: self.user_id, conn: self.conn });
        }
        Outgoing { to, msg }
    }

    /// An error report to the client of this session.
    fn send_err(&self, message: &str) -> (out: Outgoing)
        ensures
            out@ == self@.refused(message@)[0],
            out.once_each(),
    {
        self.tell(ServerMsg::Error { message: message.to_owned() })
    }
}

/// Taking out nobody changes nothing.
proof fn lemma_without_nobody(s: StateView)
    ensures
        s.without(Set::empty()) == s,
{
    let t = s.without(Set::empty());
    assert(t.peers =~= s.peers);
    assert(t.peer_channels =~= s.peer_channels);
    assert forall|c: Seq<char>| s.channels.contains_key(c) implies t.channels[c]
        == s.channels[c] by {
        assert(t.channels[c] =~= s.channels[c]);
    }
    assert(t.channels =~= s.channels);
}

/// Users can be taken out one after another.
proof fn lemma_without_one_more(s: StateView, ids: Seq<UserId>, id: UserId)
    ensures
        s.without(ids.to_set()).disconnect(id) == s.without(ids.push(id).to_set()),
{
    let more = ids.push(id);
    assert(more.to_set() =~= ids.to_set().insert(id)) by {
        assert(more[ids.len() as int] == id);
        assert forall|x: UserId| ids.contains(x) implies more.contains(x) by {
            assert(more[ids.index_of(x)] == x);
        }
    }
    let t = s.without(ids.to_set()).disconnect(id);
    let u = s.without(more.to_set());
    assert(t.peers =~= u.peers);
    assert(t.peer_channels =~= u.peer_channels);
    assert forall|c: Seq<char>| s.channels.contains_key(c) implies t.channels[c]
        == u.channels[c] by {
        assert(t.channels[c] =~= u.channels[c]);
    }
    assert(t.channels =~= u.channels);
}

/// Whether the identity is on the list.
fn lists_id(list: &Vec<UserId>, id: UserId) -> (found: bool)
    ensures
        found == list@.contains(id),
{
    for i in 0..list.len()
        invariant
            forall|k: int| 0 <= k < i ==> list@[k] != id,
    {
        if list[i] == id {
            return true;
        }
    }
    false
}

} // verus!
