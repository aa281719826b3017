//! What holds of the relay whatever happens on its connections.

use vstd::prelude::*;

use crate::ids::{ConnId, UserId};
use crate::messages::{ClientMsgView, OutgoingView, Recipient, ServerMsgView};
use crate::model::{FrameView, PeerView, SessionView, StateView};

verus! {

/// Whatever a client says, those who are online stay exactly those who have a list
/// of channels, and a user stays in every channel on their list.
pub proof fn law_messages_keep_consistency(s: StateView, session: SessionView, msg: ClientMsgView)
    requires
        s.consistent(),
    ensures
        s.after(session, msg).consistent(),
{
    let t = s.after(session, msg);
    assert(t.peers.dom() =~= t.peer_channels.dom());
    assert forall|id: UserId, channel: Seq<char>| #[trigger] t.recorded(id, channel) implies t.member(
        channel,
        id,
    ) by {
        match msg {
            ClientMsgView::JoinChannel { channel_id } if session.registered => {
                if !(id == session.user_id && channel == channel_id) {
                    assert(s.recorded(id, channel));
                }
            },
            ClientMsgView::Hello { .. } => {
                assert(id != session.after(msg).user_id);
                assert(s.recorded(id, channel));
            },
            _ => {
                assert(s.recorded(id, channel));
            },
        }
    }
}

/// The end of a connection keeps the same.
pub proof fn law_close_keeps_consistency(s: StateView, session: SessionView)
    requires
        s.consistent(),
    ensures
        s.close(session).consistent(),
{
    let t = s.close(session);
    assert(t.peers.dom() =~= t.peer_channels.dom());
    assert forall|id: UserId, channel: Seq<char>| #[trigger] t.recorded(id, channel) implies t.member(
        channel,
        id,
    ) by {
        assert(s.recorded(id, channel));
    }
}

/// So a relay that is consistent, as a new one is, stays so in any run of frames.
pub proof fn law_every_run_stays_consistent(s: StateView, events: Seq<(SessionView, FrameView)>)
    requires
        s.consistent(),
    ensures
        run(s, events).consistent(),
    decreases events.len(),
{
    if events.len() > 0 {
        let before = run(s, events.drop_last());
        let (session, frame) = events.last();
        law_every_run_stays_consistent(s, events.drop_last());
        match frame {
            FrameView::Message(msg) => law_messages_keep_consistency(before, session, msg),
            _ => law_close_keeps_consistency(before, session),
        }
    }
}

/// Before hello, a client can do nothing but say hello: any other message is
/// answered with an error to that client alone, and changes nothing.
pub proof fn law_hello_comes_first(s: StateView, session: SessionView, msg: ClientMsgView, ts: i64)
    requires
        !session.registered,
        !(msg is Hello),
    ensures
        s.after(session, msg) == s,
        session.after(msg) == session,
        s.replies(session, msg, ts) == session.refused("send hello before anything else"@),
{
}

/// The relay forgets a message as soon as it has forwarded it: chat, edits,
/// deletions, reactions and signals leave what it knows as it was.
pub proof fn law_forwarding_leaves_no_trace(s: StateView, session: SessionView, msg: ClientMsgView)
    requires
        msg is Chat || msg is EditMessage || msg is DeleteMessage || msg is AddReaction
            || msg is RemoveReaction || msg is Signal,
    ensures
        s.after(session, msg) == s,
        session.after(msg) == session,
{
}

/// Text that is no message, and frames that are no text, change nothing; only the
/// former is answered, with an error to that client alone.
pub proof fn law_noise_changes_nothing(s: StateView, session: SessionView, ts: i64)
    ensures
        s.after_frame(session, FrameView::Malformed) == s,
        s.after_frame(session, FrameView::NotText) == s,
        s.frame_replies(session, FrameView::Malformed, ts) == session.refused(
            "could not parse message"@,
        ),
        s.frame_replies(session, FrameView::NotText, ts).len() == 0,
{
}

/// The time shows in nothing but chat messages.
pub proof fn law_time_only_stamps_chat(
    s: StateView,
    session: SessionView,
    frame: FrameView,
    ts: i64,
    other: i64,
)
    requires
        !(frame matches FrameView::Message(msg) && msg is Chat),
    ensures
        s.frame_replies(session, frame, ts) == s.frame_replies(session, frame, other),
{
}

/// Whatever arrives on a connection, nothing that concerns another user changes:
/// whether they are online, their name and connection, their list of channels, and
/// the channels they are in. The end of a connection concerns those it speaks for.
pub proof fn law_others_are_left_alone(
    s: StateView,
    session: SessionView,
    frame: FrameView,
    other: UserId,
    channel: Seq<char>,
)
    requires
        other != session.after_frame(frame).user_id,
        frame.ends() ==> !s.departing(session).contains(other),
    ensures
        ({
            let t = s.after_frame(session, frame);
            &&& t.online(other) == s.online(other)
            &&& s.online(other) ==> t.peers[other] == s.peers[other]
            &&& t.peer_channels.contains_key(other) == s.peer_channels.contains_key(other)
            &&& s.peer_channels.contains_key(other) ==> t.peer_channels[other]
                == s.peer_channels[other]
            &&& t.member(channel, other) == s.member(channel, other)
        }),
{
}

/// A channel that exists goes on existing, even with nobody in it.
pub proof fn law_channels_stay(
    s: StateView,
    session: SessionView,
    frame: FrameView,
    channel: Seq<char>,
)
    requires
        s.channels.contains_key(channel),
    ensures
        s.after_frame(session, frame).channels.contains_key(channel),
{
}

/// Nothing is ever sent but to the client that caused it, and to users who are
/// online, on the connection they are online on.
pub proof fn law_messages_go_to_those_online(
    s: StateView,
    session: SessionView,
    frame: FrameView,
    ts: i64,
    i: int,
    r: Recipient,
)
    requires
        0 <= i < s.frame_replies(session, frame, ts).len(),
        s.frame_replies(session, frame, ts)[i].to.contains(r),
    ensures
        session.after_frame(frame).itself().contains(r) || s.after_frame(session, frame).reaches(r),
{
}

/// A permanent identity is the same on every connection that claims it, and a
/// client that claims none keeps the one drawn for the connection.
pub proof fn law_identity_survives_reconnects(
    first: SessionView,
    second: SessionView,
    name: Seq<char>,
    new_name: Seq<char>,
    id: UserId,
)
    ensures
        first.after(ClientMsgView::Hello { username: name, user_id: Some(id) }).user_id == id,
        second.after(ClientMsgView::Hello { username: new_name, user_id: Some(id) }).user_id == id,
        first.after(ClientMsgView::Hello { username: name, user_id: None }).user_id
            == first.user_id,
{
}

/// After hello the user is online, on this connection and on no other; they are
/// told who was online before, and everyone else who is online is told of them.
pub proof fn law_hello_makes_present(
    s: StateView,
    session: SessionView,
    username: Seq<char>,
    claimed: Option<UserId>,
    ts: i64,
)
    ensures
        ({
            let msg = ClientMsgView::Hello { username, user_id: claimed };
            let id = session.after(msg).user_id;
            let t = s.after(session, msg);
            let out = s.replies(session, msg, ts);
            &&& t.online(id)
            &&& t.peers[id] == PeerView { username, conn: session.conn }
            &&& forall|r: Recipient| #[trigger]
                t.reaches(r) && r.user_id == id ==> r.conn == session.conn
            &&& out.len() == 2
            &&& out[0] == OutgoingView {
                to: set![Recipient { user_id: id, conn: session.conn }],
                msg: ServerMsgView::Welcome { user_id: id, peers: s.presence() },
            }
            &&& out[1].msg == ServerMsgView::PeerJoined { user_id: id, username }
            &&& forall|r: Recipient| #[trigger]
                out[1].to.contains(r) <==> s.reaches(r) && r.user_id != id
        }),
{
}

/// After the end of a registered connection its user is not online, everyone who
/// does not go with it stays so, and it is they who are told.
pub proof fn law_close_ends_presence(s: StateView, session: SessionView)
    requires
        session.registered,
    ensures
        ({
            let t = s.close(session);
            let out = s.farewell(session);
            &&& !t.online(session.user_id)
            &&& forall|id: UserId| #[trigger]
                t.online(id) <==> s.online(id) && !s.departing(session).contains(id)
            &&& out.len() >= 1
            &&& out[0].msg == ServerMsgView::PeerLeft { user_id: session.user_id }
            &&& forall|r: Recipient| #[trigger]
                out[0].to.contains(r) <==> s.reaches(r) && !s.departing(session).contains(
                    r.user_id,
                )
        }),
{
}

/// Nobody goes online or offline unannounced: when `id` does, everyone else who is
/// online then is sent a message that says so. Left out is the end of a connection
/// that never said hello and whose random identity someone else has claimed.
pub proof fn law_presence_is_announced(
    s: StateView,
    session: SessionView,
    frame: FrameView,
    ts: i64,
    id: UserId,
    observer: Recipient,
)
    requires
        session.valid(),
        s.after_frame(session, frame).online(id) != s.online(id),
        s.after_frame(session, frame).reaches(observer),
        observer.user_id != id,
        frame.ends() && !session.registered ==> !s.online(session.user_id),
    ensures
        ({
            let out = s.frame_replies(session, frame, ts);
            exists|i: int|
                {
                    &&& 0 <= i < out.len()
                    &&& (#[trigger] out[i]).to.contains(observer)
                    &&& s.online(id) ==> out[i].msg == ServerMsgView::PeerLeft { user_id: id }
                    &&& !s.online(id) ==> out[i].msg == ServerMsgView::PeerJoined {
                        user_id: id,
                        username: session.after_frame(frame).username,
                    }
                }
        }),
{
    let out = s.frame_replies(session, frame, ts);
    if frame.ends() {
        let gone = seq![session.user_id] + s.also_leaving(session);
        let i = if id == session.user_id {
            0
        } else {
            let pred = |x: UserId|
                x != session.user_id && s.reaches(Recipient { user_id: x, conn: session.conn });
            assert(session.former.contains(id));
            session.former.lemma_filter_contains(pred, session.former.index_of(id));
            1 + s.also_leaving(session).index_of(id)
        };
        assert(gone[i] == id);
        assert(out[i] == s.close(session).departure(id));
        assert(out[i].to.contains(observer));
    } else {
        assert(out[1].to.contains(observer));
    }
}

/// Joining adds the user, where they are online, to those who hear the channel, and
/// changes nobody's place in another channel.
pub proof fn law_join_adds_a_listener(s: StateView, id: UserId, channel: Seq<char>, other: Seq<char>)
    ensures
        s.join(id, channel).member(channel, id),
        s.online(id) ==> s.join(id, channel).audience(channel) == s.audience(channel).insert(
            Recipient { user_id: id, conn: s.peers[id].conn },
        ),
        !s.online(id) ==> s.join(id, channel).audience(channel) == s.audience(channel),
        other != channel ==> s.join(id, channel).audience(other) == s.audience(other),
{
    if s.online(id) {
        assert(s.join(id, channel).audience(channel) =~= s.audience(channel).insert(
            Recipient { user_id: id, conn: s.peers[id].conn },
        ));
    } else {
        assert(s.join(id, channel).audience(channel) =~= s.audience(channel));
    }
    assert(other != channel ==> s.join(id, channel).audience(other) =~= s.audience(other));
}

/// Leaving takes the user from those who hear the channel, and changes nobody's
/// place in another channel.
pub proof fn law_leave_removes_a_listener(
    s: StateView,
    id: UserId,
    channel: Seq<char>,
    other: Seq<char>,
)
    ensures
        !s.leave(id, channel).member(channel, id),
        s.leave(id, channel).audience(channel) == s.audience(channel).filter(
            |r: Recipient| r.user_id != id,
        ),
        other != channel ==> s.leave(id, channel).audience(other) == s.audience(other),
{
    assert(s.leave(id, channel).audience(channel) =~= s.audience(channel).filter(
        |r: Recipient| r.user_id != id,
    ));
    assert(other != channel ==> s.leave(id, channel).audience(other) =~= s.audience(other));
}

/// Joining twice is joining once, and leaving twice is leaving once.
pub proof fn law_join_and_leave_are_idempotent(s: StateView, id: UserId, channel: Seq<char>)
    ensures
        s.join(id, channel).join(id, channel) == s.join(id, channel),
        s.leave(id, channel).leave(id, channel) == s.leave(id, channel),
{
    let j = s.join(id, channel);
    assert(j.channels[channel].insert(id) =~= j.channels[channel]);
    assert(j.join(id, channel).channels =~= j.channels);
    assert(j.join(id, channel).peer_channels =~= j.peer_channels) by {
        if s.peer_channels.contains_key(id) {
            assert(j.peer_channels[id].insert(channel) =~= j.peer_channels[id]);
        }
    }
    let l = s.leave(id, channel);
    assert(l.leave(id, channel).channels =~= l.channels) by {
        if s.channels.contains_key(channel) {
            assert(l.channels[channel].remove(id) =~= l.channels[channel]);
        }
    }
    assert(l.leave(id, channel).peer_channels =~= l.peer_channels) by {
        if s.peer_channels.contains_key(id) {
            assert(l.peer_channels[id].remove(channel) =~= l.peer_channels[id]);
        }
    }
}

/// Leaving undoes joining for whoever was not in the channel before, but that a
/// channel made by the joining stays, with nobody in it.
pub proof fn law_leave_undoes_join(s: StateView, id: UserId, channel: Seq<char>)
    requires
        s.consistent(),
        !s.member(channel, id),
    ensures
        s.join(id, channel).leave(id, channel).peers == s.peers,
        s.join(id, channel).leave(id, channel).peer_channels == s.peer_channels,
        s.join(id, channel).leave(id, channel).channels == (if s.channels.contains_key(channel) {
            s.channels
        } else {
            s.channels.insert(channel, Set::empty())
        }),
{
    let t = s.join(id, channel).leave(id, channel);
    assert(!s.recorded(id, channel));
    if s.channels.contains_key(channel) {
        assert(s.channels[channel].insert(id).remove(id) =~= s.channels[channel]);
        assert(t.channels =~= s.channels);
    } else {
        assert(Set::<UserId>::empty().insert(id).remove(id) =~= Set::empty());
        assert(t.channels =~= s.channels.insert(channel, Set::empty()));
    }
    assert(t.peer_channels =~= s.peer_channels) by {
        if s.peer_channels.contains_key(id) {
            assert(s.peer_channels[id].insert(channel).remove(channel) =~= s.peer_channels[id]);
        }
    }
}

/// A chat message, and every edit, deletion and reaction that names it, goes to the
/// same people: everyone in the channel who is online. To each it carries the
/// message id that its sender gave it.
pub proof fn law_one_message_one_name_one_audience(
    s: StateView,
    session: SessionView,
    channel_id: Seq<char>,
    message_id: Seq<char>,
    text: Seq<char>,
    ts: i64,
)
    requires
        session.registered,
        s.channels.contains_key(channel_id),
    ensures
        ({
            let from = session.user_id;
            let name = Some(message_id);
            let chat = ClientMsgView::Chat { channel_id, content: text, message_id: name };
            let edit = ClientMsgView::EditMessage { channel_id, message_id, content: text };
            let delete = ClientMsgView::DeleteMessage { channel_id, message_id };
            let add = ClientMsgView::AddReaction { channel_id, message_id, emoji: text };
            let remove = ClientMsgView::RemoveReaction { channel_id, message_id, emoji: text };
            let post = |msg: ServerMsgView| seq![OutgoingView { to: s.audience(channel_id), msg }];
            &&& s.replies(session, chat, ts) == post(
                ServerMsgView::Chat { message_id: name, from, channel_id, content: text, ts },
            )
            &&& s.replies(session, edit, ts) == post(
                ServerMsgView::MessageEdited { message_id, channel_id, content: text },
            )
            &&& s.replies(session, delete, ts) == post(
                ServerMsgView::MessageDeleted { message_id, channel_id },
            )
            &&& s.replies(session, add, ts) == post(
                ServerMsgView::ReactionAdded { message_id, channel_id, emoji: text, user_id: from },
            )
            &&& s.replies(session, remove, ts) == post(
                ServerMsgView::ReactionRemoved {
                    message_id,
                    channel_id,
                    emoji: text,
                    user_id: from,
                },
            )
        }),
{
}

/// Where there is no such channel, chat is refused and edits, deletions and
/// reactions go to nobody.
pub proof fn law_no_channel_no_message(
    s: StateView,
    session: SessionView,
    msg: ClientMsgView,
    ts: i64,
)
    requires
        session.registered,
    ensures
        msg matches ClientMsgView::Chat { channel_id, .. } ==> !s.channels.contains_key(channel_id)
            ==> s.replies(session, msg, ts) == session.refused("not a member of that channel"@),
        msg matches ClientMsgView::EditMessage { channel_id, .. } ==> !s.channels.contains_key(
            channel_id,
        ) ==> s.replies(session, msg, ts).len() == 0,
        msg matches ClientMsgView::DeleteMessage { channel_id, .. } ==> !s.channels.contains_key(
            channel_id,
        ) ==> s.replies(session, msg, ts).len() == 0,
        msg matches ClientMsgView::AddReaction { channel_id, .. } ==> !s.channels.contains_key(
            channel_id,
        ) ==> s.replies(session, msg, ts).len() == 0,
        msg matches ClientMsgView::RemoveReaction { channel_id, .. } ==> !s.channels.contains_key(
            channel_id,
        ) ==> s.replies(session, msg, ts).len() == 0,
{
}

/// A signal goes to the user it names and to nobody else, with the payload as it
/// came; where that user is not online the sender is told, and nobody else.
pub proof fn law_signals_pass_straight_through(
    s: StateView,
    session: SessionView,
    to: UserId,
    payload: serde_json::Value,
    ts: i64,
)
    requires
        session.registered,
    ensures
        ({
            let out = s.replies(session, ClientMsgView::Signal { to, payload }, ts);
            &&& out.len() == 1
            &&& s.online(to) ==> out[0] == OutgoingView {
                to: set![Recipient { user_id: to, conn: s.peers[to].conn }],
                msg: ServerMsgView::Signal { from: session.user_id, payload },
            }
            &&& !s.online(to) ==> out == session.refused("target peer not connected"@)
        }),
{
}

/// What the relay knows after a run of frames, each on the session it came on.
pub open spec fn run(s: StateView, events: Seq<(SessionView, FrameView)>) -> StateView
    decreases events.len(),
{
    if events.len() == 0 {
        s
    } else {
        run(s, events.drop_last()).after_frame(events.last().0, events.last().1)
    }
}

/// The frame leaves `id` online on this connection: it neither has them say hello
/// nor ends a connection with which they go.
pub open spec fn same_visit(id: UserId, conn: ConnId, event: (SessionView, FrameView)) -> bool {
    let (session, frame) = event;
    &&& (frame matches FrameView::Message(msg) && msg is Hello) ==> session.after_frame(
        frame,
    ).user_id != id
    &&& frame.ends() ==> session.user_id != id && !(session.conn == conn
        && session.former.contains(id))
}

/// The frame has `id` leave the channel.
pub open spec fn leaves(id: UserId, channel: Seq<char>, event: (SessionView, FrameView)) -> bool {
    &&& event.0.user_id == id
    &&& event.1 == FrameView::Message(ClientMsgView::LeaveChannel { channel_id: channel })
}

/// The frame has `id` join the channel.
pub open spec fn joins(id: UserId, channel: Seq<char>, event: (SessionView, FrameView)) -> bool {
    &&& event.0.user_id == id
    &&& event.1 == FrameView::Message(ClientMsgView::JoinChannel { channel_id: channel })
}

/// Whoever has joined a channel hears it: after a join by a user who is online, and
/// whatever happens then, short of their leaving that channel, of another hello
/// under their identity and of the end of a connection with which they go, a chat
/// message in the channel, from anyone who has said hello, goes to them on the
/// connection they said hello on.
pub proof fn law_members_hear_chat(
    s: StateView,
    id: UserId,
    channel_id: Seq<char>,
    events: Seq<(SessionView, FrameView)>,
    speaker: SessionView,
    content: Seq<char>,
    message_id: Option<Seq<char>>,
    ts: i64,
)
    requires
        s.online(id),
        speaker.registered,
        forall|i: int|
            0 <= i < events.len() ==> same_visit(id, s.peers[id].conn, #[trigger] events[i])
                && !leaves(id, channel_id, events[i]),
    ensures
        ({
            let t = run(s.join(id, channel_id), events);
            let out = t.replies(
                speaker,
                ClientMsgView::Chat { channel_id, content, message_id },
                ts,
            );
            &&& out.len() == 1
            &&& out[0].msg == ServerMsgView::Chat {
                message_id,
                from: speaker.user_id,
                channel_id,
                content,
                ts,
            }
            &&& out[0].to.contains(Recipient { user_id: id, conn: s.peers[id].conn })
        }),
{
    lemma_stays_member(s.join(id, channel_id), id, channel_id, events);
}

/// A member stays one, and stays reachable, until they leave or their visit ends.
proof fn lemma_stays_member(
    s: StateView,
    id: UserId,
    channel: Seq<char>,
    events: Seq<(SessionView, FrameView)>,
)
    requires
        s.online(id),
        s.member(channel, id),
        forall|i: int|
            0 <= i < events.len() ==> same_visit(id, s.peers[id].conn, #[trigger] events[i])
                && !leaves(id, channel, events[i]),
    ensures
        run(s, events).online(id),
        run(s, events).peers[id] == s.peers[id],
        run(s, events).member(channel, id),
    decreases events.len(),
{
    if events.len() > 0 {
        let front = events.drop_last();
        assert forall|i: int| 0 <= i < front.len() implies same_visit(
            id,
            s.peers[id].conn,
            #[trigger] front[i],
        ) && !leaves(id, channel, front[i]) by {
            assert(front[i] == events[i]);
        }
        lemma_stays_member(s, id, channel, front);
        assert(same_visit(id, s.peers[id].conn, events[events.len() - 1]));
    }
}

/// Whoever is not in a channel does not hear it: after a leave, and whatever happens
/// then, short of their joining that channel again, no chat message in the channel
/// goes to them.
pub proof fn law_leavers_hear_nothing(
    s: StateView,
    id: UserId,
    channel_id: Seq<char>,
    events: Seq<(SessionView, FrameView)>,
    r: Recipient,
)
    requires
        r.user_id == id,
        forall|i: int| 0 <= i < events.len() ==> !joins(id, channel_id, #[trigger] events[i]),
    ensures
        !run(s.leave(id, channel_id), events).audience(channel_id).contains(r),
{
    lemma_stays_out(s.leave(id, channel_id), id, channel_id, events);
}

/// Nobody gets into a channel but by joining it.
proof fn lemma_stays_out(
    s: StateView,
    id: UserId,
    channel: Seq<char>,
    events: Seq<(SessionView, FrameView)>,
)
    requires
        !s.member(channel, id),
        forall|i: int| 0 <= i < events.len() ==> !joins(id, channel, #[trigger] events[i]),
    ensures
        !run(s, events).member(channel, id),
    decreases events.len(),
{
    if events.len() > 0 {
        let front = events.drop_last();
        assert forall|i: int| 0 <= i < front.len() implies !joins(
            id,
            channel,
            #[trigger] front[i],
        ) by {
            assert(front[i] == events[i]);
        }
        lemma_stays_out(s, id, channel, front);
        assert(!joins(id, channel, events[events.len() - 1]));
    }
}

/// Nothing of a user persists past their cleanup: they are not online, have no list
/// of channels and are in no channel, whatever was known of them before.
pub proof fn law_disconnect_leaves_no_trace(s: StateView, id: UserId, channel: Seq<char>)
    ensures
        !s.disconnect(id).online(id),
        !s.disconnect(id).peer_channels.contains_key(id),
        !s.disconnect(id).member(channel, id),
{
}

/// The end of a connection does so for the identity that the connection has, and
/// for each that it had before, unless that one is online on another connection.
pub proof fn law_close_leaves_no_trace(
    s: StateView,
    session: SessionView,
    id: UserId,
    channel: Seq<char>,
)
    requires
        id == session.user_id || session.former.contains(id),
    ensures
        ({
            let t = s.close(session);
            ||| !t.online(id) && !t.peer_channels.contains_key(id) && !t.member(channel, id)
            ||| id != session.user_id && t.online(id) && t.peers[id].conn != session.conn
        }),
{
}

/// The relay and the connections that are open, each with its session.
pub struct System {
    pub state: StateView,
    pub live: Map<ConnId, SessionView>,
}

/// What can happen: a connection is opened, with an identity drawn for it, or
/// something arrives on one.
pub enum Happening {
    Opened { conn: ConnId, id: UserId },
    Arrived { conn: ConnId, frame: FrameView },
}

impl System {
    /// No connection is open and nobody is known.
    pub open spec fn start() -> System {
        System { state: StateView::empty(), live: Map::empty() }
    }

    /// A connection is opened under a number that no open connection has, and things
    /// arrive on open connections only.
    pub open spec fn next(self, happening: Happening) -> System {
        match happening {
            Happening::Opened { conn, id } if !self.live.contains_key(conn) => System {
                state: self.state,
                live: self.live.insert(conn, SessionView::opened(conn, id)),
            },
            Happening::Arrived { conn, frame } if self.live.contains_key(conn) => System {
                state: self.state.after_frame(self.live[conn], frame),
                live: if frame.ends() {
                    self.live.remove(conn)
                } else {
                    self.live.insert(conn, self.live[conn].after_frame(frame))
                },
            },
            _ => self,
        }
    }

    /// What a new process comes to.
    pub open spec fn after(happenings: Seq<Happening>) -> System
        decreases happenings.len(),
    {
        if happenings.len() == 0 {
            System::start()
        } else {
            System::after(happenings.drop_last()).next(happenings.last())
        }
    }

    /// The connection is open, and its client has said hello under this identity.
    pub open spec fn voice(self, conn: ConnId, id: UserId) -> bool {
        self.live.contains_key(conn) && self.live[conn].speaks_for(id)
    }

    /// Everyone who is online is so on an open connection that speaks for them, and
    /// for everyone in a channel some open connection speaks.
    pub open spec fn vouched(self) -> bool {
        &&& self.state.consistent()
        &&& forall|conn: ConnId| #[trigger]
            self.live.contains_key(conn) ==> self.live[conn].conn == conn && self.live[conn].valid()
        &&& forall|id: UserId| #[trigger]
            self.state.online(id) ==> self.voice(self.state.peers[id].conn, id)
        &&& forall|channel: Seq<char>, id: UserId| #[trigger]
            self.state.member(channel, id) ==> exists|conn: ConnId| #[trigger] self.voice(conn, id)
    }
}

/// Nothing outlives its connection. Whatever happens on whichever connections, who
/// is online is so on a connection that is still open, who is in a channel has a
/// connection that is still open, and once every connection has ended nobody is
/// online, nobody has a list of channels and nobody is in a channel.
pub proof fn law_nothing_outlives_its_connection(
    happenings: Seq<Happening>,
    id: UserId,
    channel: Seq<char>,
)
    ensures
        ({
            let end = System::after(happenings);
            &&& end.state.online(id) ==> end.voice(end.state.peers[id].conn, id)
            &&& end.state.peer_channels.contains_key(id) ==> end.state.online(id)
            &&& end.state.member(channel, id) ==> exists|conn: ConnId| #[trigger]
                end.voice(conn, id)
            &&& (forall|conn: ConnId| !#[trigger] end.live.contains_key(conn)) ==> {
                &&& !end.state.online(id)
                &&& !end.state.peer_channels.contains_key(id)
                &&& !end.state.member(channel, id)
            }
        }),
{
    let end = System::after(happenings);
    lemma_always_vouched(happenings);
    assert(end.state.peer_channels.contains_key(id) ==> end.state.peers.dom().contains(id));
}

/// Whatever happens, everyone is vouched for.
proof fn lemma_always_vouched(happenings: Seq<Happening>)
    ensures
        System::after(happenings).vouched(),
    decreases happenings.len(),
{
    if happenings.len() == 0 {
        let start = System::start();
        assert(start.state.peers.dom() =~= start.state.peer_channels.dom());
    } else {
        lemma_always_vouched(happenings.drop_last());
        lemma_next_vouched(System::after(happenings.drop_last()), happenings.last());
    }
}

/// One happening keeps everyone vouched for.
proof fn lemma_next_vouched(sys: System, happening: Happening)
    requires
        sys.vouched(),
    ensures
        sys.next(happening).vouched(),
{
    let next = sys.next(happening);
    match happening {
        Happening::Arrived { conn, frame } if sys.live.contains_key(conn) => {
            lemma_arrival_vouched(sys, conn, frame);
        },
        _ => {
            assert forall|id: UserId| #[trigger] next.state.online(id) implies next.voice(
                next.state.peers[id].conn,
                id,
            ) by {
                assert(sys.state.online(id));
            }
            assert forall|channel: Seq<char>, id: UserId| #[trigger]
                next.state.member(channel, id) implies exists|conn: ConnId| #[trigger]
                next.voice(conn, id) by {
                assert(sys.state.member(channel, id));
                let conn = choose|conn: ConnId| #[trigger] sys.voice(conn, id);
                assert(next.voice(conn, id));
            }
        },
    }
}

/// What arrives on an open connection keeps everyone vouched for: whoever stays has
/// another connection than the one that ends.
proof fn lemma_arrival_vouched(sys: System, conn: ConnId, frame: FrameView)
    requires
        sys.vouched(),
        sys.live.contains_key(conn),
    ensures
        sys.next(Happening::Arrived { conn, frame }).vouched(),
{
    let next = sys.next(Happening::Arrived { conn, frame });
    let session = sys.live[conn];
    let now = session.after_frame(frame);
    match frame {
        FrameView::Message(msg) => law_messages_keep_consistency(sys.state, session, msg),
        _ => law_close_keeps_consistency(sys.state, session),
    }
    assert forall|id: UserId| session.speaks_for(id) implies now.speaks_for(id) by {
        if session.former.contains(id) {
            assert(now.former[session.former.index_of(id)] == id);
        }
        if id == session.user_id && now.user_id != id && !session.former.contains(id) {
            assert(now.former[session.former.len() as int] == id);
        }
    }
    assert forall|id: UserId| #[trigger] next.state.online(id) implies next.voice(
        next.state.peers[id].conn,
        id,
    ) by {
        if !(frame matches FrameView::Message(msg) && msg is Hello && id == now.user_id) {
            assert(sys.state.online(id));
            assert(sys.voice(sys.state.peers[id].conn, id));
        }
    }
    assert forall|channel: Seq<char>, id: UserId| #[trigger]
        next.state.member(channel, id) implies exists|c: ConnId| #[trigger] next.voice(c, id) by {
        if sys.state.member(channel, id) {
            let c = choose|c: ConnId| #[trigger] sys.voice(c, id);
            if frame.ends() && c == conn {
                assert(sys.state.online(id));
                assert(next.voice(sys.state.peers[id].conn, id));
            } else {
                assert(next.voice(c, id));
            }
        } else {
            assert(next.voice(conn, id));
        }
    }
}

} // verus!
