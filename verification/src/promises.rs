//! What each thing that arrives on a connection does, entry by entry and field by
//! field: what the tables hold afterwards, who gets which message, and what stands
//! in it. `out` is always any list of messages that `delivers` what is owed, as the
//! functions of the relay promise of theirs.

use vstd::prelude::*;

use crate::ids::UserId;
use crate::messages::{ClientMsg, Outgoing, Recipient, ServerMsg};
use crate::model::StateView;
use crate::relay::{Frame, Session};

verus! {

/// One recipient is a list of one.
proof fn lemma_only_recipient(to: Seq<Recipient>, r: Recipient)
    requires
        crate::messages::distinct_users(to),
        to.to_set() == set![r],
    ensures
        to.len() == 1,
        to[0] == r,
{
    assert(to.to_set().contains(r));
    let k = to.index_of(r);
    assert forall|i: int| 0 <= i < to.len() implies to[i] == r by {
        assert(to.contains(to[i]));
        assert(to.to_set().contains(to[i]));
    }
    if to.len() > 1 {
        assert(to[0].user_id != to[1].user_id);
    }
}

/// An answer to one client is one message, with that client as its only recipient.
proof fn lemma_answer_to_one(session: Session, out: Seq<Outgoing>, text: Seq<char>)
    requires
        crate::messages::delivers(out, session@.refused(text)),
    ensures
        out.len() == 1,
        out[0].to@.len() == 1,
        out[0].to@[0].user_id == session.user_id,
        out[0].to@[0].conn == session.conn,
        out[0].msg matches ServerMsg::Error { message } && message@ == text,
{
    assert(out[0]@ == session@.refused(text)[0]);
    lemma_only_recipient(
        out[0].to@,
        Recipient { user_id: session.user_id, conn: session.conn },
    );
}

/// A hello puts the user online under the identity they claim, or else the one of
/// the connection, with the name they give and this connection, and with an empty
/// list of channels. Nothing else in the tables changes.
pub proof fn law_hello_enters_the_tables(
    s: StateView,
    session: Session,
    username: String,
    claimed: Option<UserId>,
    other: UserId,
)
    ensures
        ({
            let frame = Frame::Message(ClientMsg::Hello { username, user_id: claimed });
            let t = s.after_frame(session@, frame@);
            let id = if claimed is Some {
                claimed->0
            } else {
                session.user_id
            };
            &&& t.peers.contains_key(id)
            &&& t.peers[id].username == username@
            &&& t.peers[id].conn == session.conn
            &&& t.peer_channels.contains_key(id)
            &&& forall|c: Seq<char>| !#[trigger] t.peer_channels[id].contains(c)
            &&& other != id ==> {
                &&& t.peers.contains_key(other) <==> s.peers.contains_key(other)
                &&& s.peers.contains_key(other) ==> t.peers[other] == s.peers[other]
                &&& t.peer_channels.contains_key(other) <==> s.peer_channels.contains_key(other)
                &&& s.peer_channels.contains_key(other) ==> t.peer_channels[other]
                    == s.peer_channels[other]
            }
            &&& t.channels == s.channels
        }),
{
}

/// A hello is answered with two messages: a welcome to this client alone, which
/// lists exactly those online before, each once with their name, and word of the
/// newcomer to exactly everyone else online, once each.
pub proof fn law_hello_is_answered(
    s: StateView,
    session: Session,
    username: String,
    claimed: Option<UserId>,
    ts: i64,
    out: Seq<Outgoing>,
)
    requires
        crate::messages::delivers(
            out,
            s.frame_replies(
                session@,
                Frame::Message(ClientMsg::Hello { username, user_id: claimed })@,
                ts,
            ),
        ),
    ensures
        ({
            let id = if claimed is Some {
                claimed->0
            } else {
                session.user_id
            };
            &&& out.len() == 2
            &&& out[0].to@.len() == 1
            &&& out[0].to@[0].user_id == id
            &&& out[0].to@[0].conn == session.conn
            &&& out[0].msg matches ServerMsg::Welcome { user_id, peers } && {
                &&& user_id == id
                &&& forall|k: int|
                    0 <= k < peers@.len() ==> s.peers.contains_key(
                        (#[trigger] peers@[k]).user_id,
                    ) && s.peers[peers@[k].user_id].username == peers@[k].username@
                &&& forall|x: UserId| #[trigger]
                    s.peers.contains_key(x) ==> exists|k: int|
                        0 <= k < peers@.len() && (#[trigger] peers@[k]).user_id == x
                &&& forall|j: int, k: int|
                    0 <= j < k < peers@.len() ==> (#[trigger] peers@[j]).user_id != (
                    #[trigger] peers@[k]).user_id
            }
            &&& out[1].msg matches ServerMsg::PeerJoined { user_id, username: name } && user_id
                == id && name@ == username@
            &&& forall|r: Recipient| #[trigger]
                out[1].to@.contains(r) <==> s.peers.contains_key(r.user_id)
                    && s.peers[r.user_id].conn == r.conn && r.user_id != id
            &&& forall|i: int, j: int|
                0 <= i < j < out[1].to@.len() ==> #[trigger] out[1].to@[i].user_id
                    != #[trigger] out[1].to@[j].user_id
        }),
{
    let id = if claimed is Some {
        claimed->0
    } else {
        session.user_id
    };
    let frame = Frame::Message(ClientMsg::Hello { username, user_id: claimed });
    let expected = s.frame_replies(session@, frame@, ts);
    assert(out[0]@ == expected[0]);
    assert(out[1]@ == expected[1]);
    assert(out[1].once_each());
    lemma_only_recipient(out[0].to@, Recipient { user_id: id, conn: session.conn });
    assert forall|r: Recipient| #[trigger] out[1].to@.contains(r) <==> s.peers.contains_key(
        r.user_id,
    ) && s.peers[r.user_id].conn == r.conn && r.user_id != id by {
        assert(out[1].to@.to_set().contains(r) <==> expected[1].to.contains(r));
    }
    let peers = match out[0].msg {
        ServerMsg::Welcome { peers, .. } => peers@,
        _ => Seq::empty(),
    };
    let views = peers.map_values(|p: crate::messages::PeerInfo| p@);
    assert(views.to_set() == s.presence());
    assert forall|k: int| 0 <= k < peers.len() implies s.peers.contains_key(
        (#[trigger] peers[k]).user_id,
    ) && s.peers[peers[k].user_id].username == peers[k].username@ by {
        assert(views.contains(views[k]));
        assert(views.to_set().contains(views[k]));
    }
    assert forall|x: UserId| #[trigger] s.peers.contains_key(x) implies exists|k: int|
        0 <= k < peers.len() && (#[trigger] peers[k]).user_id == x by {
        let p = crate::messages::PeerInfoView { user_id: x, username: s.peers[x].username };
        assert(s.presence().contains(p));
        assert(views.to_set().contains(p));
        let k = views.index_of(p);
        assert(views[k] == p);
        assert(peers[k].user_id == x);
    }
}

/// A join puts the user into the channel and the channel on the user's list, where
/// they have one. Nothing else in the tables changes.
pub proof fn law_join_enters_the_tables(
    s: StateView,
    session: Session,
    channel_id: String,
    c: Seq<char>,
    id: UserId,
)
    requires
        session.registered,
    ensures
        ({
            let t = s.after_frame(session@, Frame::Message(ClientMsg::JoinChannel { channel_id })@);
            let this = c == channel_id@ && id == session.user_id;
            &&& t.peers == s.peers
            &&& t.channels.contains_key(c) <==> s.channels.contains_key(c) || c == channel_id@
            &&& t.channels.contains_key(c) && t.channels[c].contains(id) <==> this || (
            s.channels.contains_key(c) && s.channels[c].contains(id))
            &&& t.peer_channels.contains_key(id) <==> s.peer_channels.contains_key(id)
            &&& s.peer_channels.contains_key(id) ==> (t.peer_channels[id].contains(c) <==> this
                || s.peer_channels[id].contains(c))
        }),
{
}

/// A join is answered with one message, to the joiner alone: the channel, and
/// exactly those who are in it after the join, each once.
pub proof fn law_join_is_answered(
    s: StateView,
    session: Session,
    channel_id: String,
    ts: i64,
    out: Seq<Outgoing>,
)
    requires
        session.registered,
        crate::messages::delivers(
            out,
            s.frame_replies(
                session@,
                Frame::Message(ClientMsg::JoinChannel { channel_id })@,
                ts,
            ),
        ),
    ensures
        ({
            let t = s.after_frame(session@, Frame::Message(ClientMsg::JoinChannel { channel_id })@);
            &&& out.len() == 1
            &&& out[0].to@.len() == 1
            &&& out[0].to@[0].user_id == session.user_id
            &&& out[0].to@[0].conn == session.conn
            &&& out[0].msg matches ServerMsg::ChannelJoined { channel_id: name, members } && {
                &&& name@ == channel_id@
                &&& forall|id: UserId| #[trigger]
                    members@.contains(id) <==> t.channels.contains_key(channel_id@)
                        && t.channels[channel_id@].contains(id)
                &&& forall|id: UserId| #[trigger]
                    members@.contains(id) <==> id == session.user_id || (s.channels.contains_key(
                        channel_id@,
                    ) && s.channels[channel_id@].contains(id))
                &&& forall|i: int, j: int|
                    0 <= i < j < members@.len() ==> members@[i] != members@[j]
            }
        }),
{
    let frame = Frame::Message(ClientMsg::JoinChannel { channel_id });
    let expected = s.frame_replies(session@, frame@, ts);
    assert(out[0]@ == expected[0]);
    assert(out[0].once_each());
    lemma_only_recipient(out[0].to@, Recipient { user_id: session.user_id, conn: session.conn });
    let members = match out[0].msg {
        ServerMsg::ChannelJoined { members, .. } => members@,
        _ => Seq::empty(),
    };
    assert(members.to_set() == s.members_with(channel_id@, session.user_id));
    assert forall|id: UserId| #[trigger] members.contains(id) <==> id == session.user_id || (
    s.channels.contains_key(channel_id@) && s.channels[channel_id@].contains(id)) by {
        assert(members.to_set().contains(id) <==> s.members_with(
            channel_id@,
            session.user_id,
        ).contains(id));
    }
}

/// A leave takes the user out of the channel and the channel off the user's list.
/// Nothing else in the tables changes, and nothing is sent.
pub proof fn law_leave_clears_the_tables(
    s: StateView,
    session: Session,
    channel_id: String,
    c: Seq<char>,
    id: UserId,
    ts: i64,
    out: Seq<Outgoing>,
)
    requires
        session.registered,
        crate::messages::delivers(
            out,
            s.frame_replies(
                session@,
                Frame::Message(ClientMsg::LeaveChannel { channel_id })@,
                ts,
            ),
        ),
    ensures
        ({
            let t = s.after_frame(session@, Frame::Message(ClientMsg::LeaveChannel { channel_id })@);
            let this = c == channel_id@ && id == session.user_id;
            &&& t.peers == s.peers
            &&& t.channels.contains_key(c) <==> s.channels.contains_key(c)
            &&& s.channels.contains_key(c) ==> (t.channels[c].contains(id) <==> !this
                && s.channels[c].contains(id))
            &&& t.peer_channels.contains_key(id) <==> s.peer_channels.contains_key(id)
            &&& s.peer_channels.contains_key(id) ==> (t.peer_channels[id].contains(c) <==> !this
                && s.peer_channels[id].contains(c))
            &&& out.len() == 0
        }),
{
}

/// A chat message in a channel that exists is one message, stamped with the time, to
/// exactly everyone in the channel who is online, once each on the connection they
/// are on: the sender's identity, the channel, the content and the message id, where
/// there is one, as they came.
pub proof fn law_chat_is_relayed(
    s: StateView,
    session: Session,
    channel_id: String,
    content: String,
    message_id: Option<String>,
    ts: i64,
    out: Seq<Outgoing>,
)
    requires
        session.registered,
        s.channels.contains_key(channel_id@),
        crate::messages::delivers(
            out,
            s.frame_replies(
                session@,
                Frame::Message(ClientMsg::Chat { channel_id, content, message_id })@,
                ts,
            ),
        ),
    ensures
        out.len() == 1,
        out[0].msg matches ServerMsg::Chat { message_id: m, from, channel_id: c, content: t, ts: at }
            && {
            &&& from == session.user_id
            &&& c@ == channel_id@
            &&& t@ == content@
            &&& at == ts
            &&& m is Some <==> message_id is Some
            &&& m is Some ==> m->0@ == message_id->0@
        },
        forall|r: Recipient| #[trigger]
            out[0].to@.contains(r) <==> s.peers.contains_key(r.user_id) && s.peers[r.user_id].conn
                == r.conn && s.channels[channel_id@].contains(r.user_id),
        forall|i: int, j: int|
            0 <= i < j < out[0].to@.len() ==> #[trigger] out[0].to@[i].user_id
                != #[trigger] out[0].to@[j].user_id,
{
    let frame = Frame::Message(ClientMsg::Chat { channel_id, content, message_id });
    lemma_posted(s, channel_id@, out, s.frame_replies(session@, frame@, ts));
}

/// A chat message goes out for nothing but a chat message in a channel that exists,
/// from a client who has said hello, and bears the time at which that one came.
pub proof fn law_chat_alone_is_stamped(
    s: StateView,
    session: Session,
    frame: Frame,
    ts: i64,
    out: Seq<Outgoing>,
)
    requires
        crate::messages::delivers(out, s.frame_replies(session@, frame@, ts)),
    ensures
        forall|k: int| #![trigger out[k]]
            0 <= k < out.len() ==> (out[k].msg matches ServerMsg::Chat { ts: at, .. } ==> {
                &&& at == ts
                &&& session.registered
                &&& frame matches Frame::Message(ClientMsg::Chat { channel_id, .. })
                    && s.channels.contains_key(channel_id@)
            }),
{
    assert forall|k: int| #![trigger out[k]] 0 <= k < out.len() implies (
    out[k].msg matches ServerMsg::Chat { ts: at, .. } ==> {
        &&& at == ts
        &&& session.registered
        &&& frame matches Frame::Message(ClientMsg::Chat { channel_id, .. })
            && s.channels.contains_key(channel_id@)
    }) by {
        assert(out[k]@ == s.frame_replies(session@, frame@, ts)[k]);
    }
}

/// An edit in a channel that exists is one message, to the same people as a chat
/// message there: the message id, the channel and the new content as they came.
pub proof fn law_edit_is_relayed(
    s: StateView,
    session: Session,
    channel_id: String,
    message_id: String,
    content: String,
    ts: i64,
    out: Seq<Outgoing>,
)
    requires
        session.registered,
        s.channels.contains_key(channel_id@),
        crate::messages::delivers(
            out,
            s.frame_replies(
                session@,
                Frame::Message(ClientMsg::EditMessage { channel_id, message_id, content })@,
                ts,
            ),
        ),
    ensures
        out.len() == 1,
        out[0].msg matches ServerMsg::MessageEdited { message_id: m, channel_id: c, content: t } && m@
            == message_id@ && c@ == channel_id@ && t@ == content@,
        forall|r: Recipient| #[trigger]
            out[0].to@.contains(r) <==> s.peers.contains_key(r.user_id) && s.peers[r.user_id].conn
                == r.conn && s.channels[channel_id@].contains(r.user_id),
        forall|i: int, j: int|
            0 <= i < j < out[0].to@.len() ==> #[trigger] out[0].to@[i].user_id
                != #[trigger] out[0].to@[j].user_id,
{
    let frame = Frame::Message(ClientMsg::EditMessage { channel_id, message_id, content });
    lemma_posted(s, channel_id@, out, s.frame_replies(session@, frame@, ts));
}

/// A deletion in a channel that exists is one message, to the same people as a chat
/// message there: the message id and the channel as they came.
pub proof fn law_deletion_is_relayed(
    s: StateView,
    session: Session,
    channel_id: String,
    message_id: String,
    ts: i64,
    out: Seq<Outgoing>,
)
    requires
        session.registered,
        s.channels.contains_key(channel_id@),
        crate::messages::delivers(
            out,
            s.frame_replies(
                session@,
                Frame::Message(ClientMsg::DeleteMessage { channel_id, message_id })@,
                ts,
            ),
        ),
    ensures
        out.len() == 1,
        out[0].msg matches ServerMsg::MessageDeleted { message_id: m, channel_id: c } && m@
            == message_id@ && c@ == channel_id@,
        forall|r: Recipient| #[trigger]
            out[0].to@.contains(r) <==> s.peers.contains_key(r.user_id) && s.peers[r.user_id].conn
                == r.conn && s.channels[channel_id@].contains(r.user_id),
        forall|i: int, j: int|
            0 <= i < j < out[0].to@.len() ==> #[trigger] out[0].to@[i].user_id
                != #[trigger] out[0].to@[j].user_id,
{
    let frame = Frame::Message(ClientMsg::DeleteMessage { channel_id, message_id });
    lemma_posted(s, channel_id@, out, s.frame_replies(session@, frame@, ts));
}

/// A reaction in a channel that exists, added or taken back, is one message, to the
/// same people as a chat message there: the message id, the channel and the emoji as
/// they came, and whose reaction it is.
pub proof fn law_reactions_are_relayed(
    s: StateView,
    session: Session,
    channel_id: String,
    message_id: String,
    emoji: String,
    added: bool,
    ts: i64,
    out: Seq<Outgoing>,
)
    requires
        session.registered,
        s.channels.contains_key(channel_id@),
        crate::messages::delivers(
            out,
            s.frame_replies(
                session@,
                Frame::Message(
                    if added {
                        ClientMsg::AddReaction { channel_id, message_id, emoji }
                    } else {
                        ClientMsg::RemoveReaction { channel_id, message_id, emoji }
                    },
                )@,
                ts,
            ),
        ),
    ensures
        out.len() == 1,
        added ==> (out[0].msg matches ServerMsg::ReactionAdded {
            message_id: m,
            channel_id: c,
            emoji: e,
            user_id,
        } && m@ == message_id@ && c@ == channel_id@ && e@ == emoji@ && user_id == session.user_id),
        !added ==> (out[0].msg matches ServerMsg::ReactionRemoved {
            message_id: m,
            channel_id: c,
            emoji: e,
            user_id,
        } && m@ == message_id@ && c@ == channel_id@ && e@ == emoji@ && user_id == session.user_id),
        forall|r: Recipient| #[trigger]
            out[0].to@.contains(r) <==> s.peers.contains_key(r.user_id) && s.peers[r.user_id].conn
                == r.conn && s.channels[channel_id@].contains(r.user_id),
        forall|i: int, j: int|
            0 <= i < j < out[0].to@.len() ==> #[trigger] out[0].to@[i].user_id
                != #[trigger] out[0].to@[j].user_id,
{
    let frame = Frame::Message(
        if added {
            ClientMsg::AddReaction { channel_id, message_id, emoji }
        } else {
            ClientMsg::RemoveReaction { channel_id, message_id, emoji }
        },
    );
    lemma_posted(s, channel_id@, out, s.frame_replies(session@, frame@, ts));
}

/// What is posted to a channel goes to exactly its members who are online.
proof fn lemma_posted(
    s: StateView,
    channel: Seq<char>,
    out: Seq<Outgoing>,
    expected: Seq<crate::messages::OutgoingView>,
)
    requires
        crate::messages::delivers(out, expected),
        expected.len() == 1,
        expected[0].to == s.audience(channel),
        s.channels.contains_key(channel),
    ensures
        out.len() == 1,
        out[0]@ == expected[0],
        forall|r: Recipient| #[trigger]
            out[0].to@.contains(r) <==> s.peers.contains_key(r.user_id) && s.peers[r.user_id].conn
                == r.conn && s.channels[channel].contains(r.user_id),
        forall|i: int, j: int|
            0 <= i < j < out[0].to@.len() ==> #[trigger] out[0].to@[i].user_id
                != #[trigger] out[0].to@[j].user_id,
{
    assert(out[0]@ == expected[0]);
    assert(out[0].once_each());
    assert forall|r: Recipient| #[trigger] out[0].to@.contains(r) <==> s.peers.contains_key(
        r.user_id,
    ) && s.peers[r.user_id].conn == r.conn && s.channels[channel].contains(r.user_id) by {
        assert(out[0].to@.to_set().contains(r) <==> expected[0].to.contains(r));
    }
}

/// In a channel that does not exist chat is refused, to the sender alone, and edits,
/// deletions and reactions send nothing.
pub proof fn law_nothing_is_relayed_without_a_channel(
    s: StateView,
    session: Session,
    msg: ClientMsg,
    ts: i64,
    out: Seq<Outgoing>,
)
    requires
        session.registered,
        match msg {
            ClientMsg::Chat { channel_id, .. } => !s.channels.contains_key(channel_id@),
            ClientMsg::EditMessage { channel_id, .. } => !s.channels.contains_key(channel_id@),
            ClientMsg::DeleteMessage { channel_id, .. } => !s.channels.contains_key(channel_id@),
            ClientMsg::AddReaction { channel_id, .. } => !s.channels.contains_key(channel_id@),
            ClientMsg::RemoveReaction { channel_id, .. } => !s.channels.contains_key(channel_id@),
            _ => false,
        },
        crate::messages::delivers(out, s.frame_replies(session@, Frame::Message(msg)@, ts)),
    ensures
        msg is Chat ==> {
            &&& out.len() == 1
            &&& out[0].to@.len() == 1
            &&& out[0].to@[0].user_id == session.user_id
            &&& out[0].to@[0].conn == session.conn
            &&& out[0].msg matches ServerMsg::Error { message } && message@
                == "not a member of that channel"@
        },
        !(msg is Chat) ==> out.len() == 0,
{
    if msg is Chat {
        lemma_answer_to_one(session, out, "not a member of that channel"@);
    }
}

/// A signal goes to the user it names, on the connection they are on, and to nobody
/// else, with the payload as it came and the identity of the sender; where they are
/// not online the sender alone is told.
pub proof fn law_signal_is_relayed(
    s: StateView,
    session: Session,
    to: UserId,
    payload: serde_json::Value,
    ts: i64,
    out: Seq<Outgoing>,
)
    requires
        session.registered,
        crate::messages::delivers(
            out,
            s.frame_replies(
                session@,
                Frame::Message(ClientMsg::Signal { to, payload })@,
                ts,
            ),
        ),
    ensures
        out.len() == 1,
        out[0].to@.len() == 1,
        s.peers.contains_key(to) ==> {
            &&& out[0].to@[0].user_id == to
            &&& out[0].to@[0].conn == s.peers[to].conn
            &&& out[0].msg matches ServerMsg::Signal { from, payload: p } && from == session.user_id
                && p == payload
        },
        !s.peers.contains_key(to) ==> {
            &&& out[0].to@[0].user_id == session.user_id
            &&& out[0].to@[0].conn == session.conn
            &&& out[0].msg matches ServerMsg::Error { message } && message@
                == "target peer not connected"@
        },
{
    let frame = Frame::Message(ClientMsg::Signal { to, payload });
    if s.peers.contains_key(to) {
        assert(out[0]@ == s.frame_replies(session@, frame@, ts)[0]);
        assert(out[0].once_each());
        lemma_only_recipient(out[0].to@, Recipient { user_id: to, conn: s.peers[to].conn });
    } else {
        lemma_answer_to_one(session, out, "target peer not connected"@);
    }
}

/// What is refused is refused to the client alone, and changes no table: any message
/// but hello on a connection that has not said hello, and text that is no message. A
/// frame that is no text is passed over.
pub proof fn law_refusals(
    s: StateView,
    session: Session,
    frame: Frame,
    ts: i64,
    out: Seq<Outgoing>,
)
    requires
        match frame {
            Frame::Message(msg) => !session.registered && !(msg is Hello),
            Frame::Malformed => true,
            Frame::NotText => true,
            _ => false,
        },
        crate::messages::delivers(out, s.frame_replies(session@, frame@, ts)),
    ensures
        s.after_frame(session@, frame@).peers == s.peers,
        s.after_frame(session@, frame@).channels == s.channels,
        s.after_frame(session@, frame@).peer_channels == s.peer_channels,
        frame is NotText ==> out.len() == 0,
        !(frame is NotText) ==> {
            &&& out.len() == 1
            &&& out[0].to@.len() == 1
            &&& out[0].to@[0].user_id == session.user_id
            &&& out[0].to@[0].conn == session.conn
            &&& out[0].msg matches ServerMsg::Error { message } && message@ == (
            if frame is Malformed {
                "could not parse message"@
            } else {
                "send hello before anything else"@
            })
        },
{
    if frame is Malformed {
        lemma_answer_to_one(session, out, "could not parse message"@);
    } else if frame is Message {
        lemma_answer_to_one(session, out, "send hello before anything else"@);
    }
}

/// No message but hello, join and leave changes a table.
pub proof fn law_relayed_messages_change_no_table(s: StateView, session: Session, msg: ClientMsg)
    requires
        !(msg is Hello),
        !(msg is JoinChannel),
        !(msg is LeaveChannel),
    ensures
        s.after_frame(session@, Frame::Message(msg)@).peers == s.peers,
        s.after_frame(session@, Frame::Message(msg)@).channels == s.channels,
        s.after_frame(session@, Frame::Message(msg)@).peer_channels == s.peer_channels,
{
}

/// The end of a connection takes out the identity it has, and each it had before but
/// those online on another connection: of them no table holds anything any more. Of
/// everyone else every table holds what it held.
pub proof fn law_close_clears_the_tables(
    s: StateView,
    session: Session,
    frame: Frame,
    id: UserId,
    c: Seq<char>,
)
    requires
        frame is Close || frame is Lost,
    ensures
        ({
            let t = s.after_frame(session@, frame@);
            let elsewhere = s.peers.contains_key(id) && s.peers[id].conn != session.conn;
            let gone = id == session.user_id || (session.former@.contains(id) && !elsewhere);
            &&& t.channels.contains_key(c) <==> s.channels.contains_key(c)
            &&& gone ==> {
                &&& !t.peers.contains_key(id)
                &&& !t.peer_channels.contains_key(id)
                &&& s.channels.contains_key(c) ==> !t.channels[c].contains(id)
            }
            &&& !gone ==> {
                &&& t.peers.contains_key(id) <==> s.peers.contains_key(id)
                &&& s.peers.contains_key(id) ==> t.peers[id] == s.peers[id]
                &&& t.peer_channels.contains_key(id) <==> s.peer_channels.contains_key(id)
                &&& s.peer_channels.contains_key(id) ==> t.peer_channels[id] == s.peer_channels[id]
                &&& s.channels.contains_key(c) ==> (t.channels[c].contains(id)
                    <==> s.channels[c].contains(id))
            }
        }),
{
}

/// What a filter lets through stood somewhere in the list.
proof fn lemma_filter_index(list: Seq<UserId>, pred: spec_fn(UserId) -> bool, k: int) -> (a: int)
    requires
        0 <= k < list.filter(pred).len(),
    ensures
        0 <= a < list.len(),
        list[a] == list.filter(pred)[k],
    decreases list.len(),
{
    reveal(Seq::filter);
    if k < list.drop_last().filter(pred).len() {
        lemma_filter_index(list.drop_last(), pred, k)
    } else {
        list.len() - 1
    }
}

/// What a filter lets through it lets through in the order of the list.
proof fn lemma_filter_keeps_order(
    list: Seq<UserId>,
    pred: spec_fn(UserId) -> bool,
    j: int,
    k: int,
) -> (places: (int, int))
    requires
        0 <= j < k < list.filter(pred).len(),
    ensures
        0 <= places.0 < places.1 < list.len(),
        list[places.0] == list.filter(pred)[j],
        list[places.1] == list.filter(pred)[k],
    decreases list.len(),
{
    reveal(Seq::filter);
    if k < list.drop_last().filter(pred).len() {
        lemma_filter_keeps_order(list.drop_last(), pred, j, k)
    } else {
        (lemma_filter_index(list.drop_last(), pred, j), list.len() - 1)
    }
}

/// The end of a connection that has said hello is announced, first of the identity
/// it has and then of exactly those it had before that were online on it. Each
/// announcement goes to exactly everyone online who does not go with the connection,
/// once each. The end of any other connection is not announced.
pub proof fn law_close_is_announced(
    s: StateView,
    session: Session,
    frame: Frame,
    ts: i64,
    out: Seq<Outgoing>,
)
    requires
        frame is Close || frame is Lost,
        crate::messages::delivers(out, s.frame_replies(session@, frame@, ts)),
    ensures
        !session.registered ==> out.len() == 0,
        session.registered ==> {
            &&& out.len() >= 1
            &&& out[0].msg matches ServerMsg::PeerLeft { user_id } && user_id == session.user_id
            &&& forall|k: int| #![trigger out[k]]
                1 <= k < out.len() ==> (out[k].msg matches ServerMsg::PeerLeft { user_id } && {
                    &&& user_id != session.user_id
                    &&& session.former@.contains(user_id)
                    &&& s.peers.contains_key(user_id)
                    &&& s.peers[user_id].conn == session.conn
                })
            &&& forall|id: UserId| #[trigger]
                session.former@.contains(id) && id != session.user_id && s.peers.contains_key(id)
                    && s.peers[id].conn == session.conn ==> exists|k: int|
                    1 <= k < out.len() && (#[trigger] out[k]).msg == (ServerMsg::PeerLeft {
                        user_id: id,
                    })
            &&& out.len() <= 1 + session.former@.len()
            &&& forall|k: int, r: Recipient|
                0 <= k < out.len() ==> (#[trigger] out[k].to@.contains(r) <==> {
                    &&& s.peers.contains_key(r.user_id)
                    &&& s.peers[r.user_id].conn == r.conn
                    &&& r.user_id != session.user_id
                    &&& !(session.former@.contains(r.user_id) && r.conn == session.conn)
                })
            &&& forall|k: int, i: int, j: int|
                0 <= k < out.len() && 0 <= i < j < out[k].to@.len()
                    ==> #[trigger] out[k].to@[i].user_id != #[trigger] out[k].to@[j].user_id
        },
{
    let expected = s.frame_replies(session@, frame@, ts);
    if session.registered {
        let pred = |id: UserId|
            id != session.user_id && s.reaches(Recipient { user_id: id, conn: session.conn });
        let also = session.former@.filter(pred);
        assert(also == s.also_leaving(session@));
        let gone = seq![session.user_id] + also;
        session.former@.lemma_filter_len(pred);
        assert(gone[0] == session.user_id);
        assert forall|k: int| 0 <= k < out.len() implies #[trigger] out[k]@ == s.close(
            session@,
        ).departure(gone[k]) && out[k].once_each() by {
            assert(out[k]@ == expected[k]);
        }
        assert(out[0]@ == s.close(session@).departure(session.user_id));
        assert forall|k: int| #![trigger out[k]] 1 <= k < out.len() implies (
        out[k].msg matches ServerMsg::PeerLeft { user_id } && {
            &&& user_id != session.user_id
            &&& session.former@.contains(user_id)
            &&& s.peers.contains_key(user_id)
            &&& s.peers[user_id].conn == session.conn
        }) by {
            assert(out[k]@ == s.close(session@).departure(gone[k]));
            assert(gone[k] == also[k - 1]);
            session.former@.lemma_filter_pred(pred, k - 1);
            assert(also.contains(also[k - 1]));
            session.former@.lemma_filter_contains_rev(pred, also[k - 1]);
        }
        assert forall|id: UserId| #[trigger]
            session.former@.contains(id) && id != session.user_id && s.peers.contains_key(id)
                && s.peers[id].conn == session.conn implies exists|k: int|
            1 <= k < out.len() && (#[trigger] out[k]).msg == (ServerMsg::PeerLeft {
                user_id: id,
            }) by {
            session.former@.lemma_filter_contains(pred, session.former@.index_of(id));
            let k = 1 + also.index_of(id);
            assert(gone[k] == id);
            assert(out[k]@ == s.close(session@).departure(id));
        }
        assert forall|k: int, r: Recipient| 0 <= k < out.len() implies (
        #[trigger] out[k].to@.contains(r) <==> {
            &&& s.peers.contains_key(r.user_id)
            &&& s.peers[r.user_id].conn == r.conn
            &&& r.user_id != session.user_id
            &&& !(session.former@.contains(r.user_id) && r.conn == session.conn)
        }) by {
            assert(out[k]@ == s.close(session@).departure(gone[k]));
            assert(out[k].to@.to_set().contains(r) <==> s.close(session@).everyone_but(
                None,
            ).contains(r));
        }
        assert forall|k: int, i: int, j: int|
            0 <= k < out.len() && 0 <= i < j < out[k].to@.len() implies #[trigger] out[k].to@[i].user_id
            != #[trigger] out[k].to@[j].user_id by {
            assert(out[k].once_each());
        }
    }
}

/// The identities that a connection had before are announced in the order in which
/// it had them, and so each once where it had each once.
pub proof fn law_departures_are_announced_in_order(
    s: StateView,
    session: Session,
    frame: Frame,
    ts: i64,
    out: Seq<Outgoing>,
    j: int,
    k: int,
)
    requires
        frame is Close || frame is Lost,
        crate::messages::delivers(out, s.frame_replies(session@, frame@, ts)),
        1 <= j < k < out.len(),
    ensures
        exists|a: int, b: int|
            0 <= a < b < session.former@.len() && out[j].msg == (ServerMsg::PeerLeft {
                user_id: #[trigger] session.former@[a],
            }) && out[k].msg == (ServerMsg::PeerLeft { user_id: #[trigger] session.former@[b] }),
        (forall|a: int, b: int|
            0 <= a < b < session.former@.len() ==> session.former@[a] != session.former@[b])
            ==> out[j].msg != out[k].msg,
{
    let pred = |id: UserId|
        id != session.user_id && s.reaches(Recipient { user_id: id, conn: session.conn });
    let also = session.former@.filter(pred);
    let expected = s.frame_replies(session@, frame@, ts);
    assert(also == s.also_leaving(session@));
    assert(out[j]@ == expected[j]);
    assert(out[k]@ == expected[k]);
    let gone = seq![session.user_id] + also;
    assert(gone[j] == also[j - 1]);
    assert(gone[k] == also[k - 1]);
    let (a, b) = lemma_filter_keeps_order(session.former@, pred, j - 1, k - 1);
    assert(out[j].msg == ServerMsg::PeerLeft { user_id: session.former@[a] });
    assert(out[k].msg == ServerMsg::PeerLeft { user_id: session.former@[b] });
}

/// A session changes by hello alone: it takes over the identity claimed, if any, and
/// the name, counts as registered, and remembers the identity it had if it was
/// registered under another, behind those that it remembers already, and once. Its
/// connection never changes.
pub proof fn law_hello_alone_changes_a_session(session: Session, next: Session, frame: Frame)
    requires
        next@ == session@.after_frame(frame@),
    ensures
        next.conn == session.conn,
        match frame {
            Frame::Message(ClientMsg::Hello { username, user_id }) => {
                let id = if user_id is Some {
                    user_id->0
                } else {
                    session.user_id
                };
                &&& next.user_id == id
                &&& next.username@ == username@
                &&& next.registered
                &&& forall|x: UserId| #[trigger]
                    next.former@.contains(x) <==> session.former@.contains(x) || (session.registered
                        && x == session.user_id && x != id)
                &&& next.former@.len() == session.former@.len() + (if session.registered && id
                    != session.user_id && !session.former@.contains(session.user_id) {
                    1int
                } else {
                    0int
                })
                &&& forall|i: int|
                    0 <= i < session.former@.len() ==> next.former@[i] == session.former@[i]
            },
            _ => {
                &&& next.user_id == session.user_id
                &&& next.username@ == session.username@
                &&& next.registered == session.registered
                &&& next.former@ == session.former@
            },
        },
{
    assert forall|x: UserId| session.former@.contains(x) implies next.former@.contains(x) by {
        assert(next.former@[session.former@.index_of(x)] == x);
    }
    if next.former@.len() > session.former@.len() {
        assert(next.former@[session.former@.len() as int] == session.user_id);
    }
}

/// A connection is over when the client closes it or it is lost, and only then.
pub proof fn law_close_and_loss_end_a_connection(frame: Frame)
    ensures
        frame@.ends() <==> frame is Close || frame is Lost,
{
}

/// A frame that is a message does what the message does, and one that ends the
/// connection does what its end does.
pub proof fn law_frames_do_what_they_hold(s: StateView, session: Session, msg: ClientMsg, ts: i64)
    ensures
        s.after_frame(session@, Frame::Message(msg)@) == s.after(session@, msg@),
        s.frame_replies(session@, Frame::Message(msg)@, ts) == s.replies(session@, msg@, ts),
        session@.after_frame(Frame::Message(msg)@) == session@.after(msg@),
        s.after_frame(session@, Frame::Close@) == s.close(session@),
        s.after_frame(session@, Frame::Lost@) == s.close(session@),
        s.frame_replies(session@, Frame::Close@, ts) == s.farewell(session@),
        s.frame_replies(session@, Frame::Lost@, ts) == s.farewell(session@),
{
}

/// In a consistent state exactly those online have a list of channels, and a user is
/// in every channel on their list; and a state of which this holds is consistent.
pub proof fn law_what_consistency_says(s: StateView)
    ensures
        s.consistent() <==> {
            &&& forall|id: UserId| #[trigger]
                s.peers.contains_key(id) <==> s.peer_channels.contains_key(id)
            &&& forall|id: UserId, c: Seq<char>|
                s.peer_channels.contains_key(id) && #[trigger] s.peer_channels[id].contains(c)
                    ==> s.channels.contains_key(c) && s.channels[c].contains(id)
        },
{
    if s.consistent() {
        assert forall|id: UserId| #[trigger] s.peers.contains_key(id)
            <==> s.peer_channels.contains_key(id) by {
            assert(s.peers.dom().contains(id) <==> s.peer_channels.dom().contains(id));
        }
        assert forall|id: UserId, c: Seq<char>|
            s.peer_channels.contains_key(id) && #[trigger] s.peer_channels[id].contains(
                c,
            ) implies s.channels.contains_key(c) && s.channels[c].contains(id) by {
            assert(s.recorded(id, c));
        }
    }
    if {
        &&& forall|id: UserId| #[trigger]
            s.peers.contains_key(id) <==> s.peer_channels.contains_key(id)
        &&& forall|id: UserId, c: Seq<char>|
            s.peer_channels.contains_key(id) && #[trigger] s.peer_channels[id].contains(c)
                ==> s.channels.contains_key(c) && s.channels[c].contains(id)
    } {
        assert forall|id: UserId| s.peers.dom().contains(id) <==> s.peer_channels.dom().contains(
            id,
        ) by {
            assert(s.peers.contains_key(id) <==> s.peer_channels.contains_key(id));
        }
        assert(s.peers.dom() =~= s.peer_channels.dom());
    }
}

} // verus!
