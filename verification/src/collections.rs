//! The three tables of the relay, each a collection of the `dashmap` crate.
//!
//! `DashMap` and `DashSet` change through shared references. Here every function
//! that changes a table takes it by `&mut`, so that while a table is held by a
//! shared reference what it holds stays the same, no lock of it is taken by
//! anyone else, and a name for its contents makes sense. A lock guard of `dashmap`
//! never leaves a function: what has to be done under one guard is one function.
//!
//! All three tables hash with a seed of their own, so nothing is said of the order
//! in which they list what they hold.

use vstd::prelude::*;

use crate::ids::{ConnId, UserId};
use crate::model::PeerView;
use dashmap::{DashMap, DashSet};

verus! {

/// A hash table that can be shared between threads.
#[verifier::external_type_specification]
#[verifier::external_body]
#[verifier::reject_recursive_types(K)]
#[verifier::reject_recursive_types(V)]
#[verifier::reject_recursive_types(S)]
pub struct ExDashMap<K, V, S>(dashmap::DashMap<K, V, S>);

/// A hash set that can be shared between threads.
#[verifier::external_type_specification]
#[verifier::external_body]
#[verifier::reject_recursive_types(K)]
#[verifier::reject_recursive_types(S)]
pub struct ExDashSet<K, S>(dashmap::DashSet<K, S>);

/// Someone who is online.
#[derive(Debug)]
pub struct Peer {
    pub username: String,
    pub conn: ConnId,
}

impl View for Peer {
    type V = PeerView;

    open spec fn view(&self) -> PeerView {
        PeerView { username: self.username@, conn: self.conn }
    }
}

/// What the table of those online holds.
pub uninterp spec fn peers_held(peers: DashMap<UserId, Peer>) -> Map<UserId, PeerView>;

/// What the table of channels holds: the members of each.
pub uninterp spec fn channels_held(channels: DashMap<String, DashSet<UserId>>) -> Map<
    Seq<char>,
    Set<UserId>,
>;

/// What the table of channel lists holds: the channels on each user's list.
pub uninterp spec fn lists_held(lists: DashMap<UserId, DashSet<String>>) -> Map<
    UserId,
    Set<Seq<char>>,
>;

/// `list` has an entry for each key of `held`, with its value, and no other.
pub open spec fn lists_peers(list: Seq<(UserId, Peer)>, held: Map<UserId, PeerView>) -> bool {
    &&& forall|i: int|
        0 <= i < list.len() ==> held.contains_key((#[trigger] list[i]).0) && held[list[i].0]
            == list[i].1@
    &&& forall|i: int, j: int|
        0 <= i < j < list.len() ==> (#[trigger] list[i]).0 != (#[trigger] list[j]).0
    &&& forall|id: UserId| #[trigger]
        held.contains_key(id) ==> exists|i: int| 0 <= i < list.len() && (#[trigger] list[i]).0 == id
}

/// `DashMap::new`: the table holds nothing.
#[verifier::external_body]
pub(crate) fn peers_new() -> (peers: DashMap<UserId, Peer>)
    ensures
        (peers_held(peers) == Map::<UserId, PeerView>::empty()),
{
    DashMap::new()
}

/// `DashMap::insert`: the key now has this value, whether or not it had another.
#[verifier::external_body]
pub(crate) fn peers_insert(peers: &mut DashMap<UserId, Peer>, id: UserId, peer: Peer)
    ensures
        peers_held(*final(peers)) == peers_held(*old(peers)).insert(id, peer@),
{
    peers.insert(id, peer);
}

/// `DashMap::remove`: the key has no value any more, if it had one.
#[verifier::external_body]
pub(crate) fn peers_remove(peers: &mut DashMap<UserId, Peer>, id: UserId)
    ensures
        peers_held(*final(peers)) == peers_held(*old(peers)).remove(id),
{
    peers.remove(&id);
}

/// `DashMap::get`: the value of the key, of which the connection is kept.
#[verifier::external_body]
pub(crate) fn peers_get(peers: &DashMap<UserId, Peer>, id: UserId) -> (conn: Option<ConnId>)
    ensures
        conn is Some <==> peers_held(*peers).contains_key(id),
        conn is Some ==> conn->0 == peers_held(*peers)[id].conn,
{
    peers.get(&id).map(|peer| peer.conn)
}

/// `DashMap::iter`: every key with its value, each once.
#[verifier::external_body]
pub(crate) fn peers_iter(peers: &DashMap<UserId, Peer>) -> (list: Vec<(UserId, Peer)>)
    ensures
        lists_peers(list@, peers_held(*peers)),
{
    peers.iter().map(
        |e| (*e.key(), Peer { username: e.value().username.clone(), conn: e.value().conn }),
    ).collect()
}

/// `DashMap::new`: the table holds nothing.
#[verifier::external_body]
pub(crate) fn channels_new() -> (channels: DashMap<String, DashSet<UserId>>)
    ensures
        (channels_held(channels) == Map::<Seq<char>, Set<UserId>>::empty()),
{
    DashMap::new()
}

/// `DashMap::contains_key`.
#[verifier::external_body]
pub(crate) fn channels_contains(
    channels: &DashMap<String, DashSet<UserId>>,
    channel_id: &str,
) -> (found: bool)
    ensures
        found == channels_held(*channels).contains_key(channel_id@),
{
    channels.contains_key(channel_id)
}

/// `DashMap::entry` and `Entry::or_default`, then `DashSet::insert` on the set they
/// find or make: the set of the key, which is empty where there was none, now holds
/// `id` besides what it held.
#[verifier::external_body]
pub(crate) fn channels_add(
    channels: &mut DashMap<String, DashSet<UserId>>,
    channel_id: String,
    id: UserId,
)
    ensures
        channels_held(*old(channels)).contains_key(channel_id@) ==> channels_held(*final(channels))
            == channels_held(*old(channels)).insert(
            channel_id@,
            channels_held(*old(channels))[channel_id@].insert(id),
        ),
        !channels_held(*old(channels)).contains_key(channel_id@) ==> channels_held(*final(channels))
            == channels_held(*old(channels)).insert(channel_id@, Set::empty().insert(id)),
{
    channels.entry(channel_id).or_default().insert(id);
}

/// `DashMap::get`, then `DashSet::remove` on the set it finds: the set of the key
/// does not hold `id` any more. The key stays, even with an empty set.
#[verifier::external_body]
pub(crate) fn channels_drop(
    channels: &mut DashMap<String, DashSet<UserId>>,
    channel_id: &str,
    id: UserId,
)
    requires
        channels_held(*old(channels)).contains_key(channel_id@),
    ensures
        channels_held(*final(channels)) == channels_held(*old(channels)).insert(
            channel_id@,
            channels_held(*old(channels))[channel_id@].remove(id),
        ),
{
    channels.get(channel_id).unwrap().remove(&id);
}

/// `DashMap::get`, then `DashSet::iter` on the set it finds: every member of the
/// set of the key, each once, or `None` where the key has no set.
#[verifier::external_body]
pub(crate) fn channels_members(
    channels: &DashMap<String, DashSet<UserId>>,
    channel_id: &str,
) -> (members: Option<Vec<UserId>>)
    ensures
        members is Some <==> channels_held(*channels).contains_key(channel_id@),
        members is Some ==> members->0@.no_duplicates(),
        members is Some ==> members->0@.to_set() == channels_held(*channels)[channel_id@],
{
    channels.get(channel_id).map(|members| members.iter().map(|m| *m).collect())
}

/// `DashMap::iter`: every key, each once.
#[verifier::external_body]
pub(crate) fn channels_names(channels: &DashMap<String, DashSet<UserId>>) -> (names: Vec<String>)
    ensures
        names@.map_values(|name: String| name@).no_duplicates(),
        names@.map_values(|name: String| name@).to_set() == channels_held(*channels).dom(),
{
    channels.iter().map(|e| e.key().clone()).collect()
}

/// `DashMap::new`: the table holds nothing.
#[verifier::external_body]
pub(crate) fn lists_new() -> (lists: DashMap<UserId, DashSet<String>>)
    ensures
        (lists_held(lists) == Map::<UserId, Set<Seq<char>>>::empty()),
{
    DashMap::new()
}

/// `DashMap::contains_key`.
#[verifier::external_body]
pub(crate) fn lists_contains(lists: &DashMap<UserId, DashSet<String>>, id: UserId) -> (found: bool)
    ensures
        found == lists_held(*lists).contains_key(id),
{
    lists.contains_key(&id)
}

/// `DashMap::insert` of a `DashSet::new`: the key now has an empty set, whether or
/// not it had another.
#[verifier::external_body]
pub(crate) fn lists_reset(lists: &mut DashMap<UserId, DashSet<String>>, id: UserId)
    ensures
        lists_held(*final(lists)) == lists_held(*old(lists)).insert(id, Set::empty()),
{
    lists.insert(id, DashSet::new());
}

/// `DashMap::get`, then `DashSet::insert` on the set it finds: the set of the key
/// now holds the channel besides what it held.
#[verifier::external_body]
pub(crate) fn lists_add(
    lists: &mut DashMap<UserId, DashSet<String>>,
    id: UserId,
    channel_id: String,
)
    requires
        lists_held(*old(lists)).contains_key(id),
    ensures
        lists_held(*final(lists)) == lists_held(*old(lists)).insert(
            id,
            lists_held(*old(lists))[id].insert(channel_id@),
        ),
{
    lists.get(&id).unwrap().insert(channel_id);
}

/// `DashMap::get`, then `DashSet::remove` on the set it finds: the set of the key
/// does not hold the channel any more.
#[verifier::external_body]
pub(crate) fn lists_drop(
    lists: &mut DashMap<UserId, DashSet<String>>,
    id: UserId,
    channel_id: &str,
)
    requires
        lists_held(*old(lists)).contains_key(id),
    ensures
        lists_held(*final(lists)) == lists_held(*old(lists)).insert(
            id,
            lists_held(*old(lists))[id].remove(channel_id@),
        ),
{
    lists.get(&id).unwrap().remove(channel_id);
}

/// `DashMap::remove`: the key has no set any more, if it had one.
#[verifier::external_body]
pub(crate) fn lists_remove(lists: &mut DashMap<UserId, DashSet<String>>, id: UserId)
    ensures
        lists_held(*final(lists)) == lists_held(*old(lists)).remove(id),
{
    lists.remove(&id);
}

} // verus!
