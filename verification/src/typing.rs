//! Who is typing in which text channel, as the client shows it.
//!
//! Every typing notification refreshes a peer's entry and schedules its
//! expiry; an expiry only removes the entry if no newer notification from
//! that peer arrived since it was scheduled. A delivered post clears its
//! author. Channels with nobody typing are dropped.

use vstd::prelude::*;
use std::collections::HashMap;
use indexmap::IndexMap;

verus! {

broadcast use vstd::std_specs::hash::group_hash_axioms;

#[verifier::external_type_specification]
#[verifier::external_body]
#[verifier::reject_recursive_types(K)]
#[verifier::reject_recursive_types(V)]
#[verifier::reject_recursive_types(S)]
pub struct ExIndexMap<K, V, S>(IndexMap<K, V, S>);

/// A peer who is typing, with the number of the notification that last
/// refreshed it.
#[derive(Debug)]
pub struct TypingPeer {
    pub name: String,
    pub seq: u64,
}

/// The entries of a channel's typing map, in insertion order, as
/// (user id, name, notification number).
pub uninterp spec fn typing_entries(m: IndexMap<u128, TypingPeer>) -> Seq<(u128, Seq<char>, u64)>;

/// No user id occurs twice.
pub open spec fn users_distinct(s: Seq<(u128, Seq<char>, u64)>) -> bool {
    forall|i: int, j: int| 0 <= i < s.len() && 0 <= j < s.len() && i != j ==> #[trigger] s[i].0 != #[trigger] s[j].0
}

/// `u` has an entry in `s`.
pub open spec fn has_user(s: Seq<(u128, Seq<char>, u64)>, u: u128) -> bool {
    exists|i: int| 0 <= i < s.len() && #[trigger] s[i].0 == u
}

/// The position of `u`'s entry in `s` (meaningful when `has_user(s, u)`).
pub open spec fn user_index(s: Seq<(u128, Seq<char>, u64)>, u: u128) -> int {
    choose|i: int| 0 <= i < s.len() && #[trigger] s[i].0 == u
}

/// `s` without the entries whose name is `name`, order kept.
pub open spec fn without_name(s: Seq<(u128, Seq<char>, u64)>, name: Seq<char>) -> Seq<(u128, Seq<char>, u64)>
    decreases s.len(),
{
    if s.len() == 0 {
        s
    } else {
        let rest = without_name(s.drop_last(), name);
        if s.last().1 == name { rest } else { rest.push(s.last()) }
    }
}

/// `IndexMap::new`: an empty map.
#[verifier::external_body]
fn map_new() -> (m: IndexMap<u128, TypingPeer>)
    ensures
        typing_entries(m) == Seq::<(u128, Seq<char>, u64)>::empty(),
{
    IndexMap::new()
}

/// `IndexMap::insert`: an existing key keeps its place and gets the new
/// value; a new key goes last.
#[verifier::external_body]
fn map_insert(m: &mut IndexMap<u128, TypingPeer>, k: u128, v: TypingPeer)
    requires
        users_distinct(typing_entries(*old(m))),
    ensures
        has_user(typing_entries(*old(m)), k) ==> typing_entries(*final(m)) == typing_entries(*old(m)).update(
            user_index(typing_entries(*old(m)), k),
            (k, v.name@, v.seq),
        ),
        !has_user(typing_entries(*old(m)), k) ==> typing_entries(*final(m)) == typing_entries(*old(m)).push((k, v.name@, v.seq)),
{
    m.insert(k, v);
}

/// `IndexMap::shift_remove`: removes the key's entry, keeping the order of
/// the others.
#[verifier::external_body]
fn map_shift_remove(m: &mut IndexMap<u128, TypingPeer>, k: u128)
    requires
        users_distinct(typing_entries(*old(m))),
    ensures
        has_user(typing_entries(*old(m)), k) ==> typing_entries(*final(m)) == typing_entries(*old(m)).remove(
            user_index(typing_entries(*old(m)), k),
        ),
        !has_user(typing_entries(*old(m)), k) ==> typing_entries(*final(m)) == typing_entries(*old(m)),
{
    m.shift_remove(&k);
}

/// `IndexMap::get`, reduced to the notification number of the key's entry.
#[verifier::external_body]
fn map_seq_of(m: &IndexMap<u128, TypingPeer>, k: u128) -> (r: Option<u64>)
    requires
        users_distinct(typing_entries(*m)),
    ensures
        has_user(typing_entries(*m), k) ==> r == Some(typing_entries(*m)[user_index(typing_entries(*m), k)].2),
        !has_user(typing_entries(*m), k) ==> r.is_none(),
{
    match m.get(&k) {
        Some(p) => Some(p.seq),
        None => None,
    }
}

/// `IndexMap::is_empty`.
#[verifier::external_body]
fn map_is_empty(m: &IndexMap<u128, TypingPeer>) -> (r: bool)
    ensures
        r == (typing_entries(*m).len() == 0),
{
    m.is_empty()
}

/// Whether a typing peer is kept when a post by `author` is delivered.
fn keeps_peer(peer: &TypingPeer, author: &String) -> (r: bool)
    ensures
        r == (peer.name@ != author@),
{
    !(peer.name == *author)
}

/// `IndexMap::retain` with the rule `keeps_peer`: entries are visited in
/// order and the kept ones keep their order.
#[verifier::external_body]
fn map_retain_not_named(m: &mut IndexMap<u128, TypingPeer>, author: &String)
    ensures
        typing_entries(*final(m)) == without_name(typing_entries(*old(m)), author@),
{
    m.retain(|_, p| keeps_peer(p, author));
}

/// `IndexMap::len`.
#[verifier::external_body]
fn map_len(m: &IndexMap<u128, TypingPeer>) -> (n: usize)
    ensures
        n == typing_entries(*m).len(),
{
    m.len()
}

/// Indexing an `IndexMap` by position: the peer at `i`.
#[verifier::external_body]
fn map_peer_at(m: &IndexMap<u128, TypingPeer>, i: usize) -> (p: &TypingPeer)
    requires
        i < typing_entries(*m).len(),
    ensures
        p.name@ == typing_entries(*m)[i as int].1,
        p.seq == typing_entries(*m)[i as int].2,
{
    &m[i]
}

proof fn lemma_without_name_keeps_distinct(s: Seq<(u128, Seq<char>, u64)>, name: Seq<char>)
    requires
        users_distinct(s),
    ensures
        users_distinct(without_name(s, name)),
        forall|i: int| 0 <= i < without_name(s, name).len() ==> s.contains(#[trigger] without_name(s, name)[i]),
    decreases s.len(),
{
    if s.len() > 0 {
        let d = s.drop_last();
        assert(users_distinct(d));
        lemma_without_name_keeps_distinct(d, name);
        let r = without_name(d, name);
        assert forall|i: int| 0 <= i < r.len() implies s.contains(#[trigger] r[i]) by {
            let j = choose|j: int| 0 <= j < d.len() && d[j] == r[i];
            assert(s[j] == r[i]);
        }
        if s.last().1 != name {
            let q = r.push(s.last());
            assert forall|i: int, j: int| 0 <= i < q.len() && 0 <= j < q.len() && i != j
                implies #[trigger] q[i].0 != #[trigger] q[j].0 by {
                if i < r.len() && j < r.len() {
                } else if i == r.len() {
                    let k = choose|k: int| 0 <= k < d.len() && d[k] == r[j];
                    assert(s[k].0 != s[s.len() - 1].0);
                } else {
                    let k = choose|k: int| 0 <= k < d.len() && d[k] == r[i];
                    assert(s[k].0 != s[s.len() - 1].0);
                }
            }
            assert forall|i: int| 0 <= i < q.len() implies s.contains(#[trigger] q[i]) by {
                if i == r.len() {
                    assert(s[s.len() - 1] == q[i]);
                }
            }
        }
    }
}

/// The typing map after notification `seq` of `user_id` (called `name`) in
/// `channel`: an existing entry is refreshed in place, a new one goes last.
pub open spec fn typing_spec(
    v: Map<u128, Seq<(u128, Seq<char>, u64)>>,
    channel: u128,
    user_id: u128,
    name: Seq<char>,
    seq: u64,
) -> Map<u128, Seq<(u128, Seq<char>, u64)>> {
    if !v.contains_key(channel) {
        v.insert(channel, seq![(user_id, name, seq)])
    } else if has_user(v[channel], user_id) {
        v.insert(channel, v[channel].update(user_index(v[channel], user_id), (user_id, name, seq)))
    } else {
        v.insert(channel, v[channel].push((user_id, name, seq)))
    }
}

/// The typing map after the expiry scheduled for notification `seq` of
/// `user_id` in `channel`: the entry goes only if it still carries `seq`,
/// and a channel left empty goes with it.
pub open spec fn expire_spec(
    v: Map<u128, Seq<(u128, Seq<char>, u64)>>,
    channel: u128,
    user_id: u128,
    seq: u64,
) -> Map<u128, Seq<(u128, Seq<char>, u64)>> {
    if v.contains_key(channel) && has_user(v[channel], user_id)
        && v[channel][user_index(v[channel], user_id)].2 == seq {
        let rest = v[channel].remove(user_index(v[channel], user_id));
        if rest.len() == 0 {
            v.remove(channel)
        } else {
            v.insert(channel, rest)
        }
    } else {
        v
    }
}

/// The typing map after a post by `author` was delivered in `channel`: the
/// author's entries go, and a channel left empty goes with them.
pub open spec fn clear_author_spec(
    v: Map<u128, Seq<(u128, Seq<char>, u64)>>,
    channel: u128,
    author: Seq<char>,
) -> Map<u128, Seq<(u128, Seq<char>, u64)>> {
    if v.contains_key(channel) {
        let rest = without_name(v[channel], author);
        if rest.len() == 0 {
            v.remove(channel)
        } else {
            v.insert(channel, rest)
        }
    } else {
        v
    }
}

/// Typing state of all channels.
pub struct TypingTracker {
    channels: HashMap<u128, IndexMap<u128, TypingPeer>>,
    seq: u64,
}

/// The tracker's channels are never empty and never list a user twice.
pub open spec fn tracker_ok(channels: Map<u128, IndexMap<u128, TypingPeer>>) -> bool {
    forall|c: u128| #[trigger] channels.contains_key(c) ==> {
        &&& typing_entries(channels[c]).len() > 0
        &&& users_distinct(typing_entries(channels[c]))
    }
}

impl TypingTracker {
    #[verifier::type_invariant]
    spec fn inv(self) -> bool {
        tracker_ok(self.channels@)
    }

    /// Who is typing in each channel that has someone typing.
    pub closed spec fn view(&self) -> Map<u128, Seq<(u128, Seq<char>, u64)>> {
        Map::new(|c: u128| self.channels@.contains_key(c), |c: u128| typing_entries(self.channels@[c]))
    }

    /// The number of the last typing notification.
    pub closed spec fn last_seq(&self) -> u64 {
        self.seq
    }

    pub fn new() -> (t: TypingTracker)
        ensures
            t@ == Map::<u128, Seq<(u128, Seq<char>, u64)>>::empty(),
            t.last_seq() == 0,
    {
        let t = TypingTracker { channels: HashMap::new(), seq: 0 };
        assert(t@ =~= Map::<u128, Seq<(u128, Seq<char>, u64)>>::empty());
        t
    }

    /// `name` (user `user_id`) is typing in `channel`. Returns the number of
    /// this notification, to hand to `expire` when its timeout elapses.
    pub fn typing(&mut self, channel: u128, user_id: u128, name: String) -> (seq: u64)
        requires
            old(self).last_seq() < u64::MAX,
        ensures
            seq == old(self).last_seq() + 1,
            final(self).last_seq() == seq,
            final(self)@ == typing_spec(old(self)@, channel, user_id, name@, seq),
    {
        proof { use_type_invariant(&*self); }
        let seq = self.seq + 1;
        let mut channels: HashMap<u128, IndexMap<u128, TypingPeer>> = HashMap::new();
        std::mem::swap(&mut channels, &mut self.channels);
        let ghost before = channels@;
        let mut peers = match channels.remove(&channel) {
            Some(p) => p,
            None => map_new(),
        };
        let ghost old_peers = typing_entries(peers);
        proof {
            assert(users_distinct(old_peers));
        }
        map_insert(&mut peers, user_id, TypingPeer { name, seq });
        proof {
            let e = typing_entries(peers);
            assert(e.len() > 0);
            assert(users_distinct(e)) by {
                if has_user(old_peers, user_id) {
                    let k = user_index(old_peers, user_id);
                    assert forall|i: int, j: int| 0 <= i < e.len() && 0 <= j < e.len() && i != j
                        implies #[trigger] e[i].0 != #[trigger] e[j].0 by {
                        assert(e[i].0 == old_peers[i].0);
                        assert(e[j].0 == old_peers[j].0);
                    }
                } else {
                    assert forall|i: int, j: int| 0 <= i < e.len() && 0 <= j < e.len() && i != j
                        implies #[trigger] e[i].0 != #[trigger] e[j].0 by {
                        if i == old_peers.len() {
                            assert(old_peers[j].0 != user_id);
                        } else if j == old_peers.len() {
                            assert(old_peers[i].0 != user_id);
                        }
                    }
                }
            }
            if !before.contains_key(channel) {
                assert(e =~= seq![(user_id, name@, seq)]);
            }
        }
        channels.insert(channel, peers);
        proof {
            assert forall|c: u128| #[trigger] channels@.contains_key(c) implies {
                &&& typing_entries(channels@[c]).len() > 0
                &&& users_distinct(typing_entries(channels@[c]))
            } by {
                if c != channel {
                    assert(before.contains_key(c));
                }
            }
        }
        self.channels = channels;
        self.seq = seq;
        proof {
            assert(self@.dom() =~= old(self)@.dom().insert(channel));
        }
        seq
    }

    /// The expiry scheduled for notification `seq` of `user_id` in `channel`
    /// fired. The entry goes only if that peer has not typed again since.
    pub fn expire(&mut self, channel: u128, user_id: u128, seq: u64)
        ensures
            final(self).last_seq() == old(self).last_seq(),
            final(self)@ == expire_spec(old(self)@, channel, user_id, seq),
    {
        proof { use_type_invariant(&*self); }
        let mut channels: HashMap<u128, IndexMap<u128, TypingPeer>> = HashMap::new();
        std::mem::swap(&mut channels, &mut self.channels);
        let ghost before = channels@;
        let mut peers = match channels.remove(&channel) {
            Some(p) => p,
            None => {
                self.channels = channels;
                proof { assert(self@ =~= old(self)@); }
                return;
            },
        };
        let ghost old_peers = typing_entries(peers);
        if map_seq_of(&peers, user_id) == Some(seq) {
            map_shift_remove(&mut peers, user_id);
        }
        let ghost new_peers = typing_entries(peers);
        proof {
            assert(users_distinct(new_peers)) by {
                if new_peers != old_peers {
                    let k = user_index(old_peers, user_id);
                    assert forall|i: int, j: int| 0 <= i < new_peers.len() && 0 <= j < new_peers.len() && i != j
                        implies #[trigger] new_peers[i].0 != #[trigger] new_peers[j].0 by {
                        let i2 = if i < k { i } else { i + 1 };
                        let j2 = if j < k { j } else { j + 1 };
                        assert(new_peers[i] == old_peers[i2]);
                        assert(new_peers[j] == old_peers[j2]);
                    }
                }
            }
        }
        if map_is_empty(&peers) {
            self.channels = channels;
            proof {
                assert(self@ =~= old(self)@.remove(channel));
            }
        } else {
            channels.insert(channel, peers);
            proof {
                assert forall|c: u128| #[trigger] channels@.contains_key(c) implies {
                    &&& typing_entries(channels@[c]).len() > 0
                    &&& users_distinct(typing_entries(channels@[c]))
                } by {
                    if c != channel {
                        assert(before.contains_key(c));
                    }
                }
            }
            self.channels = channels;
            proof {
                if new_peers == old_peers {
                    assert(self@ =~= old(self)@);
                } else {
                    assert(self@ =~= old(self)@.insert(channel, new_peers));
                }
            }
        }
    }

    /// A post by `author` was delivered in `channel`: its author stopped
    /// typing (posts carry no user id, so peers are matched by name).
    pub fn post_delivered(&mut self, channel: u128, author: &String)
        ensures
            final(self).last_seq() == old(self).last_seq(),
            final(self)@ == clear_author_spec(old(self)@, channel, author@),
    {
        proof { use_type_invariant(&*self); }
        let mut channels: HashMap<u128, IndexMap<u128, TypingPeer>> = HashMap::new();
        std::mem::swap(&mut channels, &mut self.channels);
        let ghost before = channels@;
        let mut peers = match channels.remove(&channel) {
            Some(p) => p,
            None => {
                self.channels = channels;
                proof { assert(self@ =~= old(self)@); }
                return;
            },
        };
        let ghost old_peers = typing_entries(peers);
        map_retain_not_named(&mut peers, author);
        proof { lemma_without_name_keeps_distinct(old_peers, author@); }
        if map_is_empty(&peers) {
            self.channels = channels;
            proof { assert(self@ =~= old(self)@.remove(channel)); }
        } else {
            channels.insert(channel, peers);
            proof {
                assert forall|c: u128| #[trigger] channels@.contains_key(c) implies {
                    &&& typing_entries(channels@[c]).len() > 0
                    &&& users_distinct(typing_entries(channels@[c]))
                } by {
                    if c != channel {
                        assert(before.contains_key(c));
                    }
                }
            }
            self.channels = channels;
            proof { assert(self@ =~= old(self)@.insert(channel, without_name(old_peers, author@))); }
        }
    }

    /// The names of the peers typing in `channel`, in the order they started.
    pub fn names(&self, channel: u128) -> (r: Vec<String>)
        ensures
            self@.contains_key(channel) ==> r@.len() == self@[channel].len()
                && forall|i: int| 0 <= i < r@.len() ==> #[trigger] r@[i]@ == self@[channel][i].1,
            !self@.contains_key(channel) ==> r@.len() == 0,
    {
        let peers = match self.channels.get(&channel) {
            Some(peers) => peers,
            None => return Vec::new(),
        };
        let n = map_len(peers);
        let mut r: Vec<String> = Vec::new();
        let mut i: usize = 0;
        while i < n
            invariant
                n == typing_entries(*peers).len(),
                i <= n,
                r@.len() == i,
                forall|k: int| 0 <= k < i ==> #[trigger] r@[k]@ == typing_entries(*peers)[k].1,
            decreases n - i,
        {
            r.push(map_peer_at(peers, i).name.clone());
            i += 1;
        }
        r
    }
}

/// An expiry scheduled for an older notification leaves a peer who typed
/// again in place: only the latest notification's expiry removes it.
pub proof fn lemma_refreshed_peer_survives_old_expiry(
    v: Map<u128, Seq<(u128, Seq<char>, u64)>>,
    channel: u128,
    user_id: u128,
    name: Seq<char>,
    seq: u64,
    older: u64,
)
    requires
        v.contains_key(channel) ==> users_distinct(v[channel]),
        older != seq,
    ensures
        expire_spec(typing_spec(v, channel, user_id, name, seq), channel, user_id, older)
            == typing_spec(v, channel, user_id, name, seq),
{
    lemma_typing_entry_carries_seq(v, channel, user_id, name, seq);
}

/// After a notification, the peer's entry in its channel carries that
/// notification's number.
proof fn lemma_typing_entry_carries_seq(
    v: Map<u128, Seq<(u128, Seq<char>, u64)>>,
    channel: u128,
    user_id: u128,
    name: Seq<char>,
    seq: u64,
)
    requires
        v.contains_key(channel) ==> users_distinct(v[channel]),
    ensures
        ({
            let t = typing_spec(v, channel, user_id, name, seq);
            &&& t.contains_key(channel)
            &&& users_distinct(t[channel])
            &&& has_user(t[channel], user_id)
            &&& t[channel][user_index(t[channel], user_id)] == (user_id, name, seq)
        }),
{
    let t = typing_spec(v, channel, user_id, name, seq);
    let e = t[channel];
    if !v.contains_key(channel) {
        assert(e[0].0 == user_id);
    } else if has_user(v[channel], user_id) {
        let o = v[channel];
        let k = user_index(o, user_id);
        assert(e[k].0 == user_id);
        assert forall|i: int, j: int| 0 <= i < e.len() && 0 <= j < e.len() && i != j
            implies #[trigger] e[i].0 != #[trigger] e[j].0 by {
            assert(e[i].0 == o[i].0);
            assert(e[j].0 == o[j].0);
        }
    } else {
        let o = v[channel];
        assert(e[o.len() as int].0 == user_id);
        assert forall|i: int, j: int| 0 <= i < e.len() && 0 <= j < e.len() && i != j
            implies #[trigger] e[i].0 != #[trigger] e[j].0 by {
            if i == o.len() {
                assert(o[j].0 != user_id);
            } else if j == o.len() {
                assert(o[i].0 != user_id);
            }
        }
    }
}

/// The expiry of the latest notification removes the peer it announced.
pub proof fn lemma_latest_expiry_removes_peer(
    v: Map<u128, Seq<(u128, Seq<char>, u64)>>,
    channel: u128,
    user_id: u128,
    name: Seq<char>,
    seq: u64,
)
    requires
        v.contains_key(channel) ==> users_distinct(v[channel]),
    ensures
        ({
            let after = expire_spec(typing_spec(v, channel, user_id, name, seq), channel, user_id, seq);
            after.contains_key(channel) ==> !has_user(after[channel], user_id)
        }),
{
    lemma_typing_entry_carries_seq(v, channel, user_id, name, seq);
    let t = typing_spec(v, channel, user_id, name, seq);
    let e = t[channel];
    let k = user_index(e, user_id);
    let rest = e.remove(k);
    if rest.len() > 0 {
        assert forall|i: int| 0 <= i < rest.len() implies #[trigger] rest[i].0 != user_id by {
            let i2 = if i < k { i } else { i + 1 };
            assert(rest[i] == e[i2]);
        }
    }
}

} // verus!
