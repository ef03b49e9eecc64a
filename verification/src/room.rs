//! Membership of one voice room on the relay, and who gets which presence
//! snapshot.
//!
//! A room maps each peer (keyed by user id) to its participant record. The
//! relay's media objects for a participant travel along as an opaque handle
//! `P`; the room only decides membership and presence.

use vstd::prelude::*;
use crate::domain::{DisplayVoiceUser, User};
use crate::convert::{id_to_string, lemma_uuid_text_injective, lemma_uuid_text_len, uuid_text};

verus! {

/// One participant of a room.
pub struct Participant<P> {
    pub peer_id: u128,
    pub user: User,
    /// The voice-stream connection that created this participant. A user who
    /// reconnects rejoins under the same peer id on a new connection.
    pub conn_id: u128,
    pub speaking: bool,
    pub muted: bool,
    pub deafened: bool,
    pub handle: P,
}

/// No peer id occurs twice.
pub open spec fn ids_distinct<P>(s: Seq<Participant<P>>) -> bool {
    forall|i: int, j: int|
        0 <= i < s.len() && 0 <= j < s.len() && i != j ==> #[trigger] s[i].peer_id != #[trigger] s[j].peer_id
}

/// `id` is a member of `s`.
pub open spec fn has_peer<P>(s: Seq<Participant<P>>, id: u128) -> bool {
    exists|i: int| 0 <= i < s.len() && #[trigger] s[i].peer_id == id
}

/// The position of member `id` in `s` (meaningful when `has_peer(s, id)`).
pub open spec fn index_of<P>(s: Seq<Participant<P>>, id: u128) -> int {
    choose|i: int| 0 <= i < s.len() && #[trigger] s[i].peer_id == id
}

/// How a participant appears in a snapshot; `with_speaking` is false for the
/// membership-only snapshot shown to users outside the call.
pub open spec fn display_of<P>(p: Participant<P>, with_speaking: bool) -> DisplayVoiceUser {
    DisplayVoiceUser {
        user: p.user,
        muted: p.muted,
        deafened: p.deafened,
        speaking: with_speaking && p.speaking,
    }
}

/// The members after `p` joined (spec of `Room::join`): a member with the
/// same peer id is replaced in place, a new one goes last.
pub open spec fn join_spec<P>(s: Seq<Participant<P>>, p: Participant<P>) -> Seq<Participant<P>> {
    if has_peer(s, p.peer_id) { s.update(index_of(s, p.peer_id), p) } else { s.push(p) }
}

/// The members after connection `conn_id` tore down peer `id` (spec of
/// `Room::leave_if_owner`): removed only if that connection owns it.
pub open spec fn teardown_spec<P>(s: Seq<Participant<P>>, id: u128, conn_id: u128) -> Seq<Participant<P>> {
    if has_peer(s, id) && s[index_of(s, id)].conn_id == conn_id { s.remove(index_of(s, id)) } else { s }
}

/// A voice room.
pub struct Room<P> {
    peers: Vec<Participant<P>>,
    voice_channel_id: u128,
    server_id: u128,
}

impl<P> Room<P> {
    #[verifier::type_invariant]
    spec fn inv(self) -> bool {
        ids_distinct(self.peers@)
    }

    /// The participants, in the order they joined.
    pub closed spec fn view(&self) -> Seq<Participant<P>> {
        self.peers@
    }

    pub closed spec fn spec_voice_channel_id(&self) -> u128 {
        self.voice_channel_id
    }

    pub closed spec fn spec_server_id(&self) -> u128 {
        self.server_id
    }

    /// An empty room for a voice channel of a server.
    pub fn new(voice_channel_id: u128, server_id: u128) -> (r: Room<P>)
        ensures
            r@ == Seq::<Participant<P>>::empty(),
            r.spec_voice_channel_id() == voice_channel_id,
            r.spec_server_id() == server_id,
    {
        Room { peers: Vec::new(), voice_channel_id, server_id }
    }

    pub fn voice_channel_id(&self) -> (r: u128)
        ensures
            r == self.spec_voice_channel_id(),
    {
        self.voice_channel_id
    }

    pub fn server_id(&self) -> (r: u128)
        ensures
            r == self.spec_server_id(),
    {
        self.server_id
    }

    pub fn len(&self) -> (r: usize)
        ensures
            r == self@.len(),
    {
        self.peers.len()
    }

    pub fn is_empty(&self) -> (r: bool)
        ensures
            r == (self@.len() == 0),
    {
        self.peers.len() == 0
    }

    /// Position of `id`, if it is a member.
    fn find(&self, id: u128) -> (r: Option<usize>)
        ensures
            match r {
                Some(i) => i < self@.len() && self@[i as int].peer_id == id && i == index_of(self@, id),
                None => !has_peer(self@, id),
            },
    {
        proof { use_type_invariant(self); }
        let mut i: usize = 0;
        while i < self.peers.len()
            invariant
                i <= self.peers@.len(),
                ids_distinct(self.peers@),
                forall|j: int| 0 <= j < i ==> #[trigger] self.peers@[j].peer_id != id,
            decreases self.peers@.len() - i,
        {
            if self.peers[i].peer_id == id {
                proof {
                    assert(self@[i as int].peer_id == id);
                    let k = index_of(self@, id);
                    assert(0 <= k < self@.len() && self@[k].peer_id == id);
                    if k != i as int {
                        assert(self.peers@[k].peer_id != self.peers@[i as int].peer_id);
                    }
                }
                return Some(i);
            }
            i += 1;
        }
        None
    }

    /// Whether `id` is in the room.
    pub fn contains(&self, id: u128) -> (r: bool)
        ensures
            r == has_peer(self@, id),
    {
        self.find(id).is_some()
    }

    /// The participant `id`, if present.
    pub fn get(&self, id: u128) -> (r: Option<&Participant<P>>)
        ensures
            match r {
                Some(p) => has_peer(self@, id) && *p == self@[index_of(self@, id)] && p.peer_id == id,
                None => !has_peer(self@, id),
            },
    {
        match self.find(id) {
            Some(i) => Some(&self.peers[i]),
            None => None,
        }
    }

    /// Add a participant once its negotiation is done. A participant already
    /// present under the same peer id (a stale session of the same user) is
    /// replaced in place and handed back.
    pub fn join(&mut self, p: Participant<P>) -> (old_p: Option<Participant<P>>)
        ensures
            has_peer(old(self)@, p.peer_id) ==> {
                let i = index_of(old(self)@, p.peer_id);
                &&& old_p == Some(old(self)@[i])
                &&& final(self)@ == old(self)@.update(i, p)
            },
            !has_peer(old(self)@, p.peer_id) ==> {
                &&& old_p.is_none()
                &&& final(self)@ == old(self)@.push(p)
            },
            final(self)@ == join_spec(old(self)@, p),
            ids_distinct(final(self)@),
            final(self).spec_server_id() == old(self).spec_server_id(),
            final(self).spec_voice_channel_id() == old(self).spec_voice_channel_id(),
    {
        proof { use_type_invariant(&*self); }
        let id = p.peer_id;
        let found = self.find(id);
        let mut peers: Vec<Participant<P>> = Vec::new();
        std::mem::swap(&mut peers, &mut self.peers);
        match found {
            Some(i) => {
                let old_p = peers.remove(i);
                peers.insert(i, p);
                assert(peers@ =~= old(self)@.update(i as int, p));
                assert(ids_distinct(peers@)) by {
                    assert forall|a: int, b: int|
                        0 <= a < peers@.len() && 0 <= b < peers@.len() && a != b
                        implies #[trigger] peers@[a].peer_id != #[trigger] peers@[b].peer_id by {
                        if a != i && b != i {
                            assert(old(self)@[a].peer_id != old(self)@[b].peer_id);
                        } else if a == i {
                            assert(old(self)@[b].peer_id != old(self)@[a].peer_id);
                        } else {
                            assert(old(self)@[a].peer_id != old(self)@[b].peer_id);
                        }
                    }
                }
                self.peers = peers;
                Some(old_p)
            },
            None => {
                peers.push(p);
                assert(ids_distinct(peers@)) by {
                    assert forall|a: int, b: int|
                        0 <= a < peers@.len() && 0 <= b < peers@.len() && a != b
                        implies #[trigger] peers@[a].peer_id != #[trigger] peers@[b].peer_id by {
                        let n = old(self)@.len() as int;
                        if a < n && b < n {
                            assert(old(self)@[a].peer_id != old(self)@[b].peer_id);
                        } else if a == n {
                            assert(old(self)@[b].peer_id != id);
                        } else {
                            assert(old(self)@[a].peer_id != id);
                        }
                    }
                }
                self.peers = peers;
                None
            },
        }
    }

    fn remove_at(&mut self, i: usize) -> (r: Participant<P>)
        requires
            i < old(self)@.len(),
        ensures
            r == old(self)@[i as int],
            final(self)@ == old(self)@.remove(i as int),
            final(self).spec_server_id() == old(self).spec_server_id(),
            final(self).spec_voice_channel_id() == old(self).spec_voice_channel_id(),
    {
        proof { use_type_invariant(&*self); }
        let mut peers: Vec<Participant<P>> = Vec::new();
        std::mem::swap(&mut peers, &mut self.peers);
        let r = peers.remove(i);
        assert(ids_distinct(peers@)) by {
            assert forall|a: int, b: int|
                0 <= a < peers@.len() && 0 <= b < peers@.len() && a != b
                implies #[trigger] peers@[a].peer_id != #[trigger] peers@[b].peer_id by {
                let a2 = if a < i { a } else { a + 1 };
                let b2 = if b < i { b } else { b + 1 };
                assert(peers@[a] == old(self)@[a2]);
                assert(peers@[b] == old(self)@[b2]);
                assert(old(self)@[a2].peer_id != old(self)@[b2].peer_id);
            }
        }
        self.peers = peers;
        r
    }

    /// Remove `id` from the room (a no-op if it is not there).
    pub fn leave(&mut self, id: u128) -> (r: Option<Participant<P>>)
        ensures
            has_peer(old(self)@, id) ==> {
                &&& r == Some(old(self)@[index_of(old(self)@, id)])
                &&& final(self)@ == old(self)@.remove(index_of(old(self)@, id))
            },
            !has_peer(old(self)@, id) ==> r.is_none() && final(self)@ == old(self)@,
            !has_peer(final(self)@, id),
            ids_distinct(final(self)@),
            final(self).spec_server_id() == old(self).spec_server_id(),
            final(self).spec_voice_channel_id() == old(self).spec_voice_channel_id(),
    {
        proof { use_type_invariant(&*self); }
        match self.find(id) {
            Some(i) => {
                proof { lemma_leave_idempotent(self@, id); }
                Some(self.remove_at(i))
            },
            None => None,
        }
    }

    /// Remove `id`, but only if its participant was created by connection
    /// `conn_id`. The teardown of a dead connection must not evict the
    /// participant the same user has since rejoined with on a new connection.
    pub fn leave_if_owner(&mut self, id: u128, conn_id: u128) -> (r: Option<Participant<P>>)
        ensures
            (has_peer(old(self)@, id) && old(self)@[index_of(old(self)@, id)].conn_id == conn_id) ==> {
                &&& r == Some(old(self)@[index_of(old(self)@, id)])
                &&& final(self)@ == old(self)@.remove(index_of(old(self)@, id))
            },
            !(has_peer(old(self)@, id) && old(self)@[index_of(old(self)@, id)].conn_id == conn_id)
                ==> r.is_none() && final(self)@ == old(self)@,
            final(self)@ == teardown_spec(old(self)@, id, conn_id),
            (has_peer(old(self)@, id) && old(self)@[index_of(old(self)@, id)].conn_id == conn_id) ==> !has_peer(
                final(self)@,
                id,
            ),
            ids_distinct(final(self)@),
            final(self).spec_server_id() == old(self).spec_server_id(),
            final(self).spec_voice_channel_id() == old(self).spec_voice_channel_id(),
    {
        proof { use_type_invariant(&*self); }
        match self.find(id) {
            Some(i) => {
                if self.peers[i].conn_id == conn_id {
                    proof { lemma_leave_idempotent(self@, id); }
                    Some(self.remove_at(i))
                } else {
                    None
                }
            },
            None => None,
        }
    }

    /// The peer ids of every member but `me`, in join order.
    pub fn others(&self, me: u128) -> (r: Vec<u128>)
        ensures
            forall|q: u128| r@.contains(q) <==> (q != me && has_peer(self@, q)),
            r@.no_duplicates(),
    {
        proof { use_type_invariant(self); }
        let mut r: Vec<u128> = Vec::new();
        let mut i: usize = 0;
        while i < self.peers.len()
            invariant
                i <= self.peers@.len(),
                ids_distinct(self.peers@),
                forall|q: u128| r@.contains(q) <==> (q != me && exists|j: int| 0 <= j < i && #[trigger] self.peers@[j].peer_id == q),
                r@.no_duplicates(),
            decreases self.peers@.len() - i,
        {
            let q = self.peers[i].peer_id;
            if q != me {
                proof {
                    assert(!r@.contains(q)) by {
                        if r@.contains(q) {
                            let j = choose|j: int| 0 <= j < i && #[trigger] self.peers@[j].peer_id == q;
                            assert(self.peers@[j].peer_id != self.peers@[i as int].peer_id);
                        }
                    }
                }
                let ghost prev = r@;
                r.push(q);
                proof {
                    assert forall|x: u128| r@.contains(x) <==> (x != me && exists|j: int| 0 <= j < i + 1 && #[trigger] self.peers@[j].peer_id == x) by {
                        if r@.contains(x) {
                            let k = choose|k: int| 0 <= k < r@.len() && r@[k] == x;
                            if k < r@.len() - 1 {
                                assert(prev.contains(x)) by { assert(prev[k] == x); }
                            } else {
                                assert(self.peers@[i as int].peer_id == x);
                            }
                        }
                        if x != me && exists|j: int| 0 <= j < i + 1 && #[trigger] self.peers@[j].peer_id == x {
                            let j = choose|j: int| 0 <= j < i + 1 && #[trigger] self.peers@[j].peer_id == x;
                            if j < i {
                                assert(prev.contains(x));
                                let k = choose|k: int| 0 <= k < prev.len() && prev[k] == x;
                                assert(r@[k] == x);
                            } else {
                                assert(r@[r@.len() - 1] == x);
                            }
                        }
                    }
                }
            }
            i += 1;
        }
        proof {
            assert forall|q: u128| r@.contains(q) <==> (q != me && has_peer(self@, q)) by {
                if has_peer(self@, q) {
                    let j = choose|j: int| 0 <= j < self@.len() && #[trigger] self@[j].peer_id == q;
                    assert(self.peers@[j].peer_id == q);
                }
            }
        }
        r
    }
}


/// `p` with its three presence flags replaced where a new value is given.
pub open spec fn with_flags<P>(p: Participant<P>, speaking: Option<bool>, muted: Option<bool>, deafened: Option<bool>) -> Participant<P> {
    Participant {
        speaking: match speaking { Some(v) => v, None => p.speaking },
        muted: match muted { Some(v) => v, None => p.muted },
        deafened: match deafened { Some(v) => v, None => p.deafened },
        ..p
    }
}

impl<P> Room<P> {
    fn set_flags(&mut self, id: u128, speaking: Option<bool>, muted: Option<bool>, deafened: Option<bool>) -> (found: bool)
        ensures
            found == has_peer(old(self)@, id),
            found ==> final(self)@ == old(self)@.update(
                index_of(old(self)@, id),
                with_flags(old(self)@[index_of(old(self)@, id)], speaking, muted, deafened),
            ),
            !found ==> final(self)@ == old(self)@,
            final(self).spec_server_id() == old(self).spec_server_id(),
            final(self).spec_voice_channel_id() == old(self).spec_voice_channel_id(),
    {
        proof { use_type_invariant(&*self); }
        match self.find(id) {
            Some(i) => {
                let mut peers: Vec<Participant<P>> = Vec::new();
                std::mem::swap(&mut peers, &mut self.peers);
                let mut p = peers.remove(i);
                match speaking { Some(v) => { p.speaking = v; }, None => {} }
                match muted { Some(v) => { p.muted = v; }, None => {} }
                match deafened { Some(v) => { p.deafened = v; }, None => {} }
                peers.insert(i, p);
                assert(peers@ =~= old(self)@.update(i as int, with_flags(old(self)@[i as int], speaking, muted, deafened)));
                assert(ids_distinct(peers@)) by {
                    assert forall|a: int, b: int|
                        0 <= a < peers@.len() && 0 <= b < peers@.len() && a != b
                        implies #[trigger] peers@[a].peer_id != #[trigger] peers@[b].peer_id by {
                        assert(peers@[a].peer_id == old(self)@[a].peer_id);
                        assert(peers@[b].peer_id == old(self)@[b].peer_id);
                    }
                }
                self.peers = peers;
                true
            },
            None => false,
        }
    }

    /// Record whether `id` is speaking; false if `id` is not in the room.
    pub fn set_speaking(&mut self, id: u128, speaking: bool) -> (found: bool)
        ensures
            found == has_peer(old(self)@, id),
            found ==> final(self)@ == old(self)@.update(
                index_of(old(self)@, id),
                with_flags(old(self)@[index_of(old(self)@, id)], Some(speaking), None, None),
            ),
            !found ==> final(self)@ == old(self)@,
            final(self).spec_server_id() == old(self).spec_server_id(),
            final(self).spec_voice_channel_id() == old(self).spec_voice_channel_id(),
    {
        self.set_flags(id, Some(speaking), None, None)
    }

    /// Record whether `id` muted itself; false if `id` is not in the room.
    pub fn set_muted(&mut self, id: u128, muted: bool) -> (found: bool)
        ensures
            found == has_peer(old(self)@, id),
            found ==> final(self)@ == old(self)@.update(
                index_of(old(self)@, id),
                with_flags(old(self)@[index_of(old(self)@, id)], None, Some(muted), None),
            ),
            !found ==> final(self)@ == old(self)@,
            final(self).spec_server_id() == old(self).spec_server_id(),
            final(self).spec_voice_channel_id() == old(self).spec_voice_channel_id(),
    {
        self.set_flags(id, None, Some(muted), None)
    }

    /// Record whether `id` deafened itself; false if `id` is not in the room.
    pub fn set_deafened(&mut self, id: u128, deafened: bool) -> (found: bool)
        ensures
            found == has_peer(old(self)@, id),
            found ==> final(self)@ == old(self)@.update(
                index_of(old(self)@, id),
                with_flags(old(self)@[index_of(old(self)@, id)], None, None, Some(deafened)),
            ),
            !found ==> final(self)@ == old(self)@,
            final(self).spec_server_id() == old(self).spec_server_id(),
            final(self).spec_voice_channel_id() == old(self).spec_voice_channel_id(),
    {
        self.set_flags(id, None, None, Some(deafened))
    }

    fn snapshot(&self, with_speaking: bool) -> (r: Vec<DisplayVoiceUser>)
        ensures
            r@.len() == self@.len(),
            forall|i: int| 0 <= i < r@.len() ==> #[trigger] r@[i] == display_of(self@[i], with_speaking),
    {
        let mut r: Vec<DisplayVoiceUser> = Vec::new();
        let mut i: usize = 0;
        while i < self.peers.len()
            invariant
                i <= self.peers@.len(),
                r@.len() == i,
                forall|k: int| 0 <= k < i ==> #[trigger] r@[k] == display_of(self.peers@[k], with_speaking),
            decreases self.peers@.len() - i,
        {
            let p = &self.peers[i];
            r.push(DisplayVoiceUser {
                user: p.user.clone(),
                muted: p.muted,
                deafened: p.deafened,
                speaking: with_speaking && p.speaking,
            });
            i += 1;
        }
        r
    }

    /// The in-call snapshot sent to the participants themselves: every member
    /// with its live speaking state.
    pub fn presence_snapshot(&self) -> (r: Vec<DisplayVoiceUser>)
        ensures
            r@.len() == self@.len(),
            forall|i: int| 0 <= i < r@.len() ==> #[trigger] r@[i] == display_of(self@[i], true),
    {
        self.snapshot(true)
    }

    /// The membership-only snapshot shown to users who are not in the call:
    /// every member, with speaking forced to false. An empty list tells a
    /// watcher that the call emptied out.
    pub fn membership_snapshot(&self) -> (r: Vec<DisplayVoiceUser>)
        ensures
            r@.len() == self@.len(),
            forall|i: int| 0 <= i < r@.len() ==> #[trigger] r@[i] == display_of(self@[i], false),
    {
        self.snapshot(false)
    }

    /// Whether a connection of `user_id` that subscribes to `server_id` is sent
    /// this room's membership snapshot: rooms of other servers, empty rooms and
    /// rooms the user is in (they get the richer in-call snapshot) are skipped.
    pub fn shown_on_subscribe(&self, server_id: u128, user_id: u128) -> (r: bool)
        ensures
            r == (self.spec_server_id() == server_id && self@.len() > 0 && !has_peer(self@, user_id)),
    {
        self.server_id == server_id && self.peers.len() > 0 && !self.contains(user_id)
    }
}

/// The track id of the relay that forwards `publisher`'s audio, with the
/// fresh id `drawn` for this join: `audio-<publisher>-<drawn>`.
pub open spec fn relay_track_id_spec(publisher: u128, drawn: u128) -> Seq<char> {
    "audio-"@ + uuid_text(publisher) + "-"@ + uuid_text(drawn)
}

/// The stream id of `publisher`'s relay: `relay-<publisher>`.
pub open spec fn relay_stream_id_spec(publisher: u128) -> Seq<char> {
    "relay-"@ + uuid_text(publisher)
}

/// The track id of a publisher's relay for one join. The caller draws
/// `drawn` afresh on every join: clients drop a track whose id they have
/// already seen, so a rejoining peer must not reuse its previous id.
pub fn relay_track_id(publisher: u128, drawn: u128) -> (r: String)
    ensures
        r@ == relay_track_id_spec(publisher, drawn),
{
    let mut r = String::from_str("audio-");
    let p = id_to_string(publisher);
    r.append(p.as_str());
    r.append("-");
    let d = id_to_string(drawn);
    r.append(d.as_str());
    r
}

/// The stream id of a publisher's relay.
pub fn relay_stream_id(publisher: u128) -> (r: String)
    ensures
        r@ == relay_stream_id_spec(publisher),
{
    let mut r = String::from_str("relay-");
    let p = id_to_string(publisher);
    r.append(p.as_str());
    r
}

/// Every relay track id of a publisher starts with `audio-<publisher>`, and
/// two joins with different drawn ids get different track ids.
pub proof fn lemma_rejoin_gets_fresh_track_id(publisher: u128, d1: u128, d2: u128)
    ensures
        relay_track_id_spec(publisher, d1).subrange(0, 42) == "audio-"@ + uuid_text(publisher),
        d1 != d2 ==> relay_track_id_spec(publisher, d1) != relay_track_id_spec(publisher, d2),
{
    reveal_strlit("audio-");
    reveal_strlit("-");
    let pre = "audio-"@ + uuid_text(publisher) + "-"@;
    assert(uuid_text(publisher).len() == 36) by { lemma_uuid_text_len(publisher); }
    assert(uuid_text(d1).len() == 36) by { lemma_uuid_text_len(d1); }
    assert(uuid_text(d2).len() == 36) by { lemma_uuid_text_len(d2); }
    let a = relay_track_id_spec(publisher, d1);
    let b = relay_track_id_spec(publisher, d2);
    assert(a.subrange(0, 42) =~= "audio-"@ + uuid_text(publisher));
    if a == b {
        assert(a.subrange(43, 79) =~= uuid_text(d1));
        assert(b.subrange(43, 79) =~= uuid_text(d2));
        lemma_uuid_text_injective(d1, d2);
    }
}

/// A message of a voice stream addressed to one room (the caller picks the
/// room by the message's voice channel, creating it if needed). The session
/// descriptions of offers and answers travel beside it.
#[derive(Clone, Copy, Debug, PartialEq, Eq, Structural)]
pub enum RoomMessage {
    Speaking(bool),
    Offer,
    Answer,
    Leave,
    SetMuted(bool),
    SetDeafened(bool),
}

/// What the relay does after a room message.
pub enum RoomAction<P> {
    /// Nothing: a presence change from someone who is not a member.
    Ignore,
    /// Send the room's in-call snapshot to its members (a speaking change).
    BroadcastPresence,
    /// Send the in-call snapshot and the server-wide membership snapshot (a
    /// mute or deafen change).
    BroadcastPresenceAndServer,
    /// Build the sender's peer connection for its offer.
    AcceptOffer,
    /// Refuse the offer: the sender is already in the room.
    RejectOffer,
    /// Apply the sender's answer to its pending offer.
    ApplyAnswer,
    /// The sender left; tear its participant down (nothing to tear down when
    /// it was not a member).
    TearDown(Option<Participant<P>>),
}

impl<P> Room<P> {
    /// Decide a message from `me` on this room. Presence changes apply only
    /// to a member (and are then broadcast); an offer is accepted only from
    /// someone not yet in the room; a leave removes `me`.
    pub fn on_message(&mut self, me: u128, msg: RoomMessage) -> (a: RoomAction<P>)
        ensures
            final(self).spec_server_id() == old(self).spec_server_id(),
            final(self).spec_voice_channel_id() == old(self).spec_voice_channel_id(),
            match msg {
                RoomMessage::Speaking(v) => if has_peer(old(self)@, me) {
                    &&& final(self)@ == old(self)@.update(index_of(old(self)@, me), with_flags(old(self)@[index_of(old(self)@, me)], Some(v), None, None))
                    &&& a is BroadcastPresence
                } else {
                    final(self)@ == old(self)@ && a is Ignore
                },
                RoomMessage::SetMuted(v) => if has_peer(old(self)@, me) {
                    &&& final(self)@ == old(self)@.update(index_of(old(self)@, me), with_flags(old(self)@[index_of(old(self)@, me)], None, Some(v), None))
                    &&& a is BroadcastPresenceAndServer
                } else {
                    final(self)@ == old(self)@ && a is Ignore
                },
                RoomMessage::SetDeafened(v) => if has_peer(old(self)@, me) {
                    &&& final(self)@ == old(self)@.update(index_of(old(self)@, me), with_flags(old(self)@[index_of(old(self)@, me)], None, None, Some(v)))
                    &&& a is BroadcastPresenceAndServer
                } else {
                    final(self)@ == old(self)@ && a is Ignore
                },
                RoomMessage::Offer => final(self)@ == old(self)@ && (if has_peer(old(self)@, me) {
                    a is RejectOffer
                } else {
                    a is AcceptOffer
                }),
                RoomMessage::Answer => final(self)@ == old(self)@ && a is ApplyAnswer,
                RoomMessage::Leave => {
                    &&& !has_peer(final(self)@, me)
                    &&& if has_peer(old(self)@, me) {
                        &&& final(self)@ == old(self)@.remove(index_of(old(self)@, me))
                        &&& a == RoomAction::TearDown(Some(old(self)@[index_of(old(self)@, me)]))
                    } else {
                        final(self)@ == old(self)@ && a == RoomAction::<P>::TearDown(None)
                    }
                },
            },
    {
        match msg {
            RoomMessage::Speaking(v) => {
                if self.set_speaking(me, v) { RoomAction::BroadcastPresence } else { RoomAction::Ignore }
            },
            RoomMessage::SetMuted(v) => {
                if self.set_muted(me, v) { RoomAction::BroadcastPresenceAndServer } else { RoomAction::Ignore }
            },
            RoomMessage::SetDeafened(v) => {
                if self.set_deafened(me, v) { RoomAction::BroadcastPresenceAndServer } else { RoomAction::Ignore }
            },
            RoomMessage::Offer => {
                if self.contains(me) { RoomAction::RejectOffer } else { RoomAction::AcceptOffer }
            },
            RoomMessage::Answer => RoomAction::ApplyAnswer,
            RoomMessage::Leave => RoomAction::TearDown(self.leave(me)),
        }
    }
}

/// The members of `s` after `id` left (spec of `Room::leave`).
pub open spec fn left_spec<P>(s: Seq<Participant<P>>, id: u128) -> Seq<Participant<P>> {
    if has_peer(s, id) { s.remove(index_of(s, id)) } else { s }
}

/// A second leave changes nothing: after `id` left, leaving again finds
/// nobody and keeps the room as it is.
pub proof fn lemma_second_leave_changes_nothing<P>(room: Seq<Participant<P>>, id: u128)
    requires
        ids_distinct(room),
    ensures
        !has_peer(left_spec(room, id), id),
        left_spec(left_spec(room, id), id) == left_spec(room, id),
{
    if has_peer(room, id) {
        lemma_leave_idempotent(room, id);
    }
}

/// The participants of `id` removed from `rooms`, in room order, each with
/// its room's voice channel.
pub open spec fn departed<P>(rooms: Seq<Room<P>>, id: u128) -> Seq<(u128, Participant<P>)>
    decreases rooms.len(),
{
    if rooms.len() == 0 {
        Seq::empty()
    } else {
        let prev = departed(rooms.drop_last(), id);
        let s = rooms.last()@;
        if has_peer(s, id) {
            prev.push((rooms.last().spec_voice_channel_id(), s[index_of(s, id)]))
        } else {
            prev
        }
    }
}

/// A voice stream ended: its user leaves every room. Returns the rooms, and
/// each participant removed with its room's voice channel, for teardown.
pub fn leave_all<P>(rooms: Vec<Room<P>>, me: u128) -> (r: (Vec<Room<P>>, Vec<(u128, Participant<P>)>))
    ensures
        r.0@.len() == rooms@.len(),
        forall|i: int| 0 <= i < rooms@.len() ==> {
            &&& (#[trigger] r.0@[i])@ == left_spec(rooms@[i]@, me)
            &&& !has_peer(r.0@[i]@, me)
            &&& r.0@[i].spec_voice_channel_id() == rooms@[i].spec_voice_channel_id()
            &&& r.0@[i].spec_server_id() == rooms@[i].spec_server_id()
        },
        r.1@ == departed(rooms@, me),
{
    let ghost orig = rooms@;
    let mut rest = rooms;
    let mut out: Vec<Room<P>> = Vec::new();
    let mut gone: Vec<(u128, Participant<P>)> = Vec::new();
    let ghost mut i: int = 0;
    proof { assert(orig.subrange(0, 0) =~= Seq::<Room<P>>::empty()); }
    while rest.len() > 0
        invariant
            0 <= i <= orig.len(),
            rest@ == orig.subrange(i, orig.len() as int),
            out@.len() == i,
            forall|k: int| 0 <= k < i ==> {
                &&& (#[trigger] out@[k])@ == left_spec(orig[k]@, me)
                &&& !has_peer(out@[k]@, me)
                &&& out@[k].spec_voice_channel_id() == orig[k].spec_voice_channel_id()
                &&& out@[k].spec_server_id() == orig[k].spec_server_id()
            },
            gone@ == departed(orig.subrange(0, i), me),
        decreases rest@.len(),
    {
        let mut room = rest.remove(0);
        proof {
            assert(room == orig[i]);
            let pre = orig.subrange(0, i + 1);
            assert(pre.drop_last() =~= orig.subrange(0, i));
            assert(pre.last() == orig[i]);
        }
        let vc = room.voice_channel_id();
        let left = room.leave(me);
        match left {
            Some(p) => { gone.push((vc, p)); },
            None => {},
        }
        out.push(room);
        proof {
            i = i + 1;
            assert(rest@ =~= orig.subrange(i, orig.len() as int));
        }
    }
    proof { assert(orig.subrange(0, orig.len() as int) =~= orig); }
    (out, gone)
}

/// A voice-stream connection watching one server's call presence.
pub struct Subscriber<T> {
    pub conn_id: u128,
    pub user_id: u128,
    pub server_id: u128,
    pub sink: T,
}

/// No connection id occurs twice.
pub open spec fn conns_distinct<T>(s: Seq<Subscriber<T>>) -> bool {
    forall|i: int, j: int|
        0 <= i < s.len() && 0 <= j < s.len() && i != j ==> #[trigger] s[i].conn_id != #[trigger] s[j].conn_id
}

/// `c` is registered in `s`.
pub open spec fn has_conn<T>(s: Seq<Subscriber<T>>, c: u128) -> bool {
    exists|i: int| 0 <= i < s.len() && #[trigger] s[i].conn_id == c
}

/// The connections that watch server-wide presence, keyed by connection (a
/// user with two clients open gets a snapshot on each).
pub struct PresenceRegistry<T> {
    subs: Vec<Subscriber<T>>,
}

impl<T> PresenceRegistry<T> {
    #[verifier::type_invariant]
    spec fn inv(self) -> bool {
        conns_distinct(self.subs@)
    }

    /// The registered subscribers.
    pub closed spec fn view(&self) -> Seq<Subscriber<T>> {
        self.subs@
    }

    pub fn new() -> (r: PresenceRegistry<T>)
        ensures
            r@ == Seq::<Subscriber<T>>::empty(),
    {
        PresenceRegistry { subs: Vec::new() }
    }

    fn find(&self, conn_id: u128) -> (r: Option<usize>)
        ensures
            match r {
                Some(i) => i < self@.len() && self@[i as int].conn_id == conn_id,
                None => !has_conn(self@, conn_id),
            },
    {
        let mut i: usize = 0;
        while i < self.subs.len()
            invariant
                i <= self.subs@.len(),
                forall|j: int| 0 <= j < i ==> #[trigger] self.subs@[j].conn_id != conn_id,
            decreases self.subs@.len() - i,
        {
            if self.subs[i].conn_id == conn_id {
                return Some(i);
            }
            i += 1;
        }
        None
    }

    /// Register (or re-register) connection `sub.conn_id`.
    pub fn register(&mut self, sub: Subscriber<T>)
        ensures
            has_conn(final(self)@, sub.conn_id),
            forall|i: int| 0 <= i < final(self)@.len() && #[trigger] final(self)@[i].conn_id == sub.conn_id
                ==> final(self)@[i] == sub,
            forall|i: int| 0 <= i < old(self)@.len() && #[trigger] old(self)@[i].conn_id != sub.conn_id
                ==> final(self)@.contains(old(self)@[i]),
            forall|i: int| 0 <= i < final(self)@.len() && #[trigger] final(self)@[i].conn_id != sub.conn_id
                ==> old(self)@.contains(final(self)@[i]),
    {
        proof { use_type_invariant(&*self); }
        let c = sub.conn_id;
        let found = self.find(c);
        let mut subs: Vec<Subscriber<T>> = Vec::new();
        std::mem::swap(&mut subs, &mut self.subs);
        let ghost prev = subs@;
        match found {
            Some(i) => {
                subs.remove(i);
                subs.insert(i, sub);
                assert(subs@ =~= prev.update(i as int, sub));
                assert(conns_distinct(subs@)) by {
                    assert forall|a: int, b: int|
                        0 <= a < subs@.len() && 0 <= b < subs@.len() && a != b
                        implies #[trigger] subs@[a].conn_id != #[trigger] subs@[b].conn_id by {
                        assert(prev[a].conn_id != prev[b].conn_id);
                    }
                }
                assert forall|k: int| 0 <= k < prev.len() && #[trigger] prev[k].conn_id != c
                    implies subs@.contains(prev[k]) by {
                    assert(subs@[k] == prev[k]);
                }
                assert forall|k: int| 0 <= k < subs@.len() && #[trigger] subs@[k].conn_id != c
                    implies prev.contains(subs@[k]) by {
                    assert(subs@[k] == prev[k]);
                }
                assert forall|k: int| 0 <= k < subs@.len() && #[trigger] subs@[k].conn_id == c
                    implies subs@[k] == sub by {
                    if k != i {
                        assert(prev[k].conn_id != prev[i as int].conn_id);
                    }
                }
                assert(subs@[i as int].conn_id == c);
            },
            None => {
                subs.push(sub);
                assert(conns_distinct(subs@)) by {
                    assert forall|a: int, b: int|
                        0 <= a < subs@.len() && 0 <= b < subs@.len() && a != b
                        implies #[trigger] subs@[a].conn_id != #[trigger] subs@[b].conn_id by {
                        let n = prev.len() as int;
                        if a < n && b < n {
                            assert(prev[a].conn_id != prev[b].conn_id);
                        } else if a == n {
                            assert(prev[b].conn_id != c);
                        } else {
                            assert(prev[a].conn_id != c);
                        }
                    }
                }
                assert forall|k: int| 0 <= k < prev.len() && #[trigger] prev[k].conn_id != c
                    implies subs@.contains(prev[k]) by {
                    assert(subs@[k] == prev[k]);
                }
                assert forall|k: int| 0 <= k < subs@.len() && #[trigger] subs@[k].conn_id != c
                    implies prev.contains(subs@[k]) by {
                    assert(subs@[k] == prev[k]);
                }
                assert forall|k: int| 0 <= k < subs@.len() && #[trigger] subs@[k].conn_id == c
                    implies subs@[k] == sub by {
                    if k < prev.len() {
                        assert(prev[k].conn_id != c);
                    }
                }
                assert(subs@[prev.len() as int].conn_id == c);
            },
        }
        self.subs = subs;
    }

    /// Drop connection `conn_id` (a no-op if it is not registered).
    pub fn unregister(&mut self, conn_id: u128)
        ensures
            !has_conn(final(self)@, conn_id),
            forall|i: int| 0 <= i < old(self)@.len() && #[trigger] old(self)@[i].conn_id != conn_id
                ==> final(self)@.contains(old(self)@[i]),
            forall|i: int| 0 <= i < final(self)@.len() ==> old(self)@.contains(#[trigger] final(self)@[i]),
    {
        proof { use_type_invariant(&*self); }
        match self.find(conn_id) {
            Some(i) => {
                let mut subs: Vec<Subscriber<T>> = Vec::new();
                std::mem::swap(&mut subs, &mut self.subs);
                let ghost prev = subs@;
                subs.remove(i);
                assert forall|a: int| 0 <= a < subs@.len() implies
                    #[trigger] subs@[a] == prev[if a < i { a } else { a + 1 }] by {}
                assert(conns_distinct(subs@)) by {
                    assert forall|a: int, b: int|
                        0 <= a < subs@.len() && 0 <= b < subs@.len() && a != b
                        implies #[trigger] subs@[a].conn_id != #[trigger] subs@[b].conn_id by {
                        let a2 = if a < i { a } else { a + 1 };
                        let b2 = if b < i { b } else { b + 1 };
                        assert(prev[a2].conn_id != prev[b2].conn_id);
                    }
                }
                assert(!has_conn(subs@, conn_id)) by {
                    if has_conn(subs@, conn_id) {
                        let a = choose|a: int| 0 <= a < subs@.len() && #[trigger] subs@[a].conn_id == conn_id;
                        let a2 = if a < i { a } else { a + 1 };
                        assert(prev[a2].conn_id != prev[i as int].conn_id);
                    }
                }
                assert forall|k: int| 0 <= k < prev.len() && #[trigger] prev[k].conn_id != conn_id
                    implies subs@.contains(prev[k]) by {
                    if k < i {
                        assert(subs@[k] == prev[k]);
                    } else {
                        assert(k != i);
                        assert(subs@[k - 1] == prev[k]);
                    }
                }
                assert forall|k: int| 0 <= k < subs@.len() implies prev.contains(#[trigger] subs@[k]) by {
                    let k2 = if k < i { k } else { k + 1 };
                    assert(prev[k2] == subs@[k]);
                }
                self.subs = subs;
            },
            None => {
                assert forall|k: int| 0 <= k < self@.len() implies old(self)@.contains(#[trigger] self@[k]) by {}
                assert forall|k: int| 0 <= k < old(self)@.len() && #[trigger] old(self)@[k].conn_id != conn_id
                    implies self@.contains(old(self)@[k]) by {}
            },
        }
    }

    /// The connections that get `room`'s membership snapshot when it changes:
    /// those watching the room's server, except users who are in the room
    /// (they already get the richer in-call snapshot).
    pub fn recipients<P>(&self, room: &Room<P>) -> (r: Vec<u128>)
        ensures
            forall|c: u128| r@.contains(c) <==> exists|i: int| 0 <= i < self@.len() && #[trigger] self@[i].conn_id == c
                && self@[i].server_id == room.spec_server_id() && !has_peer(room@, self@[i].user_id),
    {
        let mut r: Vec<u128> = Vec::new();
        let server_id = room.server_id();
        let mut i: usize = 0;
        while i < self.subs.len()
            invariant
                i <= self.subs@.len(),
                server_id == room.spec_server_id(),
                forall|c: u128| r@.contains(c) <==> exists|j: int| 0 <= j < i && #[trigger] self.subs@[j].conn_id == c
                    && self.subs@[j].server_id == server_id && !has_peer(room@, self.subs@[j].user_id),
            decreases self.subs@.len() - i,
        {
            let s = &self.subs[i];
            if s.server_id == server_id && !room.contains(s.user_id) {
                let ghost prev = r@;
                r.push(s.conn_id);
                proof {
                    assert forall|c: u128| r@.contains(c) <==> exists|j: int| 0 <= j < i + 1 && #[trigger] self.subs@[j].conn_id == c
                        && self.subs@[j].server_id == server_id && !has_peer(room@, self.subs@[j].user_id) by {
                        if r@.contains(c) {
                            let k = choose|k: int| 0 <= k < r@.len() && r@[k] == c;
                            if k < prev.len() {
                                assert(prev.contains(c)) by { assert(prev[k] == c); }
                            }
                        }
                        if exists|j: int| 0 <= j < i + 1 && #[trigger] self.subs@[j].conn_id == c
                            && self.subs@[j].server_id == server_id && !has_peer(room@, self.subs@[j].user_id) {
                            let j = choose|j: int| 0 <= j < i + 1 && #[trigger] self.subs@[j].conn_id == c
                                && self.subs@[j].server_id == server_id && !has_peer(room@, self.subs@[j].user_id);
                            if j < i {
                                assert(prev.contains(c));
                                let k = choose|k: int| 0 <= k < prev.len() && prev[k] == c;
                                assert(r@[k] == c);
                            } else {
                                assert(r@[r@.len() - 1] == c);
                            }
                        }
                    }
                }
            }
            i += 1;
        }
        proof {
            assert(self@ == self.subs@);
            assert forall|c: u128| r@.contains(c) <==> exists|i: int| 0 <= i < self@.len() && #[trigger] self@[i].conn_id == c
                && self@[i].server_id == room.spec_server_id() && !has_peer(room@, self@[i].user_id) by {
                if r@.contains(c) {
                    let j = choose|j: int| 0 <= j < self.subs@.len() && #[trigger] self.subs@[j].conn_id == c
                        && self.subs@[j].server_id == server_id && !has_peer(room@, self.subs@[j].user_id);
                    assert(self@[j].conn_id == c);
                }
            }
        }
        r
    }

    /// The sink of connection `conn_id`, if registered.
    pub fn sink(&self, conn_id: u128) -> (r: Option<&T>)
        ensures
            match r {
                Some(t) => exists|i: int| 0 <= i < self@.len() && #[trigger] self@[i].conn_id == conn_id && self@[i].sink == *t,
                None => !has_conn(self@, conn_id),
            },
    {
        match self.find(conn_id) {
            Some(i) => Some(&self.subs[i].sink),
            None => None,
        }
    }
}

/// After a user rejoined on a new connection, the teardown of the old
/// connection leaves the room as it is, with the rejoined participant in it;
/// the teardown of the new connection removes the peer.
pub proof fn lemma_stale_teardown_keeps_rejoined_peer<P>(
    room: Seq<Participant<P>>,
    p: Participant<P>,
    stale_conn: u128,
)
    requires
        ids_distinct(room),
        p.conn_id != stale_conn,
    ensures
        teardown_spec(join_spec(room, p), p.peer_id, stale_conn) == join_spec(room, p),
        has_peer(join_spec(room, p), p.peer_id),
        !has_peer(teardown_spec(join_spec(room, p), p.peer_id, p.conn_id), p.peer_id),
{
    let j = join_spec(room, p);
    let k = if has_peer(room, p.peer_id) { index_of(room, p.peer_id) } else { room.len() as int };
    assert(j[k] == p);
    assert(ids_distinct(j)) by {
        assert forall|a: int, b: int| 0 <= a < j.len() && 0 <= b < j.len() && a != b
            implies #[trigger] j[a].peer_id != #[trigger] j[b].peer_id by {
            if a != k && b != k {
                assert(j[a] == room[a] && j[b] == room[b]);
            } else if a == k {
                if has_peer(room, p.peer_id) {
                    assert(j[b] == room[b]);
                } else {
                    assert(j[b] == room[b]);
                    assert(room[b].peer_id != p.peer_id);
                }
            } else {
                if has_peer(room, p.peer_id) {
                    assert(j[a] == room[a]);
                } else {
                    assert(j[a] == room[a]);
                    assert(room[a].peer_id != p.peer_id);
                }
            }
        }
    }
    assert(has_peer(j, p.peer_id));
    assert(index_of(j, p.peer_id) == k);
    lemma_leave_idempotent(j, p.peer_id);
}

/// Leaving is idempotent: once a peer has left, leaving again finds nothing.
pub proof fn lemma_leave_idempotent<P>(room: Seq<Participant<P>>, id: u128)
    requires
        ids_distinct(room),
        has_peer(room, id),
    ensures
        !has_peer(room.remove(index_of(room, id)), id),
{
    let i = index_of(room, id);
    let r = room.remove(i);
    if has_peer(r, id) {
        let j = choose|j: int| 0 <= j < r.len() && #[trigger] r[j].peer_id == id;
        let j2 = if j < i { j } else { j + 1 };
        assert(room[j2].peer_id == room[i].peer_id);
    }
}

/// The membership snapshot lists the same users, with the same mute and
/// deafen states, as the in-call snapshot; only speaking is withheld.
pub proof fn lemma_membership_hides_only_speaking<P>(p: Participant<P>)
    ensures
        display_of(p, false).user == display_of(p, true).user,
        display_of(p, false).muted == display_of(p, true).muted,
        display_of(p, false).deafened == display_of(p, true).deafened,
        !display_of(p, false).speaking,
        display_of(p, true).speaking == p.speaking,
{
}

} // verus!
