//! The server's registry of open text streams, each with the sender that
//! reaches it, and who a message fans out to.

use vstd::prelude::*;
use std::collections::HashMap;
use vstd::std_specs::iter::IteratorSpec;
use crate::domain::User;
use crate::posts::Timestamp;

verus! {

broadcast use vstd::std_specs::hash::group_hash_axioms;

/// The ids of the open text streams that a message reaches: every stream but
/// `except`, if given.
pub open spec fn reached(dom: Set<u128>, except: Option<u128>) -> Set<u128> {
    match except {
        Some(me) => dom.remove(me),
        None => dom,
    }
}

/// The open text streams, by socket id.
pub struct SocketManager<S> {
    sockets: HashMap<u128, S>,
}

impl<S> SocketManager<S> {
    /// The sender of each open stream.
    pub closed spec fn view(&self) -> Map<u128, S> {
        self.sockets@
    }

    pub fn new() -> (m: SocketManager<S>)
        ensures
            m@ == Map::<u128, S>::empty(),
    {
        SocketManager { sockets: HashMap::new() }
    }

    /// A stream opened.
    pub fn add(&mut self, id: u128, sender: S)
        ensures
            final(self)@ == old(self)@.insert(id, sender),
    {
        self.sockets.insert(id, sender);
    }

    /// A stream closed.
    pub fn remove(&mut self, id: u128)
        ensures
            final(self)@ == old(self)@.remove(id),
    {
        self.sockets.remove(&id);
    }

    /// The sender of stream `id`.
    pub fn sender(&self, id: u128) -> (r: Option<&S>)
        ensures
            match r {
                Some(s) => self@.contains_key(id) && *s == self@[id],
                None => !self@.contains_key(id),
            },
    {
        self.sockets.get(&id)
    }

    /// The streams a message reaches, once each, in no particular order:
    /// all of them, or all but `except` (the sender of a typing
    /// notification, who must not see themselves typing).
    fn targets(&self, except: Option<u128>) -> (r: Vec<u128>)
        ensures
            r@.to_set() == reached(self@.dom(), except),
            r@.no_duplicates(),
    {
        let mut r: Vec<u128> = Vec::new();
        let keys = self.sockets.keys();
        let ghost all = keys.remaining();
        proof {
            assert(all.unref().to_set() == self@.dom());
            assert(all.no_duplicates());
        }
        for k in it: keys
            invariant
                it.seq() == all,
                all.no_duplicates(),
                forall|x: u128| #[trigger] r@.contains(x) <==> (exists|i: int|
                    0 <= i < it.index() && *it.seq()[i] == x && Some(x) != except),
                it.index() <= all.len(),
                r@.no_duplicates(),
                forall|x: u128| #[trigger] r@.contains(x) ==> Some(x) != except,
        {
            let skip = match except {
                Some(me) => *k == me,
                None => false,
            };
            let ghost cur: u128 = *it.seq()[it.index() as int];
            assert(cur == *k);
            let ghost old_r = r@;
            if !skip {
                proof {
                    assert forall|x: u128| old_r.contains(x) implies x != cur by {
                        let i = choose|i: int| 0 <= i < it.index() && *it.seq()[i] == x && Some(x) != except;
                        assert(it.seq()[i] != it.seq()[it.index() as int]);
                    }
                }
                r.push(*k);
                proof {
                    assert forall|i: int, j: int| 0 <= i < r@.len() && 0 <= j < r@.len() && i != j
                        implies r@[i] != r@[j] by {
                        if j == old_r.len() {
                            assert(old_r.contains(r@[i]));
                        } else if i == old_r.len() {
                            assert(old_r.contains(r@[j]));
                        } else {
                            assert(r@[i] == old_r[i] && r@[j] == old_r[j]);
                        }
                    }
                }
            }
            proof {
                assert forall|x: u128| #[trigger] r@.contains(x) <==> (exists|i: int|
                    0 <= i < it.index() + 1 && *it.seq()[i] == x && Some(x) != except) by {
                    if r@.contains(x) {
                        let j = choose|j: int| 0 <= j < r@.len() && r@[j] == x;
                        if j < old_r.len() {
                            assert(old_r[j] == x);
                            assert(old_r.contains(x));
                            let i = choose|i: int| 0 <= i < it.index() && *it.seq()[i] == x && Some(x) != except;
                            assert(0 <= i < it.index() + 1 && *it.seq()[i] == x && Some(x) != except);
                        } else {
                            assert(x == cur);
                            assert(*it.seq()[it.index() as int] == x);
                        }
                    }
                    if exists|i: int| 0 <= i < it.index() + 1 && *it.seq()[i] == x && Some(x) != except {
                        let i = choose|i: int| 0 <= i < it.index() + 1 && *it.seq()[i] == x && Some(x) != except;
                        if i < it.index() {
                            assert(old_r.contains(x));
                            let j = choose|j: int| 0 <= j < old_r.len() && old_r[j] == x;
                            assert(r@[j] == x);
                        } else {
                            assert(x == cur);
                            assert(r@[old_r.len() as int] == x);
                        }
                    }
                }
            }
        }
        proof {
            let keys = all;
            assert forall|x: u128| r@.to_set().contains(x) <==> reached(self@.dom(), except).contains(x) by {
                if reached(self@.dom(), except).contains(x) {
                    assert(keys.unref().to_set().contains(x));
                    let i = choose|i: int| 0 <= i < keys.unref().len() && keys.unref()[i] == x;
                    assert(*keys[i] == x);
                }
                if r@.contains(x) {
                    let i = choose|i: int| 0 <= i < all.len() && *all[i] == x && Some(x) != except;
                    assert(keys.unref().contains(x)) by {
                        assert(keys.unref()[i] == x);
                    }
                    assert(keys.unref().to_set().contains(x));
                }
            }
            assert(r@.to_set() =~= reached(self@.dom(), except));
        }
        r
    }

    /// Every open stream: a new post goes to everyone, its author included.
    pub fn targets_with_self(&self) -> (r: Vec<u128>)
        ensures
            r@.to_set() == self@.dom(),
            r@.no_duplicates(),
    {
        self.targets(None)
    }

    /// Every open stream but `me`: a typing notification goes to everyone
    /// else.
    pub fn targets_without_self(&self, me: u128) -> (r: Vec<u128>)
        ensures
            r@.to_set() == self@.dom().remove(me),
            r@.no_duplicates(),
    {
        self.targets(Some(me))
    }
}

/// A typing notification never goes back to the stream it came from, and
/// reaches every other open stream.
pub proof fn lemma_typing_never_echoes(dom: Set<u128>, me: u128, r: Seq<u128>, other: u128)
    requires
        r.to_set() == reached(dom, Some(me)),
    ensures
        !r.contains(me),
        dom.contains(other) && other != me ==> r.contains(other),
{
    assert(!r.to_set().contains(me));
    if dom.contains(other) && other != me {
        assert(r.to_set().contains(other));
    }
}


/// A post goes back to its author's own stream too (that is how the author
/// sees it delivered), as to every other open stream.
pub proof fn lemma_post_reaches_author(dom: Set<u128>, me: u128, r: Seq<u128>, other: u128)
    requires
        r.to_set() == reached(dom, None),
        dom.contains(me),
    ensures
        r.contains(me),
        dom.contains(other) ==> r.contains(other),
{
    assert(r.to_set().contains(me));
    if dom.contains(other) {
        assert(r.to_set().contains(other));
    }
}

/// A message a client sends on its text stream.
#[derive(Debug)]
pub enum ClientText {
    /// A new post, under the id the client gave it.
    CreatePost { id: u128, content: String, text_channel_id: u128 },
    /// A latency probe, stamped with the client's clock in microseconds.
    Ping { timestamp: u64 },
    /// The user is typing in a text channel.
    Typing { text_channel_id: u128 },
}

/// A post as the server relays it to the text streams.
#[derive(Debug)]
pub struct RelayedPost {
    pub id: u128,
    pub author_name: String,
    pub content: String,
    pub created_at: Timestamp,
}

/// What the server does with one client message.
#[derive(Debug)]
pub enum Dispatch {
    /// Store the post in the channel of `text_channel_id` (under an id of the
    /// store's own) and send it to the streams `to`.
    StoreAndBroadcast { to: Vec<u128>, post: RelayedPost, text_channel_id: u128 },
    /// Answer the probe on the sender's own stream.
    Pong { timestamp: u64, server_received_at: u64 },
    /// Tell the streams `to` that `from` is typing.
    Typing { to: Vec<u128>, from: User, text_channel_id: u128 },
}

impl<S> SocketManager<S> {
    /// Route a message that arrived on stream `me` from `user`: a post goes
    /// to every stream (the author's included, which is how the author sees
    /// it delivered), a ping is answered with the time it arrived (`now` and
    /// `now_micros`, read by the caller), and a typing notification goes to
    /// every other stream.
    pub fn dispatch(&self, me: u128, user: &User, msg: ClientText, now: Timestamp, now_micros: u64) -> (d: Dispatch)
        ensures
            match msg {
                ClientText::CreatePost { id, content, text_channel_id } => d matches Dispatch::StoreAndBroadcast {
                    to,
                    post,
                    text_channel_id: c,
                } && to@.to_set() == self@.dom() && to@.no_duplicates() && post.id == id && post.author_name
                    == user.name && post.content == content && post.created_at == now && c == text_channel_id,
                ClientText::Ping { timestamp } => d == Dispatch::Pong { timestamp, server_received_at: now_micros },
                ClientText::Typing { text_channel_id } => d matches Dispatch::Typing { to, from, text_channel_id: c }
                    && to@.to_set() == self@.dom().remove(me) && to@.no_duplicates() && from == *user && c
                    == text_channel_id,
            },
    {
        match msg {
            ClientText::CreatePost { id, content, text_channel_id } => {
                let to = self.targets_with_self();
                let post = RelayedPost { id, author_name: user.name.clone(), content, created_at: now };
                Dispatch::StoreAndBroadcast { to, post, text_channel_id }
            },
            ClientText::Ping { timestamp } => Dispatch::Pong { timestamp, server_received_at: now_micros },
            ClientText::Typing { text_channel_id } => {
                let to = self.targets_without_self(me);
                Dispatch::Typing { to, from: user.clone(), text_channel_id }
            },
        }
    }
}

} // verus!
