//! A text channel's timeline as the client shows it: posts in display order,
//! each filed under its id.
//!
//! A post the user sends appears at once as `Sending` (or `Errored` when it
//! could not be handed to the connection). When the server delivers a post
//! it takes its place by creation time; a delivered post whose id is already
//! on the timeline replaces the local copy instead of being added twice.

use vstd::prelude::*;
use std::cmp::Ordering;
use indexmap::IndexMap;
use crate::posts::{Post, Timestamp};

verus! {

/// A post on the timeline: one the user sent that is on its way or failed to
/// leave, or one the server delivered.
#[derive(Debug)]
pub enum RenderedPost {
    Sending { id: u128, created_at: Timestamp, content: String, name: String },
    Errored { id: u128, created_at: Timestamp, content: String, name: String },
    Sent(Post),
}

/// The post's id.
pub open spec fn id_of(p: RenderedPost) -> u128 {
    match p {
        RenderedPost::Sending { id, .. } => id,
        RenderedPost::Errored { id, .. } => id,
        RenderedPost::Sent(post) => post.id,
    }
}

/// When the post was created.
pub open spec fn created_of(p: RenderedPost) -> Timestamp {
    match p {
        RenderedPost::Sending { created_at, .. } => created_at,
        RenderedPost::Errored { created_at, .. } => created_at,
        RenderedPost::Sent(post) => post.created_at,
    }
}

/// `a` is not later than `b` (seconds first, then nanoseconds).
pub open spec fn not_after(a: Timestamp, b: Timestamp) -> bool {
    a.seconds < b.seconds || (a.seconds == b.seconds && a.nanos <= b.nanos)
}

impl RenderedPost {
    pub fn created_at(&self) -> (t: Timestamp)
        ensures
            t == created_of(*self),
    {
        match self {
            RenderedPost::Sending { created_at, .. } => *created_at,
            RenderedPost::Errored { created_at, .. } => *created_at,
            RenderedPost::Sent(post) => post.created_at,
        }
    }
}

/// The order in which the timeline places a delivered post among the others:
/// `a` goes after `b` only if it was created strictly later. Never `Equal`,
/// so a post lands after every post created at the same instant.
pub fn order_by_created(a: &RenderedPost, b: &RenderedPost) -> (o: Ordering)
    ensures
        o == (if not_after(created_of(*a), created_of(*b)) { Ordering::Less } else { Ordering::Greater }),
{
    let ta = a.created_at();
    let tb = b.created_at();
    if ta.seconds < tb.seconds || (ta.seconds == tb.seconds && ta.nanos <= tb.nanos) {
        Ordering::Less
    } else {
        Ordering::Greater
    }
}

/// The entries of a timeline map, in order, as (key, post).
pub uninterp spec fn timeline_entries(m: IndexMap<u128, RenderedPost>) -> Seq<(u128, RenderedPost)>;

/// No key occurs twice.
pub open spec fn keys_distinct(e: Seq<(u128, RenderedPost)>) -> bool {
    forall|i: int, j: int| 0 <= i < e.len() && 0 <= j < e.len() && i != j ==> #[trigger] e[i].0 != #[trigger] e[j].0
}

/// Every post is filed under its own id.
pub open spec fn filed_by_id(e: Seq<(u128, RenderedPost)>) -> bool {
    forall|i: int| 0 <= i < e.len() ==> #[trigger] e[i].0 == id_of(e[i].1)
}

/// `k` is a key of `e`.
pub open spec fn has_key(e: Seq<(u128, RenderedPost)>, k: u128) -> bool {
    exists|i: int| 0 <= i < e.len() && #[trigger] e[i].0 == k
}

/// The position of key `k` in `e` (meaningful when `has_key(e, k)`).
pub open spec fn key_index(e: Seq<(u128, RenderedPost)>, k: u128) -> int {
    choose|i: int| 0 <= i < e.len() && #[trigger] e[i].0 == k
}

/// `e` without the entry of key `k`, the others in their order.
pub open spec fn without_key(e: Seq<(u128, RenderedPost)>, k: u128) -> Seq<(u128, RenderedPost)> {
    if has_key(e, k) { e.remove(key_index(e, k)) } else { e }
}

/// `e` after `IndexMap::insert(k, v)`: an existing key keeps its place and
/// takes the new post, a new key goes last.
pub open spec fn upsert(e: Seq<(u128, RenderedPost)>, k: u128, v: RenderedPost) -> Seq<(u128, RenderedPost)> {
    if has_key(e, k) { e.update(key_index(e, k), (k, v)) } else { e.push((k, v)) }
}

/// How many posts of `e` were created no later than `t`: on a timeline
/// ordered by creation time, the place where a post created at `t` goes.
pub open spec fn insert_position(e: Seq<(u128, RenderedPost)>, t: Timestamp) -> int
    decreases e.len(),
{
    if e.len() == 0 {
        0
    } else {
        insert_position(e.drop_last(), t) + (if not_after(created_of(e.last().1), t) { 1int } else { 0int })
    }
}

/// The posts are in order of creation time.
pub open spec fn ordered_by_created(e: Seq<(u128, RenderedPost)>) -> bool {
    forall|i: int, j: int| 0 <= i < j < e.len() ==> not_after(#[trigger] created_of(e[i].1), #[trigger] created_of(e[j].1))
}

/// `IndexMap::new`.
#[verifier::external_body]
fn map_new() -> (m: IndexMap<u128, RenderedPost>)
    ensures
        timeline_entries(m) == Seq::<(u128, RenderedPost)>::empty(),
{
    IndexMap::new()
}

/// `IndexMap::insert`: an existing key keeps its place and takes the new
/// value; a new key goes last.
#[verifier::external_body]
fn map_insert(m: &mut IndexMap<u128, RenderedPost>, k: u128, v: RenderedPost)
    requires
        keys_distinct(timeline_entries(*old(m))),
    ensures
        timeline_entries(*final(m)) == upsert(timeline_entries(*old(m)), k, v),
{
    m.insert(k, v);
}

/// `IndexMap::insert_sorted_by` with the order `order_by_created`. It binary
/// searches for the place and then moves the key there (or inserts it), so
/// the result is the map without the key with the entry inserted at some
/// place. When the map is ordered by creation time, that place is after
/// every post created no later than the new one. Returns the value the key
/// had before, if any.
#[verifier::external_body]
fn map_insert_sorted(m: &mut IndexMap<u128, RenderedPost>, k: u128, v: RenderedPost) -> (removed: Option<RenderedPost>)
    requires
        keys_distinct(timeline_entries(*old(m))),
    ensures
        has_key(timeline_entries(*old(m)), k) ==> removed == Some(
            timeline_entries(*old(m))[key_index(timeline_entries(*old(m)), k)].1,
        ),
        !has_key(timeline_entries(*old(m)), k) ==> removed.is_none(),
        exists|p: int|
            0 <= p <= without_key(timeline_entries(*old(m)), k).len() && timeline_entries(*final(m))
                == #[trigger] without_key(timeline_entries(*old(m)), k).insert(p, (k, v)),
        ordered_by_created(timeline_entries(*old(m))) ==> timeline_entries(*final(m)) == without_key(
            timeline_entries(*old(m)),
            k,
        ).insert(insert_position(without_key(timeline_entries(*old(m)), k), created_of(v)), (k, v)),
{
    m.insert_sorted_by(k, v, |_, a, _, b| order_by_created(a, b)).1
}

/// `IndexMap::shift_remove`: removes the key's entry, the others keep their
/// order.
#[verifier::external_body]
fn map_shift_remove(m: &mut IndexMap<u128, RenderedPost>, k: u128)
    requires
        keys_distinct(timeline_entries(*old(m))),
    ensures
        timeline_entries(*final(m)) == without_key(timeline_entries(*old(m)), k),
{
    m.shift_remove(&k);
}

/// `IndexMap::len`.
#[verifier::external_body]
fn map_len(m: &IndexMap<u128, RenderedPost>) -> (n: usize)
    ensures
        n == timeline_entries(*m).len(),
{
    m.len()
}

/// `IndexMap::get_index_of`: the position of the key, if present.
#[verifier::external_body]
fn map_index_of(m: &IndexMap<u128, RenderedPost>, k: u128) -> (r: Option<usize>)
    requires
        keys_distinct(timeline_entries(*m)),
    ensures
        has_key(timeline_entries(*m), k) ==> (r.is_some() && r.unwrap() == key_index(timeline_entries(*m), k)),
        !has_key(timeline_entries(*m), k) ==> r.is_none(),
{
    m.get_index_of(&k)
}

/// Indexing an `IndexMap` by position: the value at `i`.
#[verifier::external_body]
fn map_value_at(m: &IndexMap<u128, RenderedPost>, i: usize) -> (v: &RenderedPost)
    requires
        i < timeline_entries(*m).len(),
    ensures
        *v == timeline_entries(*m)[i as int].1,
{
    &m[i]
}

/// `IndexMap::into_iter`, collected: the entries in order.
#[verifier::external_body]
fn map_into_entries(m: IndexMap<u128, RenderedPost>) -> (r: Vec<(u128, RenderedPost)>)
    ensures
        r@ == timeline_entries(m),
{
    m.into_iter().collect()
}

proof fn lemma_key_index(e: Seq<(u128, RenderedPost)>, k: u128, i: int)
    requires
        keys_distinct(e),
        0 <= i < e.len(),
        e[i].0 == k,
    ensures
        has_key(e, k),
        key_index(e, k) == i,
{
}

proof fn lemma_upsert_keeps_keys(e: Seq<(u128, RenderedPost)>, k: u128, v: RenderedPost)
    requires
        keys_distinct(e),
        filed_by_id(e),
        id_of(v) == k,
    ensures
        keys_distinct(upsert(e, k, v)),
        filed_by_id(upsert(e, k, v)),
        has_key(upsert(e, k, v), k),
{
    let u = upsert(e, k, v);
    if has_key(e, k) {
        let x = key_index(e, k);
        assert(u[x].0 == k);
        assert forall|i: int, j: int| 0 <= i < u.len() && 0 <= j < u.len() && i != j
            implies #[trigger] u[i].0 != #[trigger] u[j].0 by {
            assert(u[i].0 == e[i].0);
            assert(u[j].0 == e[j].0);
        }
    } else {
        assert(u[e.len() as int].0 == k);
        assert forall|i: int, j: int| 0 <= i < u.len() && 0 <= j < u.len() && i != j
            implies #[trigger] u[i].0 != #[trigger] u[j].0 by {
            if i == e.len() {
                assert(e[j].0 != k);
            } else if j == e.len() {
                assert(e[i].0 != k);
            }
        }
    }
}

proof fn lemma_remove_keeps_keys(e: Seq<(u128, RenderedPost)>, x: int)
    requires
        keys_distinct(e),
        filed_by_id(e),
        0 <= x < e.len(),
    ensures
        keys_distinct(e.remove(x)),
        filed_by_id(e.remove(x)),
        !has_key(e.remove(x), e[x].0),
        forall|k: u128| k != e[x].0 ==> (has_key(e.remove(x), k) == has_key(e, k)),
{
    let r = e.remove(x);
    assert forall|i: int| 0 <= i < r.len() implies #[trigger] r[i] == e[if i < x { i } else { i + 1 }] by {}
    assert forall|i: int, j: int| 0 <= i < r.len() && 0 <= j < r.len() && i != j
        implies #[trigger] r[i].0 != #[trigger] r[j].0 by {
        assert(r[i] == e[if i < x { i } else { i + 1 }]);
        assert(r[j] == e[if j < x { j } else { j + 1 }]);
    }
    assert forall|i: int| 0 <= i < r.len() implies #[trigger] r[i].0 == id_of(r[i].1) by {
        assert(r[i] == e[if i < x { i } else { i + 1 }]);
    }
    if has_key(r, e[x].0) {
        let i = key_index(r, e[x].0);
        assert(r[i] == e[if i < x { i } else { i + 1 }]);
    }
    assert forall|k: u128| k != e[x].0 implies (has_key(r, k) == has_key(e, k)) by {
        if has_key(e, k) {
            let i = key_index(e, k);
            assert(r[if i < x { i } else { i - 1 }] == e[i]);
        }
        if has_key(r, k) {
            let i = key_index(r, k);
            assert(r[i] == e[if i < x { i } else { i + 1 }]);
        }
    }
}

proof fn lemma_insert_keeps_keys(rest: Seq<(u128, RenderedPost)>, p: int, k: u128, v: RenderedPost)
    requires
        keys_distinct(rest),
        filed_by_id(rest),
        !has_key(rest, k),
        id_of(v) == k,
        0 <= p <= rest.len(),
    ensures
        keys_distinct(rest.insert(p, (k, v))),
        filed_by_id(rest.insert(p, (k, v))),
        has_key(rest.insert(p, (k, v)), k),
        key_index(rest.insert(p, (k, v)), k) == p,
{
    let r = rest.insert(p, (k, v));
    assert forall|i: int| 0 <= i < r.len() && i != p implies #[trigger] r[i] == rest[if i < p { i } else { i - 1 }] by {}
    assert forall|i: int, j: int| 0 <= i < r.len() && 0 <= j < r.len() && i != j
        implies #[trigger] r[i].0 != #[trigger] r[j].0 by {
        if i == p {
            assert(r[j] == rest[if j < p { j } else { j - 1 }]);
        } else if j == p {
            assert(r[i] == rest[if i < p { i } else { i - 1 }]);
        } else {
            assert(r[i] == rest[if i < p { i } else { i - 1 }]);
            assert(r[j] == rest[if j < p { j } else { j - 1 }]);
        }
    }
    assert forall|i: int| 0 <= i < r.len() implies #[trigger] r[i].0 == id_of(r[i].1) by {
        if i != p {
            assert(r[i] == rest[if i < p { i } else { i - 1 }]);
        }
    }
    assert(r[p].0 == k);
    lemma_key_index(r, k, p);
}

/// A text channel's posts in display order.
pub struct Timeline {
    posts: IndexMap<u128, RenderedPost>,
}

impl Timeline {
    #[verifier::type_invariant]
    spec fn inv(self) -> bool {
        &&& keys_distinct(timeline_entries(self.posts))
        &&& filed_by_id(timeline_entries(self.posts))
    }

    /// The posts in display order, each with the id it is filed under.
    pub closed spec fn view(&self) -> Seq<(u128, RenderedPost)> {
        timeline_entries(self.posts)
    }

    /// Takes the posts out, leaving the timeline empty.
    fn take_posts(&mut self) -> (m: IndexMap<u128, RenderedPost>)
        ensures
            timeline_entries(m) == old(self)@,
            keys_distinct(timeline_entries(m)),
            filed_by_id(timeline_entries(m)),
            final(self)@ == Seq::<(u128, RenderedPost)>::empty(),
    {
        proof { use_type_invariant(&*self); }
        let mut m = map_new();
        std::mem::swap(&mut m, &mut self.posts);
        m
    }

    /// A channel's first page of history, in the order given. A post id that
    /// occurs twice keeps its first place and takes the later post.
    pub fn from_posts(posts: Vec<Post>) -> (t: Timeline)
        ensures
            t@ == sent_all(Seq::empty(), posts@),
    {
        let mut m = map_new();
        let mut rest = posts;
        let ghost all = rest@;
        let total = rest.len();
        proof { assert(all.len() == total); }
        let mut done: usize = 0;
        while rest.len() > 0
            invariant
                keys_distinct(timeline_entries(m)),
                filed_by_id(timeline_entries(m)),
                done + rest@.len() == all.len(),
                all.len() <= usize::MAX,
                rest@ == all.subrange(done as int, all.len() as int),
                timeline_entries(m) == sent_all(Seq::empty(), all.subrange(0, done as int)),
            decreases rest@.len(),
        {
            let post = rest.remove(0);
            proof {
                assert(post == all[done as int]);
                assert(all.subrange(0, done + 1) =~= all.subrange(0, done as int).push(post));
                assert(all.subrange(0, done + 1).drop_last() =~= all.subrange(0, done as int));
                assert(rest@ =~= all.subrange(done + 1, all.len() as int));
            }
            let id = post.id;
            proof { lemma_upsert_keeps_keys(timeline_entries(m), id, RenderedPost::Sent(post)); }
            map_insert(&mut m, id, RenderedPost::Sent(post));
            done += 1;
        }
        proof {
            assert(all.subrange(0, done as int) =~= all);
        }
        Timeline { posts: m }
    }

    /// Add a post the user just sent (still on its way, or failed to leave),
    /// filed under its id: a new id goes last, an id already present keeps
    /// its place and takes the new post.
    pub fn push_local(&mut self, post: RenderedPost)
        ensures
            final(self)@ == upsert(old(self)@, id_of(post), post),
    {
        proof { use_type_invariant(&*self); }
        let id = match &post {
            RenderedPost::Sending { id, .. } => *id,
            RenderedPost::Errored { id, .. } => *id,
            RenderedPost::Sent(p) => p.id,
        };
        proof { lemma_upsert_keeps_keys(self@, id, post); }
        let mut m = self.take_posts();
        map_insert(&mut m, id, post);
        self.posts = m;
    }

    /// The server delivered `post`. It takes its place by creation time; a
    /// local copy with the same id (the one the user sent) is replaced rather
    /// than kept beside it. Returns whether the post was new to the timeline.
    pub fn receive(&mut self, post: Post) -> (fresh: bool)
        ensures
            fresh == !has_key(old(self)@, post.id),
            ({
                let rest = without_key(old(self)@, post.id);
                exists|p: int| 0 <= p <= rest.len() && final(self)@ == #[trigger] rest.insert(p, (post.id, RenderedPost::Sent(post)))
            }),
            ordered_by_created(old(self)@) ==> final(self)@ == receive_spec(old(self)@, post),
    {
        proof { use_type_invariant(&*self); }
        let id = post.id;
        let ghost before = self@;
        let ghost v = RenderedPost::Sent(post);
        let mut m = self.take_posts();
        let removed = map_insert_sorted(&mut m, id, RenderedPost::Sent(post));
        proof {
            let rest = without_key(before, id);
            if has_key(before, id) {
                lemma_remove_keeps_keys(before, key_index(before, id));
            }
            let p = choose|p: int| 0 <= p <= rest.len() && timeline_entries(m) == #[trigger] rest.insert(p, (id, v));
            lemma_insert_keeps_keys(rest, p, id, v);
        }
        self.posts = m;
        removed.is_none()
    }

    /// The server reports that post `id` now reads `content`. Only a delivered
    /// post changes: it takes the new text, is marked edited and keeps its
    /// place.
    pub fn edit(&mut self, id: u128, content: String)
        ensures
            final(self)@ == edit_spec(old(self)@, id, content),
    {
        proof { use_type_invariant(&*self); }
        match map_index_of(&self.posts, id) {
            None => {},
            Some(i) => {
                proof {
                    assert(self@[i as int].0 == id_of(self@[i as int].1));
                }
                let edited = match map_value_at(&self.posts, i) {
                    RenderedPost::Sent(p) => Some(
                        RenderedPost::Sent(
                            Post {
                                id: p.id,
                                author_id: p.author_id,
                                author_name: p.author_name.clone(),
                                content,
                                created_at: p.created_at,
                                text_channel_id: p.text_channel_id,
                                edited: true,
                            },
                        ),
                    ),
                    _ => None,
                };
                match edited {
                    Some(v) => {
                        proof {
                            assert(id_of(v) == id);
                            lemma_upsert_keeps_keys(self@, id, v);
                        }
                        let mut m = self.take_posts();
                        map_insert(&mut m, id, v);
                        self.posts = m;
                    },
                    None => {},
                }
            },
        }
    }

    /// Remove post `id`; the others keep their order.
    pub fn remove(&mut self, id: u128)
        ensures
            final(self)@ == without_key(old(self)@, id),
    {
        proof { use_type_invariant(&*self); }
        proof {
            if has_key(self@, id) {
                lemma_remove_keeps_keys(self@, key_index(self@, id));
            }
        }
        let mut m = self.take_posts();
        map_shift_remove(&mut m, id);
        self.posts = m;
    }

    /// An older page of history arrived: its posts go before the ones shown.
    /// A post already shown keeps the page's place and the shown version.
    pub fn prepend_page(&mut self, page: Vec<Post>)
        ensures
            final(self)@ == upsert_entries(sent_all(Seq::empty(), page@), old(self)@),
    {
        proof { use_type_invariant(&*self); }
        let existing = self.take_posts();
        let ghost shown = timeline_entries(existing);
        let mut combined = Timeline::from_posts(page);
        let mut entries = map_into_entries(existing);
        let ghost all = shown;
        let total = entries.len();
        proof { assert(all.len() == total); }
        proof {
            use_type_invariant(&combined);
        }
        let mut m = combined.posts;
        let ghost base = timeline_entries(m);
        let mut done: usize = 0;
        while entries.len() > 0
            invariant
                keys_distinct(timeline_entries(m)),
                filed_by_id(timeline_entries(m)),
                filed_by_id(all),
                done + entries@.len() == all.len(),
                all.len() <= usize::MAX,
                entries@ == all.subrange(done as int, all.len() as int),
                timeline_entries(m) == upsert_entries(base, all.subrange(0, done as int)),
            decreases entries@.len(),
        {
            let (k, v) = entries.remove(0);
            proof {
                assert((k, v) == all[done as int]);
                assert(all.subrange(0, done + 1) =~= all.subrange(0, done as int).push((k, v)));
                assert(all.subrange(0, done + 1).drop_last() =~= all.subrange(0, done as int));
                assert(entries@ =~= all.subrange(done + 1, all.len() as int));
                lemma_upsert_keeps_keys(timeline_entries(m), k, v);
            }
            map_insert(&mut m, k, v);
            done += 1;
        }
        proof {
            assert(all.subrange(0, done as int) =~= all);
        }
        self.posts = m;
    }

    /// The id of the latest delivered post written by `user_id`.
    pub fn last_own_post(&self, user_id: u128) -> (r: Option<u128>)
        ensures
            r == last_own_spec(self@, user_id),
            r matches Some(id) ==> {
                &&& has_key(self@, id)
                &&& self@[key_index(self@, id)].1 is Sent
                &&& self@[key_index(self@, id)].1->0.author_id == user_id
            },
    {
        proof { use_type_invariant(self); }
        let n = map_len(&self.posts);
        let mut i = n;
        proof {
            assert(self@.subrange(0, n as int) =~= self@);
        }
        while i > 0
            invariant
                n == self@.len(),
                i <= n,
                keys_distinct(self@),
                filed_by_id(self@),
                last_own_spec(self@, user_id) == last_own_spec(self@.subrange(0, i as int), user_id),
            decreases i,
        {
            let v = map_value_at(&self.posts, i - 1);
            proof {
                assert(self@.subrange(0, i - 1) =~= self@.subrange(0, i as int).drop_last());
            }
            match v {
                RenderedPost::Sent(p) => {
                    if p.author_id == user_id {
                        proof {
                            assert(self@[i - 1].0 == id_of(self@[i - 1].1));
                            lemma_key_index(self@, p.id, i - 1);
                        }
                        return Some(p.id);
                    }
                },
                _ => {},
            }
            i -= 1;
        }
        None
    }

    /// The text of post `id` if it is a delivered post (the one the user may
    /// edit).
    pub fn sent_content(&self, id: u128) -> (r: Option<String>)
        ensures
            r is Some <==> (has_key(self@, id) && self@[key_index(self@, id)].1 is Sent),
            r is Some ==> r->0@ == self@[key_index(self@, id)].1->0.content@,
    {
        proof { use_type_invariant(self); }
        match map_index_of(&self.posts, id) {
            None => None,
            Some(i) => match map_value_at(&self.posts, i) {
                RenderedPost::Sent(p) => Some(p.content.clone()),
                _ => None,
            },
        }
    }

    /// The number of posts on the timeline.
    pub fn len(&self) -> (n: usize)
        ensures
            n == self@.len(),
    {
        map_len(&self.posts)
    }

    /// The post at position `i`, in display order.
    pub fn post_at(&self, i: usize) -> (p: &RenderedPost)
        requires
            i < self@.len(),
        ensures
            *p == self@[i as int].1,
            id_of(*p) == self@[i as int].0,
    {
        proof { use_type_invariant(self); }
        map_value_at(&self.posts, i)
    }

    /// Whether post `id` is on the timeline.
    pub fn contains(&self, id: u128) -> (r: bool)
        ensures
            r == has_key(self@, id),
    {
        proof { use_type_invariant(self); }
        map_index_of(&self.posts, id).is_some()
    }
}

/// `e` after inserting each of `s`'s posts as delivered, in order.
pub open spec fn sent_all(e: Seq<(u128, RenderedPost)>, s: Seq<Post>) -> Seq<(u128, RenderedPost)>
    decreases s.len(),
{
    if s.len() == 0 {
        e
    } else {
        let before = sent_all(e, s.drop_last());
        upsert(before, s.last().id, RenderedPost::Sent(s.last()))
    }
}

/// `e` after inserting each of the entries `s`, in order.
pub open spec fn upsert_entries(e: Seq<(u128, RenderedPost)>, s: Seq<(u128, RenderedPost)>) -> Seq<(u128, RenderedPost)>
    decreases s.len(),
{
    if s.len() == 0 {
        e
    } else {
        upsert(upsert_entries(e, s.drop_last()), s.last().0, s.last().1)
    }
}

/// The timeline after the server delivered `post`, when it was ordered by
/// creation time: the post, without its local copy, placed after every post
/// created no later than it.
pub open spec fn receive_spec(e: Seq<(u128, RenderedPost)>, post: Post) -> Seq<(u128, RenderedPost)> {
    let rest = without_key(e, post.id);
    rest.insert(insert_position(rest, post.created_at), (post.id, RenderedPost::Sent(post)))
}

/// The timeline after the server reported new text for post `id`.
pub open spec fn edit_spec(e: Seq<(u128, RenderedPost)>, id: u128, content: String) -> Seq<(u128, RenderedPost)> {
    if has_key(e, id) && e[key_index(e, id)].1 is Sent {
        let p = e[key_index(e, id)].1->0;
        e.update(
            key_index(e, id),
            (id, RenderedPost::Sent(Post {
                id: p.id,
                author_id: p.author_id,
                author_name: p.author_name,
                content,
                created_at: p.created_at,
                text_channel_id: p.text_channel_id,
                edited: true,
            })),
        )
    } else {
        e
    }
}

/// The id of the last delivered post in `e` written by `user_id`.
pub open spec fn last_own_spec(e: Seq<(u128, RenderedPost)>, user_id: u128) -> Option<u128>
    decreases e.len(),
{
    if e.len() == 0 {
        None
    } else {
        match e.last().1 {
            RenderedPost::Sent(p) => if p.author_id == user_id {
                Some(p.id)
            } else {
                last_own_spec(e.drop_last(), user_id)
            },
            _ => last_own_spec(e.drop_last(), user_id),
        }
    }
}

/// On a timeline ordered by creation time, the posts before
/// `insert_position(e, t)` were created no later than `t` and the others
/// later.
proof fn lemma_insert_position_splits(e: Seq<(u128, RenderedPost)>, t: Timestamp)
    requires
        ordered_by_created(e),
    ensures
        0 <= insert_position(e, t) <= e.len(),
        forall|i: int| 0 <= i < insert_position(e, t) ==> not_after(#[trigger] created_of(e[i].1), t),
        forall|i: int| insert_position(e, t) <= i < e.len() ==> !not_after(#[trigger] created_of(e[i].1), t),
    decreases e.len(),
{
    if e.len() > 0 {
        let d = e.drop_last();
        assert(ordered_by_created(d)) by {
            assert forall|i: int, j: int| 0 <= i < j < d.len() implies not_after(
                #[trigger] created_of(d[i].1),
                #[trigger] created_of(d[j].1),
            ) by {
                assert(d[i] == e[i] && d[j] == e[j]);
            }
        }
        lemma_insert_position_splits(d, t);
        let q = insert_position(d, t);
        let last = e.len() - 1;
        if not_after(created_of(e[last].1), t) {
            assert forall|i: int| 0 <= i < d.len() implies not_after(#[trigger] created_of(e[i].1), t) by {
                assert(not_after(created_of(e[i].1), created_of(e[last].1)));
            }
            if q < d.len() {
                assert(d[q] == e[q]);
                assert(not_after(created_of(e[q].1), t));
            }
        }
        assert forall|i: int| 0 <= i < insert_position(e, t) implies not_after(#[trigger] created_of(e[i].1), t) by {
            if i < d.len() {
                assert(d[i] == e[i]);
            }
        }
        assert forall|i: int| insert_position(e, t) <= i < e.len() implies !not_after(#[trigger] created_of(e[i].1), t) by {
            if i < d.len() {
                assert(d[i] == e[i]);
            }
        }
    }
}

/// A delivered post keeps a timeline that is ordered by creation time
/// ordered.
pub proof fn lemma_receive_keeps_order(e: Seq<(u128, RenderedPost)>, post: Post)
    requires
        keys_distinct(e),
        ordered_by_created(e),
    ensures
        ordered_by_created(receive_spec(e, post)),
{
    let rest = without_key(e, post.id);
    assert(ordered_by_created(rest)) by {
        if has_key(e, post.id) {
            let x = key_index(e, post.id);
            assert forall|i: int, j: int| 0 <= i < j < rest.len() implies not_after(
                #[trigger] created_of(rest[i].1),
                #[trigger] created_of(rest[j].1),
            ) by {
                let i2 = if i < x { i } else { i + 1 };
                let j2 = if j < x { j } else { j + 1 };
                assert(rest[i] == e[i2] && rest[j] == e[j2]);
            }
        }
    }
    lemma_insert_position_splits(rest, post.created_at);
    let p = insert_position(rest, post.created_at);
    let r = receive_spec(e, post);
    let t = post.created_at;
    assert forall|i: int, j: int| 0 <= i < j < r.len() implies not_after(
        #[trigger] created_of(r[i].1),
        #[trigger] created_of(r[j].1),
    ) by {
        if i < p && j < p {
            assert(r[i] == rest[i] && r[j] == rest[j]);
        } else if i < p && j == p {
            assert(r[i] == rest[i]);
        } else if i < p {
            assert(r[i] == rest[i] && r[j] == rest[j - 1]);
        } else if i == p {
            assert(r[j] == rest[j - 1]);
            assert(!not_after(created_of(rest[j - 1].1), t));
        } else {
            assert(r[i] == rest[i - 1] && r[j] == rest[j - 1]);
        }
    }
}

/// Wherever a delivered post lands, it is on the timeline exactly once, as
/// delivered: the local copy of a post the user sent is replaced, never
/// kept beside it. The timeline grows only if the post was new to it.
pub proof fn lemma_delivery_files_post_once(e: Seq<(u128, RenderedPost)>, post: Post, p: int)
    requires
        keys_distinct(e),
        filed_by_id(e),
        0 <= p <= without_key(e, post.id).len(),
    ensures
        ({
            let r = without_key(e, post.id).insert(p, (post.id, RenderedPost::Sent(post)));
            &&& keys_distinct(r)
            &&& filed_by_id(r)
            &&& r[key_index(r, post.id)].1 == RenderedPost::Sent(post)
            &&& r.len() == (if has_key(e, post.id) { e.len() } else { e.len() + 1 })
        }),
{
    let rest = without_key(e, post.id);
    if has_key(e, post.id) {
        lemma_remove_keeps_keys(e, key_index(e, post.id));
    }
    lemma_insert_keeps_keys(rest, p, post.id, RenderedPost::Sent(post));
}

/// Deleting a post that arrived new undoes its delivery: the timeline is as
/// it was before.
pub proof fn lemma_delete_undoes_fresh_delivery(e: Seq<(u128, RenderedPost)>, post: Post, p: int)
    requires
        keys_distinct(e),
        filed_by_id(e),
        !has_key(e, post.id),
        0 <= p <= e.len(),
    ensures
        without_key(e.insert(p, (post.id, RenderedPost::Sent(post))), post.id) == e,
{
    assert(without_key(e, post.id) == e);
    lemma_insert_keeps_keys(e, p, post.id, RenderedPost::Sent(post));
    let r = e.insert(p, (post.id, RenderedPost::Sent(post)));
    assert(r.remove(p) =~= e);
}

} // verus!
