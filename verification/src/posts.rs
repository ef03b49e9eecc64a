//! Chat posts: the server's paging of a channel's history, and how the client
//! groups consecutive posts under one author header.

use vstd::prelude::*;

verus! {

/// A point in time: seconds since the Unix epoch and the nanoseconds within
/// that second.
#[derive(Clone, Copy, Debug, PartialEq, Eq, Structural)]
pub struct Timestamp {
    pub seconds: i64,
    pub nanos: u32,
}

/// Nanoseconds since the Unix epoch.
pub open spec fn ts_nanos(t: Timestamp) -> int {
    t.seconds * 1_000_000_000 + t.nanos
}

/// A delivered chat post.
#[derive(Debug)]
pub struct Post {
    pub id: u128,
    pub author_id: u128,
    pub author_name: String,
    pub content: String,
    pub created_at: Timestamp,
    pub text_channel_id: u128,
    pub edited: bool,
}

impl Clone for Post {
    fn clone(&self) -> (r: Self)
        ensures
            r == *self,
    {
        Post {
            id: self.id,
            author_id: self.author_id,
            author_name: self.author_name.clone(),
            content: self.content.clone(),
            created_at: self.created_at,
            text_channel_id: self.text_channel_id,
            edited: self.edited,
        }
    }
}

/// One page of a channel's history (spec of `page_posts`): the `limit` newest
/// of the fetched posts, oldest first, and the creation time of the oldest
/// post on the page when older posts remain.
pub open spec fn page_spec(newest_first: Seq<Post>, limit: u64) -> (Seq<Post>, Option<Timestamp>) {
    if newest_first.len() > limit {
        let kept = newest_first.subrange(0, limit as int);
        (kept.reverse(), Some(kept.last().created_at))
    } else {
        (newest_first.reverse(), None)
    }
}

/// Cut a page out of the posts fetched for a history request. The query
/// fetches up to `limit + 1` posts, newest first; one more than `limit` means
/// older posts remain, and the page then carries the timestamp to continue
/// from. The page itself is returned oldest first.
pub fn page_posts(newest_first: Vec<Post>, limit: u64) -> (r: (Vec<Post>, Option<Timestamp>))
    requires
        limit > 0 || newest_first@.len() == 0,
    ensures
        (r.0@, r.1) == page_spec(newest_first@, limit),
{
    let mut posts = newest_first;
    let has_more = posts.len() as u64 > limit;
    let ghost all = posts@;
    let next: Option<Timestamp> = if has_more {
        posts.truncate(limit as usize);
        assert(posts@ =~= all.subrange(0, limit as int));
        Some(posts[posts.len() - 1].created_at)
    } else {
        None
    };
    let ghost kept = posts@;
    let mut out: Vec<Post> = Vec::new();
    while posts.len() > 0
        invariant
            kept.len() == posts@.len() + out@.len(),
            posts@ == kept.subrange(0, posts@.len() as int),
            out@ == kept.subrange(posts@.len() as int, kept.len() as int).reverse(),
        decreases posts@.len(),
    {
        let ghost before = posts@.len();
        let p = posts.pop().unwrap();
        out.push(p);
        proof {
            assert(kept.subrange(before - 1, kept.len() as int).reverse() =~=
                kept.subrange(before as int, kept.len() as int).reverse().push(p));
        }
    }
    proof {
        assert(kept.subrange(0, kept.len() as int) =~= kept);
    }
    (out, next)
}

/// Consecutive posts by one author share a header for at most this many rows.
pub const MESSAGE_GROUP_MAX: usize = 10;
/// A pause of this many nanoseconds (five minutes) starts a new group.
pub const MESSAGE_GROUP_GAP_NANOS: i128 = 300_000_000_000;

/// How a post row is drawn.
#[derive(Clone, Copy, Debug, PartialEq, Eq, Structural)]
pub struct RowHeader {
    /// A day divider goes above the row.
    pub new_day: bool,
    /// The row shows the author's name (and starts a group).
    pub show_name: bool,
}

/// Walks a channel's posts in display order and decides which rows start a
/// group.
#[derive(Debug)]
pub struct GroupCursor {
    pub prev_day: Option<i64>,
    pub prev_author: Option<String>,
    pub prev_created: Option<Timestamp>,
    pub run_length: usize,
}

/// The cursor is in a state its steps keep: a group is never longer than the
/// maximum.
pub open spec fn cursor_ok(c: GroupCursor) -> bool {
    c.run_length <= MESSAGE_GROUP_MAX
}

/// The header of the next row (spec of `GroupCursor::next_row`). `day` is the
/// post's calendar day in the viewer's time zone.
pub open spec fn header_spec(c: GroupCursor, day: i64, author: Seq<char>, created: Timestamp) -> RowHeader {
    let new_day = c.prev_day != Some(day);
    let gap_exceeded = match c.prev_created {
        Some(p) => ts_nanos(created) - ts_nanos(p) >= MESSAGE_GROUP_GAP_NANOS,
        None => true,
    };
    let same_author = match c.prev_author {
        Some(a) => a@ == author,
        None => false,
    };
    RowHeader {
        new_day,
        show_name: new_day || !same_author || gap_exceeded || c.run_length >= MESSAGE_GROUP_MAX,
    }
}

impl GroupCursor {
    pub fn new() -> (c: GroupCursor)
        ensures
            c.prev_day.is_none() && c.prev_author.is_none() && c.prev_created.is_none(),
            c.run_length == 0,
    {
        GroupCursor { prev_day: None, prev_author: None, prev_created: None, run_length: 0 }
    }

    /// Decide the header of the next post: a day divider when the day changes,
    /// and the author's name when the author changes, after a pause of five
    /// minutes or more, at a new day, or when the group reached its maximum.
    pub fn next_row(&mut self, day: i64, author: &String, created: Timestamp) -> (h: RowHeader)
        ensures
            h == header_spec(*old(self), day, author@, created),
            final(self).run_length == (if h.show_name { 1 } else { old(self).run_length + 1 }),
            final(self).prev_day == Some(day),
            final(self).prev_author is Some && final(self).prev_author->0@ == author@,
            final(self).prev_created == Some(created),
            cursor_ok(*final(self)),
    {
        let new_day = match self.prev_day {
            Some(d) => d != day,
            None => true,
        };
        if new_day {
            self.prev_day = Some(day);
        }
        let gap_exceeded = match self.prev_created {
            Some(p) => {
                let diff: i128 = (created.seconds as i128 - p.seconds as i128) * 1_000_000_000
                    + (created.nanos as i128 - p.nanos as i128);
                diff >= MESSAGE_GROUP_GAP_NANOS
            },
            None => true,
        };
        let same_author = match &self.prev_author {
            Some(a) => *a == *author,
            None => false,
        };
        let show_name = new_day || !same_author || gap_exceeded || self.run_length >= MESSAGE_GROUP_MAX;
        self.run_length = if show_name { 1 } else { self.run_length + 1 };
        self.prev_author = Some(author.clone());
        self.prev_created = Some(created);
        RowHeader { new_day, show_name }
    }
}

/// A day divider always starts a new group, and a group never runs past its
/// maximum length: the row after a full group shows the name again.
pub proof fn lemma_groups_are_bounded(c: GroupCursor, day: i64, author: Seq<char>, created: Timestamp)
    ensures
        c.prev_day != Some(day) ==> header_spec(c, day, author, created).show_name,
        c.run_length >= MESSAGE_GROUP_MAX ==> header_spec(c, day, author, created).show_name,
        c.prev_created.is_none() ==> header_spec(c, day, author, created).show_name,
{
}

/// The grouping state after a run of rows, each given as (day, author,
/// creation time): the previous row's day, author and time, and the length
/// of the current group.
pub open spec fn cursor_after(keys: Seq<(i64, Seq<char>, Timestamp)>) -> (Option<i64>, Option<Seq<char>>, Option<Timestamp>, int)
    decreases keys.len(),
{
    if keys.len() == 0 {
        (None, None, None, 0)
    } else {
        let prev = cursor_after(keys.drop_last());
        let k = keys.last();
        let h = header_after(prev, k);
        (Some(k.0), Some(k.1), Some(k.2), if h.show_name { 1 } else { prev.3 + 1 })
    }
}

/// The header of row `k` after the grouping state `st` (the rule of
/// `header_spec`, on the state as plain values).
pub open spec fn header_after(st: (Option<i64>, Option<Seq<char>>, Option<Timestamp>, int), k: (i64, Seq<char>, Timestamp)) -> RowHeader {
    let new_day = st.0 != Some(k.0);
    let gap_exceeded = match st.2 {
        Some(p) => ts_nanos(k.2) - ts_nanos(p) >= MESSAGE_GROUP_GAP_NANOS,
        None => true,
    };
    let same_author = st.1 == Some(k.1);
    RowHeader { new_day, show_name: new_day || !same_author || gap_exceeded || st.3 >= MESSAGE_GROUP_MAX }
}

/// The header of row `i` of a run of rows.
pub open spec fn header_at(keys: Seq<(i64, Seq<char>, Timestamp)>, i: int) -> RowHeader {
    header_after(cursor_after(keys.take(i)), keys[i])
}

/// The cursor holds the grouping state `st`.
pub open spec fn cursor_holds(c: GroupCursor, st: (Option<i64>, Option<Seq<char>>, Option<Timestamp>, int)) -> bool {
    &&& c.prev_day == st.0
    &&& match c.prev_author {
        Some(a) => st.1 == Some(a@),
        None => st.1.is_none(),
    }
    &&& c.prev_created == st.2
    &&& c.run_length == st.3
}

/// Stepping the cursor follows the grouping state: from a cursor holding the
/// state after some rows, the next row's header is `header_after` of it, and
/// the cursor then holds the state after that row too.
pub proof fn lemma_cursor_follows_rows(
    c: GroupCursor,
    keys: Seq<(i64, Seq<char>, Timestamp)>,
    k: (i64, Seq<char>, Timestamp),
    h: RowHeader,
    n: GroupCursor,
)
    requires
        cursor_holds(c, cursor_after(keys)),
        h == header_spec(c, k.0, k.1, k.2),
        n.run_length == (if h.show_name { 1 } else { c.run_length + 1 }),
        n.prev_day == Some(k.0),
        n.prev_author is Some && n.prev_author->0@ == k.1,
        n.prev_created == Some(k.2),
    ensures
        h == header_after(cursor_after(keys), k),
        cursor_holds(n, cursor_after(keys.push(k))),
{
    assert(keys.push(k).drop_last() =~= keys);
}

/// How a day divider is labelled.
#[derive(Clone, Copy, Debug, PartialEq, Eq, Structural)]
pub enum DayLabel {
    Today,
    Yesterday,
    /// The full date is written out.
    Date,
}

/// The label of the divider for day number `day`, seen on day number `today`
/// (both in the viewer's time zone).
pub fn day_label(today: i64, day: i64) -> (l: DayLabel)
    ensures
        l == (if today - day == 0 {
            DayLabel::Today
        } else if today - day == 1 {
            DayLabel::Yesterday
        } else {
            DayLabel::Date
        }),
{
    let diff: i128 = today as i128 - day as i128;
    if diff == 0 {
        DayLabel::Today
    } else if diff == 1 {
        DayLabel::Yesterday
    } else {
        DayLabel::Date
    }
}

} // verus!
