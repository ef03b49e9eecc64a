//! The chat screen's state and how each event changes it: which channel is
//! shown, every loaded channel's timeline, who is typing, and the post the
//! user is editing or about to delete.
//!
//! Each handler returns what the surrounding app must do next (fetch a page,
//! send a request, show a notification); the app performs it and reports the
//! outcome as the next event.

use vstd::prelude::*;
use std::collections::HashMap;
use crate::convert::{Channel, ChannelType, Server};
use crate::domain::WindowState;
use crate::posts::{cursor_after, cursor_holds, cursor_ok, header_at, lemma_cursor_follows_rows, GroupCursor, Post, RowHeader, Timestamp};
use crate::text::{blank, is_blank};
use crate::timeline::{
    created_of, has_key, key_index, last_own_spec, ordered_by_created, receive_spec, upsert, edit_spec,
    without_key, sent_all, upsert_entries, RenderedPost, Timeline,
};
use crate::typing::{clear_author_spec, expire_spec, typing_spec, TypingTracker};

verus! {

broadcast use vstd::std_specs::hash::group_hash_axioms;

/// A typing announcement is sent at most once per this many milliseconds.
pub const TYPING_SEND_THROTTLE_MS: u64 = 2500;

/// The servers list, as far as it has loaded.
#[derive(Debug)]
pub enum ServersState {
    NotAsked,
    Loading,
    Loaded(Vec<Server>),
    /// Loading failed with this status code.
    Failed(i32),
}

/// The text channel on screen.
#[derive(Debug)]
pub struct ViewedChannel {
    pub id: u128,
    pub name: String,
}

/// A post of a channel, named by both ids.
#[derive(Clone, Copy, Debug, PartialEq, Eq, Structural)]
pub struct PostRef {
    pub post_id: u128,
    pub text_channel_id: u128,
}

/// A loaded channel's posts and where its history continues.
pub struct ChannelPosts {
    pub timeline: Timeline,
    /// The creation time to ask older posts before; none when the whole
    /// history is loaded.
    pub next_timestamp: Option<Timestamp>,
    pub loading_more: bool,
}

/// The chat screen's state.
pub struct Model {
    pub servers: ServersState,
    pub viewing: Option<ViewedChannel>,
    pub posts: HashMap<u128, ChannelPosts>,
    pub typing: TypingTracker,
    /// When the last typing announcement went out (milliseconds of a
    /// monotonic clock).
    pub last_typing_sent: Option<u64>,
    pub editing: Option<PostRef>,
    pub confirming_delete: Option<PostRef>,
    pub shift_held: bool,
    pub hovered_post: Option<u128>,
}

/// The id of the channel on screen.
pub open spec fn viewing_id(m: Model) -> Option<u128> {
    match m.viewing {
        Some(v) => Some(v.id),
        None => None,
    }
}

/// Channel `id` is in `cs`.
pub open spec fn has_channel(cs: Seq<Channel>, id: u128) -> bool {
    exists|j: int| 0 <= j < cs.len() && #[trigger] cs[j].id == id
}

/// `j` is the first place of channel `id` in `cs`.
pub open spec fn first_channel_at(cs: Seq<Channel>, id: u128, j: int) -> bool {
    &&& 0 <= j < cs.len()
    &&& cs[j].id == id
    &&& forall|k: int| 0 <= k < j ==> #[trigger] cs[k].id != id
}

/// `j` is the first place of a text channel `id` in `cs`.
pub open spec fn first_text_channel_at(cs: Seq<Channel>, id: u128, j: int) -> bool {
    &&& 0 <= j < cs.len()
    &&& cs[j].id == id
    &&& cs[j].kind == ChannelType::Text
    &&& forall|k: int| 0 <= k < j ==> !(#[trigger] cs[k].id == id && cs[k].kind == ChannelType::Text)
}

/// `i` is the first server of `ss` that lists channel `id`.
pub open spec fn first_server_at(ss: Seq<Server>, id: u128, i: int) -> bool {
    &&& 0 <= i < ss.len()
    &&& has_channel(ss[i].channels@, id)
    &&& forall|k: int| 0 <= k < i ==> !has_channel(#[trigger] ss[k].channels@, id)
}

/// The first text channel of `cs`, if any.
pub open spec fn first_text_at(cs: Seq<Channel>, j: int) -> bool {
    &&& 0 <= j < cs.len()
    &&& cs[j].kind == ChannelType::Text
    &&& forall|k: int| 0 <= k < j ==> #[trigger] cs[k].kind != ChannelType::Text
}

/// The summary line of a post notification: the author, then the server and
/// channel the post went to.
pub open spec fn summary_text(author: Seq<char>, server: Seq<char>, channel: Seq<char>) -> Seq<char> {
    author + "\n("@ + server + ", #"@ + channel + ")"@
}

/// Whether a post delivered to `channel` is announced, and with which
/// summary: only when the user is not looking at that channel (the window
/// is in the background or another channel is shown), the servers are
/// loaded, the channel is a text channel of the first server, and the user
/// has not muted it.
pub open spec fn notify_spec(m: Model, window: WindowState, channel: u128, author: Seq<char>) -> Option<Seq<char>> {
    if (window == WindowState::NotFocused || viewing_id(m) != Some(channel)) && m.servers is Loaded
        && m.servers->Loaded_0@.len() > 0 {
        let server = m.servers->Loaded_0@[0];
        let cs = server.channels@;
        if exists|j: int| first_text_channel_at(cs, channel, j) {
            let j = choose|j: int| first_text_channel_at(cs, channel, j);
            if !cs[j].muted {
                Some(summary_text(author, server.name@, cs[j].name@))
            } else {
                None
            }
        } else {
            None
        }
    } else {
        None
    }
}

/// The characters of an optional string.
pub open spec fn text_of(r: Option<String>) -> Option<Seq<char>> {
    match r {
        Some(s) => Some(s@),
        None => None,
    }
}

/// `after` holds the channels of `before`, and all but `channel` unchanged.
pub open spec fn other_channels_kept(
    before: Map<u128, ChannelPosts>,
    after: Map<u128, ChannelPosts>,
    channel: u128,
) -> bool {
    &&& after.dom() == before.dom()
    &&& forall|c: u128| c != channel && #[trigger] before.contains_key(c) ==> after[c] == before[c]
}

/// The summary line of a post notification.
pub fn notification_summary(author: &String, server: &String, channel: &String) -> (s: String)
    ensures
        s@ == summary_text(author@, server@, channel@),
{
    let mut s = author.clone();
    s.append("\n(");
    s.append(server.as_str());
    s.append(", #");
    s.append(channel.as_str());
    s.append(")");
    s
}

/// The milliseconds since the last typing announcement allow another one:
/// none went out yet, or the throttle interval has passed (a clock reading
/// earlier than the last announcement counts as no time passed).
pub open spec fn typing_due(last: Option<u64>, now: u64) -> bool {
    match last {
        None => true,
        Some(l) => now >= l && now - l >= TYPING_SEND_THROTTLE_MS,
    }
}

/// `uuid::Uuid::new_v4`: a random id, as its 128-bit value. Nothing is
/// claimed of it.
#[verifier::external_body]
fn fresh_post_id() -> (id: u128) {
    uuid::Uuid::new_v4().as_u128()
}

/// `chrono::Utc::now`: the current time, as seconds and nanoseconds since
/// the Unix epoch. Claimed: the nanoseconds lie within a second (the source
/// builds the value from `Duration::subsec_nanos`), and the time is not
/// before the epoch (the source panics on a system clock that reads such a
/// time, so a returned value never does; that panic is not stated).
#[verifier::external_body]
fn utc_now() -> (t: Timestamp)
    ensures
        t.nanos < 1_000_000_000,
        t.seconds >= 0,
{
    let now = chrono::Utc::now();
    Timestamp { seconds: now.timestamp(), nanos: now.timestamp_subsec_nanos() }
}

/// Where channel `id` first occurs among `ss`'s servers, in order.
#[verifier::loop_isolation(false)]
fn find_channel(ss: &Vec<Server>, id: u128) -> (r: Option<(usize, usize)>)
    ensures
        match r {
            Some((i, j)) => first_server_at(ss@, id, i as int) && first_channel_at(ss@[i as int].channels@, id, j as int),
            None => forall|i: int| 0 <= i < ss@.len() ==> !has_channel(#[trigger] ss@[i].channels@, id),
        },
{
    let mut i: usize = 0;
    while i < ss.len()
        invariant
            i <= ss@.len(),
            forall|k: int| 0 <= k < i ==> !has_channel(#[trigger] ss@[k].channels@, id),
        decreases ss@.len() - i,
    {
        let cs = &ss[i].channels;
        let mut j: usize = 0;
        while j < cs.len()
            invariant
                j <= cs@.len(),
                cs@ == ss@[i as int].channels@,
                forall|k: int| 0 <= k < j ==> #[trigger] cs@[k].id != id,
            decreases cs@.len() - j,
        {
            if cs[j].id == id {
                return Some((i, j));
            }
            j += 1;
        }
        i += 1;
    }
    None
}

impl Model {
    pub fn new() -> (m: Model)
        ensures
            m.servers is NotAsked,
            m.viewing.is_none(),
            m.posts@ == Map::<u128, ChannelPosts>::empty(),
            m.typing@ == Map::<u128, Seq<(u128, Seq<char>, u64)>>::empty(),
            m.typing.last_seq() == 0,
            m.last_typing_sent.is_none(),
            m.editing.is_none(),
            m.confirming_delete.is_none(),
            !m.shift_held,
            m.hovered_post.is_none(),
    {
        Model {
            servers: ServersState::NotAsked,
            viewing: None,
            posts: HashMap::new(),
            typing: TypingTracker::new(),
            last_typing_sent: None,
            editing: None,
            confirming_delete: None,
            shift_held: false,
            hovered_post: None,
        }
    }

    /// The servers list is being fetched.
    pub fn begin_loading_servers(&mut self)
        ensures
            *final(self) == (Model { servers: ServersState::Loading, ..*old(self) }),
    {
        self.servers = ServersState::Loading;
    }
    /// Whether a post by `author` delivered to `channel` is announced, and
    /// the notification's summary line.
    #[verifier::loop_isolation(false)]
    pub fn notification(&self, window: WindowState, channel: u128, author: &String) -> (r: Option<String>)
        ensures
            text_of(r) == notify_spec(*self, window, channel, author@),
    {
        let elsewhere = match window {
            WindowState::NotFocused => true,
            WindowState::Focused => match &self.viewing {
                Some(v) => v.id != channel,
                None => true,
            },
        };
        if !elsewhere {
            return None;
        }
        let ss = match &self.servers {
            ServersState::Loaded(ss) => ss,
            _ => return None,
        };
        if ss.len() == 0 {
            return None;
        }
        let server = &ss[0];
        let cs = &server.channels;
        let mut j: usize = 0;
        while j < cs.len()
            invariant
                j <= cs@.len(),
                forall|k: int| 0 <= k < j ==> !(#[trigger] cs@[k].id == channel && cs@[k].kind == ChannelType::Text),
            decreases cs@.len() - j,
        {
            if cs[j].id == channel && cs[j].kind == ChannelType::Text {
                proof {
                    assert(first_text_channel_at(cs@, channel, j as int));
                    let c = choose|c: int| first_text_channel_at(cs@, channel, c);
                    assert(c == j) by {
                        if c < j {
                            assert(!(cs@[c].id == channel && cs@[c].kind == ChannelType::Text));
                        } else if c > j {
                            assert(!(cs@[j as int].id == channel && cs@[j as int].kind == ChannelType::Text));
                        }
                    }
                }
                if cs[j].muted {
                    return None;
                }
                return Some(notification_summary(author, &server.name, &cs[j].name));
            }
            j += 1;
        }
        None
    }
    /// The first page of `channel`'s history arrived (it replaces whatever
    /// was loaded for the channel).
    pub fn initial_posts_loaded(&mut self, channel: u128, posts: Vec<Post>, next: Option<Timestamp>)
        ensures
            *final(self) == (Model { posts: final(self).posts, ..*old(self) }),
            final(self).posts@.dom() == old(self).posts@.dom().insert(channel),
            forall|c: u128| c != channel && #[trigger] old(self).posts@.contains_key(c)
                ==> final(self).posts@[c] == old(self).posts@[c],
            final(self).posts@[channel].timeline@ == sent_all(Seq::empty(), posts@),
            final(self).posts@[channel].next_timestamp == next,
            !final(self).posts@[channel].loading_more,
    {
        let timeline = Timeline::from_posts(posts);
        self.posts.insert(channel, ChannelPosts { timeline, next_timestamp: next, loading_more: false });
    }

    /// An older page of `channel`'s history arrived: it goes before the
    /// posts shown, and the history now continues at `next`. Nothing happens
    /// for a channel that is not loaded.
    pub fn more_posts_loaded(&mut self, channel: u128, page: Vec<Post>, next: Option<Timestamp>)
        ensures
            *final(self) == (Model { posts: final(self).posts, ..*old(self) }),
            !old(self).posts@.contains_key(channel) ==> final(self).posts@ == old(self).posts@,
            old(self).posts@.contains_key(channel) ==> {
                &&& other_channels_kept(old(self).posts@, final(self).posts@, channel)
                &&& final(self).posts@[channel].timeline@ == upsert_entries(
                    sent_all(Seq::empty(), page@),
                    old(self).posts@[channel].timeline@,
                )
                &&& final(self).posts@[channel].next_timestamp == next
                &&& !final(self).posts@[channel].loading_more
            },
    {
        if !self.posts.contains_key(&channel) {
            return;
        }
        let mut cp = self.posts.remove(&channel).unwrap();
        cp.timeline.prepend_page(page);
        cp.next_timestamp = next;
        cp.loading_more = false;
        self.posts.insert(channel, cp);
        proof {
            assert(self.posts@.dom() =~= old(self).posts@.dom());
        }
    }

    /// The user scrolled to the top of the shown channel: ask for the page
    /// before the oldest loaded post, unless a request is pending or the
    /// whole history is loaded.
    pub fn scrolled_to_top(&self) -> (r: Option<(u128, Timestamp)>)
        ensures
            r == (match viewing_id(*self) {
                Some(c) => if self.posts@.contains_key(c) && !self.posts@[c].loading_more
                    && self.posts@[c].next_timestamp is Some {
                    Some((c, self.posts@[c].next_timestamp->0))
                } else {
                    None
                },
                None => None,
            }),
    {
        let c = match &self.viewing {
            Some(v) => v.id,
            None => return None,
        };
        match self.posts.get(&c) {
            Some(cp) => {
                if cp.loading_more {
                    None
                } else {
                    match cp.next_timestamp {
                        Some(t) => Some((c, t)),
                        None => None,
                    }
                }
            },
            None => None,
        }
    }

    /// The server delivered `post`. In a loaded channel it takes its place on
    /// the timeline (replacing the local copy of a post the user sent), and
    /// its author no longer shows as typing. Returns the notification to
    /// show: for a post new to a loaded channel, or any post of a channel not
    /// loaded, when `notification` says so.
    pub fn post_delivered(&mut self, post: Post, window: WindowState) -> (r: Option<String>)
        ensures
            !old(self).posts@.contains_key(post.text_channel_id) ==> {
                &&& *final(self) == *old(self)
                &&& text_of(r) == notify_spec(*old(self), window, post.text_channel_id, post.author_name@)
            },
            old(self).posts@.contains_key(post.text_channel_id) ==> ({
                let ch = post.text_channel_id;
                let before = old(self).posts@[ch];
                let after = final(self).posts@[ch];
                let rest = without_key(before.timeline@, post.id);
                &&& *final(self) == (Model { posts: final(self).posts, typing: final(self).typing, ..*old(self) })
                &&& other_channels_kept(old(self).posts@, final(self).posts@, ch)
                &&& after.next_timestamp == before.next_timestamp
                &&& after.loading_more == before.loading_more
                &&& exists|p: int| 0 <= p <= rest.len() && after.timeline@ == #[trigger] rest.insert(p, (post.id, RenderedPost::Sent(post)))
                &&& ordered_by_created(before.timeline@) ==> after.timeline@ == receive_spec(before.timeline@, post)
                &&& final(self).typing@ == clear_author_spec(old(self).typing@, ch, post.author_name@)
                &&& final(self).typing.last_seq() == old(self).typing.last_seq()
                &&& text_of(r) == (if has_key(before.timeline@, post.id) {
                    None
                } else {
                    notify_spec(*old(self), window, ch, post.author_name@)
                })
            }),
    {
        let channel = post.text_channel_id;
        let author = post.author_name.clone();
        if !self.posts.contains_key(&channel) {
            return self.notification(window, channel, &author);
        }
        let r0 = self.notification(window, channel, &author);
        let mut cp = self.posts.remove(&channel).unwrap();
        let fresh = cp.timeline.receive(post);
        self.posts.insert(channel, cp);
        self.typing.post_delivered(channel, &author);
        proof {
            assert(self.posts@.dom() =~= old(self).posts@.dom());
        }
        if fresh {
            r0
        } else {
            None
        }
    }

    /// The server reports new text for post `id` of `channel`; a delivered
    /// post of a loaded channel takes it.
    pub fn post_edited(&mut self, id: u128, content: String, channel: u128)
        ensures
            *final(self) == (Model { posts: final(self).posts, ..*old(self) }),
            !old(self).posts@.contains_key(channel) ==> final(self).posts@ == old(self).posts@,
            old(self).posts@.contains_key(channel) ==> {
                &&& other_channels_kept(old(self).posts@, final(self).posts@, channel)
                &&& final(self).posts@[channel].timeline@ == edit_spec(old(self).posts@[channel].timeline@, id, content)
                &&& final(self).posts@[channel].next_timestamp == old(self).posts@[channel].next_timestamp
                &&& final(self).posts@[channel].loading_more == old(self).posts@[channel].loading_more
            },
    {
        if !self.posts.contains_key(&channel) {
            return;
        }
        let mut cp = self.posts.remove(&channel).unwrap();
        cp.timeline.edit(id, content);
        self.posts.insert(channel, cp);
        proof {
            assert(self.posts@.dom() =~= old(self).posts@.dom());
        }
    }

    /// Remove post `id` from `channel`'s timeline, if loaded.
    fn remove_post(&mut self, id: u128, channel: u128)
        ensures
            *final(self) == (Model { posts: final(self).posts, ..*old(self) }),
            !old(self).posts@.contains_key(channel) ==> final(self).posts@ == old(self).posts@,
            old(self).posts@.contains_key(channel) ==> {
                &&& other_channels_kept(old(self).posts@, final(self).posts@, channel)
                &&& final(self).posts@[channel].timeline@ == without_key(old(self).posts@[channel].timeline@, id)
                &&& final(self).posts@[channel].next_timestamp == old(self).posts@[channel].next_timestamp
                &&& final(self).posts@[channel].loading_more == old(self).posts@[channel].loading_more
            },
    {
        if !self.posts.contains_key(&channel) {
            return;
        }
        let mut cp = self.posts.remove(&channel).unwrap();
        cp.timeline.remove(id);
        self.posts.insert(channel, cp);
        proof {
            assert(self.posts@.dom() =~= old(self).posts@.dom());
        }
    }

    /// The server reports that post `id` of `channel` was deleted: it leaves
    /// the timeline, and the editor or delete prompt open on it closes.
    pub fn post_deleted(&mut self, id: u128, channel: u128)
        ensures
            *final(self) == (Model {
                posts: final(self).posts,
                editing: if old(self).editing matches Some(e) && e.post_id == id { None } else { old(self).editing },
                confirming_delete: if old(self).confirming_delete matches Some(d) && d.post_id == id {
                    None
                } else {
                    old(self).confirming_delete
                },
                ..*old(self)
            }),
            !old(self).posts@.contains_key(channel) ==> final(self).posts@ == old(self).posts@,
            old(self).posts@.contains_key(channel) ==> {
                &&& other_channels_kept(old(self).posts@, final(self).posts@, channel)
                &&& final(self).posts@[channel].timeline@ == without_key(old(self).posts@[channel].timeline@, id)
                &&& final(self).posts@[channel].next_timestamp == old(self).posts@[channel].next_timestamp
                &&& final(self).posts@[channel].loading_more == old(self).posts@[channel].loading_more
            },
    {
        self.remove_post(id, channel);
        match self.editing {
            Some(e) => if e.post_id == id {
                self.editing = None;
            },
            None => {},
        }
        match self.confirming_delete {
            Some(d) => if d.post_id == id {
                self.confirming_delete = None;
            },
            None => {},
        }
    }

    /// `user` started typing in `channel`. Returns the number of this
    /// notification, which the expiry scheduled for it carries.
    pub fn typing_started(&mut self, channel: u128, user_id: u128, name: String) -> (seq: u64)
        requires
            old(self).typing.last_seq() < u64::MAX,
        ensures
            *final(self) == (Model { typing: final(self).typing, ..*old(self) }),
            seq == old(self).typing.last_seq() + 1,
            final(self).typing.last_seq() == seq,
            final(self).typing@ == typing_spec(old(self).typing@, channel, user_id, name@, seq),
    {
        self.typing.typing(channel, user_id, name)
    }

    /// The expiry scheduled for typing notification `seq` fired.
    pub fn typing_expired(&mut self, channel: u128, user_id: u128, seq: u64)
        ensures
            *final(self) == (Model { typing: final(self).typing, ..*old(self) }),
            final(self).typing.last_seq() == old(self).typing.last_seq(),
            final(self).typing@ == expire_spec(old(self).typing@, channel, user_id, seq),
    {
        self.typing.expire(channel, user_id, seq)
    }
    /// The servers list arrived (or failed to). When it holds servers, the
    /// app follows the first one's calls and opens its first text channel:
    /// returns that server's id and that channel, if it has one.
    pub fn servers_loaded(&mut self, res: Result<Vec<Server>, i32>) -> (r: Option<(u128, Option<(u128, String)>)>)
        ensures
            *final(self) == (Model {
                servers: match res {
                    Ok(ss) => ServersState::Loaded(ss),
                    Err(code) => ServersState::Failed(code),
                },
                ..*old(self)
            }),
            match res {
                Ok(ss) => if ss@.len() > 0 {
                    &&& r is Some
                    &&& r.unwrap().0 == ss@[0].id
                    &&& (r.unwrap().1 is Some <==> exists|j: int| first_text_at(ss@[0].channels@, j))
                    &&& forall|j: int| first_text_at(ss@[0].channels@, j)
                        ==> r.unwrap().1 == Some((ss@[0].channels@[j].id, ss@[0].channels@[j].name))
                } else {
                    r is None
                },
                Err(_) => r is None,
            },
    {
        match res {
            Err(code) => {
                self.servers = ServersState::Failed(code);
                None
            },
            Ok(ss) => {
                let r = if ss.len() == 0 {
                    None
                } else {
                    let cs = &ss[0].channels;
                    let mut j: usize = 0;
                    while j < cs.len() && cs[j].kind != ChannelType::Text
                        invariant
                            j <= cs@.len(),
                            forall|k: int| 0 <= k < j ==> #[trigger] cs@[k].kind != ChannelType::Text,
                        decreases cs@.len() - j,
                    {
                        j += 1;
                    }
                    let found = if j < cs.len() {
                        proof {
                            assert(first_text_at(cs@, j as int));
                            assert forall|j2: int| first_text_at(cs@, j2) implies j2 == j by {
                                if j2 < j {
                                    assert(cs@[j2].kind != ChannelType::Text);
                                } else if j2 > j {
                                    assert(cs@[j as int].kind != ChannelType::Text);
                                }
                            }
                        }
                        Some((cs[j].id, cs[j].name.clone()))
                    } else {
                        None
                    };
                    Some((ss[0].id, found))
                };
                self.servers = ServersState::Loaded(ss);
                r
            },
        }
    }

    /// The user opened text channel `id`. Returns whether its history must
    /// be fetched (it was never loaded).
    pub fn select_text_channel(&mut self, id: u128, name: String) -> (fetch: bool)
        ensures
            *final(self) == (Model { viewing: Some(ViewedChannel { id, name }), ..*old(self) }),
            fetch == !old(self).posts@.contains_key(id),
    {
        self.viewing = Some(ViewedChannel { id, name });
        !self.posts.contains_key(&id)
    }

    /// The user flipped the notification mute of a channel. The first
    /// channel with that id, over the servers in order, changes; returns its
    /// new setting, for the app to store on the server. Nothing happens
    /// before the servers are loaded or for an unknown channel.
    pub fn toggle_channel_mute(&mut self, channel: u128) -> (r: Option<bool>)
        ensures
            match old(self).servers {
                ServersState::Loaded(ss) => {
                    &&& (forall|i: int| 0 <= i < ss@.len() ==> !has_channel(#[trigger] ss@[i].channels@, channel))
                        ==> (*final(self) == *old(self) && r is None)
                    &&& forall|i: int, j: int| first_server_at(ss@, channel, i) && first_channel_at(ss@[i].channels@, channel, j)
                        ==> ({
                        let c = ss@[i].channels@[j];
                        &&& r == Some(!c.muted)
                        &&& *final(self) == (Model { servers: final(self).servers, ..*old(self) })
                        &&& final(self).servers is Loaded
                        &&& final(self).servers->Loaded_0@.len() == ss@.len()
                        &&& forall|k: int| 0 <= k < ss@.len() && k != i ==> #[trigger] final(self).servers->Loaded_0@[k] == ss@[k]
                        &&& final(self).servers->Loaded_0@[i].id == ss@[i].id
                        &&& final(self).servers->Loaded_0@[i].name == ss@[i].name
                        &&& final(self).servers->Loaded_0@[i].channels@ == ss@[i].channels@.update(
                            j,
                            Channel { id: c.id, name: c.name, kind: c.kind, muted: !c.muted },
                        )
                    })
                },
                _ => *final(self) == *old(self) && r is None,
            },
    {
        let mut servers = ServersState::NotAsked;
        std::mem::swap(&mut servers, &mut self.servers);
        let mut ss = match servers {
            ServersState::Loaded(ss) => ss,
            other => {
                self.servers = other;
                return None;
            },
        };
        let ghost before = ss@;
        match find_channel(&ss, channel) {
            None => {
                self.servers = ServersState::Loaded(ss);
                None
            },
            Some((i, j)) => {
                proof {
                    assert forall|i2: int, j2: int| first_server_at(before, channel, i2)
                        && first_channel_at(before[i2].channels@, channel, j2) implies i2 == i && j2 == j by {
                        if i2 < i {
                            assert(!has_channel(before[i2].channels@, channel));
                        } else if i2 > i {
                            assert(!has_channel(before[i as int].channels@, channel));
                        }
                        let cs = before[i as int].channels@;
                        if j2 < j {
                            assert(cs[j2].id != channel);
                        } else if j2 > j {
                            assert(cs[j as int].id != channel);
                        }
                    }
                }
                let mut server = ss.remove(i);
                let mut c = server.channels.remove(j);
                c.muted = !c.muted;
                let muted = c.muted;
                server.channels.insert(j, c);
                ss.insert(i, server);
                proof {
                    assert(ss@ =~= before.update(i as int, ss@[i as int]));
                    assert(ss@[i as int].channels@ =~= before[i as int].channels@.update(j as int, ss@[i as int].channels@[j as int]));
                }
                self.servers = ServersState::Loaded(ss);
                Some(muted)
            },
        }
    }

    /// Open the inline editor on post `post_id` of `channel`, if it is a
    /// delivered post of a loaded channel. Returns its text, to fill the
    /// editor with.
    pub fn start_editing(&mut self, post_id: u128, channel: u128) -> (r: Option<String>)
        ensures
            ({
                let ok = old(self).posts@.contains_key(channel) && has_key(old(self).posts@[channel].timeline@, post_id)
                    && old(self).posts@[channel].timeline@[key_index(old(self).posts@[channel].timeline@, post_id)].1 is Sent;
                if ok {
                    let p = old(self).posts@[channel].timeline@[key_index(old(self).posts@[channel].timeline@, post_id)].1->0;
                    &&& *final(self) == (Model { editing: Some(PostRef { post_id, text_channel_id: channel }), ..*old(self) })
                    &&& r is Some && r->0@ == p.content@
                } else {
                    *final(self) == *old(self) && r is None
                }
            }),
    {
        let content = match self.posts.get(&channel) {
            Some(cp) => cp.timeline.sent_content(post_id),
            None => None,
        };
        match content {
            Some(text) => {
                self.editing = Some(PostRef { post_id, text_channel_id: channel });
                Some(text)
            },
            None => None,
        }
    }

    /// Close the inline editor without saving.
    pub fn cancel_edit(&mut self)
        ensures
            *final(self) == (Model { editing: None, ..*old(self) }),
    {
        self.editing = None;
    }

    /// The user saved the inline editor with `content`. The editor closes;
    /// text that is blank is dropped. Otherwise a delivered post of a loaded
    /// channel shows the new text at once, and the post and text are
    /// returned for the app to send.
    pub fn submit_edit(&mut self, content: String) -> (r: Option<(PostRef, String)>)
        ensures
            match old(self).editing {
                None => *final(self) == *old(self) && r is None,
                Some(e) => if blank(content@) {
                    *final(self) == (Model { editing: None, ..*old(self) }) && r is None
                } else {
                    &&& r == Some((e, content))
                    &&& *final(self) == (Model { posts: final(self).posts, editing: None, ..*old(self) })
                    &&& !old(self).posts@.contains_key(e.text_channel_id) ==> final(self).posts@ == old(self).posts@
                    &&& old(self).posts@.contains_key(e.text_channel_id) ==> {
                        &&& other_channels_kept(old(self).posts@, final(self).posts@, e.text_channel_id)
                        &&& final(self).posts@[e.text_channel_id].timeline@ == edit_spec(
                            old(self).posts@[e.text_channel_id].timeline@,
                            e.post_id,
                            content,
                        )
                        &&& final(self).posts@[e.text_channel_id].next_timestamp
                            == old(self).posts@[e.text_channel_id].next_timestamp
                        &&& final(self).posts@[e.text_channel_id].loading_more
                            == old(self).posts@[e.text_channel_id].loading_more
                    }
                },
            },
    {
        let e = match self.editing {
            Some(e) => e,
            None => return None,
        };
        self.editing = None;
        if is_blank(content.as_str()) {
            return None;
        }
        let sent = content.clone();
        self.post_edited(e.post_id, content, e.text_channel_id);
        Some((e, sent))
    }

    /// The user's latest delivered post in the channel on screen.
    pub fn last_own_post(&self, user_id: u128) -> (r: Option<PostRef>)
        ensures
            r == (match viewing_id(*self) {
                Some(c) => if self.posts@.contains_key(c) {
                    match last_own_spec(self.posts@[c].timeline@, user_id) {
                        Some(id) => Some(PostRef { post_id: id, text_channel_id: c }),
                        None => None,
                    }
                } else {
                    None
                },
                None => None,
            }),
            r matches Some(t) ==> {
                &&& self.posts@.contains_key(t.text_channel_id)
                &&& has_key(self.posts@[t.text_channel_id].timeline@, t.post_id)
                &&& self.posts@[t.text_channel_id].timeline@[key_index(self.posts@[t.text_channel_id].timeline@, t.post_id)].1 is Sent
            },
    {
        let c = match &self.viewing {
            Some(v) => v.id,
            None => return None,
        };
        match self.posts.get(&c) {
            Some(cp) => match cp.timeline.last_own_post(user_id) {
                Some(id) => Some(PostRef { post_id: id, text_channel_id: c }),
                None => None,
            },
            None => None,
        }
    }

    /// The user asked to edit their last post (with the input box empty):
    /// open the editor on the latest own delivered post of the channel on
    /// screen. Returns the post and its text when the editor opened; the app
    /// otherwise treats the key as ordinary input.
    pub fn edit_last_own_post(&mut self, input: &str, user_id: u128) -> (r: Option<(PostRef, String)>)
        ensures
            !blank(input@) ==> *final(self) == *old(self) && r is None,
            blank(input@) ==> match old(self).last_own_post_spec(user_id) {
                None => *final(self) == *old(self) && r is None,
                Some(t) => {
                    &&& *final(self) == (Model { editing: Some(t), ..*old(self) })
                    &&& r is Some && r.unwrap().0 == t
                    &&& r.unwrap().1@ == old(self).posts@[t.text_channel_id].timeline@[key_index(
                        old(self).posts@[t.text_channel_id].timeline@,
                        t.post_id,
                    )].1->0.content@
                },
            },
    {
        if !is_blank(input) {
            return None;
        }
        match self.last_own_post(user_id) {
            None => None,
            Some(t) => {
                match self.start_editing(t.post_id, t.text_channel_id) {
                    Some(text) => Some((t, text)),
                    None => None,
                }
            },
        }
    }

    /// The spec of `last_own_post`.
    pub open spec fn last_own_post_spec(&self, user_id: u128) -> Option<PostRef> {
        match viewing_id(*self) {
            Some(c) => if self.posts@.contains_key(c) {
                match last_own_spec(self.posts@[c].timeline@, user_id) {
                    Some(id) => Some(PostRef { post_id: id, text_channel_id: c }),
                    None => None,
                }
            } else {
                None
            },
            None => None,
        }
    }
    /// Delete `target` locally at once (closing the editor if it is open on
    /// that post); the app asks the server to delete it.
    fn delete_post(&mut self, target: PostRef)
        ensures
            *final(self) == (Model {
                posts: final(self).posts,
                editing: if old(self).editing matches Some(e) && e.post_id == target.post_id {
                    None
                } else {
                    old(self).editing
                },
                ..*old(self)
            }),
            posts_after_delete(old(self).posts@, final(self).posts@, target),
    {
        self.remove_post(target.post_id, target.text_channel_id);
        match self.editing {
            Some(e) => if e.post_id == target.post_id {
                self.editing = None;
            },
            None => {},
        }
    }

    /// The user asked to delete `target`. With Shift held it goes at once
    /// and is returned for the app to send; otherwise a confirmation prompt
    /// opens on it.
    pub fn request_delete(&mut self, target: PostRef) -> (r: Option<PostRef>)
        ensures
            old(self).shift_held ==> {
                &&& r == Some(target)
                &&& *final(self) == (Model {
                    posts: final(self).posts,
                    editing: if old(self).editing matches Some(e) && e.post_id == target.post_id {
                        None
                    } else {
                        old(self).editing
                    },
                    ..*old(self)
                })
                &&& posts_after_delete(old(self).posts@, final(self).posts@, target)
            },
            !old(self).shift_held ==> r is None && *final(self) == (Model {
                confirming_delete: Some(target),
                ..*old(self)
            }),
    {
        if self.shift_held {
            self.delete_post(target);
            Some(target)
        } else {
            self.confirming_delete = Some(target);
            None
        }
    }

    /// The user confirmed the delete prompt: its post goes and is returned
    /// for the app to send.
    pub fn confirm_delete(&mut self) -> (r: Option<PostRef>)
        ensures
            r == old(self).confirming_delete,
            match old(self).confirming_delete {
                None => *final(self) == *old(self),
                Some(t) => {
                    &&& *final(self) == (Model {
                        posts: final(self).posts,
                        confirming_delete: None,
                        editing: if old(self).editing matches Some(e) && e.post_id == t.post_id {
                            None
                        } else {
                            old(self).editing
                        },
                        ..*old(self)
                    })
                    &&& posts_after_delete(old(self).posts@, final(self).posts@, t)
                },
            },
    {
        match self.confirming_delete {
            None => None,
            Some(t) => {
                self.confirming_delete = None;
                self.delete_post(t);
                Some(t)
            },
        }
    }

    /// The user dismissed the delete prompt.
    pub fn cancel_delete(&mut self)
        ensures
            *final(self) == (Model { confirming_delete: None, ..*old(self) }),
    {
        self.confirming_delete = None;
    }

    /// Shift was pressed or released.
    pub fn set_shift_held(&mut self, held: bool)
        ensures
            *final(self) == (Model { shift_held: held, ..*old(self) }),
    {
        self.shift_held = held;
    }

    /// The pointer entered post `id`.
    pub fn post_hovered(&mut self, id: u128)
        ensures
            *final(self) == (Model { hovered_post: Some(id), ..*old(self) }),
    {
        self.hovered_post = Some(id);
    }

    /// The pointer left post `id`; another post the pointer entered since
    /// stays hovered.
    pub fn post_unhovered(&mut self, id: u128)
        ensures
            *final(self) == (Model {
                hovered_post: if old(self).hovered_post == Some(id) { None } else { old(self).hovered_post },
                ..*old(self)
            }),
    {
        if self.hovered_post == Some(id) {
            self.hovered_post = None;
        }
    }

    /// Escape closes the delete prompt if one is open, else the editor.
    pub fn escape_pressed(&mut self)
        ensures
            *final(self) == (if old(self).confirming_delete is Some {
                Model { confirming_delete: None, ..*old(self) }
            } else {
                Model { editing: None, ..*old(self) }
            }),
    {
        if self.confirming_delete.is_some() {
            self.confirming_delete = None;
        } else {
            self.editing = None;
        }
    }

    /// The message input changed to `input` at `now_ms` (a monotonic clock).
    /// For an edit in a shown channel, with the connection up, the input not
    /// blank and no announcement in the last throttle interval, the user is
    /// announced as typing: returns the channel to announce it in.
    pub fn input_changed(&mut self, is_edit: bool, input: &str, now_ms: u64, connected: bool) -> (r: Option<u128>)
        ensures
            ({
                let announce = is_edit && viewing_id(*old(self)) is Some && connected
                    && typing_due(old(self).last_typing_sent, now_ms) && !blank(input@);
                if announce {
                    &&& r == viewing_id(*old(self))
                    &&& *final(self) == (Model { last_typing_sent: Some(now_ms), ..*old(self) })
                } else {
                    r is None && *final(self) == *old(self)
                }
            }),
    {
        let channel = match &self.viewing {
            Some(v) => v.id,
            None => return None,
        };
        if !is_edit || !connected {
            return None;
        }
        let due = match self.last_typing_sent {
            None => true,
            Some(last) => now_ms >= last && now_ms - last >= TYPING_SEND_THROTTLE_MS,
        };
        if due && !is_blank(input) {
            self.last_typing_sent = Some(now_ms);
            Some(channel)
        } else {
            None
        }
    }

    /// The user sent the message input. With a shown, loaded channel, the
    /// connection up and text that is not blank, returns the channel and a
    /// fresh random id for the new post; the app sends it and then calls
    /// `record_submission`.
    pub fn submission_target(&self, input: &str, connected: bool) -> (r: Option<(u128, u128)>)
        ensures
            r is Some <==> (viewing_id(*self) is Some && connected && self.posts@.contains_key(
                viewing_id(*self)->0,
            ) && !blank(input@)),
            r is Some ==> Some(r.unwrap().0) == viewing_id(*self),
    {
        let channel = match &self.viewing {
            Some(v) => v.id,
            None => return None,
        };
        if !connected || !self.posts.contains_key(&channel) || is_blank(input) {
            return None;
        }
        Some((channel, fresh_post_id()))
    }

    /// The app sent (or failed to send, `sent` false) a new post `post_id`
    /// with `content` by `name` to `channel`. In a loaded channel it appears
    /// at once at the end, stamped with the current time, as on its way or
    /// as failed; and the next edit of the input may announce typing again.
    pub fn record_submission(&mut self, channel: u128, post_id: u128, content: String, name: String, sent: bool)
        ensures
            !old(self).posts@.contains_key(channel) ==> *final(self) == *old(self),
            old(self).posts@.contains_key(channel) ==> {
                &&& *final(self) == (Model { posts: final(self).posts, last_typing_sent: None, ..*old(self) })
                &&& other_channels_kept(old(self).posts@, final(self).posts@, channel)
                &&& final(self).posts@[channel].next_timestamp == old(self).posts@[channel].next_timestamp
                &&& final(self).posts@[channel].loading_more == old(self).posts@[channel].loading_more
                &&& exists|t: Timestamp| #[trigger] final(self).posts@[channel].timeline@ == upsert(
                    old(self).posts@[channel].timeline@,
                    post_id,
                    if sent {
                        RenderedPost::Sending { id: post_id, created_at: t, content, name }
                    } else {
                        RenderedPost::Errored { id: post_id, created_at: t, content, name }
                    },
                )
            },
    {
        if !self.posts.contains_key(&channel) {
            return;
        }
        let created_at = utc_now();
        let post = if sent {
            RenderedPost::Sending { id: post_id, created_at, content, name }
        } else {
            RenderedPost::Errored { id: post_id, created_at, content, name }
        };
        let mut cp = self.posts.remove(&channel).unwrap();
        cp.timeline.push_local(post);
        self.posts.insert(channel, cp);
        self.last_typing_sent = None;
        proof {
            assert(self.posts@.dom() =~= old(self).posts@.dom());
        }
    }

    /// The names of the users typing in the channel on screen, in the order
    /// they started.
    pub fn typing_names(&self) -> (r: Vec<String>)
        ensures
            match viewing_id(*self) {
                Some(c) => if self.typing@.contains_key(c) {
                    r@.len() == self.typing@[c].len() && forall|i: int| 0 <= i < r@.len() ==> #[trigger] r@[i]@ == self.typing@[c][i].1
                } else {
                    r@.len() == 0
                },
                None => r@.len() == 0,
            },
    {
        match &self.viewing {
            Some(v) => self.typing.names(v.id),
            None => Vec::new(),
        }
    }
}

/// `after` is `before` with `target`'s post removed from its channel's
/// timeline, if that channel is loaded.
pub open spec fn posts_after_delete(before: Map<u128, ChannelPosts>, after: Map<u128, ChannelPosts>, target: PostRef) -> bool {
    let c = target.text_channel_id;
    &&& !before.contains_key(c) ==> after == before
    &&& before.contains_key(c) ==> {
        &&& other_channels_kept(before, after, c)
        &&& after[c].timeline@ == without_key(before[c].timeline@, target.post_id)
        &&& after[c].next_timestamp == before[c].next_timestamp
        &&& after[c].loading_more == before[c].loading_more
    }
}

/// The line that says who is typing: one, two or three names are listed,
/// more are summed up.
pub open spec fn typing_line(names: Seq<Seq<char>>) -> Option<Seq<char>> {
    if names.len() == 0 {
        None
    } else if names.len() == 1 {
        Some(names[0] + " is typing…"@)
    } else if names.len() == 2 {
        Some(names[0] + " and "@ + names[1] + " are typing…"@)
    } else if names.len() == 3 {
        Some(names[0] + ", "@ + names[1] + ", and "@ + names[2] + " are typing…"@)
    } else {
        Some("Several people are typing…"@)
    }
}

/// The typing indicator's text for `names`.
pub fn typing_indicator(names: &Vec<String>) -> (r: Option<String>)
    ensures
        text_of(r) == typing_line(names@.map_values(|s: String| s@)),
{
    if names.len() == 0 {
        None
    } else if names.len() == 1 {
        let mut s = names[0].clone();
        s.append(" is typing…");
        Some(s)
    } else if names.len() == 2 {
        let mut s = names[0].clone();
        s.append(" and ");
        s.append(names[1].as_str());
        s.append(" are typing…");
        Some(s)
    } else if names.len() == 3 {
        let mut s = names[0].clone();
        s.append(", ");
        s.append(names[1].as_str());
        s.append(", and ");
        s.append(names[2].as_str());
        s.append(" are typing…");
        Some(s)
    } else {
        Some(String::from_str("Several people are typing…"))
    }
}

/// A post never raises a notification for the channel the user is looking
/// at in the focused window, nor for a channel the user muted.
pub proof fn lemma_no_notification_when_seen_or_muted(m: Model, window: WindowState, channel: u128, author: Seq<char>, j: int)
    ensures
        window == WindowState::Focused && viewing_id(m) == Some(channel) ==> notify_spec(m, window, channel, author) is None,
        m.servers is Loaded && m.servers->Loaded_0@.len() > 0
            && first_text_channel_at(m.servers->Loaded_0@[0].channels@, channel, j)
            && m.servers->Loaded_0@[0].channels@[j].muted ==> notify_spec(m, window, channel, author) is None,
{
    if m.servers is Loaded && m.servers->Loaded_0@.len() > 0 {
        let cs = m.servers->Loaded_0@[0].channels@;
        if first_text_channel_at(cs, channel, j) {
            let c = choose|c: int| first_text_channel_at(cs, channel, c);
            assert(c == j) by {
                if c < j {
                    assert(!(cs[c].id == channel && cs[c].kind == ChannelType::Text));
                } else if c > j {
                    assert(!(cs[j].id == channel && cs[j].kind == ChannelType::Text));
                }
            }
        }
    }
}

/// A post to an unmuted text channel of the first loaded server is
/// announced whenever the user is not looking at that channel: the window is
/// in the background, or it shows no channel or another one. The summary is
/// the author, then the server and channel names.
pub proof fn lemma_unseen_post_notifies(m: Model, window: WindowState, channel: u128, author: Seq<char>, j: int)
    requires
        m.servers is Loaded,
        m.servers->Loaded_0@.len() > 0,
        0 <= j < m.servers->Loaded_0@[0].channels@.len(),
        m.servers->Loaded_0@[0].channels@[j].id == channel,
        m.servers->Loaded_0@[0].channels@[j].kind == ChannelType::Text,
        forall|k: int| 0 <= k < j ==> !((#[trigger] m.servers->Loaded_0@[0].channels@[k]).id == channel
            && m.servers->Loaded_0@[0].channels@[k].kind == ChannelType::Text),
        !m.servers->Loaded_0@[0].channels@[j].muted,
        window == WindowState::NotFocused || m.viewing is None || m.viewing->0.id != channel,
    ensures
        notify_spec(m, window, channel, author) == Some(
            author + "\n("@ + m.servers->Loaded_0@[0].name@ + ", #"@ + m.servers->Loaded_0@[0].channels@[j].name@ + ")"@,
        ),
{
    let cs = m.servers->Loaded_0@[0].channels@;
    assert(first_text_channel_at(cs, channel, j));
    let c = choose|c: int| first_text_channel_at(cs, channel, c);
    assert(c == j) by {
        if c < j {
            assert(!(cs[c].id == channel && cs[c].kind == ChannelType::Text));
        } else if c > j {
            assert(!(cs[j].id == channel && cs[j].kind == ChannelType::Text));
        }
    }
}

/// A post is announced only for a text channel of the first loaded server
/// that the user has not muted and is not looking at.
pub proof fn lemma_notification_only_when_unseen(m: Model, window: WindowState, channel: u128, author: Seq<char>)
    requires
        notify_spec(m, window, channel, author) is Some,
    ensures
        window == WindowState::NotFocused || m.viewing is None || m.viewing->0.id != channel,
        m.servers is Loaded && m.servers->Loaded_0@.len() > 0,
        exists|j: int| 0 <= j < m.servers->Loaded_0@[0].channels@.len()
            && (#[trigger] m.servers->Loaded_0@[0].channels@[j]).id == channel
            && m.servers->Loaded_0@[0].channels@[j].kind == ChannelType::Text
            && !m.servers->Loaded_0@[0].channels@[j].muted,
{
    let cs = m.servers->Loaded_0@[0].channels@;
    let j = choose|j: int| first_text_channel_at(cs, channel, j);
    assert(cs[j].id == channel);
}

/// Typing announcements are throttled: after one at `last`, none is due
/// until the throttle interval has passed.
pub proof fn lemma_typing_announcements_throttled(last: u64, now: u64)
    ensures
        now < last + TYPING_SEND_THROTTLE_MS ==> !typing_due(Some(last), now),
        now >= last + TYPING_SEND_THROTTLE_MS ==> typing_due(Some(last), now),
{
}

/// How a post is drawn: on its way, failed to leave, or delivered.
#[derive(Clone, Copy, Debug, PartialEq, Eq, Structural)]
pub enum PostState {
    Sending,
    Errored,
    Sent,
}

/// A row of the timeline as drawn.
#[derive(Clone, Copy, Debug, PartialEq, Eq, Structural)]
pub struct PostRow {
    pub post_id: u128,
    /// The day divider above it and whether it shows the author.
    pub header: RowHeader,
    pub state: PostState,
    /// A delivered post that was edited: marked as such.
    pub edited: bool,
    /// The user's own delivered post.
    pub is_own: bool,
    /// The inline editor is open on it.
    pub is_editing: bool,
    /// Its time is visible (a group's first row, or the row under the pointer).
    pub timestamp_shown: bool,
    /// It offers the edit and delete menu (own posts, while not being edited).
    pub has_menu: bool,
    /// A new group that does not start a day: extra space above it.
    pub spaced: bool,
}

/// The author name a post shows.
pub open spec fn author_of(p: RenderedPost) -> Seq<char> {
    match p {
        RenderedPost::Sending { name, .. } => name@,
        RenderedPost::Errored { name, .. } => name@,
        RenderedPost::Sent(post) => post.author_name@,
    }
}

/// The grouping keys of a timeline's rows, given each row's local day.
pub open spec fn row_keys(e: Seq<(u128, RenderedPost)>, days: Seq<i64>) -> Seq<(i64, Seq<char>, Timestamp)> {
    Seq::new(e.len(), |i: int| (days[i], author_of(e[i].1), created_of(e[i].1)))
}

/// `row` is how row `i` of `channel`'s timeline `e` is drawn for user `me`.
pub open spec fn row_ok(
    m: Model,
    channel: u128,
    me: Option<u128>,
    e: Seq<(u128, RenderedPost)>,
    days: Seq<i64>,
    i: int,
    row: PostRow,
) -> bool {
    let (id, p) = e[i];
    let is_own = p matches RenderedPost::Sent(post) && Some(post.author_id) == me;
    let is_editing = m.editing matches Some(t) && t.post_id == id && t.text_channel_id == channel;
    let h = header_at(row_keys(e, days), i);
    &&& row.post_id == id
    &&& row.header == h
    &&& row.state == (match p {
        RenderedPost::Sending { .. } => PostState::Sending,
        RenderedPost::Errored { .. } => PostState::Errored,
        RenderedPost::Sent(_) => PostState::Sent,
    })
    &&& row.edited == (p matches RenderedPost::Sent(post) && post.edited)
    &&& row.is_own == is_own
    &&& row.is_editing == is_editing
    &&& row.timestamp_shown == (h.show_name || m.hovered_post == Some(id))
    &&& row.has_menu == (is_own && !is_editing)
    &&& row.spaced == (h.show_name && !h.new_day)
}

impl Model {
    /// The rows of `channel`'s timeline as drawn for user `me`; `days` gives
    /// each post's day in the viewer's time zone. Consecutive posts of one
    /// author share a group (see `GroupCursor`).
    pub fn post_rows(&self, channel: u128, me: Option<u128>, days: &Vec<i64>) -> (r: Vec<PostRow>)
        requires
            self.posts@.contains_key(channel) ==> days@.len() == self.posts@[channel].timeline@.len(),
        ensures
            !self.posts@.contains_key(channel) ==> r@.len() == 0,
            self.posts@.contains_key(channel) ==> {
                &&& r@.len() == self.posts@[channel].timeline@.len()
                &&& forall|i: int| 0 <= i < r@.len() ==> row_ok(*self, channel, me, self.posts@[channel].timeline@, days@, i, #[trigger] r@[i])
            },
    {
        let cp = match self.posts.get(&channel) {
            Some(cp) => cp,
            None => return Vec::new(),
        };
        let tl = &cp.timeline;
        let ghost e = tl@;
        let ghost keys = row_keys(e, days@);
        let n = tl.len();
        let mut cursor = GroupCursor::new();
        let mut rows: Vec<PostRow> = Vec::new();
        let mut i: usize = 0;
        proof {
            assert(keys.take(0) =~= Seq::<(i64, Seq<char>, Timestamp)>::empty());
        }
        while i < n
            invariant
                n == e.len(),
                e == tl@,
                e == self.posts@[channel].timeline@,
                keys == row_keys(e, days@),
                days@.len() == e.len(),
                i <= n,
                rows@.len() == i,
                cursor_ok(cursor),
                cursor_holds(cursor, cursor_after(keys.take(i as int))),
                forall|k: int| 0 <= k < i ==> row_ok(*self, channel, me, e, days@, k, #[trigger] rows@[k]),
            decreases n - i,
        {
            let p = tl.post_at(i);
            let (state, edited, is_own): (PostState, bool, bool) = match p {
                RenderedPost::Sending { .. } => (PostState::Sending, false, false),
                RenderedPost::Errored { .. } => (PostState::Errored, false, false),
                RenderedPost::Sent(post) => (PostState::Sent, post.edited, me == Some(post.author_id)),
            };
            let id = match p {
                RenderedPost::Sending { id, .. } => *id,
                RenderedPost::Errored { id, .. } => *id,
                RenderedPost::Sent(post) => post.id,
            };
            let author = match p {
                RenderedPost::Sending { name, .. } => name,
                RenderedPost::Errored { name, .. } => name,
                RenderedPost::Sent(post) => &post.author_name,
            };
            let ghost before = cursor;
            let header = cursor.next_row(days[i], author, p.created_at());
            proof {
                assert(keys[i as int] == (days@[i as int], author@, created_of(*p)));
                lemma_cursor_follows_rows(before, keys.take(i as int), keys[i as int], header, cursor);
                assert(keys.take(i as int).push(keys[i as int]) =~= keys.take(i + 1));
                assert(header == header_at(keys, i as int));
            }
            let is_editing = match self.editing {
                Some(t) => t.post_id == id && t.text_channel_id == channel,
                None => false,
            };
            let hovered = self.hovered_post == Some(id);
            rows.push(
                PostRow {
                    post_id: id,
                    header,
                    state,
                    edited,
                    is_own,
                    is_editing,
                    timestamp_shown: header.show_name || hovered,
                    has_menu: is_own && !is_editing,
                    spaced: header.show_name && !header.new_day,
                },
            );
            i += 1;
        }
        rows
    }
}

} // verus!
