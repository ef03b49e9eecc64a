//! The channel list beside the chat: the server's text channels, then its
//! voice channels with the people in each call.

use vstd::prelude::*;
use std::collections::HashMap;
use crate::convert::{Channel, ChannelType};
use crate::domain::{Auth, DisplayVoiceUser};
use crate::text::{ascii_upper, to_ascii_upper};

verus! {

broadcast use vstd::std_specs::hash::group_hash_axioms;

/// A text channel's row.
#[derive(Debug)]
pub struct TextRow {
    pub id: u128,
    pub name: String,
    /// The channel is the one on screen.
    pub selected: bool,
    /// The user muted its notifications (the row is drawn dimmed).
    pub muted: bool,
}

/// A person in a call.
#[derive(Debug)]
pub struct ParticipantRow {
    pub user_id: u128,
    pub name: String,
    /// The letter on the avatar.
    pub initial: char,
    /// The avatar is ringed: the person speaks and the user has not muted
    /// them locally.
    pub speaking_ring: bool,
    /// The user muted this person locally.
    pub muted_by_me: bool,
    pub muted: bool,
    pub deafened: bool,
    /// The row is the user's own (it offers no volume mixer).
    pub is_self: bool,
}

/// A voice channel's row with the people in its call.
#[derive(Debug)]
pub struct VoiceRow {
    pub id: u128,
    pub name: String,
    /// The user is in this call (the row cannot be clicked to join).
    pub joined: bool,
    pub participants: Vec<ParticipantRow>,
}

/// The avatar letter for `name`: its first character upper-cased when that
/// is an ASCII character, else 'U'.
pub open spec fn initial_spec(name: Seq<char>) -> char {
    if name.len() > 0 && (name[0] as u32) < 128 {
        ascii_upper(name[0])
    } else {
        'U'
    }
}

/// The avatar letter for `name`.
pub fn avatar_initial(name: &str) -> (c: char)
    ensures
        c == initial_spec(name@),
{
    if name.unicode_len() == 0 {
        return 'U';
    }
    let first = name.get_char(0);
    if (first as u32) < 128 {
        to_ascii_upper(first)
    } else {
        'U'
    }
}

/// The channels of `cs` of kind `kind`, in order.
pub open spec fn channels_of(cs: Seq<Channel>, kind: ChannelType) -> Seq<Channel>
    decreases cs.len(),
{
    if cs.len() == 0 {
        Seq::empty()
    } else if cs.last().kind == kind {
        channels_of(cs.drop_last(), kind).push(cs.last())
    } else {
        channels_of(cs.drop_last(), kind)
    }
}

/// The rows of the text channels of `cs`, in order.
pub fn text_rows(cs: &Vec<Channel>, viewing: Option<u128>) -> (r: Vec<TextRow>)
    ensures
        r@.len() == channels_of(cs@, ChannelType::Text).len(),
        forall|i: int| 0 <= i < r@.len() ==> {
            let c = #[trigger] channels_of(cs@, ChannelType::Text)[i];
            &&& r@[i].id == c.id
            &&& r@[i].name == c.name
            &&& r@[i].selected == (viewing == Some(c.id))
            &&& r@[i].muted == c.muted
        },
{
    let mut r: Vec<TextRow> = Vec::new();
    let mut i: usize = 0;
    while i < cs.len()
        invariant
            i <= cs@.len(),
            r@.len() == channels_of(cs@.subrange(0, i as int), ChannelType::Text).len(),
            forall|k: int| 0 <= k < r@.len() ==> {
                let c = #[trigger] channels_of(cs@.subrange(0, i as int), ChannelType::Text)[k];
                &&& r@[k].id == c.id
                &&& r@[k].name == c.name
                &&& r@[k].selected == (viewing == Some(c.id))
                &&& r@[k].muted == c.muted
            },
        decreases cs@.len() - i,
    {
        proof {
            assert(cs@.subrange(0, i + 1).drop_last() =~= cs@.subrange(0, i as int));
        }
        let c = &cs[i];
        if c.kind == ChannelType::Text {
            let selected = match viewing {
                Some(v) => v == c.id,
                None => false,
            };
            r.push(TextRow { id: c.id, name: c.name.clone(), selected, muted: c.muted });
        }
        i += 1;
    }
    proof {
        assert(cs@.subrange(0, cs@.len() as int) =~= cs@);
    }
    r
}

/// The row of person `p` (`muted_by_me` from the user's local mixer, `me`
/// the user's id).
pub open spec fn participant_ok(row: ParticipantRow, p: DisplayVoiceUser, locally_muted: Map<u128, bool>, me: Option<u128>) -> bool {
    let muted_by_me = locally_muted.contains_key(p.user.id) && locally_muted[p.user.id];
    &&& row.user_id == p.user.id
    &&& row.name == p.user.name
    &&& row.initial == initial_spec(p.user.name@)
    &&& row.muted_by_me == muted_by_me
    &&& row.speaking_ring == (p.speaking && !muted_by_me)
    &&& row.muted == p.muted
    &&& row.deafened == p.deafened
    &&& row.is_self == (me == Some(p.user.id))
}

/// The rows of the people in a call, in the order the server listed them.
pub fn participant_rows(peers: &Vec<DisplayVoiceUser>, locally_muted: &HashMap<u128, bool>, me: Option<u128>) -> (r: Vec<ParticipantRow>)
    ensures
        r@.len() == peers@.len(),
        forall|i: int| 0 <= i < r@.len() ==> participant_ok(#[trigger] r@[i], peers@[i], locally_muted@, me),
{
    let mut r: Vec<ParticipantRow> = Vec::new();
    let mut i: usize = 0;
    while i < peers.len()
        invariant
            i <= peers@.len(),
            r@.len() == i,
            forall|k: int| 0 <= k < i ==> participant_ok(#[trigger] r@[k], peers@[k], locally_muted@, me),
        decreases peers@.len() - i,
    {
        let p = &peers[i];
        let muted_by_me = match locally_muted.get(&p.user.id) {
            Some(m) => *m,
            None => false,
        };
        let is_self = match me {
            Some(id) => id == p.user.id,
            None => false,
        };
        r.push(
            ParticipantRow {
                user_id: p.user.id,
                name: p.user.name.clone(),
                initial: avatar_initial(p.user.name.as_str()),
                speaking_ring: p.speaking && !muted_by_me,
                muted_by_me,
                muted: p.muted,
                deafened: p.deafened,
                is_self,
            },
        );
        i += 1;
    }
    r
}

/// The people shown in voice channel `id`'s call: the latest snapshot for
/// it, or nobody.
pub open spec fn presence_of(presence: Map<u128, Vec<DisplayVoiceUser>>, id: u128) -> Seq<DisplayVoiceUser> {
    if presence.contains_key(id) { presence[id]@ } else { Seq::empty() }
}

/// The rows of the voice channels of `cs`, in order, each with the people in
/// its call.
pub fn voice_rows(
    cs: &Vec<Channel>,
    active_call: Option<u128>,
    presence: &HashMap<u128, Vec<DisplayVoiceUser>>,
    locally_muted: &HashMap<u128, bool>,
    me: Option<u128>,
) -> (r: Vec<VoiceRow>)
    ensures
        r@.len() == channels_of(cs@, ChannelType::Voice).len(),
        forall|i: int| 0 <= i < r@.len() ==> {
            let c = #[trigger] channels_of(cs@, ChannelType::Voice)[i];
            let peers = presence_of(presence@, c.id);
            &&& r@[i].id == c.id
            &&& r@[i].name == c.name
            &&& r@[i].joined == (active_call == Some(c.id))
            &&& r@[i].participants@.len() == peers.len()
            &&& forall|k: int| 0 <= k < peers.len() ==> participant_ok(#[trigger] r@[i].participants@[k], peers[k], locally_muted@, me)
        },
{
    let mut r: Vec<VoiceRow> = Vec::new();
    let mut i: usize = 0;
    while i < cs.len()
        invariant
            i <= cs@.len(),
            r@.len() == channels_of(cs@.subrange(0, i as int), ChannelType::Voice).len(),
            forall|j: int| 0 <= j < r@.len() ==> {
                let c = #[trigger] channels_of(cs@.subrange(0, i as int), ChannelType::Voice)[j];
                let peers = presence_of(presence@, c.id);
                &&& r@[j].id == c.id
                &&& r@[j].name == c.name
                &&& r@[j].joined == (active_call == Some(c.id))
                &&& r@[j].participants@.len() == peers.len()
                &&& forall|k: int| 0 <= k < peers.len() ==> participant_ok(#[trigger] r@[j].participants@[k], peers[k], locally_muted@, me)
            },
        decreases cs@.len() - i,
    {
        proof {
            assert(cs@.subrange(0, i + 1).drop_last() =~= cs@.subrange(0, i as int));
        }
        let c = &cs[i];
        if c.kind == ChannelType::Voice {
            let participants = match presence.get(&c.id) {
                Some(peers) => participant_rows(peers, locally_muted, me),
                None => Vec::new(),
            };
            let joined = match active_call {
                Some(a) => a == c.id,
                None => false,
            };
            r.push(VoiceRow { id: c.id, name: c.name.clone(), joined, participants });
        }
        i += 1;
    }
    proof {
        assert(cs@.subrange(0, cs@.len() as int) =~= cs@);
    }
    r
}


/// The signed-in user's badge under the channel list: name, avatar letter,
/// and the mute and deafen toggles, which outlive a single call.
#[derive(Debug)]
pub struct UserBadge {
    pub name: String,
    pub initial: char,
    pub muted: bool,
    pub deafened: bool,
}

/// The name on the badge: the user's, or "User" when signed out (the app
/// then moves to the sign-in screen).
pub open spec fn badge_name(user: Auth) -> Seq<char> {
    match user {
        Auth::LoggedIn(u) => u.name@,
        Auth::NotLoggedIn => "User"@,
    }
}

/// The badge for `user`, with the voice session's mute and deafen flags
/// (both off without a session).
pub fn user_badge(user: &Auth, voice: Option<(bool, bool)>) -> (b: UserBadge)
    ensures
        b.name@ == badge_name(*user),
        b.initial == initial_spec(b.name@),
        (b.muted, b.deafened) == (match voice {
            Some(v) => v,
            None => (false, false),
        }),
{
    let name = match user {
        Auth::LoggedIn(u) => u.name.clone(),
        Auth::NotLoggedIn => String::from_str("User"),
    };
    let initial = avatar_initial(name.as_str());
    let (muted, deafened) = match voice {
        Some(v) => v,
        None => (false, false),
    };
    UserBadge { name, initial, muted, deafened }
}

} // verus!
