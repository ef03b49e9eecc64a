//! The decisions of the server's request handlers between their database
//! reads: who may read a channel, which failure is reported how, and how the
//! stored rows become the answer.

use vstd::prelude::*;
use crate::auth::StatusCode;
use crate::convert::{listed_channel, server_channels, ChannelRow, MeReturn, Server};
use crate::domain::User;
use crate::posts::{page_posts, page_spec, Post, Timestamp};

verus! {

/// A failed request: its status class and the message sent with it.
#[derive(Clone, Copy, Debug)]
pub struct ApiStatus {
    pub code: StatusCode,
    pub message: &'static str,
}

/// The history service.
pub struct PostsServer;

impl PostsServer {
    /// Only a member of the channel's server may read it: `member_rows`
    /// counts the memberships that join the user to the channel.
    pub fn check_access(member_rows: u64) -> (r: Result<(), ApiStatus>)
        ensures
            r is Ok <==> member_rows > 0,
            r matches Err(s) ==> s.code == StatusCode::Unauthenticated && s.message@ == "Unauthenticated"@,
    {
        if member_rows == 0 {
            Err(ApiStatus { code: StatusCode::Unauthenticated, message: "Unauthenticated" })
        } else {
            Ok(())
        }
    }

    /// The channel must belong to a server.
    pub fn check_server(found: bool) -> (r: Result<(), ApiStatus>)
        ensures
            r is Ok <==> found,
            r matches Err(s) ==> s.code == StatusCode::NotFound && s.message@ == "Server not found"@,
    {
        if found {
            Ok(())
        } else {
            Err(ApiStatus { code: StatusCode::NotFound, message: "Server not found" })
        }
    }

    /// The page to answer with, from the posts the query fetched (newest
    /// first, at most `limit + 1`), or the failure of that query.
    pub fn page(fetched: Result<Vec<Post>, ()>, limit: u64) -> (r: Result<(Vec<Post>, Option<Timestamp>), ApiStatus>)
        requires
            fetched matches Ok(v) ==> (limit > 0 || v@.len() == 0),
        ensures
            match fetched {
                Ok(v) => r matches Ok(p) && (p.0@, p.1) == page_spec(v@, limit),
                Err(_) => r matches Err(s) && s.code == StatusCode::Internal && s.message@
                    == "Error occurred fetching posts."@,
            },
    {
        match fetched {
            Ok(v) => Ok(page_posts(v, limit)),
            Err(_) => Err(ApiStatus { code: StatusCode::Internal, message: "Error occurred fetching posts." }),
        }
    }
}

/// A server as stored: its voice and its text channels.
#[derive(Debug)]
pub struct ServerRows {
    pub id: u128,
    pub name: String,
    pub voice: Vec<ChannelRow>,
    pub text: Vec<ChannelRow>,
}

/// What a mute request changes in the store.
#[derive(Clone, Copy, Debug, PartialEq, Eq, Structural)]
pub enum MuteChange {
    /// Record the mute.
    Insert,
    /// Already recorded: nothing to do.
    Keep,
    /// Remove any recorded mute.
    Delete,
}

/// The server-list service.
pub struct ServerServer;

impl ServerServer {
    /// The servers a user belongs to, each with its voice channels first and
    /// then its text channels, which carry the user's mute flag.
    pub fn servers(rows: Vec<ServerRows>, muted: &Vec<u128>) -> (r: Vec<Server>)
        requires
            forall|i: int| 0 <= i < rows@.len() ==> #[trigger] rows@[i].voice@.len() + rows@[i].text@.len() <= usize::MAX,
        ensures
            r@.len() == rows@.len(),
            forall|i: int| 0 <= i < r@.len() ==> {
                let s = #[trigger] r@[i];
                let row = rows@[i];
                &&& s.id == row.id
                &&& s.name == row.name
                &&& s.channels@.len() == row.voice@.len() + row.text@.len()
                &&& forall|k: int| 0 <= k < s.channels@.len() ==> #[trigger] listed_channel(row.voice@, row.text@, muted@, k)
                    == (s.channels@[k].id, s.channels@[k].name@, s.channels@[k].kind, s.channels@[k].muted)
            },
    {
        let ghost all = rows@;
        let mut rest = rows;
        let mut out: Vec<Server> = Vec::new();
        let total = rest.len();
        while rest.len() > 0
            invariant
                out@.len() + rest@.len() == all.len(),
                all.len() == total,
                rest@ == all.subrange(out@.len() as int, all.len() as int),
                forall|i: int| 0 <= i < all.len() ==> #[trigger] all[i].voice@.len() + all[i].text@.len() <= usize::MAX,
                forall|i: int| 0 <= i < out@.len() ==> {
                    let s = #[trigger] out@[i];
                    let row = all[i];
                    &&& s.id == row.id
                    &&& s.name == row.name
                    &&& s.channels@.len() == row.voice@.len() + row.text@.len()
                    &&& forall|k: int| 0 <= k < s.channels@.len() ==> #[trigger] listed_channel(row.voice@, row.text@, muted@, k)
                        == (s.channels@[k].id, s.channels@[k].name@, s.channels@[k].kind, s.channels@[k].muted)
                },
            decreases rest@.len(),
        {
            let row = rest.remove(0);
            proof {
                assert(row == all[out@.len() as int]);
                assert(rest@ =~= all.subrange(out@.len() as int + 1, all.len() as int));
            }
            let channels = server_channels(row.voice, row.text, muted);
            out.push(Server { id: row.id, name: row.name, channels });
        }
        out
    }

    /// What a mute request changes: muting records the mute unless it is
    /// recorded already (`already_muted` is only looked up when muting);
    /// unmuting removes it.
    pub fn mute_change(muted: bool, already_muted: bool) -> (c: MuteChange)
        ensures
            c == (if !muted {
                MuteChange::Delete
            } else if already_muted {
                MuteChange::Keep
            } else {
                MuteChange::Insert
            }),
    {
        if !muted {
            MuteChange::Delete
        } else if already_muted {
            MuteChange::Keep
        } else {
            MuteChange::Insert
        }
    }

    /// The failure reported when a store operation of a mute request fails.
    pub fn mute_failed() -> (s: ApiStatus)
        ensures
            s.code == StatusCode::Internal && s.message@ == "Error occurred updating mute."@,
    {
        ApiStatus { code: StatusCode::Internal, message: "Error occurred updating mute." }
    }

    /// The failure reported when reading the servers fails.
    pub fn servers_failed() -> (s: ApiStatus)
        ensures
            s.code == StatusCode::Internal && s.message@ == "Error occurred fetching servers."@,
    {
        ApiStatus { code: StatusCode::Internal, message: "Error occurred fetching servers." }
    }
}

/// The profile service.
pub struct UserServer;

impl UserServer {
    /// The signed-in user's profile from the lookup of their id: a failed
    /// lookup is an internal error, a missing user is not found.
    pub fn me(lookup: Result<Option<User>, ()>) -> (r: Result<MeReturn, ApiStatus>)
        ensures
            match lookup {
                Ok(Some(u)) => r matches Ok(m) && m.user_id == u.id && m.username == u.name,
                Ok(None) => r matches Err(s) && s.code == StatusCode::NotFound && s.message@ == "User not found."@,
                Err(_) => r matches Err(s) && s.code == StatusCode::Internal && s.message@ == "Unknown error occurred"@,
            },
    {
        match lookup {
            Ok(Some(u)) => Ok(MeReturn { user_id: u.id, username: u.name }),
            Ok(None) => Err(UserServer::not_found()),
            Err(_) => Err(ApiStatus { code: StatusCode::Internal, message: "Unknown error occurred" }),
        }
    }

    /// The answer to a request that carries no signed-in user.
    pub fn not_found() -> (s: ApiStatus)
        ensures
            s.code == StatusCode::NotFound && s.message@ == "User not found."@,
    {
        ApiStatus { code: StatusCode::NotFound, message: "User not found." }
    }
}


/// The name of the one global server every user belongs to.
pub const SEED_SERVER_NAME: &'static str = "Intergalactic Federation";

/// What the start-up seeding must create, given what the database already
/// holds. Every user is then assigned to the global server as an admin.
#[derive(Debug)]
pub struct SeedPlan {
    /// Create the global server (none of that name exists yet).
    pub create_server: bool,
    /// Text channels to create, each with its chat channel: name, and whether
    /// it is the server's default channel.
    pub text_channels: Vec<(String, bool)>,
    /// Voice channels to create.
    pub voice_channels: Vec<String>,
    /// Users to assign to the global server (those without a server yet).
    pub assign_admin: Vec<u128>,
}

/// The ids of the users that have no server yet, in order.
pub open spec fn unassigned(users: Seq<(u128, bool)>) -> Seq<u128>
    decreases users.len(),
{
    if users.len() == 0 {
        Seq::empty()
    } else if users.last().1 {
        unassigned(users.drop_last())
    } else {
        unassigned(users.drop_last()).push(users.last().0)
    }
}

/// What a seeding creates (spec of `seed_plan`): whether the server, how
/// many text and voice channels, and which users are assigned.
pub open spec fn seed_spec(server_found: bool, text_empty: bool, voice_empty: bool, users: Seq<(u128, bool)>) -> (
    bool,
    nat,
    nat,
    Seq<u128>,
) {
    (!server_found, if text_empty { 2 } else { 0 }, if voice_empty { 2 } else { 0 }, unassigned(users))
}

/// The users after a seeding assigned everyone without a server.
pub open spec fn all_assigned(users: Seq<(u128, bool)>) -> Seq<(u128, bool)> {
    users.map_values(|u: (u128, bool)| (u.0, true))
}

proof fn lemma_unassigned_all_assigned(users: Seq<(u128, bool)>)
    ensures
        unassigned(all_assigned(users)) == Seq::<u128>::empty(),
    decreases users.len(),
{
    if users.len() > 0 {
        assert(all_assigned(users).drop_last() =~= all_assigned(users.drop_last()));
        lemma_unassigned_all_assigned(users.drop_last());
    } else {
        assert(all_assigned(users) =~= Seq::<(u128, bool)>::empty());
    }
}

/// Seeding twice changes nothing: once the server exists, both kinds of
/// channel exist and every user has a server, as the first seeding leaves
/// the database, a second plan creates and assigns nothing.
pub proof fn lemma_seed_twice_changes_nothing(users: Seq<(u128, bool)>)
    ensures
        seed_spec(true, false, false, all_assigned(users)) == (false, 0nat, 0nat, Seq::<u128>::empty()),
{
    lemma_unassigned_all_assigned(users);
}

/// Plan the seeding of an empty or partly seeded database: the global server
/// if it is missing; two text channels ("mess-hall", the default, and
/// "forge") if there are no text channels at all; two voice channels if there
/// are none; and every user without a server (`users`: id, and whether the
/// user already belongs to a server).
pub fn seed_plan(server_found: bool, text_empty: bool, voice_empty: bool, users: &Vec<(u128, bool)>) -> (p: SeedPlan)
    ensures
        p.create_server == !server_found,
        text_empty ==> p.text_channels@.len() == 2 && p.text_channels@[0].0@ == "mess-hall"@ && p.text_channels@[0].1
            && p.text_channels@[1].0@ == "forge"@ && !p.text_channels@[1].1,
        !text_empty ==> p.text_channels@.len() == 0,
        voice_empty ==> p.voice_channels@.len() == 2 && p.voice_channels@[0]@ == "Augmentation Chambers"@
            && p.voice_channels@[1]@ == "Academy Network"@,
        !voice_empty ==> p.voice_channels@.len() == 0,
        p.assign_admin@ == unassigned(users@),
        (p.create_server, p.text_channels@.len(), p.voice_channels@.len(), p.assign_admin@) == seed_spec(
            server_found,
            text_empty,
            voice_empty,
            users@,
        ),
{
    let mut text_channels: Vec<(String, bool)> = Vec::new();
    if text_empty {
        text_channels.push((String::from_str("mess-hall"), true));
        text_channels.push((String::from_str("forge"), false));
    }
    let mut voice_channels: Vec<String> = Vec::new();
    if voice_empty {
        voice_channels.push(String::from_str("Augmentation Chambers"));
        voice_channels.push(String::from_str("Academy Network"));
    }
    let mut assign_admin: Vec<u128> = Vec::new();
    let mut i: usize = 0;
    while i < users.len()
        invariant
            i <= users@.len(),
            assign_admin@ == unassigned(users@.subrange(0, i as int)),
        decreases users@.len() - i,
    {
        proof {
            let pre = users@.subrange(0, i + 1);
            assert(pre.drop_last() =~= users@.subrange(0, i as int));
            assert(pre.last() == users@[i as int]);
        }
        if !users[i].1 {
            assign_admin.push(users[i].0);
        }
        i += 1;
    }
    proof { assert(users@.subrange(0, users@.len() as int) =~= users@); }
    SeedPlan { create_server: !server_found, text_channels, voice_channels, assign_admin }
}

} // verus!
