//! Conversions between the wire messages and the domain values, with the
//! validation they perform.
//!
//! Ids travel as UUID strings and are held as their 128-bit value; times
//! travel as seconds and nanoseconds.

use vstd::prelude::*;
use vstd::arithmetic::div_mod::{lemma_mod_breakdown, lemma_small_mod};
use crate::domain::User;
use crate::posts::Timestamp;

verus! {

/// The value of a hexadecimal digit of either case.
pub open spec fn hex_value(c: char) -> Option<nat> {
    if '0' <= c && c <= '9' {
        Some((c as u32 - '0' as u32) as nat)
    } else if 'a' <= c && c <= 'f' {
        Some((c as u32 - 'a' as u32 + 10) as nat)
    } else if 'A' <= c && c <= 'F' {
        Some((c as u32 - 'A' as u32 + 10) as nat)
    } else {
        None
    }
}

/// The number the hexadecimal digits `s` spell, most significant first, if
/// all of them are digits.
pub open spec fn hex_number(s: Seq<char>) -> Option<nat>
    decreases s.len(),
{
    if s.len() == 0 {
        Some(0)
    } else {
        match (hex_number(s.drop_last()), hex_value(s.last())) {
            (Some(a), Some(d)) => Some(a * 16 + d),
            _ => None,
        }
    }
}

/// The 32 digits of a 36-character hyphenated id, if its hyphens stand after
/// the 8th, 12th, 16th and 20th digit.
pub open spec fn hyphenated_digits(s: Seq<char>) -> Option<Seq<char>> {
    if s.len() == 36 && s[8] == '-' && s[13] == '-' && s[18] == '-' && s[23] == '-' {
        Some(s.subrange(0, 8) + s.subrange(9, 13) + s.subrange(14, 18) + s.subrange(19, 23) + s.subrange(24, 36))
    } else {
        None
    }
}

/// The id spelled by 32 hexadecimal digits.
pub open spec fn id_of_digits(d: Option<Seq<char>>) -> Option<u128> {
    match d {
        Some(h) => match hex_number(h) {
            Some(n) => Some(n as u128),
            None => None,
        },
        None => None,
    }
}

/// `s` with ASCII letters lower-cased.
pub open spec fn ascii_lower(s: Seq<char>) -> Seq<char> {
    s.map_values(|c: char| if 'A' <= c && c <= 'Z' { ((c as u32) + 32) as char } else { c })
}

/// The id that `uuid::Uuid::parse_str` reads from `s`: 32 hexadecimal
/// digits; the hyphenated form; the hyphenated form in braces; or
/// `urn:uuid:` (any case) followed by the hyphenated form. Digits may be of
/// either case; anything else is refused.
pub open spec fn uuid_parse(s: Seq<char>) -> Option<u128> {
    if s.len() == 32 {
        id_of_digits(Some(s))
    } else if s.len() == 36 {
        id_of_digits(hyphenated_digits(s))
    } else if s.len() == 38 && s[0] == '{' && s[37] == '}' {
        id_of_digits(hyphenated_digits(s.subrange(1, 37)))
    } else if s.len() == 45 && ascii_lower(s.subrange(0, 9)) == "urn:uuid:"@ {
        id_of_digits(hyphenated_digits(s.subrange(9, 45)))
    } else {
        None
    }
}

/// The lower-case hexadecimal digit of `d` (below 16).
pub open spec fn hex_char(d: nat) -> char {
    if d < 10 {
        ('0' as u32 + d) as char
    } else {
        ('a' as u32 + (d - 10)) as char
    }
}

/// The last `n` hexadecimal digits of `v`, most significant first.
pub open spec fn hex_digits(v: nat, n: nat) -> Seq<char>
    decreases n,
{
    if n == 0 {
        Seq::empty()
    } else {
        hex_digits(v / 16, (n - 1) as nat).push(hex_char(v % 16))
    }
}

/// The text of an id in the hyphenated form: its 32 lower-case hexadecimal
/// digits, with a hyphen after the 8th, 12th, 16th and 20th.
pub open spec fn uuid_text(v: u128) -> Seq<char> {
    let h = hex_digits(v as nat, 32);
    h.subrange(0, 8) + seq!['-'] + h.subrange(8, 12) + seq!['-'] + h.subrange(12, 16) + seq!['-'] + h.subrange(16, 20)
        + seq!['-'] + h.subrange(20, 32)
}

/// `16` to the power `n`.
pub open spec fn pow16(n: nat) -> nat
    decreases n,
{
    if n == 0 { 1 } else { 16 * pow16((n - 1) as nat) }
}

proof fn lemma_hex_char_injective(a: nat, b: nat)
    requires
        a < 16,
        b < 16,
        hex_char(a) == hex_char(b),
    ensures
        a == b,
{
    assert((hex_char(a) as u32) == (hex_char(b) as u32));
}

proof fn lemma_pow16_pos(n: nat)
    ensures
        pow16(n) > 0,
    decreases n,
{
    if n > 0 {
        lemma_pow16_pos((n - 1) as nat);
    }
}

proof fn lemma_hex_digits_injective(v: nat, w: nat, n: nat)
    requires
        hex_digits(v, n) == hex_digits(w, n),
    ensures
        v % pow16(n) == w % pow16(n),
    decreases n,
{
    if n > 0 {
        let m = (n - 1) as nat;
        let hv = hex_digits(v, n);
        let hw = hex_digits(w, n);
        lemma_hex_digits_len(v / 16, m);
        lemma_hex_digits_len(w / 16, m);
        assert(hv.last() == hex_char(v % 16));
        assert(hw.last() == hex_char(w % 16));
        lemma_hex_char_injective(v % 16, w % 16);
        assert(hv.drop_last() =~= hex_digits(v / 16, m));
        assert(hw.drop_last() =~= hex_digits(w / 16, m));
        lemma_hex_digits_injective(v / 16, w / 16, m);
        lemma_pow16_pos(m);
        lemma_mod_breakdown(v as int, 16, pow16(m) as int);
        lemma_mod_breakdown(w as int, 16, pow16(m) as int);
    } else {
        assert(v % 1 == 0 && w % 1 == 0);
    }
}

/// The text of an id has 36 characters.
pub proof fn lemma_uuid_text_len(v: u128)
    ensures
        uuid_text(v).len() == 36,
{
    lemma_hex_digits_len(v as nat, 32);
}

proof fn lemma_hex_value_of_char(d: nat)
    requires
        d < 16,
    ensures
        hex_value(hex_char(d)) == Some(d),
{
}

proof fn lemma_hex_number_of_digits(v: nat, n: nat)
    ensures
        hex_number(hex_digits(v, n)) == Some(v % pow16(n)),
    decreases n,
{
    if n == 0 {
        assert(v % 1 == 0);
    } else {
        let m = (n - 1) as nat;
        let h = hex_digits(v, n);
        lemma_hex_number_of_digits(v / 16, m);
        assert(h.drop_last() =~= hex_digits(v / 16, m));
        lemma_hex_value_of_char(v % 16);
        lemma_pow16_pos(m);
        lemma_mod_breakdown(v as int, 16, pow16(m) as int);
        assert(((v / 16) % pow16(m)) * 16 + v % 16 == 16 * ((v / 16) % pow16(m)) + v % 16);
    }
}

/// The text of an id is read back as the id.
pub proof fn lemma_uuid_round_trip(v: u128)
    ensures
        uuid_parse(uuid_text(v)) == Some(v),
{
    let h = hex_digits(v as nat, 32);
    lemma_hex_digits_len(v as nat, 32);
    let t = uuid_text(v);
    assert(t.len() == 36);
    assert(t[8] == '-' && t[13] == '-' && t[18] == '-' && t[23] == '-');
    let d = t.subrange(0, 8) + t.subrange(9, 13) + t.subrange(14, 18) + t.subrange(19, 23) + t.subrange(24, 36);
    assert(d =~= h);
    lemma_hex_number_of_digits(v as nat, 32);
    assert(pow16(32) == 0x1_0000_0000_0000_0000_0000_0000_0000_0000nat) by {
        reveal_with_fuel(pow16, 33);
    }
    lemma_small_mod(v as nat, pow16(32));
}

/// Different ids have different texts.
pub proof fn lemma_uuid_text_injective(v: u128, w: u128)
    requires
        uuid_text(v) == uuid_text(w),
    ensures
        v == w,
{
    let hv = hex_digits(v as nat, 32);
    let hw = hex_digits(w as nat, 32);
    lemma_hex_digits_len(v as nat, 32);
    lemma_hex_digits_len(w as nat, 32);
    let tv = uuid_text(v);
    let tw = uuid_text(w);
    assert forall|k: int| 0 <= k < 32 implies hv[k] == hw[k] by {
        let pos = if k < 8 { k } else if k < 12 { k + 1 } else if k < 16 { k + 2 } else if k < 20 { k + 3 } else { k + 4 };
        assert(tv[pos] == hv[k]);
        assert(tw[pos] == hw[k]);
    }
    assert(hv =~= hw);
    lemma_hex_digits_injective(v as nat, w as nat, 32);
    assert(pow16(32) == 0x1_0000_0000_0000_0000_0000_0000_0000_0000nat) by {
        reveal_with_fuel(pow16, 33);
    }
    lemma_small_mod(v as nat, pow16(32));
    lemma_small_mod(w as nat, pow16(32));
}

proof fn lemma_hex_digits_len(v: nat, n: nat)
    ensures
        hex_digits(v, n).len() == n,
    decreases n,
{
    if n > 0 {
        lemma_hex_digits_len(v / 16, (n - 1) as nat);
    }
}

/// Whether `chrono::DateTime::<Utc>::from_timestamp(seconds, nanos)` accepts
/// the pair.
pub uninterp spec fn datetime_valid(seconds: i64, nanos: u32) -> bool;

/// The nanosecond part is in range; beyond one second only for a leap
/// second, which must end a minute.
pub open spec fn nanos_ok(seconds: i64, nanos: u32) -> bool {
    nanos < 2_000_000_000 && (nanos >= 1_000_000_000 ==> seconds % 60 == 59)
}

/// Parse a UUID in any of the formats the uuid crate writes (simple,
/// hyphenated, braced, URN), as by `uuid::Uuid::parse_str`. Claimed from its
/// parser: exactly the strings `uuid_parse` describes are accepted, read as
/// the id their 32 hexadecimal digits spell.
#[verifier::external_body]
fn parse_uuid(s: &str) -> (r: Option<u128>)
    ensures
        r == uuid_parse(s@),
{
    match uuid::Uuid::parse_str(s) {
        Ok(u) => Some(u.as_u128()),
        Err(_) => None,
    }
}

/// The hyphenated lower-case text of an id, as `uuid::Uuid::from_u128(v)`
/// displays it (`uuid_text`).
#[verifier::external_body]
fn uuid_to_string(v: u128) -> (r: String)
    ensures
        r@ == uuid_text(v),
{
    uuid::Uuid::from_u128(v).to_string()
}

/// Whether `chrono::DateTime::from_timestamp(seconds, nanos)` gives a time.
/// Claimed from its source: the nanoseconds must satisfy `nanos_ok`, and for
/// seconds within about 31,000 years of 1970 that is the only condition (the
/// calendar range check of chrono is only named).
#[verifier::external_body]
fn datetime_exists(seconds: i64, nanos: u32) -> (r: bool)
    ensures
        r == datetime_valid(seconds, nanos),
        r ==> nanos_ok(seconds, nanos),
        -1_000_000_000_000 <= seconds <= 1_000_000_000_000 ==> (r == nanos_ok(seconds, nanos)),
{
    chrono::DateTime::from_timestamp(seconds, nanos).is_some()
}

/// Why a wire message was refused.
#[derive(Clone, Copy, Debug, PartialEq, Eq, Structural)]
pub enum ConvertError {
    /// An id field is not a UUID.
    InvalidId,
    /// A channel type code is neither text nor voice.
    InvalidChannelType,
    /// The user identifier of a profile is not a UUID.
    InvalidIdentifier,
    /// A profile came without a user name.
    MissingUsername,
    /// The display user's id is not a UUID.
    InvalidIdentifierFormat,
    /// A history request names no valid text channel.
    InvalidTextChannelId,
}

impl ConvertError {
    /// The message sent with the invalid-argument status.
    pub fn message(&self) -> (m: &'static str)
        ensures
            m@ == error_message(*self),
    {
        match self {
            ConvertError::InvalidId => "failed to parse id",
            ConvertError::InvalidChannelType => "Invalid channel type",
            ConvertError::InvalidIdentifier => "Invalid identifier",
            ConvertError::MissingUsername => "response doesn't include username",
            ConvertError::InvalidIdentifierFormat => "invalid identifier format",
            ConvertError::InvalidTextChannelId => "invalid text_channel_id",
        }
    }
}

/// The status message of each refusal.
pub open spec fn error_message(e: ConvertError) -> Seq<char> {
    match e {
        ConvertError::InvalidId => "failed to parse id"@,
        ConvertError::InvalidChannelType => "Invalid channel type"@,
        ConvertError::InvalidIdentifier => "Invalid identifier"@,
        ConvertError::MissingUsername => "response doesn't include username"@,
        ConvertError::InvalidIdentifierFormat => "invalid identifier format"@,
        ConvertError::InvalidTextChannelId => "invalid text_channel_id"@,
    }
}

/// Parse an id field.
pub fn parse_id(id: &String) -> (r: Result<u128, ConvertError>)
    ensures
        r == (match uuid_parse(id@) {
            Some(v) => Ok(v),
            None => Err(ConvertError::InvalidId),
        }),
{
    match parse_uuid(id.as_str()) {
        Some(v) => Ok(v),
        None => Err(ConvertError::InvalidId),
    }
}

/// Write an id field.
pub fn id_to_string(id: u128) -> (r: String)
    ensures
        r@ == uuid_text(id),
        r@.len() == 36,
        uuid_parse(r@) == Some(id),
{
    proof {
        lemma_hex_digits_len(id as nat, 32);
        lemma_uuid_round_trip(id);
    }
    uuid_to_string(id)
}

/// Whether a channel carries text posts or a voice call.
#[derive(Clone, Copy, Debug, PartialEq, Eq, Structural)]
pub enum ChannelType {
    Text,
    Voice,
}

/// The wire code of a channel type (0 is unspecified).
pub open spec fn channel_type_code(t: ChannelType) -> i32 {
    match t {
        ChannelType::Text => 1,
        ChannelType::Voice => 2,
    }
}

impl ChannelType {
    pub fn into_proto(self) -> (c: i32)
        ensures
            c == channel_type_code(self),
    {
        match self {
            ChannelType::Text => 1,
            ChannelType::Voice => 2,
        }
    }

    pub fn try_from_proto(code: i32) -> (r: Result<ChannelType, ConvertError>)
        ensures
            r == (if code == 1 {
                Ok(ChannelType::Text)
            } else if code == 2 {
                Ok(ChannelType::Voice)
            } else {
                Err(ConvertError::InvalidChannelType)
            }),
    {
        if code == 1 {
            Ok(ChannelType::Text)
        } else if code == 2 {
            Ok(ChannelType::Voice)
        } else {
            Err(ConvertError::InvalidChannelType)
        }
    }
}

/// A channel of a server, as the client lists it.
#[derive(Debug)]
pub struct Channel {
    pub id: u128,
    pub name: String,
    pub kind: ChannelType,
    /// Whether the user muted notifications of this (text) channel.
    pub muted: bool,
}

/// The wire form of a channel.
#[derive(Debug)]
pub struct ChannelProto {
    pub id: String,
    pub name: String,
    pub kind: i32,
    pub muted: bool,
}

/// A server (group) with its channels.
#[derive(Debug)]
pub struct Server {
    pub id: u128,
    pub name: String,
    pub channels: Vec<Channel>,
}

/// The wire form of a server.
#[derive(Debug)]
pub struct ServerProto {
    pub id: String,
    pub name: String,
    pub channels: Vec<ChannelProto>,
}

/// `p` decodes to `c`.
pub open spec fn channel_decodes(p: ChannelProto, c: Channel) -> bool {
    &&& uuid_parse(p.id@) == Some(c.id)
    &&& c.name == p.name
    &&& channel_type_code(c.kind) == p.kind
    &&& c.muted == p.muted
}

/// `p` fails to decode with `e`: the id is checked before the type code.
pub open spec fn channel_error(p: ChannelProto) -> Option<ConvertError> {
    if uuid_parse(p.id@).is_none() {
        Some(ConvertError::InvalidId)
    } else if p.kind != 1 && p.kind != 2 {
        Some(ConvertError::InvalidChannelType)
    } else {
        None
    }
}

/// `c` encodes to `p`.
pub open spec fn channel_encodes(c: Channel, p: ChannelProto) -> bool {
    &&& p.id@ == uuid_text(c.id)
    &&& p.name == c.name
    &&& p.kind == channel_type_code(c.kind)
    &&& p.muted == c.muted
}

impl Channel {
    pub fn into_proto(self) -> (p: ChannelProto)
        ensures
            channel_encodes(self, p),
    {
        ChannelProto { id: id_to_string(self.id), name: self.name, kind: self.kind.into_proto(), muted: self.muted }
    }

    pub fn try_from_proto(p: ChannelProto) -> (r: Result<Channel, ConvertError>)
        ensures
            match r {
                Ok(c) => channel_error(p).is_none() && channel_decodes(p, c),
                Err(e) => channel_error(p) == Some(e),
            },
    {
        decode_channel(&p)
    }
}

/// The first channel of `ps` that fails to decode, with its error.
pub open spec fn first_channel_error(ps: Seq<ChannelProto>) -> Option<ConvertError>
    decreases ps.len(),
{
    if ps.len() == 0 {
        None
    } else {
        match channel_error(ps[0]) {
            Some(e) => Some(e),
            None => first_channel_error(ps.drop_first()),
        }
    }
}

proof fn lemma_first_channel_error_push(ps: Seq<ChannelProto>, p: ChannelProto)
    requires
        first_channel_error(ps).is_none(),
    ensures
        first_channel_error(ps.push(p)) == channel_error(p),
    decreases ps.len(),
{
    let q = ps.push(p);
    if ps.len() > 0 {
        assert(q[0] == ps[0]);
        assert(channel_error(ps[0]).is_none());
        assert(q.drop_first() =~= ps.drop_first().push(p));
        lemma_first_channel_error_push(ps.drop_first(), p);
    } else {
        assert(q[0] == p);
        assert(q.drop_first() =~= Seq::<ChannelProto>::empty());
        assert(first_channel_error(q.drop_first()).is_none());
    }
}

proof fn lemma_first_channel_error_prefix(ps: Seq<ChannelProto>, i: int)
    requires
        0 <= i <= ps.len(),
        first_channel_error(ps.take(i)).is_some(),
    ensures
        first_channel_error(ps) == first_channel_error(ps.take(i)),
    decreases i,
{
    if i > 0 {
        if channel_error(ps[0]).is_none() {
            assert(ps.take(i).drop_first() =~= ps.drop_first().take(i - 1));
            lemma_first_channel_error_prefix(ps.drop_first(), i - 1);
        }
    }
}

fn decode_channel(p: &ChannelProto) -> (r: Result<Channel, ConvertError>)
    ensures
        match r {
            Ok(c) => channel_error(*p).is_none() && channel_decodes(*p, c),
            Err(e) => channel_error(*p) == Some(e),
        },
{
    let id = match parse_id(&p.id) {
        Ok(id) => id,
        Err(e) => { return Err(e); },
    };
    let kind = match ChannelType::try_from_proto(p.kind) {
        Ok(k) => k,
        Err(e) => { return Err(e); },
    };
    Ok(Channel { id, name: p.name.clone(), kind, muted: p.muted })
}

fn decode_channels(ps: &Vec<ChannelProto>) -> (r: Result<Vec<Channel>, ConvertError>)
    ensures
        match r {
            Ok(cs) => first_channel_error(ps@).is_none() && cs@.len() == ps@.len()
                && forall|i: int| 0 <= i < ps@.len() ==> channel_decodes(#[trigger] ps@[i], cs@[i]),
            Err(e) => first_channel_error(ps@) == Some(e),
        },
{
    let ghost all = ps@;
    let mut out: Vec<Channel> = Vec::new();
    proof { assert(all.take(0) =~= Seq::<ChannelProto>::empty()); }
    let mut i: usize = 0;
    while i < ps.len()
        invariant
            all == ps@,
            i <= all.len(),
            out@.len() == i,
            first_channel_error(all.take(i as int)).is_none(),
            forall|k: int| 0 <= k < i ==> channel_decodes(#[trigger] all[k], out@[k]),
        decreases all.len() - i,
    {
        let p = &ps[i];
        proof {
            assert(all.take(i + 1) =~= all.take(i as int).push(*p));
            lemma_first_channel_error_push(all.take(i as int), *p);
        }
        match decode_channel(p) {
            Ok(c) => { out.push(c); },
            Err(e) => {
                proof { lemma_first_channel_error_prefix(all, i + 1); }
                return Err(e);
            },
        }
        i += 1;
    }
    proof { assert(all.take(all.len() as int) =~= all); }
    Ok(out)
}

impl Server {
    pub fn try_from_proto(p: ServerProto) -> (r: Result<Server, ConvertError>)
        ensures
            match r {
                Ok(s) => {
                    &&& uuid_parse(p.id@) == Some(s.id)
                    &&& s.name == p.name
                    &&& first_channel_error(p.channels@).is_none()
                    &&& s.channels@.len() == p.channels@.len()
                    &&& forall|i: int| 0 <= i < p.channels@.len() ==> channel_decodes(#[trigger] p.channels@[i], s.channels@[i])
                },
                Err(e) => if uuid_parse(p.id@).is_none() {
                    e == ConvertError::InvalidId
                } else {
                    first_channel_error(p.channels@) == Some(e)
                },
            },
    {
        let id = match parse_id(&p.id) {
            Ok(id) => id,
            Err(e) => { return Err(e); },
        };
        let channels = match decode_channels(&p.channels) {
            Ok(cs) => cs,
            Err(e) => { return Err(e); },
        };
        Ok(Server { id, name: p.name, channels })
    }
}

/// A request to (un)mute a text channel's notifications.
#[derive(Clone, Copy, Debug, PartialEq, Eq)]
pub struct SetChannelMuteRequest {
    pub text_channel_id: u128,
    pub muted: bool,
}

/// The wire form of a mute request.
#[derive(Debug)]
pub struct SetChannelMuteRequestProto {
    pub text_channel_id: String,
    pub muted: bool,
}

impl SetChannelMuteRequest {
    pub fn into_proto(self) -> (p: SetChannelMuteRequestProto)
        ensures
            p.text_channel_id@ == uuid_text(self.text_channel_id),
            p.muted == self.muted,
    {
        SetChannelMuteRequestProto { text_channel_id: id_to_string(self.text_channel_id), muted: self.muted }
    }

    pub fn try_from_proto(p: SetChannelMuteRequestProto) -> (r: Result<SetChannelMuteRequest, ConvertError>)
        ensures
            r == (match uuid_parse(p.text_channel_id@) {
                Some(id) => Ok(SetChannelMuteRequest { text_channel_id: id, muted: p.muted }),
                None => Err(ConvertError::InvalidId),
            }),
    {
        match parse_id(&p.text_channel_id) {
            Ok(id) => Ok(SetChannelMuteRequest { text_channel_id: id, muted: p.muted }),
            Err(e) => Err(e),
        }
    }
}

/// The wire form of a user shown to others.
#[derive(Debug)]
pub struct DisplayUserProto {
    pub id: String,
    pub name: String,
}

impl User {
    pub fn into_proto(self) -> (p: DisplayUserProto)
        ensures
            p.id@ == uuid_text(self.id),
            p.name == self.name,
    {
        DisplayUserProto { id: id_to_string(self.id), name: self.name }
    }

    pub fn try_from_proto(p: DisplayUserProto) -> (r: Result<User, ConvertError>)
        ensures
            match uuid_parse(p.id@) {
                Some(id) => r matches Ok(u) && u.id == id && u.name == p.name,
                None => r == Err::<User, ConvertError>(ConvertError::InvalidIdentifierFormat),
            },
    {
        match parse_uuid(p.id.as_str()) {
            Some(id) => Ok(User { id, name: p.name }),
            None => Err(ConvertError::InvalidIdentifierFormat),
        }
    }
}

/// The signed-in user's own profile.
#[derive(Debug)]
pub struct MeReturn {
    pub username: String,
    pub user_id: u128,
}

/// The wire form of the profile.
#[derive(Debug)]
pub struct MeResponseProto {
    pub username: String,
    pub identifier: String,
}

impl MeReturn {
    pub fn into_proto(self) -> (p: MeResponseProto)
        ensures
            p.username == self.username,
            p.identifier@ == uuid_text(self.user_id),
    {
        MeResponseProto { username: self.username, identifier: id_to_string(self.user_id) }
    }

    /// Refused when the identifier is not a UUID, or the user name is empty.
    pub fn try_from_proto(p: MeResponseProto) -> (r: Result<MeReturn, ConvertError>)
        ensures
            match uuid_parse(p.identifier@) {
                None => r == Err::<MeReturn, ConvertError>(ConvertError::InvalidIdentifier),
                Some(id) => if p.username@.len() == 0 {
                    r == Err::<MeReturn, ConvertError>(ConvertError::MissingUsername)
                } else {
                    r matches Ok(m) && m.user_id == id && m.username == p.username
                },
            },
    {
        let id = match parse_uuid(p.identifier.as_str()) {
            Some(id) => id,
            None => { return Err(ConvertError::InvalidIdentifier); },
        };
        if p.username.as_str().unicode_len() == 0 {
            return Err(ConvertError::MissingUsername);
        }
        Ok(MeReturn { username: p.username, user_id: id })
    }
}

/// The wire form of a point in time.
#[derive(Clone, Copy, Debug, PartialEq, Eq, Structural)]
pub struct TimestampProto {
    pub seconds: i64,
    pub nanos: i32,
}

/// The time a wire timestamp stands for, if chrono accepts it; negative
/// nanoseconds are read as zero.
pub open spec fn timestamp_of(t: TimestampProto) -> Option<Timestamp> {
    let nanos: u32 = if t.nanos < 0 { 0 } else { t.nanos as u32 };
    if datetime_valid(t.seconds, nanos) { Some(Timestamp { seconds: t.seconds, nanos }) } else { None }
}

/// Read a wire timestamp.
pub fn timestamp_from_proto(t: TimestampProto) -> (r: Option<Timestamp>)
    ensures
        r == timestamp_of(t),
{
    let nanos: u32 = if t.nanos < 0 { 0 } else { t.nanos as u32 };
    if datetime_exists(t.seconds, nanos) { Some(Timestamp { seconds: t.seconds, nanos }) } else { None }
}

/// Write a wire timestamp (the nanoseconds of a valid time fit).
pub fn timestamp_into_proto(t: Timestamp) -> (p: TimestampProto)
    requires
        t.nanos < 2_000_000_000,
    ensures
        p.seconds == t.seconds,
        p.nanos == t.nanos,
{
    TimestampProto { seconds: t.seconds, nanos: t.nanos as i32 }
}

/// A request for one page of a text channel's history.
#[derive(Clone, Copy, Debug, PartialEq, Eq)]
pub struct GetPostsRequest {
    pub text_channel_id: u128,
    pub limit: u64,
    /// Only posts created before this time; the newest page when absent.
    pub starting_before_timestamp: Option<Timestamp>,
}

/// The wire form of a history request.
#[derive(Debug)]
pub struct GetPostsRequestProto {
    pub text_channel_id: String,
    pub limit: u64,
    pub starting_before_timestamp: Option<TimestampProto>,
}

impl GetPostsRequest {
    /// An unreadable cut-off time is dropped (the newest page is asked for).
    pub fn try_from_proto(p: GetPostsRequestProto) -> (r: Result<GetPostsRequest, ConvertError>)
        ensures
            match uuid_parse(p.text_channel_id@) {
                None => r == Err::<GetPostsRequest, ConvertError>(ConvertError::InvalidTextChannelId),
                Some(id) => r == Ok::<GetPostsRequest, ConvertError>(GetPostsRequest {
                    text_channel_id: id,
                    limit: p.limit,
                    starting_before_timestamp: match p.starting_before_timestamp {
                        Some(t) => timestamp_of(t),
                        None => None,
                    },
                }),
            },
    {
        let id = match parse_uuid(p.text_channel_id.as_str()) {
            Some(id) => id,
            None => { return Err(ConvertError::InvalidTextChannelId); },
        };
        let starting_before_timestamp = match p.starting_before_timestamp {
            Some(t) => timestamp_from_proto(t),
            None => None,
        };
        Ok(GetPostsRequest { text_channel_id: id, limit: p.limit, starting_before_timestamp })
    }
}

/// A voice or text channel row of a server, as stored.
#[derive(Debug)]
pub struct ChannelRow {
    pub id: u128,
    pub name: String,
}

/// The channels of a server as listed to a user (spec of `server_channels`):
/// its voice channels, then its text channels with the user's mute flag.
pub open spec fn listed_channel(voice: Seq<ChannelRow>, text: Seq<ChannelRow>, muted: Seq<u128>, i: int) -> (u128, Seq<char>, ChannelType, bool) {
    if i < voice.len() {
        (voice[i].id, voice[i].name@, ChannelType::Voice, false)
    } else {
        let t = text[i - voice.len()];
        (t.id, t.name@, ChannelType::Text, muted.contains(t.id))
    }
}

/// Assemble a server's channel list for a user who muted the text channels
/// `muted`: voice channels first (never muted), then text channels.
pub fn server_channels(voice: Vec<ChannelRow>, text: Vec<ChannelRow>, muted: &Vec<u128>) -> (r: Vec<Channel>)
    requires
        voice@.len() + text@.len() <= usize::MAX,
    ensures
        r@.len() == voice@.len() + text@.len(),
        forall|i: int| 0 <= i < r@.len() ==> #[trigger] listed_channel(voice@, text@, muted@, i)
            == (r@[i].id, r@[i].name@, r@[i].kind, r@[i].muted),
{
    let mut out: Vec<Channel> = Vec::new();
    let mut i: usize = 0;
    while i < voice.len()
        invariant
            i <= voice@.len(),
            out@.len() == i,
            forall|k: int| 0 <= k < i ==> #[trigger] listed_channel(voice@, text@, muted@, k)
                == (out@[k].id, out@[k].name@, out@[k].kind, out@[k].muted),
        decreases voice@.len() - i,
    {
        out.push(Channel { id: voice[i].id, name: voice[i].name.clone(), kind: ChannelType::Voice, muted: false });
        i += 1;
    }
    let mut j: usize = 0;
    while j < text.len()
        invariant
            voice@.len() + text@.len() <= usize::MAX,
            j <= text@.len(),
            out@.len() == voice@.len() + j,
            forall|k: int| 0 <= k < out@.len() ==> #[trigger] listed_channel(voice@, text@, muted@, k)
                == (out@[k].id, out@[k].name@, out@[k].kind, out@[k].muted),
        decreases text@.len() - j,
    {
        let id = text[j].id;
        let is_muted = contains_id(muted, id);
        out.push(Channel { id, name: text[j].name.clone(), kind: ChannelType::Text, muted: is_muted });
        j += 1;
    }
    out
}

fn contains_id(v: &Vec<u128>, id: u128) -> (r: bool)
    ensures
        r == v@.contains(id),
{
    let mut i: usize = 0;
    while i < v.len()
        invariant
            i <= v@.len(),
            forall|k: int| 0 <= k < i ==> v@[k] != id,
        decreases v@.len() - i,
    {
        if v[i] == id {
            proof { assert(v@[i as int] == id); }
            return true;
        }
        i += 1;
    }
    false
}

} // verus!
