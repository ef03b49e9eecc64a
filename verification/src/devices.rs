//! Cleaning the list of audio devices offered in the settings picker.
//!
//! ALSA enumerates a flood of plugin PCMs and duplicate names; the obvious
//! plugin entries are dropped and the rest de-duplicated. If that would leave
//! nothing, the merely de-duplicated list is used instead.

use vstd::prelude::*;
use crate::text::same_text;

verus! {

/// The code of `c` after ASCII lower-casing.
pub open spec fn lower_code(c: char) -> u32 {
    if 'A' <= c && c <= 'Z' { (c as u32 + 32) as u32 } else { c as u32 }
}

/// `p` is a prefix of `s` lower-cased (ASCII only).
pub open spec fn lower_starts_with(s: Seq<char>, p: Seq<char>) -> bool {
    p.len() <= s.len() && forall|i: int| 0 <= i < p.len() ==> lower_code(#[trigger] s[i]) == p[i] as u32
}

/// Name prefixes of ALSA plugin devices that are hidden from the picker.
pub open spec fn noise_prefixes() -> Seq<Seq<char>> {
    seq![
        "sysdefault"@, "samplerate"@, "speexrate"@, "upmix"@, "vdownmix"@, "dmix"@, "dsnoop"@,
        "surround"@, "iec958"@, "spdif"@, "modem"@, "phoneline"@, "usbstream"@, "null"@, "oss"@,
    ]
}

/// The device `name` is an ALSA plugin entry.
pub open spec fn is_noise(name: Seq<char>) -> bool {
    exists|k: int| 0 <= k < noise_prefixes().len() && lower_starts_with(name, #[trigger] noise_prefixes()[k])
}

/// `s` with every repeated name after its first occurrence removed.
pub open spec fn dedup(s: Seq<Seq<char>>) -> Seq<Seq<char>>
    decreases s.len(),
{
    if s.len() == 0 {
        Seq::empty()
    } else {
        let rest = dedup(s.drop_last());
        if s.drop_last().contains(s.last()) { rest } else { rest.push(s.last()) }
    }
}

/// `s` without its plugin entries.
pub open spec fn without_noise(s: Seq<Seq<char>>) -> Seq<Seq<char>>
    decreases s.len(),
{
    if s.len() == 0 {
        Seq::empty()
    } else {
        let rest = without_noise(s.drop_last());
        if is_noise(s.last()) { rest } else { rest.push(s.last()) }
    }
}

/// The picker's list for the enumerated `names` (spec of `clean_device_list`).
pub open spec fn cleaned(names: Seq<Seq<char>>) -> Seq<Seq<char>> {
    let filtered = dedup(without_noise(names));
    if filtered.len() == 0 { dedup(names) } else { filtered }
}

/// The views of a list of strings.
pub open spec fn views(v: Seq<String>) -> Seq<Seq<char>> {
    v.map_values(|s: String| s@)
}

const NOISE_COUNT: usize = 15;

fn noise_prefix(k: usize) -> (p: &'static str)
    requires
        k < NOISE_COUNT,
    ensures
        p@ == noise_prefixes()[k as int],
{
    match k {
        0 => "sysdefault",
        1 => "samplerate",
        2 => "speexrate",
        3 => "upmix",
        4 => "vdownmix",
        5 => "dmix",
        6 => "dsnoop",
        7 => "surround",
        8 => "iec958",
        9 => "spdif",
        10 => "modem",
        11 => "phoneline",
        12 => "usbstream",
        13 => "null",
        _ => "oss",
    }
}

fn starts_with_lower(s: &str, p: &str) -> (r: bool)
    ensures
        r == lower_starts_with(s@, p@),
{
    let sl = s.unicode_len();
    let pl = p.unicode_len();
    if pl > sl {
        return false;
    }
    let mut i: usize = 0;
    while i < pl
        invariant
            i <= pl,
            pl == p@.len(),
            sl == s@.len(),
            pl <= sl,
            forall|j: int| 0 <= j < i ==> lower_code(#[trigger] s@[j]) == p@[j] as u32,
        decreases pl - i,
    {
        let c = s.get_char(i);
        let d = p.get_char(i);
        let code: u32 = if 'A' <= c && c <= 'Z' { (c as u32) + 32 } else { c as u32 };
        if code != d as u32 {
            return false;
        }
        i += 1;
    }
    true
}

fn noisy(name: &str) -> (r: bool)
    ensures
        r == is_noise(name@),
{
    let mut k: usize = 0;
    while k < NOISE_COUNT
        invariant
            k <= NOISE_COUNT,
            noise_prefixes().len() == NOISE_COUNT,
            forall|j: int| 0 <= j < k ==> !lower_starts_with(name@, #[trigger] noise_prefixes()[j]),
        decreases NOISE_COUNT - k,
    {
        if starts_with_lower(name, noise_prefix(k)) {
            return true;
        }
        k += 1;
    }
    false
}

fn contains_name(v: &Vec<String>, name: &String) -> (r: bool)
    ensures
        r == views(v@).contains(name@),
{
    let mut i: usize = 0;
    while i < v.len()
        invariant
            i <= v@.len(),
            forall|j: int| 0 <= j < i ==> #[trigger] v@[j]@ != name@,
        decreases v@.len() - i,
    {
        if v[i] == *name {
            proof { assert(views(v@)[i as int] == name@); }
            return true;
        }
        i += 1;
    }
    proof {
        if views(v@).contains(name@) {
            let j = choose|j: int| 0 <= j < views(v@).len() && views(v@)[j] == name@;
            assert(v@[j]@ == name@);
        }
    }
    false
}

proof fn lemma_contains_split(s: Seq<Seq<char>>, x: Seq<char>)
    requires
        s.len() > 0,
    ensures
        s.contains(x) == (s.drop_last().contains(x) || s.last() == x),
{
    let d = s.drop_last();
    if d.contains(x) {
        let j = choose|j: int| 0 <= j < d.len() && d[j] == x;
        assert(s[j] == x);
    }
    if s.last() == x {
        assert(s[s.len() - 1] == x);
    }
    if s.contains(x) {
        let j = choose|j: int| 0 <= j < s.len() && s[j] == x;
        if j < s.len() - 1 {
            assert(d[j] == x);
        }
    }
}

proof fn lemma_dedup_contains(s: Seq<Seq<char>>, x: Seq<char>)
    ensures
        dedup(s).contains(x) == s.contains(x),
    decreases s.len(),
{
    if s.len() > 0 {
        let d = s.drop_last();
        lemma_dedup_contains(d, x);
        lemma_contains_split(s, x);
        if !d.contains(s.last()) {
            let r = dedup(d).push(s.last());
            assert(r.drop_last() =~= dedup(d));
            lemma_contains_split(r, x);
        } else {
            lemma_dedup_contains(d, s.last());
        }
    }
}

/// The names of `names` that pass (`keep_noise`, or not a plugin entry),
/// de-duplicated.
fn dedup_into(names: &Vec<String>, keep_noise: bool) -> (out: Vec<String>)
    ensures
        views(out@) == dedup(if keep_noise { views(names@) } else { without_noise(views(names@)) }),
{
    let mut out: Vec<String> = Vec::new();
    let mut i: usize = 0;
    while i < names.len()
        invariant
            i <= names@.len(),
            views(out@) == dedup(if keep_noise {
                views(names@).take(i as int)
            } else {
                without_noise(views(names@).take(i as int))
            }),
        decreases names@.len() - i,
    {
        let name = &names[i];
        let ghost prefix = views(names@).take(i as int);
        let ghost prefix1 = views(names@).take(i + 1);
        let ghost src = if keep_noise { prefix } else { without_noise(prefix) };
        proof {
            assert(prefix1.drop_last() =~= prefix);
            assert(prefix1.last() == name@);
        }
        let pass = keep_noise || !noisy(name.as_str());
        if pass {
            let seen = contains_name(&out, name);
            proof {
                let next = if keep_noise { prefix1 } else { without_noise(prefix1) };
                assert(next.drop_last() =~= src);
                assert(next.last() == name@);
                lemma_dedup_contains(src, name@);
            }
            if !seen {
                let ghost prev = out@;
                out.push(name.clone());
                proof { assert(views(out@) =~= views(prev).push(name@)); }
            }
        } else {
            proof {
                assert(without_noise(prefix1) == without_noise(prefix));
            }
        }
        i += 1;
    }
    proof { assert(views(names@).take(names@.len() as int) =~= views(names@)); }
    out
}

/// De-duplication leaves no name twice.
pub proof fn lemma_dedup_no_duplicates(s: Seq<Seq<char>>)
    ensures
        dedup(s).no_duplicates(),
    decreases s.len(),
{
    if s.len() > 0 {
        let d = s.drop_last();
        lemma_dedup_no_duplicates(d);
        if !d.contains(s.last()) {
            lemma_dedup_contains(d, s.last());
            let r = dedup(d).push(s.last());
            assert forall|i: int, j: int| 0 <= i < r.len() && 0 <= j < r.len() && i != j implies r[i] != r[j] by {
                if i == r.len() - 1 && j < r.len() - 1 {
                    assert(dedup(d)[j] == r[j]);
                    assert(dedup(d).contains(r[j]));
                } else if j == r.len() - 1 && i < r.len() - 1 {
                    assert(dedup(d)[i] == r[i]);
                    assert(dedup(d).contains(r[i]));
                }
            }
        }
    }
}

/// `s` starts with `p` once ASCII upper-case letters of `s` are
/// lower-cased.
pub open spec fn starts_with_ignoring_case(s: Seq<char>, p: Seq<char>) -> bool {
    &&& p.len() <= s.len()
    &&& forall|i: int| 0 <= i < p.len() ==> (if 'A' <= #[trigger] s[i] && s[i] <= 'Z' {
        (s[i] as u32) as int + 32
    } else {
        (s[i] as u32) as int
    }) == (p[i] as u32) as int
}

/// The name of an ALSA plugin PCM, by the 15 prefixes hidden from the
/// picker.
pub open spec fn alsa_plugin_name(s: Seq<char>) -> bool {
    ||| starts_with_ignoring_case(s, "sysdefault"@)
    ||| starts_with_ignoring_case(s, "samplerate"@)
    ||| starts_with_ignoring_case(s, "speexrate"@)
    ||| starts_with_ignoring_case(s, "upmix"@)
    ||| starts_with_ignoring_case(s, "vdownmix"@)
    ||| starts_with_ignoring_case(s, "dmix"@)
    ||| starts_with_ignoring_case(s, "dsnoop"@)
    ||| starts_with_ignoring_case(s, "surround"@)
    ||| starts_with_ignoring_case(s, "iec958"@)
    ||| starts_with_ignoring_case(s, "spdif"@)
    ||| starts_with_ignoring_case(s, "modem"@)
    ||| starts_with_ignoring_case(s, "phoneline"@)
    ||| starts_with_ignoring_case(s, "usbstream"@)
    ||| starts_with_ignoring_case(s, "null"@)
    ||| starts_with_ignoring_case(s, "oss"@)
}

proof fn lemma_case_prefix_agree(s: Seq<char>, p: Seq<char>)
    ensures
        lower_starts_with(s, p) == starts_with_ignoring_case(s, p),
{
    if lower_starts_with(s, p) {
        assert forall|i: int| 0 <= i < p.len() implies (if 'A' <= #[trigger] s[i] && s[i] <= 'Z' {
            (s[i] as u32) as int + 32
        } else {
            (s[i] as u32) as int
        }) == (p[i] as u32) as int by {
            assert(lower_code(s[i]) == p[i] as u32);
            if 'A' <= s[i] && s[i] <= 'Z' {
                assert(s[i] as u32 <= 'Z' as u32);
                assert(('Z' as u32) < 100);
            }
        }
    }
    if starts_with_ignoring_case(s, p) {
        assert forall|i: int| 0 <= i < p.len() implies lower_code(#[trigger] s[i]) == p[i] as u32 by {
            assert((if 'A' <= s[i] && s[i] <= 'Z' { (s[i] as u32) as int + 32 } else { (s[i] as u32) as int }) == (p[i] as u32) as int);
            if 'A' <= s[i] && s[i] <= 'Z' {
                assert(s[i] as u32 <= 'Z' as u32);
                assert(('Z' as u32) < 100);
            }
        }
    }
}

/// A name counts as a plugin entry exactly when it starts, ignoring ASCII
/// case, with one of the 15 plugin prefixes.
pub proof fn lemma_noise_is_alsa_plugin(s: Seq<char>)
    ensures
        is_noise(s) == alsa_plugin_name(s),
{
    let ps = noise_prefixes();
    assert(ps[0] == "sysdefault"@);
    lemma_case_prefix_agree(s, ps[0]);
    assert(ps[1] == "samplerate"@);
    lemma_case_prefix_agree(s, ps[1]);
    assert(ps[2] == "speexrate"@);
    lemma_case_prefix_agree(s, ps[2]);
    assert(ps[3] == "upmix"@);
    lemma_case_prefix_agree(s, ps[3]);
    assert(ps[4] == "vdownmix"@);
    lemma_case_prefix_agree(s, ps[4]);
    assert(ps[5] == "dmix"@);
    lemma_case_prefix_agree(s, ps[5]);
    assert(ps[6] == "dsnoop"@);
    lemma_case_prefix_agree(s, ps[6]);
    assert(ps[7] == "surround"@);
    lemma_case_prefix_agree(s, ps[7]);
    assert(ps[8] == "iec958"@);
    lemma_case_prefix_agree(s, ps[8]);
    assert(ps[9] == "spdif"@);
    lemma_case_prefix_agree(s, ps[9]);
    assert(ps[10] == "modem"@);
    lemma_case_prefix_agree(s, ps[10]);
    assert(ps[11] == "phoneline"@);
    lemma_case_prefix_agree(s, ps[11]);
    assert(ps[12] == "usbstream"@);
    lemma_case_prefix_agree(s, ps[12]);
    assert(ps[13] == "null"@);
    lemma_case_prefix_agree(s, ps[13]);
    assert(ps[14] == "oss"@);
    lemma_case_prefix_agree(s, ps[14]);
}

proof fn lemma_without_noise_contains(s: Seq<Seq<char>>, x: Seq<char>)
    ensures
        without_noise(s).contains(x) == (s.contains(x) && !is_noise(x)),
    decreases s.len(),
{
    if s.len() > 0 {
        let d = s.drop_last();
        lemma_without_noise_contains(d, x);
        lemma_contains_split(s, x);
        if !is_noise(s.last()) {
            let r = without_noise(d).push(s.last());
            assert(r.drop_last() =~= without_noise(d));
            lemma_contains_split(r, x);
        }
    }
}

/// What the picker offers: when some enumerated name is not an ALSA plugin
/// entry, exactly the enumerated names that are not plugin entries; when
/// every name is one, all enumerated names (so the picker is never emptied
/// by the filter). Either way without repeats.
pub proof fn lemma_picker_hides_plugin_entries(names: Seq<Seq<char>>, s: Seq<char>)
    ensures
        (exists|i: int| 0 <= i < names.len() && !alsa_plugin_name(#[trigger] names[i]))
            ==> (cleaned(names).contains(s) <==> (names.contains(s) && !alsa_plugin_name(s))),
        (forall|i: int| 0 <= i < names.len() ==> alsa_plugin_name(#[trigger] names[i]))
            ==> (cleaned(names).contains(s) <==> names.contains(s)),
        cleaned(names).no_duplicates(),
{
    lemma_noise_is_alsa_plugin(s);
    lemma_dedup_no_duplicates(names);
    lemma_dedup_no_duplicates(without_noise(names));
    lemma_dedup_contains(names, s);
    lemma_dedup_contains(without_noise(names), s);
    lemma_without_noise_contains(names, s);
    let f = dedup(without_noise(names));
    if exists|i: int| 0 <= i < names.len() && !alsa_plugin_name(#[trigger] names[i]) {
        let i = choose|i: int| 0 <= i < names.len() && !alsa_plugin_name(#[trigger] names[i]);
        let x = names[i];
        lemma_noise_is_alsa_plugin(x);
        lemma_dedup_contains(without_noise(names), x);
        lemma_without_noise_contains(names, x);
        assert(names.contains(x));
        assert(f.contains(x));
        assert(f.len() > 0);
    }
    if forall|i: int| 0 <= i < names.len() ==> alsa_plugin_name(#[trigger] names[i]) {
        if f.len() > 0 {
            let x = f[0];
            assert(f.contains(x));
            lemma_dedup_contains(without_noise(names), x);
            lemma_without_noise_contains(names, x);
            let j = choose|j: int| 0 <= j < names.len() && names[j] == x;
            assert(alsa_plugin_name(names[j]));
            lemma_noise_is_alsa_plugin(x);
            assert(false);
        }
    }
}

/// The device names to offer: plugin entries dropped and duplicates removed,
/// keeping first occurrences; if nothing would remain, the merely
/// de-duplicated list.
pub fn clean_device_list(names: Vec<String>) -> (r: Vec<String>)
    ensures
        views(r@) == cleaned(views(names@)),
        views(r@).no_duplicates(),
{
    proof {
        lemma_dedup_no_duplicates(views(names@));
        lemma_dedup_no_duplicates(without_noise(views(names@)));
    }
    let filtered = dedup_into(&names, false);
    if filtered.len() == 0 {
        dedup_into(&names, true)
    } else {
        filtered
    }
}

/// The sample formats an audio device may offer.
#[derive(Clone, Copy, Debug, PartialEq, Eq, Structural)]
pub enum SampleFormat {
    F32,
    I16,
    U16,
    Other,
}

/// A stream configuration a device would open with.
#[derive(Clone, Copy, Debug, PartialEq, Eq, Structural)]
pub struct StreamChoice {
    pub format: SampleFormat,
    pub sample_rate: u32,
    pub channels: u16,
}

/// A range of configurations a device supports.
#[derive(Clone, Copy, Debug, PartialEq, Eq, Structural)]
pub struct ConfigRange {
    pub format: SampleFormat,
    pub min_rate: u32,
    pub max_rate: u32,
    pub channels: u16,
}

/// `r` is a float range that runs at `rate`.
pub open spec fn float_range_at(r: ConfigRange, rate: u32) -> bool {
    r.format == SampleFormat::F32 && r.min_rate <= rate && rate <= r.max_rate
}

/// The configuration to open a device with (spec of `pick_config`): the
/// default if it is already float; else the last float range that runs at
/// the default's rate, at that rate; else none.
pub open spec fn pick_spec(default: StreamChoice, ranges: Seq<ConfigRange>) -> Option<StreamChoice> {
    if default.format == SampleFormat::F32 {
        Some(default)
    } else if exists|i: int| 0 <= i < ranges.len() && float_range_at(#[trigger] ranges[i], default.sample_rate) {
        let i = choose|i: int| 0 <= i < ranges.len() && float_range_at(ranges[i], default.sample_rate)
            && forall|k: int| i < k < ranges.len() ==> !float_range_at(#[trigger] ranges[k], default.sample_rate);
        Some(StreamChoice { format: ranges[i].format, sample_rate: default.sample_rate, channels: ranges[i].channels })
    } else {
        None
    }
}

/// Choose the configuration to open a device with. Shared-mode WASAPI only
/// grants the device's current mix format, so the default is trusted when it
/// is float; otherwise a float range that contains the default's rate is
/// used. `None` means the device offers no float format at its rate.
#[verifier::loop_isolation(false)]
pub fn pick_config(default: StreamChoice, ranges: &Vec<ConfigRange>) -> (r: Option<StreamChoice>)
    ensures
        r == pick_spec(default, ranges@),
{
    if default.format == SampleFormat::F32 {
        return Some(default);
    }
    let rate = default.sample_rate;
    let mut i = ranges.len();
    while i > 0
        invariant
            i <= ranges@.len(),
            forall|k: int| i <= k < ranges@.len() ==> !float_range_at(#[trigger] ranges@[k], rate),
        decreases i,
    {
        let r = ranges[i - 1];
        if r.format == SampleFormat::F32 && r.min_rate <= rate && rate <= r.max_rate {
            proof {
                let j = (i - 1) as int;
                let c = choose|c: int| 0 <= c < ranges@.len() && float_range_at(ranges@[c], rate)
                    && forall|k: int| c < k < ranges@.len() ==> !float_range_at(#[trigger] ranges@[k], rate);
                assert(0 <= j < ranges@.len() && float_range_at(ranges@[j], rate)
                    && forall|k: int| j < k < ranges@.len() ==> !float_range_at(#[trigger] ranges@[k], rate));
                assert(c == j) by {
                    if c < j {
                        assert(!float_range_at(ranges@[j], rate));
                    } else if c > j {
                        assert(!float_range_at(ranges@[c], rate));
                    }
                }
            }
            return Some(StreamChoice { format: r.format, sample_rate: rate, channels: r.channels });
        }
        i -= 1;
    }
    None
}

/// Which device to open, given the names the host lists in order and the
/// saved choice.
#[derive(Clone, Copy, Debug, PartialEq, Eq, Structural)]
pub enum DeviceChoice {
    /// The listed device at this position.
    Listed(usize),
    /// The host's default device (nothing saved, or the saved one is gone).
    HostDefault,
}

/// The device to open (spec of `resolve_device`): the first listed device
/// named as saved, else the default.
pub open spec fn resolve_spec(names: Seq<Seq<char>>, wanted: Option<Seq<char>>) -> DeviceChoice {
    match wanted {
        Some(w) => if exists|i: int| 0 <= i < names.len() && #[trigger] names[i] == w {
            let i = choose|i: int| 0 <= i < names.len() && names[i] == w && forall|k: int| 0 <= k < i ==> #[trigger] names[k] != w;
            DeviceChoice::Listed(i as usize)
        } else {
            DeviceChoice::HostDefault
        },
        None => DeviceChoice::HostDefault,
    }
}

/// Find the saved device among the listed ones; fall back to the default
/// when none was saved or it is no longer listed.
#[verifier::loop_isolation(false)]
pub fn resolve_device(names: &Vec<String>, wanted: Option<&str>) -> (r: DeviceChoice)
    ensures
        r == resolve_spec(names@.map_values(|n: String| n@), match wanted {
            Some(w) => Some(w@),
            None => None,
        }),
{
    let ghost ns = names@.map_values(|n: String| n@);
    let w = match wanted {
        Some(w) => w,
        None => return DeviceChoice::HostDefault,
    };
    let mut i: usize = 0;
    while i < names.len()
        invariant
            i <= names@.len(),
            ns == names@.map_values(|n: String| n@),
            forall|k: int| 0 <= k < i ==> #[trigger] ns[k] != w@,
        decreases names@.len() - i,
    {
        if same_text(names[i].as_str(), w) {
            proof {
                let j = i as int;
                assert(ns[j] == w@);
                let c = choose|c: int| 0 <= c < ns.len() && ns[c] == w@ && forall|k: int| 0 <= k < c ==> #[trigger] ns[k] != w@;
                assert(0 <= j < ns.len() && ns[j] == w@ && forall|k: int| 0 <= k < j ==> #[trigger] ns[k] != w@);
                assert(c == j) by {
                    if c < j {
                        assert(ns[c] != w@);
                    } else if c > j {
                        assert(ns[j] != w@);
                    }
                }
            }
            return DeviceChoice::Listed(i);
        }
        i += 1;
    }
    DeviceChoice::HostDefault
}

} // verus!
