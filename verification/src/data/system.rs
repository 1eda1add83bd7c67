//! Readings from the system: the refresh schedule of the collector, the
//! parsers of `/proc/diskstats` and `/proc/mounts`, sector counts between
//! two readings, and the processes that use the most memory.
use vstd::prelude::*;

use crate::data::types::{ProcessInfo, infos_view};
use crate::text::{
    chars_of, is_ws, parse_u64_chars, parse_u64_spec, split_char, split_chars, split_whitespace_chars, starts_with,
    str_eq, string_from_chars, words,
};

verus! {

broadcast use vstd::string::group_string_axioms;

// ─── Refresh schedule ────────────────────────────────────────────────────────

/// Memory, processes, network and disk I/O are read on every second tick.
pub fn should_refresh_mem_net(tick: u64) -> (r: bool)
    ensures
        r == (tick % 2 == 0),
{
    tick % 2 == 0
}

/// Temperatures are read on every fourth tick.
pub fn should_refresh_temps(tick: u64) -> (r: bool)
    ensures
        r == (tick % 4 == 0),
{
    tick % 4 == 0
}

/// Disk capacities are re-read on every fourth tick.
pub fn should_refresh_disk_capacity(tick: u64) -> (r: bool)
    ensures
        r == (tick % 4 == 0),
{
    tick % 4 == 0
}

/// Disk readings are sent on every second tick.
pub fn should_emit_disk(tick: u64) -> (r: bool)
    ensures
        r == (tick % 2 == 0),
{
    tick % 2 == 0
}

/// Every tick that reads temperatures or disk capacities also reads memory
/// and the network and sends disk readings.
pub proof fn lemma_schedule_nested(tick: u64)
    ensures
        tick % 4 == 0 ==> tick % 2 == 0,
{
}

// ─── Keyed tables ────────────────────────────────────────────────────────────

/// The position of key `k` in `s` (its last occurrence).
pub open spec fn key_index<V>(s: Seq<(Seq<char>, V)>, k: Seq<char>) -> Option<int>
    decreases s.len(),
{
    if s.len() == 0 {
        None
    } else if s.last().0 == k {
        Some(s.len() - 1)
    } else {
        key_index(s.drop_last(), k)
    }
}

/// `s` with `k` bound to `v`: in place if `k` is there, appended otherwise.
pub open spec fn upsert<V>(s: Seq<(Seq<char>, V)>, k: Seq<char>, v: V) -> Seq<(Seq<char>, V)> {
    match key_index(s, k) {
        Some(i) => s.update(i, (k, v)),
        None => s.push((k, v)),
    }
}

/// No key occurs twice.
pub open spec fn keys_unique<V>(s: Seq<(Seq<char>, V)>) -> bool {
    forall|i: int, j: int| 0 <= i < s.len() && 0 <= j < s.len() && i != j ==> s[i].0 != s[j].0
}

proof fn lemma_key_index<V>(s: Seq<(Seq<char>, V)>, k: Seq<char>)
    ensures
        key_index(s, k) matches Some(i) ==> 0 <= i < s.len() && s[i].0 == k,
        key_index(s, k) is None ==> forall|j: int| 0 <= j < s.len() ==> s[j].0 != k,
    decreases s.len(),
{
    if s.len() > 0 {
        lemma_key_index(s.drop_last(), k);
        if s.last().0 != k {
            assert forall|j: int| 0 <= j < s.len() - 1 implies s[j] == s.drop_last()[j] by {}
        }
    }
}

/// Binding a key keeps the keys unique.
pub proof fn lemma_upsert_unique<V>(s: Seq<(Seq<char>, V)>, k: Seq<char>, v: V)
    requires
        keys_unique(s),
    ensures
        keys_unique(upsert(s, k, v)),
{
    lemma_key_index(s, k);
}

// ─── /proc/diskstats ─────────────────────────────────────────────────────────

/// Sectors read and written by a device.
pub struct DeviceStats {
    entries: Vec<(String, (u64, u64))>,
}

pub open spec fn stats_view(v: Seq<(String, (u64, u64))>) -> Seq<(Seq<char>, (u64, u64))> {
    v.map_values(|e: (String, (u64, u64))| (e.0@, e.1))
}

impl View for DeviceStats {
    type V = Seq<(Seq<char>, (u64, u64))>;

    closed spec fn view(&self) -> Seq<(Seq<char>, (u64, u64))> {
        stats_view(self.entries@)
    }
}

/// The device name and sectors read and written on a line of
/// `/proc/diskstats` (fields 3, 6 and 10); `None` for a line with fewer than
/// ten fields or counts that are not numbers.
pub open spec fn diskstats_line(line: Seq<char>) -> Option<(Seq<char>, u64, u64)> {
    let f = words(line);
    if f.len() < 10 {
        None
    } else {
        match (parse_u64_spec(f[5]), parse_u64_spec(f[9])) {
            (Some(rd), Some(wr)) => Some((f[2], rd, wr)),
            _ => None,
        }
    }
}

/// The table built from `lines[0..n]`: each device bound to the counts of
/// its last line.
pub open spec fn diskstats_table(lines: Seq<Seq<char>>, n: int) -> Seq<(Seq<char>, (u64, u64))>
    decreases n,
{
    if n <= 0 {
        seq![]
    } else {
        let t = diskstats_table(lines, n - 1);
        match diskstats_line(lines[n - 1]) {
            Some((dev, rd, wr)) => upsert(t, dev, (rd, wr)),
            None => t,
        }
    }
}

pub open spec fn diskstats_spec(content: Seq<char>) -> Seq<(Seq<char>, (u64, u64))> {
    let lines = split_char(content, '\n');
    diskstats_table(lines, lines.len() as int)
}

fn word_string(w: &Vec<Vec<char>>, i: usize) -> (r: String)
    requires
        i < w.len(),
    ensures
        r@ == w@[i as int]@,
{
    string_from_chars(&w[i])
}

/// Parses one line of `/proc/diskstats` into (device, sectors read,
/// sectors written).
pub fn parse_diskstats_line(line: &str) -> (r: Option<(String, u64, u64)>)
    ensures
        match r {
            Some((dev, rd, wr)) => diskstats_line(line@) == Some((dev@, rd, wr)),
            None => diskstats_line(line@) is None,
        },
{
    let v = chars_of(line);
    parse_diskstats_chars(&v)
}

fn parse_diskstats_chars(v: &Vec<char>) -> (r: Option<(String, u64, u64)>)
    ensures
        match r {
            Some((dev, rd, wr)) => diskstats_line(v@) == Some((dev@, rd, wr)),
            None => diskstats_line(v@) is None,
        },
{
    let fields = split_whitespace_chars(v);
    let ghost f = fields@.map_values(|w: Vec<char>| w@);
    if fields.len() < 10 {
        return None;
    }
    assert(f[5] == fields@[5]@ && f[9] == fields@[9]@ && f[2] == fields@[2]@);
    let rd = match parse_u64_chars(&fields[5]) {
        Some(n) => n,
        None => return None,
    };
    let wr = match parse_u64_chars(&fields[9]) {
        Some(n) => n,
        None => return None,
    };
    Some((word_string(&fields, 2), rd, wr))
}

fn upsert_stats(entries: &mut Vec<(String, (u64, u64))>, key: String, value: (u64, u64))
    ensures
        stats_view(final(entries)@) == upsert(stats_view(old(entries)@), key@, value),
{
    let ghost s = stats_view(entries@);
    let mut k: usize = entries.len();
    assert(s.take(k as int) =~= s);
    while k > 0
        invariant
            k <= entries.len(),
            entries@ == old(entries)@,
            s == stats_view(entries@),
            key_index(s, key@) == key_index(s.take(k as int), key@),
        decreases k,
    {
        assert(s.take(k as int).drop_last() =~= s.take(k - 1));
        assert(s.take(k as int).last() == s[k - 1]);
        if str_eq(entries[k - 1].0.as_str(), key.as_str()) {
            let ghost kv = key@;
            entries.set(k - 1, (key, value));
            assert(stats_view(entries@) =~= s.update(k - 1, (kv, value)));
            return;
        }
        k -= 1;
    }
    assert(s.take(0) =~= Seq::<(Seq<char>, (u64, u64))>::empty());
    let ghost kv = key@;
    entries.push((key, value));
    assert(stats_view(entries@) =~= s.push((kv, value)));
}

/// Parses `/proc/diskstats`: each device with the sectors read and written
/// on its last line. Malformed lines are skipped.
pub fn parse_diskstats(content: &str) -> (r: DeviceStats)
    ensures
        r@ == diskstats_spec(content@),
{
    let v = chars_of(content);
    let lines = split_chars(&v, '\n');
    let ghost ls = lines@.map_values(|p: Vec<char>| p@);
    let mut entries: Vec<(String, (u64, u64))> = Vec::new();
    let mut i: usize = 0;
    while i < lines.len()
        invariant
            i <= lines.len(),
            ls == lines@.map_values(|p: Vec<char>| p@),
            stats_view(entries@) == diskstats_table(ls, i as int),
        decreases lines.len() - i,
    {
        assert(ls[i as int] == lines@[i as int]@);
        match parse_diskstats_chars(&lines[i]) {
            Some((dev, rd, wr)) => upsert_stats(&mut entries, dev, (rd, wr)),
            None => {},
        }
        i += 1;
    }
    assert(stats_view(entries@) == diskstats_spec(content@));
    DeviceStats { entries }
}

impl DeviceStats {
    /// Number of devices.
    pub fn len(&self) -> (r: usize)
        ensures
            r == self@.len(),
    {
        self.entries.len()
    }

    /// The counts of device `dev`.
    pub fn get(&self, dev: &str) -> (r: Option<(u64, u64)>)
        ensures
            match key_index(self@, dev@) {
                Some(i) => r == Some(self@[i].1),
                None => r is None,
            },
    {
        let ghost s = self@;
        let mut k: usize = self.entries.len();
        assert(s.take(k as int) =~= s);
        while k > 0
            invariant
                k <= self.entries.len(),
                s == stats_view(self.entries@),
                key_index(s, dev@) == key_index(s.take(k as int), dev@),
            decreases k,
        {
            assert(s.take(k as int).drop_last() =~= s.take(k - 1));
            assert(s.take(k as int).last() == s[k - 1]);
            if str_eq(self.entries[k - 1].0.as_str(), dev) {
                return Some(self.entries[k - 1].1);
            }
            k -= 1;
        }
        None
    }

    /// The devices with their counts, in order of first appearance.
    pub fn entries(&self) -> (r: &Vec<(String, (u64, u64))>)
        ensures
            stats_view(r@) == self@,
    {
        &self.entries
    }
}

/// The sectors read and written since `prev`, for each device of `curr`
/// that `prev` also has (a count that went down gives 0).
pub open spec fn sector_deltas_spec(prev: Seq<(Seq<char>, (u64, u64))>, curr: Seq<(Seq<char>, (u64, u64))>, n: int) -> Seq<(Seq<char>, u64, u64)>
    decreases n,
{
    if n <= 0 {
        seq![]
    } else {
        let rest = sector_deltas_spec(prev, curr, n - 1);
        let (dev, (crd, cwr)) = curr[n - 1];
        match key_index(prev, dev) {
            Some(i) => {
                let (prd, pwr) = prev[i].1;
                rest.push((dev, if crd >= prd { (crd - prd) as u64 } else { 0u64 }, if cwr >= pwr { (cwr - pwr) as u64 } else { 0u64 }))
            },
            None => rest,
        }
    }
}

/// Sectors read and written between two readings, per device present in
/// both; devices seen for the first time are left out.
pub fn sector_deltas(prev: &DeviceStats, curr: &DeviceStats) -> (r: Vec<(String, u64, u64)>)
    ensures
        r@.map_values(|e: (String, u64, u64)| (e.0@, e.1, e.2)) == sector_deltas_spec(prev@, curr@, curr@.len() as int),
{
    let mut out: Vec<(String, u64, u64)> = Vec::new();
    let mut i: usize = 0;
    while i < curr.entries.len()
        invariant
            i <= curr.entries.len(),
            curr@ == stats_view(curr.entries@),
            out@.map_values(|e: (String, u64, u64)| (e.0@, e.1, e.2)) == sector_deltas_spec(prev@, curr@, i as int),
        decreases curr.entries.len() - i,
    {
        let (dev, (crd, cwr)) = &curr.entries[i];
        assert(curr@[i as int] == (dev@, (*crd, *cwr)));
        match prev.get(dev.as_str()) {
            Some((prd, pwr)) => {
                let ghost before = out@;
                out.push((dev.clone(), crd.saturating_sub(prd), cwr.saturating_sub(pwr)));
                assert(out@.map_values(|e: (String, u64, u64)| (e.0@, e.1, e.2)) =~= before.map_values(
                    |e: (String, u64, u64)| (e.0@, e.1, e.2),
                ).push((dev@, if *crd >= prd { (*crd - prd) as u64 } else { 0u64 }, if *cwr >= pwr { (*cwr - pwr) as u64 } else { 0u64 })));
            },
            None => {},
        }
        i += 1;
    }
    out
}

// ─── /proc/mounts ────────────────────────────────────────────────────────────

pub open spec fn is_octal(c: char) -> bool {
    '0' <= c && c <= '7'
}

/// How many octal digits (at most three) start at `s[i]`.
pub open spec fn octal_run(s: Seq<char>, i: int) -> int {
    if 0 <= i < s.len() && is_octal(s[i]) {
        if i + 1 < s.len() && is_octal(s[i + 1]) {
            if i + 2 < s.len() && is_octal(s[i + 2]) {
                3
            } else {
                2
            }
        } else {
            1
        }
    } else {
        0
    }
}

pub open spec fn octal_digit(c: char) -> int {
    (c as int) - ('0' as int)
}

/// `s[i..]` with each `\` followed by three octal digits of a value up to
/// 255 replaced by the character of that code; any other `\` and the digits
/// after it are kept as they are.
pub open spec fn decode_from(s: Seq<char>, i: int) -> Seq<char>
    decreases s.len() - i,
{
    if i < 0 || i >= s.len() {
        seq![]
    } else if s[i] != '\\' {
        seq![s[i]] + decode_from(s, i + 1)
    } else {
        let k = octal_run(s, i + 1);
        let digits = s.subrange(i + 1, i + 1 + k);
        let value = if k == 3 { octal_digit(digits[0]) * 64 + octal_digit(digits[1]) * 8 + octal_digit(digits[2]) } else { 0 };
        let piece = if k == 3 && value <= 255 { seq![(value as u8) as char] } else { seq!['\\'] + digits };
        piece + decode_from(s, i + 1 + k)
    }
}

pub open spec fn decode_mount_spec(s: Seq<char>) -> Seq<char> {
    decode_from(s, 0)
}

fn is_octal_exec(c: char) -> (r: bool)
    ensures
        r == is_octal(c),
{
    '0' <= c && c <= '7'
}

/// Decodes the octal escapes (such as `\040` for a space) of a path in
/// `/proc/mounts`.
pub fn decode_mount_escape(s: &str) -> (r: String)
    ensures
        r@ == decode_mount_spec(s@),
{
    let v = chars_of(s);
    let n = v.len();
    let mut out: Vec<char> = Vec::new();
    let mut i: usize = 0;
    while i < n
        invariant
            n == v.len(),
            i <= n,
            out@ + decode_from(v@, i as int) == decode_from(v@, 0),
        decreases n - i,
    {
        let c = v[i];
        let ghost before = out@;
        if c != '\\' {
            out.push(c);
            assert(before + decode_from(v@, i as int) =~= out@ + decode_from(v@, i + 1));
            i += 1;
        } else {
            let mut k: usize = 0;
            if i + 1 < n && is_octal_exec(v[i + 1]) {
                k = 1;
                if i + 2 < n && is_octal_exec(v[i + 2]) {
                    k = 2;
                    if i + 3 < n && is_octal_exec(v[i + 3]) {
                        k = 3;
                    }
                }
            }
            assert(k == octal_run(v@, i + 1));
            let ghost digits = v@.subrange(i + 1, i + 1 + k);
            let mut pushed_char = false;
            if k == 3 {
                let value: u32 = (v[i + 1] as u32 - '0' as u32) * 64 + (v[i + 2] as u32 - '0' as u32) * 8 + (v[i + 3] as u32
                    - '0' as u32);
                assert(value == octal_digit(digits[0]) * 64 + octal_digit(digits[1]) * 8 + octal_digit(digits[2]));
                if value <= 255 {
                    let b = value as u8;
                    out.push(b as char);
                    pushed_char = true;
                }
            }
            if !pushed_char {
                out.push('\\');
                let mut m: usize = 0;
                while m < k
                    invariant
                        k <= 3,
                        i + 1 + k <= n,
                        n == v.len(),
                        m <= k,
                        out@ == before + seq!['\\'] + v@.subrange(i + 1, i + 1 + m),
                    decreases k - m,
                {
                    out.push(v[i + 1 + m]);
                    m += 1;
                    assert(out@ =~= before + seq!['\\'] + v@.subrange(i + 1, i + 1 + m));
                }
            }
            let ghost piece = out@.subrange(before.len() as int, out@.len() as int);
            assert(out@ =~= before + piece);
            assert(decode_from(v@, i as int) == piece + decode_from(v@, i + 1 + k));
            assert(before + decode_from(v@, i as int) =~= out@ + decode_from(v@, i + 1 + k));
            i = i + 1 + k;
        }
    }
    assert(decode_from(v@, n as int) == Seq::<char>::empty());
    assert(out@ =~= decode_from(v@, 0));
    string_from_chars(&out)
}

/// Mount points with the device mounted there.
pub struct MountTable {
    entries: Vec<(String, String)>,
}

pub open spec fn mounts_view(v: Seq<(String, String)>) -> Seq<(Seq<char>, Seq<char>)> {
    v.map_values(|e: (String, String)| (e.0@, e.1@))
}

impl View for MountTable {
    type V = Seq<(Seq<char>, Seq<char>)>;

    closed spec fn view(&self) -> Seq<(Seq<char>, Seq<char>)> {
        mounts_view(self.entries@)
    }
}

/// The mount point (decoded) and device name (without `/dev/`) on a line of
/// `/proc/mounts`, for devices under `/dev/`.
pub open spec fn mount_line(line: Seq<char>) -> Option<(Seq<char>, Seq<char>)> {
    let f = words(line);
    if f.len() < 2 {
        None
    } else if starts_with(f[0], "/dev/"@) {
        Some((decode_mount_spec(f[1]), f[0].subrange(5, f[0].len() as int)))
    } else {
        None
    }
}

pub open spec fn mounts_table(lines: Seq<Seq<char>>, n: int) -> Seq<(Seq<char>, Seq<char>)>
    decreases n,
{
    if n <= 0 {
        seq![]
    } else {
        let t = mounts_table(lines, n - 1);
        match mount_line(lines[n - 1]) {
            Some((mp, dev)) => upsert(t, mp, dev),
            None => t,
        }
    }
}

pub open spec fn mounts_spec(content: Seq<char>) -> Seq<(Seq<char>, Seq<char>)> {
    let lines = split_char(content, '\n');
    mounts_table(lines, lines.len() as int)
}

fn upsert_mount(entries: &mut Vec<(String, String)>, key: String, value: String)
    ensures
        mounts_view(final(entries)@) == upsert(mounts_view(old(entries)@), key@, value@),
{
    let ghost s = mounts_view(entries@);
    let mut k: usize = entries.len();
    assert(s.take(k as int) =~= s);
    while k > 0
        invariant
            k <= entries.len(),
            entries@ == old(entries)@,
            s == mounts_view(entries@),
            key_index(s, key@) == key_index(s.take(k as int), key@),
        decreases k,
    {
        assert(s.take(k as int).drop_last() =~= s.take(k - 1));
        assert(s.take(k as int).last() == s[k - 1]);
        if str_eq(entries[k - 1].0.as_str(), key.as_str()) {
            let ghost kv = key@;
            let ghost vv = value@;
            entries.set(k - 1, (key, value));
            assert(mounts_view(entries@) =~= s.update(k - 1, (kv, vv)));
            return;
        }
        k -= 1;
    }
    assert(s.take(0) =~= Seq::<(Seq<char>, Seq<char>)>::empty());
    let ghost kv = key@;
    let ghost vv = value@;
    entries.push((key, value));
    assert(mounts_view(entries@) =~= s.push((kv, vv)));
}

fn mount_line_exec(line: &Vec<char>) -> (r: Option<(String, String)>)
    ensures
        match r {
            Some((mp, dev)) => mount_line(line@) == Some((mp@, dev@)),
            None => mount_line(line@) is None,
        },
{
    let fields = split_whitespace_chars(line);
    let ghost f = fields@.map_values(|w: Vec<char>| w@);
    if fields.len() < 2 {
        return None;
    }
    assert(f[0] == fields@[0]@ && f[1] == fields@[1]@);
    let device = &fields[0];
    let prefix: Vec<char> = vec!['/', 'd', 'e', 'v', '/'];
    proof {
        reveal_strlit("/dev/");
    }
    assert(prefix@ =~= "/dev/"@);
    if device.len() < 5 {
        return None;
    }
    if !crate::text::range_eq(device, 0, 5, "/dev/") {
        return None;
    }
    let dev_name = crate::text::string_of_range(device, 5, device.len());
    let mp_raw = string_from_chars(&fields[1]);
    let mp = decode_mount_escape(mp_raw.as_str());
    Some((mp, dev_name))
}

/// Parses `/proc/mounts`: each mount point of a `/dev/` device, decoded,
/// with the device name after `/dev/`. A mount point listed twice keeps its
/// last device.
pub fn parse_mounts(content: &str) -> (r: MountTable)
    ensures
        r@ == mounts_spec(content@),
{
    let v = chars_of(content);
    let lines = split_chars(&v, '\n');
    let ghost ls = lines@.map_values(|p: Vec<char>| p@);
    let mut entries: Vec<(String, String)> = Vec::new();
    let mut i: usize = 0;
    while i < lines.len()
        invariant
            i <= lines.len(),
            ls == lines@.map_values(|p: Vec<char>| p@),
            mounts_view(entries@) == mounts_table(ls, i as int),
        decreases lines.len() - i,
    {
        assert(ls[i as int] == lines@[i as int]@);
        match mount_line_exec(&lines[i]) {
            Some((mp, dev)) => upsert_mount(&mut entries, mp, dev),
            None => {},
        }
        i += 1;
    }
    MountTable { entries }
}

impl MountTable {
    /// Number of mount points.
    pub fn len(&self) -> (r: usize)
        ensures
            r == self@.len(),
    {
        self.entries.len()
    }

    pub fn is_empty(&self) -> (r: bool)
        ensures
            r == (self@.len() == 0),
    {
        self.entries.len() == 0
    }

    /// The device mounted at `mount_point`.
    pub fn get(&self, mount_point: &str) -> (r: Option<&String>)
        ensures
            match key_index(self@, mount_point@) {
                Some(i) => r matches Some(d) && d@ == self@[i].1,
                None => r is None,
            },
    {
        let ghost s = self@;
        let mut k: usize = self.entries.len();
        assert(s.take(k as int) =~= s);
        while k > 0
            invariant
                k <= self.entries.len(),
                s == mounts_view(self.entries@),
                key_index(s, mount_point@) == key_index(s.take(k as int), mount_point@),
            decreases k,
        {
            assert(s.take(k as int).drop_last() =~= s.take(k - 1));
            assert(s.take(k as int).last() == s[k - 1]);
            if str_eq(self.entries[k - 1].0.as_str(), mount_point) {
                return Some(&self.entries[k - 1].1);
            }
            k -= 1;
        }
        None
    }

    pub fn contains_key(&self, mount_point: &str) -> (r: bool)
        ensures
            r == (key_index(self@, mount_point@) is Some),
    {
        self.get(mount_point).is_some()
    }
}

// ─── Processes by memory ─────────────────────────────────────────────────────

/// Where `x` goes in a list ordered by memory, largest first: after every
/// entry that uses at least as much.
pub open spec fn insert_pos(s: Seq<crate::data::types::ProcessInfoView>, x: crate::data::types::ProcessInfoView, n: int) -> int
    decreases n,
{
    if n <= 0 {
        0
    } else if s[n - 1].memory_bytes >= x.memory_bytes {
        n
    } else {
        insert_pos(s, x, n - 1)
    }
}

/// `s` ordered by memory, largest first; entries using the same amount
/// keep their order (a stable sort).
pub open spec fn by_memory_desc(s: Seq<crate::data::types::ProcessInfoView>) -> Seq<crate::data::types::ProcessInfoView>
    decreases s.len(),
{
    if s.len() == 0 {
        seq![]
    } else {
        let sorted = by_memory_desc(s.drop_last());
        sorted.insert(insert_pos(sorted, s.last(), sorted.len() as int), s.last())
    }
}

/// The ten processes using the most memory, largest first.
pub fn top_processes(procs: Vec<ProcessInfo>) -> (r: Vec<ProcessInfo>)
    ensures
        infos_view(r@) == (if by_memory_desc(infos_view(procs@)).len() > 10 {
            by_memory_desc(infos_view(procs@)).take(10)
        } else {
            by_memory_desc(infos_view(procs@))
        }),
{
    let ghost input = infos_view(procs@);
    let mut sorted: Vec<ProcessInfo> = Vec::new();
    let mut procs = procs;
    let n = procs.len();
    let mut i: usize = 0;
    while i < n
        invariant
            i <= n,
            n == input.len(),
            procs@.len() == n - i,
            infos_view(procs@) == input.subrange(i as int, n as int),
            infos_view(sorted@) == by_memory_desc(input.take(i as int)),
        decreases n - i,
    {
        let ghost rest = procs@;
        assert(infos_view(rest)[0] == rest[0]@);
        let x = procs.remove(0);
        assert(x@ == input[i as int]);
        assert(procs@ == rest.remove(0));
        assert forall|j: int| 0 <= j < procs@.len() implies (#[trigger] infos_view(procs@)[j]) == input.subrange(
            i + 1,
            n as int,
        )[j] by {
            assert(procs@[j] == rest[j + 1]);
            assert(infos_view(rest)[j + 1] == rest[j + 1]@);
        }
        assert(infos_view(procs@) =~= input.subrange(i + 1, n as int));
        let mut pos: usize = sorted.len();
        let ghost ss = infos_view(sorted@);
        while pos > 0 && sorted[pos - 1].memory_bytes < x.memory_bytes
            invariant
                pos <= sorted.len(),
                ss == infos_view(sorted@),
                insert_pos(ss, x@, ss.len() as int) == insert_pos(ss, x@, pos as int),
            decreases pos,
        {
            assert(ss[pos - 1] == sorted@[pos - 1]@);
            pos -= 1;
        }
        proof {
            if pos > 0 {
                assert(ss[pos - 1] == sorted@[pos - 1]@);
            }
        }
        let ghost xv = x@;
        sorted.insert(pos, x);
        assert(input.take(i + 1).drop_last() =~= input.take(i as int));
        assert(infos_view(sorted@) =~= ss.insert(pos as int, xv));
        i += 1;
    }
    assert(input.take(n as int) =~= input);
    let ghost full = infos_view(sorted@);
    if sorted.len() > 10 {
        sorted.truncate(10);
        assert(infos_view(sorted@) =~= full.take(10));
    }
    sorted
}

} // verus!
