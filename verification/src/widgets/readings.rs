//! The settings checks and selection rules of the CPU, network, disk and
//! temperature widgets. Their readings are floating-point and are kept and
//! drawn outside the library; which interfaces, mounts and sensors they show
//! is decided here.
use vstd::prelude::*;

use crate::config::strings_view;
use crate::text::{chars_of, find_chars, lowercase, str_eq, to_lowercase};
use crate::widgets::{WidgetError, WidgetErrorView};

verus! {

broadcast use vstd::string::group_string_axioms;

/// Settings of the CPU widget: `mode` is `sparklines`, `bars` or `gauge`
/// and the history holds at least one reading.
pub fn check_cpu_settings(mode: &str, history_length: usize) -> (r: Result<(), WidgetError>)
    ensures
        !(mode@ == "sparklines"@ || mode@ == "bars"@ || mode@ == "gauge"@) ==> (r matches Err(e) && e@
            == (WidgetErrorView::InvalidCpuMode { mode: mode@ })),
        (mode@ == "sparklines"@ || mode@ == "bars"@ || mode@ == "gauge"@) && history_length == 0 ==> (r matches Err(
            e,
        ) && e@ == WidgetErrorView::ZeroHistoryLength),
        (mode@ == "sparklines"@ || mode@ == "bars"@ || mode@ == "gauge"@) && history_length > 0 ==> r is Ok,
{
    if !str_eq(mode, "sparklines") && !str_eq(mode, "bars") && !str_eq(mode, "gauge") {
        return Err(WidgetError::InvalidCpuMode { mode: mode.to_string() });
    }
    if history_length == 0 {
        return Err(WidgetError::ZeroHistoryLength);
    }
    Ok(())
}

/// Settings of the network widget: `unit` is `auto`, `KB/s` or `MB/s` and
/// the history holds at least one reading.
pub fn check_network_settings(unit: &str, history_length: usize) -> (r: Result<(), WidgetError>)
    ensures
        !(unit@ == "auto"@ || unit@ == "KB/s"@ || unit@ == "MB/s"@) ==> (r matches Err(e) && e@
            == (WidgetErrorView::InvalidNetworkUnit { unit: unit@ })),
        (unit@ == "auto"@ || unit@ == "KB/s"@ || unit@ == "MB/s"@) && history_length == 0 ==> (r matches Err(e)
            && e@ == WidgetErrorView::ZeroHistoryLength),
        (unit@ == "auto"@ || unit@ == "KB/s"@ || unit@ == "MB/s"@) && history_length > 0 ==> r is Ok,
{
    if !str_eq(unit, "auto") && !str_eq(unit, "KB/s") && !str_eq(unit, "MB/s") {
        return Err(WidgetError::InvalidNetworkUnit { unit: unit.to_string() });
    }
    if history_length == 0 {
        return Err(WidgetError::ZeroHistoryLength);
    }
    Ok(())
}

/// Settings of the disk widget: `mode` is `capacity`, `io` or `both` and
/// the history holds at least one reading.
pub fn check_disk_settings(mode: &str, history_length: usize) -> (r: Result<(), WidgetError>)
    ensures
        !(mode@ == "capacity"@ || mode@ == "io"@ || mode@ == "both"@) ==> (r matches Err(e) && e@
            == (WidgetErrorView::InvalidDiskMode { mode: mode@ })),
        (mode@ == "capacity"@ || mode@ == "io"@ || mode@ == "both"@) && history_length == 0 ==> (r matches Err(e)
            && e@ == WidgetErrorView::ZeroHistoryLength),
        (mode@ == "capacity"@ || mode@ == "io"@ || mode@ == "both"@) && history_length > 0 ==> r is Ok,
{
    if !str_eq(mode, "capacity") && !str_eq(mode, "io") && !str_eq(mode, "both") {
        return Err(WidgetError::InvalidDiskMode { mode: mode.to_string() });
    }
    if history_length == 0 {
        return Err(WidgetError::ZeroHistoryLength);
    }
    Ok(())
}

/// The mode of the temperatures widget is `gauges` or `compact`.
pub fn check_temps_mode(mode: &str) -> (r: Result<(), WidgetError>)
    ensures
        (r is Ok) == (mode@ == "gauges"@ || mode@ == "compact"@),
        r matches Err(e) ==> e@ == (WidgetErrorView::InvalidTempsMode { mode: mode@ }),
{
    if !str_eq(mode, "gauges") && !str_eq(mode, "compact") {
        return Err(WidgetError::InvalidTempsMode { mode: mode.to_string() });
    }
    Ok(())
}

/// `pat` occurs somewhere in `s` (the empty pattern occurs everywhere).
pub open spec fn contains_seq(s: Seq<char>, pat: Seq<char>) -> bool {
    exists|i: int| 0 <= i && i + pat.len() <= s.len() && #[trigger] s.subrange(i, i + pat.len()) == pat
}

fn contains_chars(s: &Vec<char>, pat: &Vec<char>) -> (r: bool)
    ensures
        r == contains_seq(s@, pat@),
{
    if pat.len() == 0 {
        assert(s@.subrange(0int, 0int + pat@.len()) =~= pat@);
        return true;
    }
    match find_chars(s, pat) {
        Some(i) => {
            assert(crate::text::occurs_at(s@, pat@, i as int));
            true
        },
        None => {
            assert forall|i: int| 0 <= i && i + pat@.len() <= s@.len() implies #[trigger] s@.subrange(i, i + pat@.len())
                != pat@ by {
                assert(!crate::text::occurs_at(s@, pat@, i));
            }
            false
        },
    }
}

/// An interface is shown: with the filter `auto`, every interface whose
/// name does not start with `lo`; otherwise the one named by the filter.
pub open spec fn interface_shown(filter: Seq<char>, name: Seq<char>) -> bool {
    if filter == "auto"@ {
        !(name.len() >= 2 && name.subrange(0, 2) == "lo"@)
    } else {
        name == filter
    }
}

pub fn interface_selected(filter: &str, name: &str) -> (r: bool)
    ensures
        r == interface_shown(filter@, name@),
{
    if str_eq(filter, "auto") {
        let v = chars_of(name);
        proof {
            reveal_strlit("lo");
        }
        if v.len() >= 2 && v[0] == 'l' && v[1] == 'o' {
            assert(v@.subrange(0, 2) =~= "lo"@);
            false
        } else {
            assert(v@.len() >= 2 ==> v@.subrange(0, 2)[0] == v@[0] && v@.subrange(0, 2)[1] == v@[1]);
            true
        }
    } else {
        str_eq(name, filter)
    }
}

/// A mount is shown: every mount when the list is exactly `["auto"]`,
/// otherwise the listed ones.
pub open spec fn mount_shown(mounts: Seq<Seq<char>>, mount_point: Seq<char>) -> bool {
    if mounts.len() == 1 && mounts[0] == "auto"@ {
        true
    } else {
        mounts.contains(mount_point)
    }
}

pub fn mount_selected(mounts: &Vec<String>, mount_point: &str) -> (r: bool)
    ensures
        r == mount_shown(strings_view(mounts@), mount_point@),
{
    let ghost m = strings_view(mounts@);
    if mounts.len() == 1 && str_eq(mounts[0].as_str(), "auto") {
        return true;
    }
    let mut i: usize = 0;
    while i < mounts.len()
        invariant
            i <= mounts.len(),
            m == strings_view(mounts@),
            forall|j: int| 0 <= j < i ==> m[j] != mount_point@,
        decreases mounts.len() - i,
    {
        if str_eq(mounts[i].as_str(), mount_point) {
            assert(m[i as int] == mount_point@);
            return true;
        }
        i += 1;
    }
    false
}

/// A sensor is shown: every sensor when a filter is `auto`, otherwise those
/// whose lowercased label contains some lowercased filter.
pub open spec fn sensor_shown(filters: Seq<Seq<char>>, label: Seq<char>) -> bool {
    if filters.contains("auto"@) {
        true
    } else {
        exists|i: int| 0 <= i < filters.len() && contains_seq(lowercase(label), #[trigger] lowercase(filters[i]))
    }
}

pub fn sensor_selected(filters: &Vec<String>, label: &str) -> (r: bool)
    ensures
        r == sensor_shown(strings_view(filters@), label@),
{
    let ghost f = strings_view(filters@);
    let mut k: usize = 0;
    while k < filters.len()
        invariant
            k <= filters.len(),
            f == strings_view(filters@),
            forall|j: int| 0 <= j < k ==> f[j] != "auto"@,
        decreases filters.len() - k,
    {
        if str_eq(filters[k].as_str(), "auto") {
            assert(f[k as int] == "auto"@);
            return true;
        }
        k += 1;
    }
    assert(!f.contains("auto"@));
    let lowered = to_lowercase(label);
    let label_chars = chars_of(lowered.as_str());
    let mut i: usize = 0;
    while i < filters.len()
        invariant
            i <= filters.len(),
            f == strings_view(filters@),
            label_chars@ == lowercase(label@),
            forall|j: int| 0 <= j < i ==> !contains_seq(lowercase(label@), #[trigger] lowercase(f[j])),
        decreases filters.len() - i,
    {
        let pat_string = to_lowercase(filters[i].as_str());
        let pat = chars_of(pat_string.as_str());
        assert(pat@ == lowercase(f[i as int]));
        if contains_chars(&label_chars, &pat) {
            return true;
        }
        i += 1;
    }
    false
}

} // verus!
