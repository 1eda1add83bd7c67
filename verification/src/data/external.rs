//! Readings from external commands: pending package updates from
//! `checkupdates` and unit states from `systemctl show`.
use vstd::prelude::*;

use crate::config::strings_view;
use crate::data::command::{CommandError, CommandResult};
use crate::data::types::{
    ActiveState, ActiveStateView, PackageUpdate, PackageUpdateView, PackagesData, ServiceStatus, ServiceStatusView,
    statuses_view, updates_view,
};
use crate::text::{
    chars_of, find_chars, find_first, rfind_char, rfind_char_exec, slice_chars, split_char, split_chars,
    split_on, split_on_chars, starts_with, str_eq, string_from_chars, string_of_range, trim_range, trimmed,
};

verus! {

broadcast use vstd::string::group_string_axioms;

/// The largest output accepted from an external command, in bytes.
pub const DEFAULT_MAX_OUTPUT_BYTES: usize = 65536;

// ─── checkupdates ────────────────────────────────────────────────────────────

pub open spec fn arrow() -> Seq<char> {
    seq![' ', '-', '>', ' ']
}

/// The update a line of `checkupdates` describes: `name old -> new`, with
/// surrounding whitespace ignored; `None` for a malformed or empty line.
pub open spec fn parse_update_line(line: Seq<char>) -> Option<PackageUpdateView> {
    let t = trimmed(line);
    if t.len() == 0 {
        None
    } else {
        match find_first(t, arrow()) {
            None => None,
            Some(k) => {
                let left = trimmed(t.subrange(0, k));
                let new_version = trimmed(t.subrange(k + 4, t.len() as int));
                if new_version.len() == 0 {
                    None
                } else {
                    match rfind_char(left, ' ') {
                        None => None,
                        Some(j) => {
                            let name = trimmed(left.subrange(0, j));
                            let old_version = trimmed(left.subrange(j + 1, left.len() as int));
                            if name.len() == 0 || old_version.len() == 0 {
                                None
                            } else {
                                Some(PackageUpdateView { name, old_version, new_version })
                            }
                        },
                    }
                }
            },
        }
    }
}

/// The updates described by `lines[0..n]`, malformed lines skipped.
pub open spec fn updates_of(lines: Seq<Seq<char>>, n: int) -> Seq<PackageUpdateView>
    decreases n,
{
    if n <= 0 {
        seq![]
    } else {
        match parse_update_line(lines[n - 1]) {
            Some(u) => updates_of(lines, n - 1).push(u),
            None => updates_of(lines, n - 1),
        }
    }
}

/// What `checkupdates` output describes, line by line.
pub open spec fn checkupdates_spec(output: Seq<char>) -> Seq<PackageUpdateView> {
    let lines = split_char(output, '\n');
    updates_of(lines, lines.len() as int)
}

fn parse_update_line_exec(line: &Vec<char>) -> (r: Option<PackageUpdate>)
    ensures
        match r {
            Some(u) => parse_update_line(line@) == Some(u@),
            None => parse_update_line(line@) is None,
        },
{
    let (lo, hi) = trim_range(line, 0, line.len());
    assert(line@.subrange(0, line@.len() as int) =~= line@);
    if lo == hi {
        return None;
    }
    let t = slice_chars(line, lo, hi);
    let arrow_chars: Vec<char> = vec![' ', '-', '>', ' '];
    assert(arrow_chars@ =~= arrow());
    let k = match find_chars(&t, &arrow_chars) {
        Some(k) => k,
        None => return None,
    };
    let tl = t.len();
    let (llo, lhi) = trim_range(&t, 0, k);
    let (nlo, nhi) = trim_range(&t, k + 4, tl);
    if nlo == nhi {
        return None;
    }
    let left = slice_chars(&t, llo, lhi);
    let j = match rfind_char_exec(&left, ' ') {
        Some(j) => j,
        None => return None,
    };
    let ll = left.len();
    let (alo, ahi) = trim_range(&left, 0, j);
    let (blo, bhi) = trim_range(&left, j + 1, ll);
    if alo == ahi || blo == bhi {
        return None;
    }
    Some(PackageUpdate {
        name: string_of_range(&left, alo, ahi),
        old_version: string_of_range(&left, blo, bhi),
        new_version: string_of_range(&t, nlo, nhi),
    })
}

/// Parses the output of `checkupdates`: one `name old -> new` per line.
/// Malformed and empty lines are skipped.
pub fn parse_checkupdates(output: &str) -> (r: Vec<PackageUpdate>)
    ensures
        updates_view(r@) == checkupdates_spec(output@),
{
    let v = chars_of(output);
    let lines = split_chars(&v, '\n');
    let ghost ls = lines@.map_values(|p: Vec<char>| p@);
    let mut updates: Vec<PackageUpdate> = Vec::new();
    let mut i: usize = 0;
    while i < lines.len()
        invariant
            i <= lines.len(),
            ls == lines@.map_values(|p: Vec<char>| p@),
            updates_view(updates@) == updates_of(ls, i as int),
        decreases lines.len() - i,
    {
        assert(ls[i as int] == lines@[i as int]@);
        match parse_update_line_exec(&lines[i]) {
            Some(u) => {
                let ghost before = updates@;
                updates.push(u);
                assert(updates_view(updates@) =~= updates_view(before).push(u@));
            },
            None => {},
        }
        i += 1;
    }
    updates
}

/// What running `checkupdates` gives the packages widget: the parsed
/// updates on success, no updates when it exits with code 2 (its way of
/// saying there are none), and the error otherwise.
pub fn checkupdates_outcome(result: Result<CommandResult, CommandError>) -> (r: Result<PackagesData, CommandError>)
    ensures
        match result {
            Ok(c) => r matches Ok(d) && updates_view(d.updates@) == checkupdates_spec(c.stdout@),
            Err(CommandError::Failed { exit_code, .. }) => exit_code == 2 ==> (r matches Ok(d) && d.updates@.len() == 0),
            Err(_) => r is Err,
        },
        match result {
            Err(CommandError::Failed { exit_code, .. }) => exit_code != 2 ==> r == Err::<PackagesData, CommandError>(result->Err_0),
            Err(e) => r == Err::<PackagesData, CommandError>(e),
            _ => true,
        },
{
    match result {
        Ok(c) => Ok(PackagesData { updates: parse_checkupdates(c.stdout.as_str()) }),
        Err(CommandError::Failed { exit_code, stderr }) => {
            if exit_code == 2 {
                Ok(PackagesData { updates: Vec::new() })
            } else {
                Err(CommandError::Failed { exit_code, stderr })
            }
        },
        Err(e) => Err(e),
    }
}

// ─── systemctl show ──────────────────────────────────────────────────────────

/// The `key=value` blocks of `systemctl show` output, one per unit; none
/// when the output is blank.
pub open spec fn blocks_of(output: Seq<char>) -> Seq<Seq<char>> {
    if trimmed(output).len() == 0 {
        seq![]
    } else {
        split_on(output, seq!['\n', '\n'])
    }
}

/// The last `ActiveState=` and `SubState=` values among `lines[0..n]`.
pub open spec fn scan_block(lines: Seq<Seq<char>>, n: int) -> (Option<Seq<char>>, Seq<char>)
    decreases n,
{
    if n <= 0 {
        (None, seq![])
    } else {
        let (a, s) = scan_block(lines, n - 1);
        let t = trimmed(lines[n - 1]);
        if starts_with(t, "ActiveState="@) {
            (Some(t.subrange(12, t.len() as int)), s)
        } else if starts_with(t, "SubState="@) {
            (a, t.subrange(9, t.len() as int))
        } else {
            (a, s)
        }
    }
}

/// The state named by an `ActiveState=` value; `Other("unknown")` when the
/// block has none.
pub open spec fn active_state_of(a: Option<Seq<char>>) -> ActiveStateView {
    match a {
        Some(v) => if v == "active"@ {
            ActiveStateView::Active
        } else if v == "inactive"@ {
            ActiveStateView::Inactive
        } else if v == "failed"@ {
            ActiveStateView::Failed
        } else if v == "activating"@ {
            ActiveStateView::Activating
        } else if v == "deactivating"@ {
            ActiveStateView::Deactivating
        } else {
            ActiveStateView::Other(v)
        },
        None => ActiveStateView::Other("unknown"@),
    }
}

/// The status of unit `name` read from `block`.
pub open spec fn status_of(name: Seq<char>, block: Seq<char>) -> ServiceStatusView {
    let lines = split_char(block, '\n');
    let (a, s) = scan_block(lines, lines.len() as int);
    ServiceStatusView { name, active_state: active_state_of(a), sub_state: s }
}

/// One status per name, in order: the `i`-th block describes the `i`-th
/// name, and a name without a block reads as an empty one.
pub open spec fn systemctl_spec(output: Seq<char>, names: Seq<Seq<char>>) -> Seq<ServiceStatusView> {
    let blocks = blocks_of(output);
    Seq::new(
        names.len(),
        |i: int| status_of(names[i], if i < blocks.len() { blocks[i] } else { seq![] }),
    )
}

fn starts_with_lit(v: &Vec<char>, lo: usize, hi: usize, lit: &str) -> (r: bool)
    requires
        lo <= hi <= v.len(),
    ensures
        r == starts_with(v@.subrange(lo as int, hi as int), lit@),
{
    let w = chars_of(lit);
    if w.len() > hi - lo {
        return false;
    }
    let r = crate::text::range_eq(v, lo, lo + w.len(), lit);
    assert(v@.subrange(lo as int, hi as int).subrange(0, w@.len() as int) =~= v@.subrange(lo as int, lo + w@.len()));
    r
}

fn active_state_exec(v: &Vec<char>) -> (r: ActiveState)
    ensures
        r@ == active_state_of(Some(v@)),
{
    let s = string_from_chars(v);
    if str_eq(s.as_str(), "active") {
        ActiveState::Active
    } else if str_eq(s.as_str(), "inactive") {
        ActiveState::Inactive
    } else if str_eq(s.as_str(), "failed") {
        ActiveState::Failed
    } else if str_eq(s.as_str(), "activating") {
        ActiveState::Activating
    } else if str_eq(s.as_str(), "deactivating") {
        ActiveState::Deactivating
    } else {
        ActiveState::Other(s)
    }
}

fn status_of_exec(name: &String, block: &Vec<char>) -> (r: ServiceStatus)
    ensures
        r@ == status_of(name@, block@),
{
    let lines = split_chars(block, '\n');
    let ghost ls = lines@.map_values(|p: Vec<char>| p@);
    let mut active: Option<Vec<char>> = None;
    let mut sub: Vec<char> = Vec::new();
    let mut i: usize = 0;
    while i < lines.len()
        invariant
            i <= lines.len(),
            ls == lines@.map_values(|p: Vec<char>| p@),
            scan_block(ls, i as int) == (match active {
                Some(a) => Some(a@),
                None => None::<Seq<char>>,
            }, sub@),
        decreases lines.len() - i,
    {
        let line = &lines[i];
        assert(ls[i as int] == line@);
        let (lo, hi) = trim_range(line, 0, line.len());
        assert(line@.subrange(0, line@.len() as int) =~= line@);
        let ghost t = trimmed(line@);
        assert(t == line@.subrange(lo as int, hi as int));
        if starts_with_lit(line, lo, hi, "ActiveState=") {
            proof {
                reveal_strlit("ActiveState=");
            }
            let a = slice_chars(line, lo + 12, hi);
            assert(a@ =~= t.subrange(12, t.len() as int));
            active = Some(a);
        } else if starts_with_lit(line, lo, hi, "SubState=") {
            proof {
                reveal_strlit("SubState=");
            }
            sub = slice_chars(line, lo + 9, hi);
            assert(sub@ =~= t.subrange(9, t.len() as int));
        }
        i += 1;
    }
    let active_state = match &active {
        Some(a) => active_state_exec(a),
        None => ActiveState::Other("unknown".to_string()),
    };
    ServiceStatus { name: name.clone(), active_state, sub_state: string_from_chars(&sub) }
}

/// Parses `systemctl show --property=ActiveState,SubState -- unit...`
/// output: blank-line separated blocks, the `i`-th for `service_names[i]`.
/// A block without `ActiveState` gives `Other("unknown")`.
pub fn parse_systemctl_show(output: &str, service_names: &Vec<String>) -> (r: Vec<ServiceStatus>)
    ensures
        statuses_view(r@) == systemctl_spec(output@, strings_view(service_names@)),
{
    let v = chars_of(output);
    let (lo, hi) = trim_range(&v, 0, v.len());
    assert(v@.subrange(0, v@.len() as int) =~= v@);
    let blocks: Vec<Vec<char>> = if lo == hi {
        Vec::new()
    } else {
        let sep: Vec<char> = vec!['\n', '\n'];
        assert(sep@ =~= seq!['\n', '\n']);
        split_on_chars(&v, &sep)
    };
    let ghost bs = blocks@.map_values(|p: Vec<char>| p@);
    assert(bs =~= blocks_of(output@));
    let ghost spec = systemctl_spec(output@, strings_view(service_names@));
    let empty: Vec<char> = Vec::new();
    let mut out: Vec<ServiceStatus> = Vec::new();
    let mut i: usize = 0;
    while i < service_names.len()
        invariant
            i <= service_names.len(),
            bs == blocks@.map_values(|p: Vec<char>| p@),
            bs == blocks_of(output@),
            empty@ == Seq::<char>::empty(),
            spec == systemctl_spec(output@, strings_view(service_names@)),
            out@.len() == i,
            forall|j: int| 0 <= j < i ==> (#[trigger] out@[j])@ == spec[j],
        decreases service_names.len() - i,
    {
        let block = if i < blocks.len() { &blocks[i] } else { &empty };
        proof {
            if i < blocks.len() {
                assert(bs[i as int] == blocks@[i as int]@);
            }
        }
        out.push(status_of_exec(&service_names[i], block));
        i += 1;
    }
    assert(statuses_view(out@) =~= spec);
    out
}

/// The command line that asks systemd for the states of `services`, at
/// user scope when `scope` is `"user"`.
pub fn systemctl_argv(scope: &str, services: &Vec<String>) -> (r: Vec<String>)
    ensures
        strings_view(r@) == (if scope@ == "user"@ {
            seq!["systemctl"@, "--user"@]
        } else {
            seq!["systemctl"@]
        }) + seq!["show"@, "--property=ActiveState,SubState"@, "--"@] + strings_view(services@),
{
    let mut argv: Vec<String> = Vec::new();
    argv.push("systemctl".to_string());
    if str_eq(scope, "user") {
        argv.push("--user".to_string());
    }
    argv.push("show".to_string());
    argv.push("--property=ActiveState,SubState".to_string());
    argv.push("--".to_string());
    let ghost head = strings_view(argv@);
    let mut i: usize = 0;
    while i < services.len()
        invariant
            i <= services.len(),
            strings_view(argv@) == head + strings_view(services@).take(i as int),
        decreases services.len() - i,
    {
        let ghost before = argv@;
        let item = services[i].clone();
        argv.push(item);
        assert(strings_view(argv@) =~= strings_view(before).push(services@[i as int]@));
        assert(strings_view(services@).take(i + 1) =~= strings_view(services@).take(i as int).push(
            services@[i as int]@,
        ));
        i += 1;
        assert(strings_view(argv@) =~= head + strings_view(services@).take(i as int));
    }
    assert(strings_view(services@).take(services.len() as int) =~= strings_view(services@));
    assert(strings_view(argv@) =~= (if scope@ == "user"@ {
        seq!["systemctl"@, "--user"@]
    } else {
        seq!["systemctl"@]
    }) + seq!["show"@, "--property=ActiveState,SubState"@, "--"@] + strings_view(services@));
    argv
}

} // verus!
