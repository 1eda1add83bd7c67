//! The insertion-ordered map of named profiles (an `indexmap::IndexMap`),
//! seen through the sequence of its entries.
use vstd::prelude::*;

use indexmap::IndexMap;

use crate::config::{ProfileConfig, ProfileView};

verus! {

#[verifier::external_type_specification]
#[verifier::external_body]
#[verifier::reject_recursive_types(K)]
#[verifier::reject_recursive_types(V)]
#[verifier::reject_recursive_types(S)]
pub struct ExIndexMap<K, V, S>(IndexMap<K, V, S>);

/// The entries of a profile map, in insertion order: each name with its profile.
pub uninterp spec fn profile_entries(m: IndexMap<String, ProfileConfig>) -> Seq<(Seq<char>, ProfileView)>;

/// The names of the entries, in order.
pub open spec fn entry_names(e: Seq<(Seq<char>, ProfileView)>) -> Seq<Seq<char>> {
    e.map_values(|p: (Seq<char>, ProfileView)| p.0)
}

/// `name` is the name of some entry.
pub open spec fn has_name(e: Seq<(Seq<char>, ProfileView)>, name: Seq<char>) -> bool {
    exists|i: int| 0 <= i < e.len() && e[i].0 == name
}

/// The position of the entry named `name` (meaningful when `has_name`).
pub open spec fn index_of_name(e: Seq<(Seq<char>, ProfileView)>, name: Seq<char>) -> int {
    choose|i: int| 0 <= i < e.len() && e[i].0 == name
}

/// No two entries share a name.
pub open spec fn names_unique(e: Seq<(Seq<char>, ProfileView)>) -> bool {
    forall|i: int, j: int| 0 <= i < e.len() && 0 <= j < e.len() && i != j ==> e[i].0 != e[j].0
}

/// `IndexMap::new`: an empty map.
#[verifier::external_body]
pub(crate) fn map_new() -> (r: IndexMap<String, ProfileConfig>)
    ensures
        profile_entries(r) == Seq::<(Seq<char>, ProfileView)>::empty(),
{
    IndexMap::new()
}

/// `IndexMap::len`: the number of entries.
#[verifier::external_body]
pub(crate) fn map_len(m: &IndexMap<String, ProfileConfig>) -> (r: usize)
    ensures
        r == profile_entries(*m).len(),
{
    m.len()
}

/// `IndexMap::get_index`: the entry at position `i`, if there is one. Its
/// name is the name of no other entry.
#[verifier::external_body]
pub(crate) fn map_get_index(m: &IndexMap<String, ProfileConfig>, i: usize) -> (r: Option<(&String, &ProfileConfig)>)
    ensures
        i < profile_entries(*m).len() ==> r is Some && r.unwrap().0@ == profile_entries(*m)[i as int].0
            && r.unwrap().1@ == profile_entries(*m)[i as int].1,
        i < profile_entries(*m).len() ==> forall|j: int|
            0 <= j < profile_entries(*m).len() && j != i ==> profile_entries(*m)[j].0 != r.unwrap().0@,
        i >= profile_entries(*m).len() ==> r is None,
{
    m.get_index(i)
}

/// `IndexMap::get_index_of`: the position of the entry whose name equals
/// `key`, which is the only entry with that name; `None` when no entry has it.
#[verifier::external_body]
pub(crate) fn map_index_of(m: &IndexMap<String, ProfileConfig>, key: &str) -> (r: Option<usize>)
    ensures
        match r {
            Some(i) => i < profile_entries(*m).len() && profile_entries(*m)[i as int].0 == key@ && forall|
                j: int,
            |
                0 <= j < profile_entries(*m).len() && j != i ==> profile_entries(*m)[j].0 != key@,
            None => forall|j: int|
                0 <= j < profile_entries(*m).len() ==> profile_entries(*m)[j].0 != key@,
        },
{
    m.get_index_of(key)
}

/// `IndexMap::insert`: an entry already named `key` keeps its place and takes
/// the new profile, and its old profile is returned; otherwise the entry is
/// appended and `None` is returned.
#[verifier::external_body]
pub(crate) fn map_insert(m: &mut IndexMap<String, ProfileConfig>, key: String, value: ProfileConfig) -> (r: Option<ProfileConfig>)
    ensures
        (r is None) == (forall|j: int|
            0 <= j < profile_entries(*old(m)).len() ==> profile_entries(*old(m))[j].0 != key@),
        r is None ==> profile_entries(*final(m)) == profile_entries(*old(m)).push((key@, value@)),
        forall|i: int|
            0 <= i < profile_entries(*old(m)).len() && profile_entries(*old(m))[i].0 == key@ ==> (r is Some
                && r.unwrap()@ == profile_entries(*old(m))[i].1 && profile_entries(*final(m)) == profile_entries(
                *old(m),
            ).update(i, (key@, value@))),
{
    m.insert(key, value)
}

/// The profile named `key`, if any.
pub fn map_get<'a>(m: &'a IndexMap<String, ProfileConfig>, key: &str) -> (r: Option<&'a ProfileConfig>)
    ensures
        match r {
            Some(p) => has_name(profile_entries(*m), key@) && p@ == profile_entries(*m)[index_of_name(
                profile_entries(*m),
                key@,
            )].1,
            None => !has_name(profile_entries(*m), key@),
        },
{
    match map_index_of(m, key) {
        Some(i) => {
            let ghost e = profile_entries(*m);
            assert(has_name(e, key@));
            assert(index_of_name(e, key@) == i);
            match map_get_index(m, i) {
                Some(kv) => Some(kv.1),
                None => None,
            }
        },
        None => None,
    }
}

/// Reads every entry of `m` once, which shows that no two entries share a
/// name.
pub(crate) fn check_names_unique(m: &IndexMap<String, ProfileConfig>)
    ensures
        names_unique(profile_entries(*m)),
{
    let ghost e = profile_entries(*m);
    let n = map_len(m);
    let mut i: usize = 0;
    while i < n
        invariant
            i <= n,
            n == e.len(),
            e == profile_entries(*m),
            forall|a: int, b: int| 0 <= a < i && 0 <= b < e.len() && a != b ==> #[trigger] e[a].0 != #[trigger] e[b].0,
        decreases n - i,
    {
        let _ = map_get_index(m, i);
        i += 1;
    }
}

/// The map holds an entry named `key`.
pub fn map_contains(m: &IndexMap<String, ProfileConfig>, key: &str) -> (r: bool)
    ensures
        r == has_name(profile_entries(*m), key@),
{
    map_index_of(m, key).is_some()
}

} // verus!
