//! Layout profiles: which profile is active, switching by name, and cycling
//! forwards and backwards through the profiles in insertion order.
use vstd::prelude::*;

use indexmap::IndexMap;

use crate::config::{ProfileConfig, ProfileView};
use crate::profile_map::{
    entry_names, has_name, index_of_name, map_get, map_get_index, map_contains, map_insert, map_len,
    names_unique, profile_entries, check_names_unique,
};
use crate::text::str_eq;

verus! {

broadcast use vstd::string::group_string_axioms;

/// Why a profile could not be selected.
#[derive(Debug, PartialEq)]
pub enum ProfileError {
    /// The default profile given to `ProfileManager::new` is not in the map.
    DefaultNotFound { name: String },
    /// `switch` named a profile that is not in the map.
    NotFound { name: String },
}

pub enum ProfileErrorView {
    DefaultNotFound { name: Seq<char> },
    NotFound { name: Seq<char> },
}

impl View for ProfileError {
    type V = ProfileErrorView;

    open spec fn view(&self) -> ProfileErrorView {
        match self {
            ProfileError::DefaultNotFound { name } => ProfileErrorView::DefaultNotFound { name: name@ },
            ProfileError::NotFound { name } => ProfileErrorView::NotFound { name: name@ },
        }
    }
}

/// Tracks the profiles and which one is active.
pub struct ProfileManager {
    profiles: IndexMap<String, ProfileConfig>,
    active: String,
}

/// The entry after the one named `active`, wrapping around to the first.
pub open spec fn next_index(e: Seq<(Seq<char>, ProfileView)>, active: Seq<char>) -> int {
    (index_of_name(e, active) + 1) % (e.len() as int)
}

/// The entry before the one named `active`, wrapping around to the last.
pub open spec fn prev_index(e: Seq<(Seq<char>, ProfileView)>, active: Seq<char>) -> int {
    if index_of_name(e, active) == 0 {
        e.len() - 1
    } else {
        index_of_name(e, active) - 1
    }
}

impl ProfileManager {
    /// The profiles, in insertion order.
    pub closed spec fn entries(&self) -> Seq<(Seq<char>, ProfileView)> {
        profile_entries(self.profiles)
    }

    /// The name of the active profile.
    pub closed spec fn active_spec(&self) -> Seq<char> {
        self.active@
    }

    /// The active profile is one of the profiles, whose names are distinct.
    pub open spec fn wf(&self) -> bool {
        has_name(self.entries(), self.active_spec()) && names_unique(self.entries())
    }

    /// The layout of the active profile.
    pub open spec fn active_layout_spec(&self) -> ProfileView {
        self.entries()[index_of_name(self.entries(), self.active_spec())].1
    }

    /// A manager over `profiles` that starts on `default`, which must be one
    /// of them.
    pub fn new(profiles: IndexMap<String, ProfileConfig>, default: &str) -> (r: Result<Self, ProfileError>)
        ensures
            (r is Ok) <==> has_name(profile_entries(profiles), default@),
            r matches Ok(m) ==> m.wf() && m.entries() == profile_entries(profiles) && m.active_spec() == default@,
            r matches Err(e) ==> e@ == (ProfileErrorView::DefaultNotFound { name: default@ }),
    {
        if !map_contains(&profiles, default) {
            return Err(ProfileError::DefaultNotFound { name: default.to_string() });
        }
        check_names_unique(&profiles);
        Ok(ProfileManager { profiles, active: default.to_string() })
    }

    /// Name of the active profile.
    pub fn active_name(&self) -> (r: &str)
        ensures
            r@ == self.active_spec(),
    {
        self.active.as_str()
    }

    /// Layout of the active profile.
    pub fn active_layout(&self) -> (r: &ProfileConfig)
        requires
            self.wf(),
        ensures
            r@ == self.active_layout_spec(),
    {
        match map_get(&self.profiles, self.active.as_str()) {
            Some(p) => p,
            None => {
                proof {
                    assert(false);
                }
                unreached()
            },
        }
    }

    /// All profile names, in insertion order.
    pub fn list(&self) -> (r: Vec<&str>)
        ensures
            r@.map_values(|s: &str| s@) == entry_names(self.entries()),
    {
        let n = map_len(&self.profiles);
        let mut r: Vec<&str> = Vec::new();
        let mut i: usize = 0;
        while i < n
            invariant
                i <= n,
                n == self.entries().len(),
                r@.len() == i,
                forall|j: int| 0 <= j < i ==> (#[trigger] r@[j])@ == self.entries()[j].0,
            decreases n - i,
        {
            match map_get_index(&self.profiles, i) {
                Some(kv) => r.push(kv.0.as_str()),
                None => {
                    proof {
                        assert(false);
                    }
                },
            }
            i += 1;
        }
        assert(r@.map_values(|s: &str| s@) =~= entry_names(self.entries()));
        r
    }

    /// Makes `name` the active profile, if there is one by that name;
    /// otherwise nothing changes.
    pub fn switch(&mut self, name: &str) -> (r: Result<&ProfileConfig, ProfileError>)
        requires
            old(self).wf(),
        ensures
            final(self).wf(),
            final(self).entries() == old(self).entries(),
            (r is Ok) <==> has_name(old(self).entries(), name@),
            (r is Ok) ==> final(self).active_spec() == name@,
            r matches Ok(p) ==> p@ == final(self).active_layout_spec(),
            (r is Err) ==> final(self).active_spec() == old(self).active_spec(),
            r matches Err(e) ==> e@ == (ProfileErrorView::NotFound { name: name@ }),
    {
        if !map_contains(&self.profiles, name) {
            return Err(ProfileError::NotFound { name: name.to_string() });
        }
        self.active = name.to_string();
        Ok(self.active_layout())
    }

    /// The position of the active profile, found by comparing names in
    /// order; 0 if it is not there.
    fn active_position(&self) -> (r: usize)
        requires
            self.wf(),
        ensures
            r == index_of_name(self.entries(), self.active_spec()),
            r < self.entries().len(),
    {
        let ghost e = self.entries();
        let n = map_len(&self.profiles);
        let mut i: usize = 0;
        while i < n
            invariant
                i <= n,
                n == e.len(),
                e == self.entries(),
                has_name(e, self.active_spec()),
                forall|j: int| 0 <= j < i ==> (#[trigger] e[j]).0 != self.active_spec(),
            decreases n - i,
        {
            match map_get_index(&self.profiles, i) {
                Some(kv) => {
                    if str_eq(kv.0.as_str(), self.active.as_str()) {
                        assert(index_of_name(e, self.active_spec()) == i);
                        return i;
                    }
                },
                None => {},
            }
            i += 1;
        }
        0
    }

    /// Cycles to the next profile in insertion order, wrapping around.
    pub fn next(&mut self) -> (r: &ProfileConfig)
        requires
            old(self).wf(),
        ensures
            final(self).wf(),
            final(self).entries() == old(self).entries(),
            final(self).active_spec() == old(self).entries()[next_index(old(self).entries(), old(self).active_spec())].0,
            r@ == final(self).active_layout_spec(),
    {
        let n = map_len(&self.profiles);
        let current = self.active_position();
        let next_idx = (current + 1) % n;
        match map_get_index(&self.profiles, next_idx) {
            Some(kv) => {
                self.active = kv.0.clone();
            },
            None => {},
        }
        self.active_layout()
    }

    /// Cycles to the previous profile in insertion order, wrapping around.
    pub fn prev(&mut self) -> (r: &ProfileConfig)
        requires
            old(self).wf(),
        ensures
            final(self).wf(),
            final(self).entries() == old(self).entries(),
            final(self).active_spec() == old(self).entries()[prev_index(old(self).entries(), old(self).active_spec())].0,
            r@ == final(self).active_layout_spec(),
    {
        let n = map_len(&self.profiles);
        let current = self.active_position();
        let prev_idx = if current == 0 { n - 1 } else { current - 1 };
        match map_get_index(&self.profiles, prev_idx) {
            Some(kv) => {
                self.active = kv.0.clone();
            },
            None => {},
        }
        self.active_layout()
    }

    /// Inserts a profile, or replaces the layout of the one named `name`
    /// (which keeps its place).
    pub fn update_profile(&mut self, name: &str, layout: ProfileConfig)
        requires
            old(self).wf(),
        ensures
            final(self).wf(),
            final(self).active_spec() == old(self).active_spec(),
            has_name(old(self).entries(), name@) ==> final(self).entries() == old(self).entries().update(
                index_of_name(old(self).entries(), name@),
                (name@, layout@),
            ),
            !has_name(old(self).entries(), name@) ==> final(self).entries() == old(self).entries().push(
                (name@, layout@),
            ),
    {
        let ghost e = self.entries();
        let ghost lv = layout@;
        map_insert(&mut self.profiles, name.to_string(), layout);
        proof {
            let e2 = self.entries();
            if has_name(e, name@) {
                let k = index_of_name(e, name@);
                assert(e[k].0 == name@);
                assert(e2 == e.update(k, (name@, lv)));
                let a = index_of_name(e, self.active@);
                assert(e2[a].0 == self.active@);
                assert forall|x: int, y: int| 0 <= x < e2.len() && 0 <= y < e2.len() && x != y implies e2[x].0 != e2[y].0 by {
                    assert(e2[x].0 == e[x].0 && e2[y].0 == e[y].0);
                }
            } else {
                assert(forall|j: int| 0 <= j < e.len() ==> (#[trigger] e[j]).0 != name@);
                let a = index_of_name(e, self.active@);
                assert(e2[a].0 == self.active@);
                assert forall|x: int, y: int| 0 <= x < e2.len() && 0 <= y < e2.len() && x != y implies e2[x].0 != e2[y].0 by {
                    if x < e.len() {
                        assert(e2[x].0 == e[x].0);
                    }
                    if y < e.len() {
                        assert(e2[y].0 == e[y].0);
                    }
                }
            }
        }
    }

    /// Number of profiles.
    pub fn profile_count(&self) -> (r: usize)
        ensures
            r == self.entries().len(),
    {
        map_len(&self.profiles)
    }

    /// The profile map itself.
    pub fn profiles_map(&self) -> (r: &IndexMap<String, ProfileConfig>)
        ensures
            profile_entries(*r) == self.entries(),
    {
        &self.profiles
    }
}

// ─── Laws ────────────────────────────────────────────────────────────────────

/// In a map with unique names, going to the next profile and then to the
/// previous one (or the other way round) comes back to where it started.
pub proof fn lemma_next_prev_inverse(e: Seq<(Seq<char>, ProfileView)>, active: Seq<char>)
    requires
        names_unique(e),
        has_name(e, active),
    ensures
        e[prev_index(e, e[next_index(e, active)].0)].0 == active,
        e[next_index(e, e[prev_index(e, active)].0)].0 == active,
{
    let i = index_of_name(e, active);
    let n = e.len() as int;
    let j = next_index(e, active);
    assert(0 <= j < n) by (nonlinear_arith)
        requires
            j == (i + 1) % n,
            n > 0,
    ;
    assert(has_name(e, e[j].0));
    assert(index_of_name(e, e[j].0) == j);
    if i + 1 < n {
        assert(j == i + 1) by (nonlinear_arith)
            requires
                j == (i + 1) % n,
                0 <= i + 1 < n,
        ;
    } else {
        assert(j == 0) by (nonlinear_arith)
            requires
                j == (i + 1) % n,
                i + 1 == n,
                n > 0,
        ;
    }
    let k = prev_index(e, active);
    assert(has_name(e, e[k].0));
    assert(index_of_name(e, e[k].0) == k);
    if i == 0 {
        assert((n - 1 + 1) % n == 0) by (nonlinear_arith)
            requires
                n > 0,
        ;
    } else {
        assert((i - 1 + 1) % n == i) by (nonlinear_arith)
            requires
                0 < i < n,
        ;
    }
}

/// On a manager, `prev` undoes `next` and `next` undoes `prev`: the active
/// profile comes back to where it started (the profiles do not change).
pub proof fn lemma_manager_prev_undoes_next(m: ProfileManager)
    requires
        m.wf(),
    ensures
        m.entries()[prev_index(m.entries(), m.entries()[next_index(m.entries(), m.active_spec())].0)].0 == m.active_spec(),
        m.entries()[next_index(m.entries(), m.entries()[prev_index(m.entries(), m.active_spec())].0)].0 == m.active_spec(),
{
    lemma_next_prev_inverse(m.entries(), m.active_spec());
}

/// Going to the next profile as many times as there are profiles comes back
/// to the starting profile, having visited each profile once, in order.
pub open spec fn nth_next(e: Seq<(Seq<char>, ProfileView)>, active: Seq<char>, k: nat) -> Seq<char>
    decreases k,
{
    if k == 0 {
        active
    } else {
        e[next_index(e, nth_next(e, active, (k - 1) as nat))].0
    }
}

/// After `k` steps forward the active profile is the one `k` places after
/// the start, counting round; after as many steps as there are profiles it
/// is the start again.
pub proof fn lemma_next_cycles(e: Seq<(Seq<char>, ProfileView)>, active: Seq<char>, k: nat)
    requires
        names_unique(e),
        has_name(e, active),
    ensures
        nth_next(e, active, k) == e[(index_of_name(e, active) + k) % (e.len() as int)].0,
        k == e.len() ==> nth_next(e, active, k) == active,
    decreases k,
{
    let i = index_of_name(e, active);
    let n = e.len() as int;
    if k == 0 {
        assert(i % n == i) by (nonlinear_arith)
            requires
                0 <= i < n,
        ;
    } else {
        lemma_next_cycles(e, active, (k - 1) as nat);
        let m = (i + k - 1) % n;
        assert(0 <= m < n) by (nonlinear_arith)
            requires
                m == (i + k - 1) % n,
                n > 0,
        ;
        let prev = nth_next(e, active, (k - 1) as nat);
        assert(prev == e[m].0);
        assert(has_name(e, prev));
        assert(index_of_name(e, prev) == m);
        assert((m + 1) % n == (i + k) % n) by (nonlinear_arith)
            requires
                m == (i + k - 1) % n,
                n > 0,
        ;
    }
    if k == e.len() {
        assert((i + n) % n == i) by (nonlinear_arith)
            requires
                0 <= i < n,
        ;
    }
}

} // verus!
