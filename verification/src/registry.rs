//! The widget types the dashboard knows how to build.
use vstd::prelude::*;

use crate::text::str_eq;

verus! {

broadcast use vstd::string::group_string_axioms;

/// The known widget types, in sorted order.
pub open spec fn known_type_names() -> Seq<Seq<char>> {
    seq![
        "cpu"@,
        "disk"@,
        "memory"@,
        "network"@,
        "packages"@,
        "processes"@,
        "services"@,
        "temps"@,
        "workspaces"@,
    ]
}

/// The known widget types, sorted.
pub fn known_types() -> (r: Vec<&'static str>)
    ensures
        r@.map_values(|s: &str| s@) == known_type_names(),
{
    let r = vec!["cpu", "disk", "memory", "network", "packages", "processes", "services", "temps", "workspaces"];
    assert(r@.map_values(|s: &str| s@) =~= known_type_names());
    r
}

/// `widget_type` names a widget the registry can build.
pub fn is_known_type(widget_type: &str) -> (r: bool)
    ensures
        r == known_type_names().contains(widget_type@),
{
    let types = known_types();
    let mut i: usize = 0;
    while i < types.len()
        invariant
            i <= types.len(),
            types@.map_values(|s: &str| s@) == known_type_names(),
            forall|j: int| 0 <= j < i ==> known_type_names()[j] != widget_type@,
        decreases types.len() - i,
    {
        assert(known_type_names()[i as int] == types@[i as int]@);
        if str_eq(types[i], widget_type) {
            return true;
        }
        i += 1;
    }
    false
}

/// `a` comes strictly before `b` in the order of character codes.
pub open spec fn lex_lt(a: Seq<char>, b: Seq<char>) -> bool
    decreases a.len(),
{
    if a.len() == 0 {
        b.len() > 0
    } else if b.len() == 0 {
        false
    } else if a[0] != b[0] {
        a[0] < b[0]
    } else {
        lex_lt(a.drop_first(), b.drop_first())
    }
}

/// The known types are listed in strictly ascending order, so no type is
/// listed twice.
pub proof fn lemma_known_types_sorted()
    ensures
        forall|i: int| 0 <= i < known_type_names().len() - 1 ==> lex_lt(#[trigger] known_type_names()[i], known_type_names()[i + 1]),
        known_type_names().no_duplicates(),
{
    reveal_strlit("cpu");
    reveal_strlit("disk");
    reveal_strlit("memory");
    reveal_strlit("network");
    reveal_strlit("packages");
    reveal_strlit("processes");
    reveal_strlit("services");
    reveal_strlit("temps");
    reveal_strlit("workspaces");
    let n = known_type_names();
    assert(n.len() == 9);
    assert("packages"@.drop_first() =~= "ackages"@) by {
        reveal_strlit("ackages");
    }
    assert("processes"@.drop_first() =~= "rocesses"@) by {
        reveal_strlit("rocesses");
    }
    reveal_strlit("ackages");
    reveal_strlit("rocesses");
    assert(lex_lt("ackages"@, "rocesses"@));
    assert(lex_lt("packages"@, "processes"@));
    assert forall|i: int| 0 <= i < n.len() - 1 implies lex_lt(#[trigger] n[i], n[i + 1]) by {
        if i == 0 { assert(lex_lt("cpu"@, "disk"@)); }
        else if i == 1 { assert(lex_lt("disk"@, "memory"@)); }
        else if i == 2 { assert(lex_lt("memory"@, "network"@)); }
        else if i == 3 { assert(lex_lt("network"@, "packages"@)); }
        else if i == 4 { }
        else if i == 5 { assert(lex_lt("processes"@, "services"@)); }
        else if i == 6 { assert(lex_lt("services"@, "temps"@)); }
        else { assert(lex_lt("temps"@, "workspaces"@)); }
    }
    assert forall|i: int, j: int| 0 <= i < n.len() && 0 <= j < n.len() && i != j implies n[i] != n[j] by {
        if n[i] == n[j] {
            assert(n[i][0] == n[j][0]);
            if (i == 4 && j == 5) || (i == 5 && j == 4) {
                assert(n[i][1] == n[j][1]);
            }
        }
    }
}

} // verus!
