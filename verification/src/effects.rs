//! The standard effect hierarchy and its containment relation.
//!
//! There are no user-defined effects: a `uses` clause may only name nodes of
//! this hierarchy. `IO` is the root of the hierarchy and, when declared,
//! permits every effect except `Async`, which is an independent root.

use vstd::prelude::*;
use crate::text::{chars_eq, chars_of, chars_start_with, str_eq};

verus! {

/// Every node of the standard effect hierarchy (inner nodes included).
pub const STANDARD_EFFECTS: [&'static str; 15] = [
    "IO",
    "Network",
    "Network.Read",
    "Network.Write",
    "File",
    "File.Read",
    "File.Write",
    "Database",
    "Database.Read",
    "Database.Write",
    "Clock",
    "Random",
    "Audit",
    "Audit.Log",
    "Async",
];

/// The nodes of the standard effect hierarchy.
pub open spec fn standard_effects() -> Seq<Seq<char>> {
    seq![
        "IO"@,
        "Network"@,
        "Network.Read"@,
        "Network.Write"@,
        "File"@,
        "File.Read"@,
        "File.Write"@,
        "Database"@,
        "Database.Read"@,
        "Database.Write"@,
        "Clock"@,
        "Random"@,
        "Audit"@,
        "Audit.Log"@,
        "Async"@,
    ]
}

/// Whether a declared effect `declared` permits a used effect `used`: a node
/// permits itself and its descendants (`a` permits `a.b`); `IO` permits
/// everything except `Async` and the `Async.` subtree.
pub open spec fn spec_covers(declared: Seq<char>, used: Seq<char>) -> bool {
    if declared == used {
        true
    } else if declared == "IO"@ {
        used != "Async"@ && !"Async."@.is_prefix_of(used)
    } else {
        &&& used.len() > declared.len()
        &&& declared.is_prefix_of(used)
        &&& used[declared.len() as int] == '.'
    }
}

/// Whether `path` is a node of the standard effect hierarchy.
pub fn is_known(path: &str) -> (r: bool)
    ensures
        r == standard_effects().contains(path@),
{
    let effects = STANDARD_EFFECTS;
    let mut i: usize = 0;
    while i < effects.len()
        invariant
            effects@.len() == 15,
            0 <= i <= 15,
            forall|j: int| 0 <= j < 15 ==> #[trigger] effects@[j]@ == standard_effects()[j],
            forall|j: int| 0 <= j < i ==> standard_effects()[j] != path@,
        decreases 15 - i,
    {
        if str_eq(effects[i], path) {
            assert(standard_effects()[i as int] == path@);
            return true;
        }
        i = i + 1;
    }
    false
}

/// Whether the declaration `declared` permits the use of `used`.
pub fn covers(declared: &str, used: &str) -> (r: bool)
    ensures
        r == spec_covers(declared@, used@),
{
    let d = chars_of(declared);
    let u = chars_of(used);
    if chars_eq(&d, &u) {
        return true;
    }
    let io = chars_of("IO");
    if chars_eq(&d, &io) {
        let async_root = chars_of("Async");
        let async_prefix = chars_of("Async.");
        return !chars_eq(&u, &async_root) && !chars_start_with(&u, &async_prefix);
    }
    u.len() > d.len() && chars_start_with(&u, &d) && u[d.len()] == '.'
}

/// Every node permits itself.
pub proof fn lemma_covers_reflexive(effect: Seq<char>)
    ensures
        spec_covers(effect, effect),
{
}

/// A node permits every node below it: `a` permits `a.b` for any `b`.
pub proof fn lemma_covers_descendant(ancestor: Seq<char>, rest: Seq<char>)
    ensures
        spec_covers(ancestor, ancestor + "."@ + rest),
{
    reveal_strlit(".");
    reveal_strlit("IO");
    reveal_strlit("Async");
    reveal_strlit("Async.");
    let used = ancestor + "."@ + rest;
    assert(used[ancestor.len() as int] == '.');
    assert(ancestor.is_prefix_of(used)) by {
        assert(used.subrange(0, ancestor.len() as int) =~= ancestor);
    }
    if ancestor == "IO"@ {
        assert(used != "Async"@) by {
            assert(used[0] == 'I');
        }
        assert(!"Async."@.is_prefix_of(used)) by {
            assert(used[0] == 'I');
        }
    }
}

/// `Async` is an independent root: declaring `IO` permits neither `Async`
/// nor anything in the `Async.` subtree.
pub proof fn lemma_io_excludes_async(rest: Seq<char>)
    ensures
        !spec_covers("IO"@, "Async"@),
        !spec_covers("IO"@, "Async."@ + rest),
{
    reveal_strlit("IO");
    reveal_strlit("Async");
    reveal_strlit("Async.");
    assert("IO"@ != "Async"@) by {
        assert("IO"@.len() != "Async"@.len());
    }
    let used = "Async."@ + rest;
    assert("Async."@.is_prefix_of(used)) by {
        assert(used.subrange(0, 6) =~= "Async."@);
    }
    assert("IO"@ != used) by {
        assert(used[0] == 'A');
    }
}

/// Declaring `IO` permits every node of the standard hierarchy except `Async`.
pub proof fn lemma_io_covers_standard_effects(effect: Seq<char>)
    requires
        standard_effects().contains(effect),
        effect != "Async"@,
    ensures
        spec_covers("IO"@, effect),
{
    reveal_strlit("IO");
    reveal_strlit("Async");
    reveal_strlit("Async.");
    let i = choose|i: int| 0 <= i < standard_effects().len() && standard_effects()[i] == effect;
    if effect != "IO"@ {
        assert(!"Async."@.is_prefix_of(effect)) by {
            if "Async."@.is_prefix_of(effect) {
                assert(effect.subrange(0, 6) =~= "Async."@);
                assert(effect[0] == effect.subrange(0, 6)[0]);
                assert(effect[1] == effect.subrange(0, 6)[1]);
                assert(effect[0] == 'A');
                assert(effect[1] == 's');
                reveal_strlit("Network");
                reveal_strlit("Network.Read");
                reveal_strlit("Network.Write");
                reveal_strlit("File");
                reveal_strlit("File.Read");
                reveal_strlit("File.Write");
                reveal_strlit("Database");
                reveal_strlit("Database.Read");
                reveal_strlit("Database.Write");
                reveal_strlit("Clock");
                reveal_strlit("Random");
                reveal_strlit("Audit");
                reveal_strlit("Audit.Log");
                assert(standard_effects()[i][0] == 'A');
                assert(standard_effects()[i][1] == 's');
                assert(i == 14);
            }
        }
    }
}

/// Where `.` occurs in `e` at index `p` alone (or nowhere, with `p` negative),
/// any split of `e` as `a + "." + b` puts the dot at `p`: `a` is the part of
/// `e` before it.
proof fn lemma_split_at_only_dot(e: Seq<char>, a: Seq<char>, b: Seq<char>, p: int)
    requires
        e == a + "."@ + b,
        forall|k: int| 0 <= k < e.len() && #[trigger] e[k] == '.' ==> k == p,
    ensures
        a.len() == p,
        a == e.subrange(0, p),
{
    reveal_strlit(".");
    assert(e[a.len() as int] == '.');
    assert(a =~= e.subrange(0, a.len() as int));
}

/// The hierarchy is closed under taking the parent node: when `a.b` is a
/// standard effect, so is `a`, so an ancestor of any known effect can itself
/// be declared.
pub proof fn lemma_known_effects_closed_under_parent(a: Seq<char>, b: Seq<char>)
    requires
        standard_effects().contains(a + "."@ + b),
    ensures
        standard_effects().contains(a),
{
    reveal_strlit("IO");
    reveal_strlit("Network");
    reveal_strlit("Network.Read");
    reveal_strlit("Network.Write");
    reveal_strlit("File");
    reveal_strlit("File.Read");
    reveal_strlit("File.Write");
    reveal_strlit("Database");
    reveal_strlit("Database.Read");
    reveal_strlit("Database.Write");
    reveal_strlit("Clock");
    reveal_strlit("Random");
    reveal_strlit("Audit");
    reveal_strlit("Audit.Log");
    reveal_strlit("Async");
    let e = a + "."@ + b;
    let i = choose|i: int| 0 <= i < standard_effects().len() && standard_effects()[i] == e;
    if i == 0 {
        let lit = "IO"@;
        assert forall|k: int| 0 <= k < lit.len() && #[trigger] lit[k] == '.' implies k == -1 by {
            assert(k == 0 || k == 1);
        }
        lemma_split_at_only_dot(lit, a, b, -1);
    }
    if i == 1 {
        let lit = "Network"@;
        assert forall|k: int| 0 <= k < lit.len() && #[trigger] lit[k] == '.' implies k == -1 by {
            assert(k == 0 || k == 1 || k == 2 || k == 3 || k == 4 || k == 5 || k == 6);
        }
        lemma_split_at_only_dot(lit, a, b, -1);
    }
    if i == 2 {
        let lit = "Network.Read"@;
        assert forall|k: int| 0 <= k < lit.len() && #[trigger] lit[k] == '.' implies k == 7 by {
            assert(k == 0 || k == 1 || k == 2 || k == 3 || k == 4 || k == 5 || k == 6 || k == 7 || k == 8 || k == 9 || k == 10 || k == 11);
        }
        lemma_split_at_only_dot(lit, a, b, 7);
        assert(lit.subrange(0, 7) =~= "Network"@);
        assert(standard_effects()[1] == a);
    }
    if i == 3 {
        let lit = "Network.Write"@;
        assert forall|k: int| 0 <= k < lit.len() && #[trigger] lit[k] == '.' implies k == 7 by {
            assert(k == 0 || k == 1 || k == 2 || k == 3 || k == 4 || k == 5 || k == 6 || k == 7 || k == 8 || k == 9 || k == 10 || k == 11 || k == 12);
        }
        lemma_split_at_only_dot(lit, a, b, 7);
        assert(lit.subrange(0, 7) =~= "Network"@);
        assert(standard_effects()[1] == a);
    }
    if i == 4 {
        let lit = "File"@;
        assert forall|k: int| 0 <= k < lit.len() && #[trigger] lit[k] == '.' implies k == -1 by {
            assert(k == 0 || k == 1 || k == 2 || k == 3);
        }
        lemma_split_at_only_dot(lit, a, b, -1);
    }
    if i == 5 {
        let lit = "File.Read"@;
        assert forall|k: int| 0 <= k < lit.len() && #[trigger] lit[k] == '.' implies k == 4 by {
            assert(k == 0 || k == 1 || k == 2 || k == 3 || k == 4 || k == 5 || k == 6 || k == 7 || k == 8);
        }
        lemma_split_at_only_dot(lit, a, b, 4);
        assert(lit.subrange(0, 4) =~= "File"@);
        assert(standard_effects()[4] == a);
    }
    if i == 6 {
        let lit = "File.Write"@;
        assert forall|k: int| 0 <= k < lit.len() && #[trigger] lit[k] == '.' implies k == 4 by {
            assert(k == 0 || k == 1 || k == 2 || k == 3 || k == 4 || k == 5 || k == 6 || k == 7 || k == 8 || k == 9);
        }
        lemma_split_at_only_dot(lit, a, b, 4);
        assert(lit.subrange(0, 4) =~= "File"@);
        assert(standard_effects()[4] == a);
    }
    if i == 7 {
        let lit = "Database"@;
        assert forall|k: int| 0 <= k < lit.len() && #[trigger] lit[k] == '.' implies k == -1 by {
            assert(k == 0 || k == 1 || k == 2 || k == 3 || k == 4 || k == 5 || k == 6 || k == 7);
        }
        lemma_split_at_only_dot(lit, a, b, -1);
    }
    if i == 8 {
        let lit = "Database.Read"@;
        assert forall|k: int| 0 <= k < lit.len() && #[trigger] lit[k] == '.' implies k == 8 by {
            assert(k == 0 || k == 1 || k == 2 || k == 3 || k == 4 || k == 5 || k == 6 || k == 7 || k == 8 || k == 9 || k == 10 || k == 11 || k == 12);
        }
        lemma_split_at_only_dot(lit, a, b, 8);
        assert(lit.subrange(0, 8) =~= "Database"@);
        assert(standard_effects()[7] == a);
    }
    if i == 9 {
        let lit = "Database.Write"@;
        assert forall|k: int| 0 <= k < lit.len() && #[trigger] lit[k] == '.' implies k == 8 by {
            assert(k == 0 || k == 1 || k == 2 || k == 3 || k == 4 || k == 5 || k == 6 || k == 7 || k == 8 || k == 9 || k == 10 || k == 11 || k == 12 || k == 13);
        }
        lemma_split_at_only_dot(lit, a, b, 8);
        assert(lit.subrange(0, 8) =~= "Database"@);
        assert(standard_effects()[7] == a);
    }
    if i == 10 {
        let lit = "Clock"@;
        assert forall|k: int| 0 <= k < lit.len() && #[trigger] lit[k] == '.' implies k == -1 by {
            assert(k == 0 || k == 1 || k == 2 || k == 3 || k == 4);
        }
        lemma_split_at_only_dot(lit, a, b, -1);
    }
    if i == 11 {
        let lit = "Random"@;
        assert forall|k: int| 0 <= k < lit.len() && #[trigger] lit[k] == '.' implies k == -1 by {
            assert(k == 0 || k == 1 || k == 2 || k == 3 || k == 4 || k == 5);
        }
        lemma_split_at_only_dot(lit, a, b, -1);
    }
    if i == 12 {
        let lit = "Audit"@;
        assert forall|k: int| 0 <= k < lit.len() && #[trigger] lit[k] == '.' implies k == -1 by {
            assert(k == 0 || k == 1 || k == 2 || k == 3 || k == 4);
        }
        lemma_split_at_only_dot(lit, a, b, -1);
    }
    if i == 13 {
        let lit = "Audit.Log"@;
        assert forall|k: int| 0 <= k < lit.len() && #[trigger] lit[k] == '.' implies k == 5 by {
            assert(k == 0 || k == 1 || k == 2 || k == 3 || k == 4 || k == 5 || k == 6 || k == 7 || k == 8);
        }
        lemma_split_at_only_dot(lit, a, b, 5);
        assert(lit.subrange(0, 5) =~= "Audit"@);
        assert(standard_effects()[12] == a);
    }
    if i == 14 {
        let lit = "Async"@;
        assert forall|k: int| 0 <= k < lit.len() && #[trigger] lit[k] == '.' implies k == -1 by {
            assert(k == 0 || k == 1 || k == 2 || k == 3 || k == 4);
        }
        lemma_split_at_only_dot(lit, a, b, -1);
    }
}

/// Containment is transitive: if `a` permits `b` and `b` permits `c`, then
/// `a` permits `c`.
pub proof fn lemma_covers_transitive(a: Seq<char>, b: Seq<char>, c: Seq<char>)
    requires
        spec_covers(a, b),
        spec_covers(b, c),
    ensures
        spec_covers(a, c),
{
    reveal_strlit("IO");
    reveal_strlit("Async");
    reveal_strlit("Async.");
    if a == b || b == c {
    } else if a == "IO"@ {
        // `b` lies strictly above `c`, so `c` has a '.' right after `b`
        if b == "IO"@ {
        } else {
            assert(c[b.len() as int] == '.');
            assert(c != "Async"@) by {
                if c == "Async"@ {
                    assert(b.len() < 5);
                }
            }
            assert(!"Async."@.is_prefix_of(c)) by {
                if "Async."@.is_prefix_of(c) {
                    if b.len() >= 6 {
                        assert("Async."@.is_prefix_of(b)) by {
                            assert forall|k: int| 0 <= k < 6 implies "Async."@[k] == b[k] by {
                                assert(b[k] == c[k]);
                            }
                        }
                    } else if b.len() == 5 {
                        assert(b =~= "Async"@) by {
                            assert forall|k: int| 0 <= k < 5 implies "Async"@[k] == b[k] by {
                                assert(b[k] == c[k]);
                                assert("Async."@[k] == c[k]);
                            }
                        }
                    } else {
                        assert("Async."@[b.len() as int] == c[b.len() as int]);
                    }
                }
            }
        }
    } else {
        // `a` lies strictly above `b`
        if b == "IO"@ {
            assert(b[a.len() as int] == '.');
        } else {
            assert(c[a.len() as int] == b[a.len() as int]);
            assert(a.is_prefix_of(c)) by {
                assert forall|k: int| 0 <= k < a.len() implies a[k] == c[k] by {
                    assert(a[k] == b[k]);
                    assert(b[k] == c[k]);
                }
            }
        }
    }
}

} // verus!
