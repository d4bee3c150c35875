//! The rules of the file-system module resolver.
//!
//! - The project root is derived from an input file `<F>` and its
//!   `module a.b.c` declaration: `<F>`'s parent, taken as many times as the
//!   module path has segments, is the root, so that `a/b/c.kei` resolves
//!   uniquely under it.
//! - The resolver keeps a cache of resolved modules and the set of modules
//!   being resolved, so that each module is loaded once and an import cycle
//!   resolves to nothing instead of recursing.

use vstd::prelude::*;

verus! {

/// The `module a.b.c` declaration of a source file.
pub struct ModuleDecl {
    /// The dotted module path, one segment per element.
    pub path: Vec<String>,
}

/// What the resolver reads of a parsed module: its optional declaration.
pub struct Module {
    pub decl: Option<ModuleDecl>,
}

/// Whether `path` is a non-empty relative path of one component on every
/// platform: it holds no separator (`/`, `\`) and no drive-prefix colon.
pub open spec fn is_single_component(path: Seq<char>) -> bool {
    &&& path.len() > 0
    &&& forall|i: int| 0 <= i < path.len() ==> path[i] != '/' && path[i] != '\\' && path[i] != ':'
}

/// A plain path component on every platform: one component that is not `.`
/// (it holds no separator and no colon).
pub open spec fn is_plain_component(c: Seq<char>) -> bool {
    &&& is_single_component(c)
    &&& c != seq!['.']
}

/// Whether `p` is, on every platform, the parent of `p/c` for a plain
/// component `c`: `p` is non-empty, holds no `\` and no colon (so no
/// Windows prefix), does not start with `//`, does not end with `/`, and its
/// last component is not a `.` after a separator (a `.` in the middle of a
/// path is not a component; a leading one, as in `.` or `./a`, is).
pub open spec fn is_plain_parent(p: Seq<char>) -> bool {
    &&& p.len() > 0
    &&& forall|i: int| 0 <= i < p.len() ==> p[i] != '\\' && p[i] != ':'
    &&& p.last() != '/'
    &&& !(p.len() >= 2 && p[0] == '/' && p[1] == '/')
    &&& !(p.len() >= 2 && p[p.len() - 2] == '/' && p.last() == '.')
}

/// The path `<root>/s1/.../sn`: the segments appended to `root` one by one,
/// each after a `/` unless the path so far is empty or already ends in `/`.
pub open spec fn join_path(root: Seq<char>, segs: Seq<Seq<char>>) -> Seq<char>
    decreases segs.len(),
{
    if segs.len() == 0 {
        root
    } else {
        let p = join_path(root, segs.drop_last());
        if p.len() == 0 || p.last() == '/' {
            p + segs.last()
        } else {
            p + seq!['/'] + segs.last()
        }
    }
}

/// Whether `root` is a base that has no parent: the empty relative path or
/// the file-system root `/`.
pub open spec fn is_base_root(root: Seq<char>) -> bool {
    root.len() == 0 || root == seq!['/']
}

/// Whether `join_path(root, segs)` is a file laid out under `root` whose
/// parents are known on every platform: at least one segment, every segment
/// a plain component, and `root` empty, `/`, or a plain parent.
pub open spec fn is_root_layout(root: Seq<char>, segs: Seq<Seq<char>>) -> bool {
    &&& segs.len() > 0
    &&& (is_base_root(root) || is_plain_parent(root))
    &&& forall|i: int| 0 <= i < segs.len() ==> is_plain_component(#[trigger] segs[i])
}

/// `Path::parent`: the path without its final component. As its
/// documentation says: `None` for the empty path and for the root `/`;
/// `Some("")` for a relative path with one component; `/` for `/c`; and for
/// `p/c` with `c` one component, `p` (stated where `p` and `c` leave no room
/// for a platform's prefixes or roots, and `p` does not end in a `.` that
/// `Path` would drop: `is_plain_parent(p)`, `is_plain_component(c)`; so `./c`
/// gives `.`, a leading `.` being a component of its own). Any result is a prefix of the path. What it
/// returns for other paths depends on the platform's path syntax and is not
/// stated.
#[verifier::external_body]
fn path_parent(path: &str) -> (r: Option<String>)
    ensures
        path@.len() == 0 ==> r is None,
        path@ == seq!['/'] ==> r is None,
        is_single_component(path@) ==> r is Some && r->0@.len() == 0,
        forall|c: Seq<char>|
            #![trigger is_plain_component(c)]
            is_plain_component(c) && path@ == seq!['/'] + c ==> r is Some && r->0@ == seq!['/'],
        forall|p: Seq<char>, c: Seq<char>|
            #![trigger is_plain_parent(p), is_plain_component(c)]
            is_plain_parent(p) && is_plain_component(c) && path@ == p + seq!['/'] + c ==> r is Some
                && r->0@ == p,
        r matches Some(parent) ==> parent@.len() < path@.len() && parent@.is_prefix_of(path@),
{
    match std::path::Path::new(path).parent() {
        Some(parent) => Some(parent.to_string_lossy().into_owned()),
        None => None,
    }
}

/// The path laid out by a shorter list of segments is a plain parent.
proof fn lemma_join_is_plain_parent(root: Seq<char>, segs: Seq<Seq<char>>)
    requires
        is_root_layout(root, segs),
    ensures
        is_plain_parent(join_path(root, segs)),
    decreases segs.len(),
{
    let s = segs.last();
    assert(is_plain_component(segs[segs.len() - 1]));
    let prev = join_path(root, segs.drop_last());
    if segs.len() > 1 {
        assert(is_root_layout(root, segs.drop_last())) by {
            assert forall|i: int| 0 <= i < segs.drop_last().len() implies is_plain_component(#[trigger] segs.drop_last()[i]) by {
                assert(segs.drop_last()[i] == segs[i]);
            }
        }
        lemma_join_is_plain_parent(root, segs.drop_last());
    } else {
        assert(segs.drop_last().len() == 0);
        assert(prev == root);
    }
    assert(prev.len() > 0 && prev != seq!['/'] ==> is_plain_parent(prev));
    let j = join_path(root, segs);
    assert(s.len() == 1 ==> s[0] != '.') by {
        if s.len() == 1 && s[0] == '.' {
            assert(s =~= seq!['.']);
        }
    }
    if prev.len() == 0 {
        assert(j == s);
    } else if prev == seq!['/'] {
        assert(j == prev + s);
        assert forall|i: int| 0 <= i < j.len() implies j[i] != '\\' && j[i] != ':' by {
            if i > 0 {
                assert(j[i] == s[i - 1]);
            }
        }
        assert(j[1] == s[0]);
        assert(j.last() == s.last());
        assert(j != seq!['.']) by {
            assert(j[0] == '/');
        }
        if s.len() >= 2 {
            assert(j[j.len() - 2] == s[s.len() - 2]);
        }
    } else {
        assert(j == prev + seq!['/'] + s);
        assert(forall|i: int| 0 <= i < j.len() ==> j[i] != '\\' && j[i] != ':') by {
            assert forall|i: int| 0 <= i < j.len() implies j[i] != '\\' && j[i] != ':' by {
                if i < prev.len() {
                    assert(j[i] == prev[i]);
                } else if i > prev.len() {
                    assert(j[i] == s[i - prev.len() - 1]);
                }
            }
        }
        assert(j.last() == s.last());
        assert(j.len() >= 2);
        if prev.len() == 1 {
            assert(j[0] == prev[0]);
        } else {
            assert(j[0] == prev[0] && j[1] == prev[1]);
        }
        assert(j != seq!['.']) by {
            assert(j.len() >= 3);
        }
        if s.len() >= 2 {
            assert(j[j.len() - 2] == s[s.len() - 2]);
        } else {
            assert(j[j.len() - 2] == '/');
        }
    }
}

/// Peeling the last segment off a layout: its parent is the layout of the
/// other segments.
proof fn lemma_layout_parent(root: Seq<char>, segs: Seq<Seq<char>>)
    requires
        is_root_layout(root, segs),
    ensures
        segs.len() >= 2 ==> is_plain_parent(join_path(root, segs.drop_last())) && is_plain_component(segs.last())
            && join_path(root, segs) == join_path(root, segs.drop_last()) + seq!['/'] + segs.last(),
        segs.len() == 1 && !is_base_root(root) ==> is_plain_parent(root) && is_plain_component(segs.last())
            && join_path(root, segs) == root + seq!['/'] + segs.last(),
        segs.len() == 1 && root == seq!['/'] ==> is_plain_component(segs.last()) && join_path(root, segs)
            == seq!['/'] + segs.last(),
        segs.len() == 1 && root.len() == 0 ==> is_single_component(join_path(root, segs)),
{
    assert(is_plain_component(segs[segs.len() - 1]));
    if segs.len() >= 2 {
        assert(is_root_layout(root, segs.drop_last())) by {
            assert forall|i: int| 0 <= i < segs.drop_last().len() implies is_plain_component(#[trigger] segs.drop_last()[i]) by {
                assert(segs.drop_last()[i] == segs[i]);
            }
        }
        lemma_join_is_plain_parent(root, segs.drop_last());
    } else {
        assert(segs.drop_last().len() == 0);
        assert(join_path(root, segs.drop_last()) == root);
    }
}

/// Whether `root` with `segs` is a decomposition of `file` that `derive_root`
/// speaks of for an `n`-segment module path: a root layout with `n`
/// segments, or one with fewer segments under a base root.
pub open spec fn is_decomposition(file: Seq<char>, root: Seq<char>, segs: Seq<Seq<char>>, n: int) -> bool {
    &&& join_path(root, segs) == file
    &&& is_root_layout(root, segs)
    &&& (segs.len() == n || (segs.len() < n && is_base_root(root)))
}

/// The project root of `file` under the convention `<root>/a/b/c.kei` for a
/// file declaring `module a.b.c`: `file`'s parent taken once per module path
/// segment. `None` when the module has no declaration, an empty path, or
/// `file` has too few parents. For a file laid out as `<root>/s1/.../sk`
/// (`is_root_layout`) and a module path of n segments: with k = n the root
/// is `root`, the file without its last n components (`.` for
/// `./app/main.kei` and `module app.main`); with k < n and `root` empty or
/// `/`, the file has too few parents and the result is `None`.
pub fn derive_root(file: &str, module: &Module) -> (r: Option<String>)
    ensures
        module.decl is None ==> r is None,
        module.decl matches Some(d) && d.path@.len() == 0 ==> r is None,
        is_single_component(file@) && module.decl is Some && module.decl->0.path@.len() == 1 ==> r is Some
            && r->0@.len() == 0,
        is_single_component(file@) && module.decl is Some && module.decl->0.path@.len() >= 2 ==> r is None,
        forall|root: Seq<char>, segs: Seq<Seq<char>>|
            #![trigger join_path(root, segs)]
            join_path(root, segs) == file@ && is_root_layout(root, segs) && module.decl is Some
                && segs.len() == module.decl->0.path@.len() ==> r is Some && r->0@ == root,
        forall|root: Seq<char>, segs: Seq<Seq<char>>|
            #![trigger join_path(root, segs)]
            join_path(root, segs) == file@ && is_root_layout(root, segs) && is_base_root(root)
                && module.decl is Some && segs.len() < module.decl->0.path@.len() ==> r is None,
        r matches Some(root) ==> {
            &&& module.decl is Some
            &&& module.decl->0.path@.len() > 0
            &&& root@.len() + module.decl->0.path@.len() <= file@.len()
            &&& root@.is_prefix_of(file@)
        },
{
    let decl = match &module.decl {
        Some(d) => d,
        None => {
            return None;
        },
    };
    let n = decl.path.len();
    if n == 0 {
        return None;
    }
    let mut current = String::from_str(file);
    let mut i: usize = 0;
    assert forall|root: Seq<char>, segs: Seq<Seq<char>>|
        #![trigger join_path(root, segs)]
        is_decomposition(file@, root, segs, n as int)
            implies current@ == join_path(root, segs.take(segs.len() - i)) by {
        assert(segs.take(segs.len() as int) =~= segs);
    }
    while i < n
        invariant
            0 <= i <= n,
            n == decl.path@.len(),
            module.decl is Some && module.decl->0.path@.len() == n,
            current@.len() + i <= file@.len(),
            current@.is_prefix_of(file@),
            is_single_component(file@) ==> (i == 0 ==> current@ == file@) && (i > 0 ==> i == 1
                && current@.len() == 0),
            forall|root: Seq<char>, segs: Seq<Seq<char>>|
                #![trigger join_path(root, segs)]
                is_decomposition(file@, root, segs, n as int) ==> i <= segs.len() && current@ == join_path(
                    root,
                    segs.take(segs.len() - i),
                ),
        decreases n - i,
    {
        let ghost before = current@;
        let step = path_parent(current.as_str());
        proof {
            assert forall|root: Seq<char>, segs: Seq<Seq<char>>|
                #![trigger join_path(root, segs)]
                is_decomposition(file@, root, segs, n as int) implies (if i == segs.len() {
                    step is None
                } else {
                    step is Some && step->0@ == join_path(root, segs.take(segs.len() - i - 1))
                }) by {
                let m = segs.len() as int;
                let k = m - i;
                assert(segs.take(0) =~= Seq::<Seq<char>>::empty());
                if k == 0 {
                    assert(before == root);
                } else {
                    let t = segs.take(k);
                    assert(is_root_layout(root, t)) by {
                        assert forall|j: int| 0 <= j < t.len() implies is_plain_component(#[trigger] t[j]) by {
                            assert(t[j] == segs[j]);
                        }
                    }
                    assert(t.drop_last() =~= segs.take(k - 1));
                    lemma_layout_parent(root, t);
                    if k >= 2 {
                        assert(before == join_path(root, t.drop_last()) + seq!['/'] + t.last());
                    } else if root.len() == 0 {
                        assert(is_single_component(before));
                    } else if root == seq!['/'] {
                        assert(before == seq!['/'] + t.last());
                    } else {
                        assert(before == root + seq!['/'] + t.last());
                    }
                }
            }
        }
        match step {
            Some(parent) => {
                proof {
                    assert(parent@.is_prefix_of(file@)) by {
                        assert forall|k: int| 0 <= k < parent@.len() implies parent@[k] == file@[k] by {
                            assert(parent@[k] == current@[k]);
                        }
                    }
                }
                current = parent;
            },
            None => {
                return None;
            },
        }
        i = i + 1;
    }
    proof {
        assert forall|root: Seq<char>, segs: Seq<Seq<char>>|
            #![trigger join_path(root, segs)]
            join_path(root, segs) == file@ && is_root_layout(root, segs) && segs.len() == n
                implies current@ == root by {
            assert(is_decomposition(file@, root, segs, n as int));
            assert(segs.take(0) =~= Seq::<Seq<char>>::empty());
        }
        assert forall|root: Seq<char>, segs: Seq<Seq<char>>|
            #![trigger join_path(root, segs)]
            join_path(root, segs) == file@ && is_root_layout(root, segs) && is_base_root(root) && segs.len() < n
                implies false by {
            assert(is_decomposition(file@, root, segs, n as int));
        }
    }
    Some(current)
}

/// The views of the segments of a module path.
pub open spec fn segments_view(path: Seq<String>) -> Seq<Seq<char>> {
    Seq::new(path.len(), |i: int| path[i]@)
}

fn segments_eq(a: &Vec<String>, b: &[String]) -> (r: bool)
    ensures
        r == (segments_view(a@) == segments_view(b@)),
{
    if a.len() != b.len() {
        assert(segments_view(a@).len() != segments_view(b@).len());
        return false;
    }
    let mut i: usize = 0;
    while i < a.len()
        invariant
            a@.len() == b@.len(),
            0 <= i <= a@.len(),
            forall|j: int| 0 <= j < i ==> a@[j]@ == b@[j]@,
        decreases a@.len() - i,
    {
        if a[i] != b[i] {
            assert(segments_view(a@)[i as int] != segments_view(b@)[i as int]);
            return false;
        }
        i = i + 1;
    }
    assert(segments_view(a@) =~= segments_view(b@));
    true
}

fn copy_segments(path: &[String]) -> (r: Vec<String>)
    ensures
        segments_view(r@) == segments_view(path@),
{
    let mut out: Vec<String> = Vec::new();
    let mut i: usize = 0;
    while i < path.len()
        invariant
            0 <= i <= path@.len(),
            out@.len() == i,
            forall|j: int| 0 <= j < i ==> #[trigger] out@[j]@ == path@[j]@,
        decreases path@.len() - i,
    {
        out.push(path[i].clone());
        i = i + 1;
    }
    assert(segments_view(out@) =~= segments_view(path@));
    out
}

/// The module path of a cache entry.
pub open spec fn entry_key<M>(entry: (Vec<String>, Option<M>)) -> Seq<Seq<char>> {
    segments_view(entry.0@)
}

/// No module path occurs twice among `entries`.
pub open spec fn distinct_entries<M>(entries: Seq<(Vec<String>, Option<M>)>) -> bool {
    forall|i: int, j: int|
        0 <= i < j < entries.len() ==> entry_key(#[trigger] entries[i]) != entry_key(
            #[trigger] entries[j],
        )
}

/// The map from module path to resolved module that `entries` holds.
pub open spec fn entries_map<M>(entries: Seq<(Vec<String>, Option<M>)>) -> Map<
    Seq<Seq<char>>,
    Option<M>,
> {
    Map::new(
        |k: Seq<Seq<char>>| exists|i: int| 0 <= i < entries.len() && entry_key(entries[i]) == k,
        |k: Seq<Seq<char>>|
            {
                let i = choose|i: int| 0 <= i < entries.len() && entry_key(entries[i]) == k;
                entries[i].1
            },
    )
}

/// No module path occurs twice among `paths`.
pub open spec fn distinct_paths(paths: Seq<Vec<String>>) -> bool {
    forall|i: int, j: int|
        0 <= i < j < paths.len() ==> segments_view((#[trigger] paths[i])@) != segments_view(
            (#[trigger] paths[j])@,
        )
}

/// The set of module paths that `paths` holds.
pub open spec fn paths_set(paths: Seq<Vec<String>>) -> Set<Seq<Seq<char>>> {
    Set::new(|k: Seq<Seq<char>>| exists|i: int| 0 <= i < paths.len() && segments_view(paths[i]@) == k)
}

proof fn lemma_entries_map_at<M>(entries: Seq<(Vec<String>, Option<M>)>, i: int)
    requires
        distinct_entries(entries),
        0 <= i < entries.len(),
    ensures
        entries_map(entries).contains_key(entry_key(entries[i])),
        entries_map(entries)[entry_key(entries[i])] == entries[i].1,
{
    let k = entry_key(entries[i]);
    assert(0 <= i < entries.len() && entry_key(entries[i]) == k);
    let j = choose|j: int| 0 <= j < entries.len() && entry_key(entries[j]) == k;
    if j < i {
        assert(entry_key(entries[j]) != entry_key(entries[i]));
    } else if i < j {
        assert(entry_key(entries[i]) != entry_key(entries[j]));
    }
}

proof fn lemma_paths_push(paths: Seq<Vec<String>>, p: Vec<String>)
    requires
        distinct_paths(paths),
        !paths_set(paths).contains(segments_view(p@)),
    ensures
        distinct_paths(paths.push(p)),
        paths_set(paths.push(p)) == paths_set(paths).insert(segments_view(p@)),
{
    let q = paths.push(p);
    assert forall|i: int, j: int| 0 <= i < j < q.len() implies segments_view((#[trigger] q[i])@)
        != segments_view((#[trigger] q[j])@) by {
        if j == paths.len() {
            if segments_view(q[i]@) == segments_view(p@) {
                assert(0 <= i < paths.len() && segments_view(paths[i]@) == segments_view(p@));
            }
        } else {
            assert(q[i] == paths[i] && q[j] == paths[j]);
        }
    }
    assert forall|k: Seq<Seq<char>>| #[trigger] paths_set(q).contains(k) <==> paths_set(paths).insert(segments_view(p@)).contains(k) by {
        if paths_set(paths).contains(k) {
            let i = choose|i: int| 0 <= i < paths.len() && segments_view(paths[i]@) == k;
            assert(q[i] == paths[i]);
        }
        if k == segments_view(p@) {
            assert(q[paths.len() as int] == p);
        }
        if paths_set(q).contains(k) {
            let i = choose|i: int| 0 <= i < q.len() && segments_view(q[i]@) == k;
            if i < paths.len() {
                assert(q[i] == paths[i]);
            }
        }
    }
    assert(paths_set(q) =~= paths_set(paths).insert(segments_view(p@)));
}

proof fn lemma_paths_remove(paths: Seq<Vec<String>>, i: int)
    requires
        distinct_paths(paths),
        0 <= i < paths.len(),
    ensures
        distinct_paths(paths.remove(i)),
        paths_set(paths.remove(i)) == paths_set(paths).remove(segments_view(paths[i]@)),
{
    let q = paths.remove(i);
    assert forall|a: int, b: int| 0 <= a < b < q.len() implies segments_view((#[trigger] q[a])@)
        != segments_view((#[trigger] q[b])@) by {
        let a2 = if a < i { a } else { a + 1 };
        let b2 = if b < i { b } else { b + 1 };
        assert(q[a] == paths[a2] && q[b] == paths[b2]);
        assert(segments_view(paths[a2]@) != segments_view(paths[b2]@));
    }
    let key = segments_view(paths[i]@);
    assert forall|k: Seq<Seq<char>>| #[trigger] paths_set(q).contains(k) <==> paths_set(paths).remove(key).contains(k) by {
        if paths_set(q).contains(k) {
            let a = choose|a: int| 0 <= a < q.len() && segments_view(q[a]@) == k;
            let a2 = if a < i { a } else { a + 1 };
            assert(q[a] == paths[a2]);
            assert(segments_view(paths[a2]@) != segments_view(paths[i]@));
        }
        if paths_set(paths).remove(key).contains(k) {
            let a = choose|a: int| 0 <= a < paths.len() && segments_view(paths[a]@) == k;
            assert(a != i);
            let a2 = if a < i { a } else { a - 1 };
            assert(q[a2] == paths[a]);
        }
    }
    assert(paths_set(q) =~= paths_set(paths).remove(key));
}

proof fn lemma_entries_push<M>(entries: Seq<(Vec<String>, Option<M>)>, e: (Vec<String>, Option<M>))
    requires
        distinct_entries(entries),
        !entries_map(entries).contains_key(entry_key(e)),
    ensures
        distinct_entries(entries.push(e)),
        entries_map(entries.push(e)) == entries_map(entries).insert(entry_key(e), e.1),
{
    let q = entries.push(e);
    assert forall|i: int, j: int| 0 <= i < j < q.len() implies entry_key(#[trigger] q[i]) != entry_key(#[trigger] q[j]) by {
        if j == entries.len() {
            if entry_key(q[i]) == entry_key(e) {
                assert(0 <= i < entries.len() && entry_key(entries[i]) == entry_key(e));
            }
        } else {
            assert(q[i] == entries[i] && q[j] == entries[j]);
        }
    }
    let target = entries_map(entries).insert(entry_key(e), e.1);
    assert forall|k: Seq<Seq<char>>| #[trigger] entries_map(q).contains_key(k) <==> target.contains_key(k) by {
        if entries_map(entries).contains_key(k) {
            let i = choose|i: int| 0 <= i < entries.len() && entry_key(entries[i]) == k;
            assert(q[i] == entries[i]);
        }
        if k == entry_key(e) {
            assert(q[entries.len() as int] == e);
        }
        if entries_map(q).contains_key(k) {
            let i = choose|i: int| 0 <= i < q.len() && entry_key(q[i]) == k;
            if i < entries.len() {
                assert(q[i] == entries[i]);
            }
        }
    }
    assert forall|k: Seq<Seq<char>>| entries_map(q).contains_key(k) implies #[trigger] entries_map(q)[k] == target[k] by {
        let i = choose|i: int| 0 <= i < q.len() && entry_key(q[i]) == k;
        lemma_entries_map_at(q, i);
        if i < entries.len() {
            assert(q[i] == entries[i]);
            lemma_entries_map_at(entries, i);
        } else {
            assert(q[i] == e);
        }
    }
    assert(entries_map(q) =~= target);
}

proof fn lemma_entries_remove<M>(entries: Seq<(Vec<String>, Option<M>)>, i: int)
    requires
        distinct_entries(entries),
        0 <= i < entries.len(),
    ensures
        distinct_entries(entries.remove(i)),
        entries_map(entries.remove(i)) == entries_map(entries).remove(entry_key(entries[i])),
{
    let q = entries.remove(i);
    assert forall|a: int, b: int| 0 <= a < b < q.len() implies entry_key(#[trigger] q[a]) != entry_key(#[trigger] q[b]) by {
        let a2 = if a < i { a } else { a + 1 };
        let b2 = if b < i { b } else { b + 1 };
        assert(q[a] == entries[a2] && q[b] == entries[b2]);
        assert(entry_key(entries[a2]) != entry_key(entries[b2]));
    }
    let key = entry_key(entries[i]);
    let target = entries_map(entries).remove(key);
    assert forall|k: Seq<Seq<char>>| #[trigger] entries_map(q).contains_key(k) <==> target.contains_key(k) by {
        if entries_map(q).contains_key(k) {
            let a = choose|a: int| 0 <= a < q.len() && entry_key(q[a]) == k;
            let a2 = if a < i { a } else { a + 1 };
            assert(q[a] == entries[a2]);
            assert(entry_key(entries[a2]) != entry_key(entries[i]));
        }
        if target.contains_key(k) {
            let a = choose|a: int| 0 <= a < entries.len() && entry_key(entries[a]) == k;
            assert(a != i);
            let a2 = if a < i { a } else { a - 1 };
            assert(q[a2] == entries[a]);
        }
    }
    assert forall|k: Seq<Seq<char>>| entries_map(q).contains_key(k) implies #[trigger] entries_map(q)[k] == target[k] by {
        let a = choose|a: int| 0 <= a < q.len() && entry_key(q[a]) == k;
        lemma_entries_map_at(q, a);
        let a2 = if a < i { a } else { a + 1 };
        assert(q[a] == entries[a2]);
        lemma_entries_map_at(entries, a2);
    }
    assert(entries_map(q) =~= target);
}

/// Whether `c` separates path components on some platform (`/` everywhere,
/// `\` on Windows).
pub open spec fn is_sep_char(c: char) -> bool {
    c == '/' || c == '\\'
}

/// Whether `p` leaves no room for a Windows prefix: it holds no colon and
/// does not start with two separators.
pub open spec fn no_prefix(p: Seq<char>) -> bool {
    &&& forall|i: int| 0 <= i < p.len() ==> p[i] != ':'
    &&& !(p.len() >= 2 && is_sep_char(p[0]) && is_sep_char(p[1]))
}

/// `base` extended with `part` by `PathBuf::push` on a platform whose
/// separator is `sep`: a `part` that starts with a root replaces `base`;
/// otherwise `part` is adjoined, after `sep` unless `base` is empty or
/// already ends in a separator.
pub open spec fn push_spec(base: Seq<char>, part: Seq<char>, sep: char) -> Seq<char> {
    if part.len() > 0 && (part[0] == '/' || part[0] == sep) {
        part
    } else if base.len() == 0 || base.last() == '/' || base.last() == sep {
        base + part
    } else {
        base + seq![sep] + part
    }
}

/// `root` with `segs` pushed one by one, the i-th push on a platform whose
/// separator is `seps[i]`.
pub open spec fn pushes(root: Seq<char>, segs: Seq<Seq<char>>, seps: Seq<char>) -> Seq<char>
    decreases segs.len(),
{
    if segs.len() == 0 {
        root
    } else {
        push_spec(pushes(root, segs.drop_last(), seps.drop_last()), segs.last(), seps.last())
    }
}

/// The length of the file name of `p` on a platform whose separator is
/// `sep`: the characters after its last separator.
pub open spec fn name_len(p: Seq<char>, sep: char) -> nat
    decreases p.len(),
{
    if p.len() == 0 || p.last() == '/' || p.last() == sep {
        0
    } else {
        name_len(p.drop_last(), sep) + 1
    }
}

/// The index of the last `.` in `name`; -1 when it has none.
pub open spec fn last_dot(name: Seq<char>) -> int
    decreases name.len(),
{
    if name.len() == 0 {
        -1
    } else if name.last() == '.' {
        name.len() - 1
    } else {
        last_dot(name.drop_last())
    }
}

/// The file name `name` with its extension set to `ext`: the part after its
/// last `.` is replaced, unless that `.` is its first character (or it has
/// none), in which case `.ext` is added.
pub open spec fn with_extension(name: Seq<char>, ext: Seq<char>) -> Seq<char> {
    if last_dot(name) > 0 {
        name.take(last_dot(name)) + seq!['.'] + ext
    } else {
        name + seq!['.'] + ext
    }
}

/// `PathBuf::set_extension(ext)` on a platform whose separator is `sep`:
/// the file name (after the last separator) with its extension set to
/// `ext`; the path unchanged when it has no file name (empty, or ending in
/// `..`).
pub open spec fn set_extension_spec(p: Seq<char>, ext: Seq<char>, sep: char) -> Seq<char> {
    let n = name_len(p, sep);
    let name = p.subrange(p.len() - n, p.len() as int);
    if n == 0 || name == seq!['.', '.'] {
        p
    } else {
        p.take(p.len() - n) + with_extension(name, ext)
    }
}

/// Whether `p`'s file name is its last component: `p` is empty or ends in
/// neither a separator nor a `.` component.
pub open spec fn names_a_file(p: Seq<char>) -> bool {
    p.len() == 0 || {
        &&& !is_sep_char(p.last())
        &&& p != seq!['.']
        &&& !(p.len() >= 2 && is_sep_char(p[p.len() - 2]) && p.last() == '.')
    }
}

/// `PathBuf::push`: `base` extended with `part`. As its documentation says,
/// a `part` with a root replaces `base` and any other `part` is adjoined,
/// with a separator between them unless `base` is empty or ends in one. The
/// separator put in is the platform's, `/` or `\`. Stated where neither
/// path can hold a Windows prefix (`no_prefix`).
#[verifier::external_body]
fn path_push(base: &str, part: &str) -> (r: String)
    ensures
        no_prefix(base@) && no_prefix(part@) ==> r@ == push_spec(base@, part@, '/') || r@ == push_spec(
            base@,
            part@,
            '\\',
        ),
{
    let mut path = std::path::PathBuf::from(base);
    path.push(part);
    path.to_string_lossy().into_owned()
}

/// `PathBuf::set_extension`: as its documentation says, the extension of
/// the file name is replaced by `ext` (added when there is none; a leading
/// `.` does not start one), and a path without a file name is left as it is.
/// The file name is what follows the last separator of the platform, `/` or
/// `\`. Stated where `path` can hold no Windows prefix and its file name is
/// its last component (`names_a_file`), for a non-empty `ext`; `ext` holds no
/// separator.
#[verifier::external_body]
fn path_set_extension(path: &str, ext: &str) -> (r: String)
    requires
        forall|i: int| 0 <= i < ext@.len() ==> !is_sep_char(#[trigger] ext@[i]),
    ensures
        no_prefix(path@) && names_a_file(path@) && ext@.len() > 0 ==> r@ == set_extension_spec(
            path@,
            ext@,
            '/',
        ) || r@ == set_extension_spec(path@, ext@, '\\'),
{
    let mut p = std::path::PathBuf::from(path);
    p.set_extension(ext);
    p.to_string_lossy().into_owned()
}

/// Whether the module path `segs` under `root` leaves no room for a
/// platform's prefixes and ends in a file name: no colon and no `\` anywhere,
/// no `//` at the start of `root` or of a segment, and the last segment (or
/// `root`, for an empty module path) a file name.
pub open spec fn module_path_ok(root: Seq<char>, segs: Seq<Seq<char>>) -> bool {
    &&& no_prefix(root)
    &&& forall|k: int| 0 <= k < root.len() ==> root[k] != '\\'
    &&& forall|i: int| 0 <= i < segs.len() ==> no_prefix(#[trigger] segs[i])
    &&& forall|i: int, k: int| 0 <= i < segs.len() && 0 <= k < segs[i].len() ==> (#[trigger] segs[i][k]) != '\\'
    &&& if segs.len() == 0 {
        names_a_file(root)
    } else {
        segs.last().len() > 0 && names_a_file(segs.last())
    }
}

/// Whether `file` is the module file of `segs` under `root`: `root` with each
/// segment pushed and the extension set to `kei`, as `PathBuf` does on a
/// platform whose separators are `seps` (one per push, then one for the
/// extension; on a real platform all the same).
pub open spec fn is_module_file_with(root: Seq<char>, segs: Seq<Seq<char>>, seps: Seq<char>, file: Seq<char>) -> bool {
    &&& seps.len() == segs.len() + 1
    &&& forall|i: int| 0 <= i < seps.len() ==> is_sep_char(#[trigger] seps[i])
    &&& file == set_extension_spec(pushes(root, segs, seps.take(segs.len() as int)), "kei"@, seps.last())
}

/// Whether `file` is the module file of `segs` under `root` on some platform.
pub open spec fn is_module_file(root: Seq<char>, segs: Seq<Seq<char>>, file: Seq<char>) -> bool {
    exists|seps: Seq<char>| is_module_file_with(root, segs, seps, file)
}

proof fn lemma_push_keeps_no_prefix(base: Seq<char>, part: Seq<char>, sep: char)
    requires
        no_prefix(base),
        no_prefix(part),
        is_sep_char(sep),
        base.len() > 0 ==> base[0] != '\\',
        part.len() > 0 ==> part[0] != '\\',
    ensures
        no_prefix(push_spec(base, part, sep)),
        push_spec(base, part, sep).len() > 0 ==> push_spec(base, part, sep)[0] != '\\',
        part.len() > 0 ==> push_spec(base, part, sep).len() >= part.len() && push_spec(base, part, sep).subrange(
            push_spec(base, part, sep).len() - part.len(),
            push_spec(base, part, sep).len() as int,
        ) == part,
{
    let r = push_spec(base, part, sep);
    if part.len() > 0 && (part[0] == '/' || part[0] == sep) {
        assert(r.subrange(0, r.len() as int) =~= part);
    } else if base.len() == 0 || base.last() == '/' || base.last() == sep {
        assert(r == base + part);
        assert forall|i: int| 0 <= i < r.len() implies r[i] != ':' by {
            if i < base.len() {
                assert(r[i] == base[i]);
            } else {
                assert(r[i] == part[i - base.len()]);
            }
        }
        if base.len() == 1 && part.len() > 0 {
            assert(r[1] == part[0]);
        }
        if base.len() == 0 && part.len() >= 2 {
            assert(r[0] == part[0] && r[1] == part[1]);
        }
        if base.len() >= 2 {
            assert(r[0] == base[0] && r[1] == base[1]);
        }
        if base.len() > 0 {
            assert(r[0] == base[0]);
        }
        assert(r.subrange(base.len() as int, r.len() as int) =~= part);
    } else {
        assert(r == base + seq![sep] + part);
        assert forall|i: int| 0 <= i < r.len() implies r[i] != ':' by {
            if i < base.len() {
                assert(r[i] == base[i]);
            } else if i > base.len() {
                assert(r[i] == part[i - base.len() - 1]);
            }
        }
        assert(r[0] == base[0]);
        if base.len() >= 2 {
            assert(r[1] == base[1]);
        }
        assert(r.subrange(base.len() + 1int, r.len() as int) =~= part);
    }
}

/// The module file of `path` under `root`, as `PathBuf` builds it: `root`
/// with each segment pushed in turn, then the extension set to `kei` (it
/// replaces an extension the last segment has: `a.b` gives `a.kei`).
pub fn module_file(root: &str, path: &[String]) -> (r: String)
    ensures
        module_path_ok(root@, segments_view(path@)) ==> is_module_file(root@, segments_view(path@), r@),
{
    let ghost segs = segments_view(path@);
    let ghost ok = module_path_ok(root@, segs);
    let ghost mut seps: Seq<char> = Seq::empty();
    let mut out = String::from_str(root);
    let n = path.len();
    let mut i: usize = 0;
    proof {
        assert(segs.take(0) =~= Seq::<Seq<char>>::empty());
    }
    while i < n
        invariant
            n == path@.len(),
            segs == segments_view(path@),
            ok == module_path_ok(root@, segs),
            0 <= i <= n,
            seps.len() == i,
            forall|j: int| 0 <= j < seps.len() ==> is_sep_char(#[trigger] seps[j]),
            ok ==> out@ == pushes(root@, segs.take(i as int), seps),
            ok ==> no_prefix(out@),
            ok ==> (out@.len() > 0 ==> out@[0] != '\\'),
            ok && i == 0 ==> out@ == root@,
            ok && i > 0 ==> out@.len() >= segs[i - 1].len() && out@.subrange(
                out@.len() - segs[i - 1].len(),
                out@.len() as int,
            ) == segs[i - 1],
        decreases n - i,
    {
        let ghost before = out@;
        let next = path_push(out.as_str(), path[i].as_str());
        proof {
            let part = segs[i as int];
            assert(part == path@[i as int]@);
            if ok {
                assert(no_prefix(part));
                assert(part.len() > 0 ==> part[0] != '\\');
                let sep = if next@ == push_spec(before, part, '/') {
                    '/'
                } else {
                    '\\'
                };
                lemma_push_keeps_no_prefix(before, part, sep);
                let seps2 = seps.push(sep);
                assert(segs.take(i + 1).drop_last() =~= segs.take(i as int));
                assert(seps2.drop_last() =~= seps);
                assert(next@ == pushes(root@, segs.take(i + 1), seps2));
                if part.len() == 0 {
                    assert(out@.subrange(out@.len() - 0, out@.len() as int) =~= part);
                }
                seps = seps2;
            } else {
                seps = seps.push('/');
            }
        }
        out = next;
        i = i + 1;
    }
    proof {
        reveal_strlit("kei");
    }
    let r = path_set_extension(out.as_str(), "kei");
    proof {
        if ok {
            assert(segs.take(n as int) =~= segs);
            if n > 0 {
                let last = segs[n - 1];
                assert(last == segs.last());
                let tail = out@.subrange(out@.len() - last.len(), out@.len() as int);
                assert(tail == last);
                assert(out@.last() == last.last()) by {
                    assert(tail[last.len() - 1] == out@[out@.len() - 1]);
                }
                if last.len() >= 2 {
                    assert(tail[last.len() - 2] == out@[out@.len() - 2]);
                }
                if out@ == seq!['.'] {
                    assert(last.len() == 1);
                    assert(last =~= seq!['.']);
                }
                if last.len() == 1 && out@.len() >= 2 {
                    assert(last[0] != '.') by {
                        if last[0] == '.' {
                            assert(last =~= seq!['.']);
                        }
                    }
                }
            }
            assert(names_a_file(out@));
            let sep = if r@ == set_extension_spec(out@, "kei"@, '/') {
                '/'
            } else {
                '\\'
            };
            let all = seps.push(sep);
            assert(all.take(n as int) =~= seps);
            assert(is_module_file_with(root@, segs, all, r@));
        }
    }
    r
}

/// The name of a plain last component, when its path ends in it: the part
/// after the last `/` is that component.
proof fn lemma_name_len_of_suffix(prefix: Seq<char>, name: Seq<char>)
    requires
        prefix.len() == 0 || prefix.last() == '/',
        forall|i: int| 0 <= i < name.len() ==> !is_sep_char(#[trigger] name[i]),
    ensures
        name_len(prefix + name, '/') == name.len(),
    decreases name.len(),
{
    if name.len() > 0 {
        assert((prefix + name).drop_last() =~= prefix + name.drop_last());
        assert((prefix + name).last() == name[name.len() - 1]);
        lemma_name_len_of_suffix(prefix, name.drop_last());
    } else {
        assert(prefix + name =~= prefix);
    }
}

/// The file segments of the module `a.b.c`: `a`, `b`, and `c` with its
/// extension set to `kei`.
pub open spec fn module_file_segments(segs: Seq<Seq<char>>) -> Seq<Seq<char>> {
    if segs.len() == 0 {
        segs
    } else {
        segs.drop_last().push(with_extension(segs.last(), "kei"@))
    }
}

/// On a platform whose separator is `/`, the module file of plain segments
/// under a root that is empty, `/` or a plain parent is the layout
/// `join_path(root, module_file_segments(segs))`.
pub proof fn lemma_module_file_with_slashes(root: Seq<char>, segs: Seq<Seq<char>>, file: Seq<char>)
    requires
        is_root_layout(root, segs),
        segs.last() != seq!['.', '.'],
        is_module_file_with(root, segs, Seq::new(segs.len() + 1, |i: int| '/'), file),
    ensures
        file == join_path(root, module_file_segments(segs)),
{
    let n = segs.len();
    let seps = Seq::new(n + 1, |i: int| '/');
    lemma_pushes_with_slashes(root, segs, seps.take(n as int));
    let p = join_path(root, segs);
    let prefix = join_path(root, segs.drop_last());
    let last = segs.last();
    assert(is_plain_component(segs[n - 1]));
    let dir = if prefix.len() == 0 || prefix.last() == '/' {
        prefix
    } else {
        prefix + seq!['/']
    };
    assert(p == dir + last);
    assert(dir.len() == 0 || dir.last() == '/');
    assert forall|i: int| 0 <= i < last.len() implies !is_sep_char(#[trigger] last[i]) by {
        assert(is_single_component(last));
    }
    lemma_name_len_of_suffix(dir, last);
    assert(p.subrange(p.len() - last.len(), p.len() as int) =~= last);
    assert(p.take(p.len() - last.len()) =~= dir);
    let m = module_file_segments(segs);
    assert(m.drop_last() =~= segs.drop_last());
    assert(m.last() == with_extension(last, "kei"@));
    assert(file == dir + with_extension(last, "kei"@));
}

proof fn lemma_pushes_with_slashes(root: Seq<char>, segs: Seq<Seq<char>>, seps: Seq<char>)
    requires
        seps.len() == segs.len(),
        forall|i: int| 0 <= i < seps.len() ==> seps[i] == '/',
        forall|i: int| 0 <= i < segs.len() ==> is_plain_component(#[trigger] segs[i]),
    ensures
        pushes(root, segs, seps) == join_path(root, segs),
    decreases segs.len(),
{
    if segs.len() > 0 {
        assert(is_plain_component(segs[segs.len() - 1]));
        assert forall|i: int| 0 <= i < segs.drop_last().len() implies is_plain_component(#[trigger] segs.drop_last()[i]) by {
            assert(segs.drop_last()[i] == segs[i]);
        }
        lemma_pushes_with_slashes(root, segs.drop_last(), seps.drop_last());
        assert(seps.last() == '/');
        assert(segs.last()[0] != '/');
    }
}

proof fn lemma_last_dot_range(name: Seq<char>)
    ensures
        -1 <= last_dot(name) < name.len(),
        last_dot(name) >= 0 ==> name[last_dot(name)] == '.',
    decreases name.len(),
{
    if name.len() > 0 && name.last() != '.' {
        lemma_last_dot_range(name.drop_last());
        if last_dot(name.drop_last()) >= 0 {
            assert(name.drop_last()[last_dot(name.drop_last())] == name[last_dot(name.drop_last())]);
        }
    }
}

/// `derive_root` inverts the module-file layout: for a root that is empty,
/// `/` or a plain parent and a module path of plain names, the layout of the
/// module file (`module_file_segments`, the last name with its extension set
/// to `kei`) is a root layout with as many segments as the module path, so
/// `derive_root` of that file and module gives back `root`.
pub proof fn lemma_module_file_is_root_layout(root: Seq<char>, segs: Seq<Seq<char>>)
    requires
        segs.len() > 0,
        is_base_root(root) || is_plain_parent(root),
        forall|i: int| 0 <= i < segs.len() ==> is_plain_component(#[trigger] segs[i]),
    ensures
        is_root_layout(root, module_file_segments(segs)),
        module_file_segments(segs).len() == segs.len(),
{
    reveal_strlit("kei");
    let f = module_file_segments(segs);
    assert forall|i: int| 0 <= i < f.len() implies is_plain_component(#[trigger] f[i]) by {
        if i < segs.len() - 1 {
            assert(f[i] == segs[i]);
        } else {
            let last = segs[segs.len() - 1];
            assert(is_plain_component(last));
            lemma_last_dot_range(last);
            let d = last_dot(last);
            let stem = if d > 0 {
                last.take(d)
            } else {
                last
            };
            let w = with_extension(last, "kei"@);
            assert(f[i] == w);
            assert(w == stem + seq!['.'] + "kei"@);
            assert forall|k: int| 0 <= k < w.len() implies w[k] != '/' && w[k] != '\\' && w[k] != ':' by {
                if k < stem.len() {
                    assert(w[k] == stem[k]);
                    assert(stem[k] == last[k]);
                } else if k > stem.len() {
                    assert(w[k] == "kei"@[k - stem.len() - 1]);
                }
            }
            assert(w != seq!['.']) by {
                assert(w.len() >= 4);
            }
        }
    }
}

/// What resolving a module path takes next.
pub enum ResolveStep {
    /// The path was resolved before: `cached` holds the answer.
    Cached,
    /// The path is being resolved: an import cycle, which resolves to nothing.
    Cycle,
    /// The module is loaded from this file, and `leave` records the outcome.
    Read(String),
}

/// Whether `begin` has the module `key` read: it is neither resolved nor
/// being resolved.
pub open spec fn begin_reads<M>(
    cache: Map<Seq<Seq<char>>, Option<M>>,
    visiting: Set<Seq<Seq<char>>>,
    key: Seq<Seq<char>>,
) -> bool {
    !cache.contains_key(key) && !visiting.contains(key)
}

/// The file-system module resolver: the project root, the modules resolved
/// so far (`None` for a module that could not be loaded), and the modules
/// being resolved. `M` is the resolved-module value.
pub struct FsModuleResolver<M> {
    root: String,
    cache: Vec<(Vec<String>, Option<M>)>,
    visiting: Vec<Vec<String>>,
}

impl<M> FsModuleResolver<M> {
    /// No module path occurs twice in the cache or in the visiting list.
    #[verifier::type_invariant]
    closed spec fn keys_distinct(self) -> bool {
        &&& distinct_entries(self.cache@)
        &&& distinct_paths(self.visiting@)
    }

    /// The project root.
    pub closed spec fn root_view(self) -> Seq<char> {
        self.root@
    }

    /// The cache: module path to resolved module (`None`: not loadable).
    pub closed spec fn cache_view(self) -> Map<Seq<Seq<char>>, Option<M>> {
        entries_map(self.cache@)
    }

    /// The module paths being resolved.
    pub closed spec fn visiting_view(self) -> Set<Seq<Seq<char>>> {
        paths_set(self.visiting@)
    }

    /// A resolver rooted at `root`, with nothing resolved or being resolved.
    pub fn new(root: String) -> (r: Self)
        ensures
            r.root_view() == root@,
            r.cache_view() == Map::<Seq<Seq<char>>, Option<M>>::empty(),
            r.visiting_view() == Set::<Seq<Seq<char>>>::empty(),
    {
        let r = FsModuleResolver { root, cache: Vec::new(), visiting: Vec::new() };
        assert(r.cache_view() =~= Map::<Seq<Seq<char>>, Option<M>>::empty());
        assert(r.visiting_view() =~= Set::<Seq<Seq<char>>>::empty());
        r
    }

    /// The project root.
    pub fn root(&self) -> (r: &str)
        ensures
            r@ == self.root_view(),
    {
        self.root.as_str()
    }

    fn find_cached(&self, path: &[String]) -> (r: Option<usize>)
        ensures
            match r {
                Some(i) => i < self.cache@.len() && entry_key(self.cache@[i as int]) == segments_view(path@),
                None => forall|i: int| 0 <= i < self.cache@.len() ==> entry_key(#[trigger] self.cache@[i]) != segments_view(path@),
            },
    {
        let mut i: usize = 0;
        while i < self.cache.len()
            invariant
                0 <= i <= self.cache@.len(),
                forall|j: int| 0 <= j < i ==> entry_key(#[trigger] self.cache@[j]) != segments_view(path@),
            decreases self.cache@.len() - i,
        {
            if segments_eq(&self.cache[i].0, path) {
                return Some(i);
            }
            i = i + 1;
        }
        None
    }

    /// The cached resolution of `path`: `Some` when `path` was resolved
    /// before (holding `None` when it could not be loaded), `None` when it
    /// was not.
    pub fn cached(&self, path: &[String]) -> (r: Option<&Option<M>>)
        ensures
            match r {
                Some(v) => self.cache_view().contains_key(segments_view(path@)) && self.cache_view()[segments_view(path@)] == *v,
                None => !self.cache_view().contains_key(segments_view(path@)),
            },
    {
        proof {
            use_type_invariant(self);
        }
        match self.find_cached(path) {
            Some(i) => {
                proof {
                    lemma_entries_map_at(self.cache@, i as int);
                }
                Some(&self.cache[i].1)
            },
            None => None,
        }
    }
    fn find_visiting(&self, path: &[String]) -> (r: Option<usize>)
        ensures
            match r {
                Some(i) => i < self.visiting@.len() && segments_view(self.visiting@[i as int]@) == segments_view(path@),
                None => forall|i: int| 0 <= i < self.visiting@.len() ==> segments_view((#[trigger] self.visiting@[i])@) != segments_view(path@),
            },
    {
        let mut i: usize = 0;
        while i < self.visiting.len()
            invariant
                0 <= i <= self.visiting@.len(),
                forall|j: int| 0 <= j < i ==> segments_view((#[trigger] self.visiting@[j])@) != segments_view(path@),
            decreases self.visiting@.len() - i,
        {
            if segments_eq(&self.visiting[i], path) {
                return Some(i);
            }
            i = i + 1;
        }
        None
    }

    /// Marks `path` as being resolved. Returns `false`, changing nothing,
    /// when `path` is already being resolved: the import cycle guard.
    pub fn enter(&mut self, path: &[String]) -> (r: bool)
        ensures
            r == !old(self).visiting_view().contains(segments_view(path@)),
            final(self).visiting_view() == old(self).visiting_view().insert(segments_view(path@)),
            final(self).cache_view() == old(self).cache_view(),
            final(self).root_view() == old(self).root_view(),
    {
        proof {
            use_type_invariant(&*self);
        }
        match self.find_visiting(path) {
            Some(i) => {
                proof {
                    assert(self.visiting_view().contains(segments_view(path@))) by {
                        assert(0 <= i < self.visiting@.len() && segments_view(self.visiting@[i as int]@) == segments_view(path@));
                    }
                    assert(self.visiting_view().insert(segments_view(path@)) =~= self.visiting_view());
                }
                false
            },
            None => {
                let copy = copy_segments(path);
                proof {
                    lemma_paths_push(self.visiting@, copy);
                }
                let mut visiting: Vec<Vec<String>> = Vec::new();
                std::mem::swap(&mut visiting, &mut self.visiting);
                visiting.push(copy);
                self.visiting = visiting;
                true
            },
        }
    }

    /// The next step in resolving `path`: `Cached` when it was resolved
    /// before, `Cycle` when it is being resolved, and otherwise `Read` of its
    /// module file under the root, with `path` marked as being resolved.
    pub fn begin(&mut self, path: &[String]) -> (r: ResolveStep)
        ensures
            old(self).cache_view().contains_key(segments_view(path@)) ==> r is Cached,
            !old(self).cache_view().contains_key(segments_view(path@)) && old(self).visiting_view().contains(
                segments_view(path@),
            ) ==> r is Cycle,
            begin_reads(old(self).cache_view(), old(self).visiting_view(), segments_view(path@)) ==> (
            r is Read && (module_path_ok(old(self).root_view(), segments_view(path@)) ==> is_module_file(
                old(self).root_view(),
                segments_view(path@),
                r->0@,
            ))),
            final(self).visiting_view() == (if begin_reads(
                old(self).cache_view(),
                old(self).visiting_view(),
                segments_view(path@),
            ) {
                old(self).visiting_view().insert(segments_view(path@))
            } else {
                old(self).visiting_view()
            }),
            final(self).cache_view() == old(self).cache_view(),
            final(self).root_view() == old(self).root_view(),
    {
        if self.cached(path).is_some() {
            return ResolveStep::Cached;
        }
        if !self.enter(path) {
            return ResolveStep::Cycle;
        }
        ResolveStep::Read(module_file(self.root.as_str(), path))
    }

    /// Records the resolution of `path` (`None`: it could not be loaded) and
    /// marks `path` as no longer being resolved.
    pub fn leave(&mut self, path: &[String], resolved: Option<M>)
        ensures
            final(self).visiting_view() == old(self).visiting_view().remove(segments_view(path@)),
            final(self).cache_view() == old(self).cache_view().insert(segments_view(path@), resolved),
            final(self).root_view() == old(self).root_view(),
    {
        proof {
            use_type_invariant(&*self);
        }
        let ghost key = segments_view(path@);
        match self.find_visiting(path) {
            Some(i) => {
                proof {
                    lemma_paths_remove(self.visiting@, i as int);
                }
                let mut visiting: Vec<Vec<String>> = Vec::new();
                std::mem::swap(&mut visiting, &mut self.visiting);
                visiting.remove(i);
                self.visiting = visiting;
            },
            None => {
                proof {
                    assert(self.visiting_view().remove(key) =~= self.visiting_view());
                }
            },
        }
        let ghost before_cache = self.cache@;
        let found = self.find_cached(path);
        let mut cache: Vec<(Vec<String>, Option<M>)> = Vec::new();
        std::mem::swap(&mut cache, &mut self.cache);
        match found {
            Some(i) => {
                proof {
                    lemma_entries_remove(cache@, i as int);
                }
                cache.remove(i);
            },
            None => {
                proof {
                    assert(entries_map(cache@).remove(key) =~= entries_map(cache@));
                }
            },
        }
        let entry = (copy_segments(path), resolved);
        proof {
            lemma_entries_push(cache@, entry);
            assert(entries_map(before_cache).insert(key, resolved) =~= entries_map(cache@).insert(key, resolved));
        }
        cache.push(entry);
        self.cache = cache;
    }
}

/// One call on a resolver, by what it does to the cache and to the set of
/// modules being resolved: `begin` of a path, or `leave` of a path with its
/// outcome.
pub enum ResolverCall<M> {
    Begin(Seq<Seq<char>>),
    Leave(Seq<Seq<char>>, Option<M>),
}

/// The cache and the set of modules being resolved after `call`, as `begin`
/// and `leave` state it.
pub open spec fn after_call<M>(
    cache: Map<Seq<Seq<char>>, Option<M>>,
    visiting: Set<Seq<Seq<char>>>,
    call: ResolverCall<M>,
) -> (Map<Seq<Seq<char>>, Option<M>>, Set<Seq<Seq<char>>>) {
    match call {
        ResolverCall::Begin(k) => if begin_reads(cache, visiting, k) {
            (cache, visiting.insert(k))
        } else {
            (cache, visiting)
        },
        ResolverCall::Leave(k, outcome) => (cache.insert(k, outcome), visiting.remove(k)),
    }
}

/// The cache and the set of modules being resolved after `calls`, in order.
pub open spec fn after_calls<M>(
    cache: Map<Seq<Seq<char>>, Option<M>>,
    visiting: Set<Seq<Seq<char>>>,
    calls: Seq<ResolverCall<M>>,
) -> (Map<Seq<Seq<char>>, Option<M>>, Set<Seq<Seq<char>>>)
    decreases calls.len(),
{
    if calls.len() == 0 {
        (cache, visiting)
    } else {
        let next = after_call(cache, visiting, calls[0]);
        after_calls(next.0, next.1, calls.drop_first())
    }
}

/// Whether each `leave` among `calls` is of a module being resolved at that
/// point, as when a `leave` follows the `begin` that had the file read.
pub open spec fn leaves_resolving<M>(
    cache: Map<Seq<Seq<char>>, Option<M>>,
    visiting: Set<Seq<Seq<char>>>,
    calls: Seq<ResolverCall<M>>,
) -> bool
    decreases calls.len(),
{
    if calls.len() == 0 {
        true
    } else {
        let next = after_call(cache, visiting, calls[0]);
        &&& (calls[0] matches ResolverCall::Leave(k, _) ==> visiting.contains(k))
        &&& leaves_resolving(next.0, next.1, calls.drop_first())
    }
}

/// Each module is loaded at most once per resolver: once `leave(key, r)` has
/// recorded `r`, whatever calls follow (`begin` of any path, `leave` of a
/// path being resolved), `key` stays cached with `r`, so `begin(key)`
/// answers `Cached` and never has its file read again.
pub proof fn lemma_module_loaded_once<M>(
    cache: Map<Seq<Seq<char>>, Option<M>>,
    visiting: Set<Seq<Seq<char>>>,
    key: Seq<Seq<char>>,
    r: Option<M>,
    calls: Seq<ResolverCall<M>>,
)
    requires
        leaves_resolving(cache.insert(key, r), visiting.remove(key), calls),
    ensures
        ({
            let end = after_calls(cache.insert(key, r), visiting.remove(key), calls);
            &&& end.0.contains_key(key)
            &&& end.0[key] == r
            &&& !begin_reads(end.0, end.1, key)
        }),
{
    lemma_settled_entry_stays(cache.insert(key, r), visiting.remove(key), key, r, calls);
}

proof fn lemma_settled_entry_stays<M>(
    cache: Map<Seq<Seq<char>>, Option<M>>,
    visiting: Set<Seq<Seq<char>>>,
    key: Seq<Seq<char>>,
    r: Option<M>,
    calls: Seq<ResolverCall<M>>,
)
    requires
        cache.contains_key(key),
        cache[key] == r,
        !visiting.contains(key),
        leaves_resolving(cache, visiting, calls),
    ensures
        ({
            let end = after_calls(cache, visiting, calls);
            &&& end.0.contains_key(key)
            &&& end.0[key] == r
            &&& !end.1.contains(key)
        }),
    decreases calls.len(),
{
    if calls.len() > 0 {
        let next = after_call(cache, visiting, calls[0]);
        lemma_settled_entry_stays(next.0, next.1, key, r, calls.drop_first());
    }
}

} // verus!
