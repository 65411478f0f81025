//! Locating the manifest that governs a directory.
use vstd::prelude::*;
use crate::tags::{chars_of, push_range, slice_eq};

verus! {

/// `q` is a leading run of whole components of the path `p`.
pub open spec fn path_starts_with(p: Seq<char>, q: Seq<char>) -> bool {
    &&& q.len() <= p.len()
    &&& p.subrange(0, q.len() as int) == q
    &&& (p.len() == q.len() || p[q.len() as int] == '/' || (q.len() > 0 && q[q.len() - 1] == '/'))
}

/// Whether `q` is a leading run of whole components of `p`.
pub fn path_has_prefix(p: &str, q: &str) -> (r: bool)
    ensures
        r == path_starts_with(p@, q@),
{
    let pc = chars_of(p);
    let qc = chars_of(q);
    if qc.len() > pc.len() {
        return false;
    }
    assert(qc@.subrange(0, qc@.len() as int) =~= qc@);
    if !slice_eq(&pc, 0, qc.len(), &qc, 0, qc.len()) {
        return false;
    }
    pc.len() == qc.len() || pc[qc.len()] == '/' || (qc.len() > 0 && qc[qc.len() - 1] == '/')
}

/// Index of the last `/` of `d[..k]`, or -1.
pub open spec fn last_sep(d: Seq<char>, k: int) -> int
    decreases k,
{
    if k <= 0 {
        -1
    } else if d[k - 1] == '/' {
        k - 1
    } else {
        last_sep(d, k - 1)
    }
}

pub proof fn lemma_last_sep(d: Seq<char>, k: int)
    requires
        0 <= k <= d.len(),
    ensures
        -1 <= last_sep(d, k) < k,
        last_sep(d, k) >= 0 ==> d[last_sep(d, k)] == '/',
    decreases k,
{
    if k > 0 && d[k - 1] != '/' {
        lemma_last_sep(d, k - 1);
    }
}

/// The directory that holds `d`: what precedes its last `/`; the root for
/// a child of the root; the empty path for a single relative component;
/// none for the root or the empty path.
pub open spec fn parent_dir(d: Seq<char>) -> Option<Seq<char>> {
    let p = last_sep(d, d.len() as int);
    if d.len() == 0 {
        None
    } else if p < 0 {
        Some(Seq::empty())
    } else if p == 0 {
        if d.len() == 1 {
            None
        } else {
            Some(seq!['/'])
        }
    } else {
        Some(d.subrange(0, p))
    }
}

pub proof fn lemma_parent_shorter(d: Seq<char>)
    ensures
        parent_dir(d) is Some ==> parent_dir(d)->Some_0.len() < d.len(),
{
    lemma_last_sep(d, d.len() as int);
}

/// `d` and each directory above it, innermost first.
pub open spec fn ancestors(d: Seq<char>) -> Seq<Seq<char>>
    decreases d.len(),
{
    proof {
        lemma_parent_shorter(d);
    }
    match parent_dir(d) {
        Some(p) => seq![d] + ancestors(p),
        None => seq![d],
    }
}

/// The manifest's name.
pub open spec fn manifest_name() -> Seq<char> {
    seq!['b', 'o', 'a', 't', '.', 't', 'o', 'm', 'l']
}

/// Path of the manifest file in directory `d`.
pub open spec fn manifest_path(d: Seq<char>) -> Seq<char> {
    if d.len() == 0 {
        manifest_name()
    } else if d[d.len() - 1] == '/' {
        d + manifest_name()
    } else {
        d + seq!['/'] + manifest_name()
    }
}

/// Index of the first `k >= i` below `n` with `present[k]`.
pub open spec fn first_present(present: Seq<bool>, i: int, n: int) -> Option<int>
    decreases n - i,
{
    if i < 0 || i >= n || i >= present.len() {
        None
    } else if present[i] {
        Some(i)
    } else {
        first_present(present, i + 1, n)
    }
}

fn string_of(v: &Vec<char>) -> (r: String)
    ensures
        r@ == v@,
{
    let mut r = String::new();
    push_range(&mut r, v, 0, v.len());
    assert(v@.subrange(0, v@.len() as int) =~= v@);
    r
}

fn manifest_name_chars() -> (r: Vec<char>)
    ensures
        r@ == manifest_name(),
{
    let r = chars_of("boat.toml");
    proof {
        reveal_strlit("boat.toml");
    }
    assert(r@ =~= manifest_name());
    r
}

/// `dir` and each directory above it, innermost first.
pub fn ancestor_dirs(dir: &str) -> (r: Vec<String>)
    ensures
        r@.len() == ancestors(dir@).len(),
        forall|k: int| 0 <= k < r@.len() ==> #[trigger] r@[k]@ == ancestors(dir@)[k],
{
    let mut out: Vec<String> = Vec::new();
    let mut cur = chars_of(dir);
    loop
        invariant_except_break
            ancestors(dir@) =~= out@.map_values(|s: String| s@) + ancestors(cur@),
        ensures
            ancestors(dir@) =~= out@.map_values(|s: String| s@),
        decreases cur@.len(),
    {
        let ghost before = cur@;
        let ghost seen = out@.map_values(|s: String| s@);
        proof {
            lemma_last_sep(cur@, cur@.len() as int);
            lemma_parent_shorter(cur@);
        }
        out.push(string_of(&cur));
        assert(out@.map_values(|s: String| s@) =~= seen.push(before));
        let n = cur.len();
        if n == 0 {
            assert(ancestors(before) =~= seq![before]);
            assert(seen + seq![before] =~= seen.push(before));
            break;
        }
        let mut p = n;
        while p > 0 && cur[p - 1] != '/'
            invariant
                p <= n == cur@.len(),
                last_sep(cur@, p as int) == last_sep(cur@, n as int),
            decreases p,
        {
            p = p - 1;
        }
        assert(last_sep(before, n as int) == p - 1);
        if p == 0 {
            cur = Vec::new();
            assert(parent_dir(before) == Some(cur@));
        } else if p == 1 {
            if n == 1 {
                assert(ancestors(before) =~= seq![before]);
                assert(seen + seq![before] =~= seen.push(before));
                break;
            }
            cur = vec!['/'];
            assert(cur@ =~= seq!['/']);
            assert(parent_dir(before) == Some(cur@));
        } else {
            cur.truncate(p - 1);
            assert(cur@ =~= before.subrange(0, p - 1));
            assert(parent_dir(before) == Some(cur@));
        }
        assert(ancestors(before) =~= seq![before] + ancestors(cur@));
        assert(seen + (seq![before] + ancestors(cur@)) =~= seen.push(before) + ancestors(cur@));
    }
    assert forall|k: int| 0 <= k < out@.len() implies #[trigger] out@[k]@ == ancestors(dir@)[k] by {
        assert(out@.map_values(|s: String| s@)[k] == out@[k]@);
    }
    out
}

/// The manifest of the nearest directory, from `dir` upward, that holds
/// one, where `has_manifest[k]` tells whether the `k`-th directory of
/// `ancestor_dirs(dir)` holds a manifest file.
pub fn find_boat_config(dir: &str, has_manifest: &Vec<bool>) -> (r: Option<String>)
    ensures
        match first_present(has_manifest@, 0, ancestors(dir@).len() as int) {
            Some(k) => r is Some && r->Some_0@ == manifest_path(ancestors(dir@)[k]),
            None => r is None,
        },
{
    let dirs = ancestor_dirs(dir);
    let mut k: usize = 0;
    while k < dirs.len() && k < has_manifest.len()
        invariant
            dirs@.len() == ancestors(dir@).len(),
            forall|m: int| 0 <= m < dirs@.len() ==> #[trigger] dirs@[m]@ == ancestors(dir@)[m],
            k <= dirs@.len(),
            first_present(has_manifest@, 0, dirs@.len() as int) == first_present(
                has_manifest@,
                k as int,
                dirs@.len() as int,
            ),
        decreases dirs@.len() - k,
    {
        if has_manifest[k] {
            let d = chars_of(dirs[k].as_str());
            let name = manifest_name_chars();
            let mut path = string_of(&d);
            if d.len() > 0 && d[d.len() - 1] != '/' {
                path.push('/');
            }
            push_range(&mut path, &name, 0, name.len());
            assert(name@.subrange(0, name@.len() as int) =~= name@);
            assert(path@ =~= manifest_path(d@));
            return Some(path);
        }
        k = k + 1;
    }
    None
}

/// `p` with a leading `~` component replaced by `home`.
pub open spec fn expanded(p: Seq<char>, home: Seq<char>) -> Seq<char> {
    if p == seq!['~'] {
        home
    } else if p.len() >= 2 && p[0] == '~' && p[1] == '/' {
        home + p.subrange(1, p.len() as int)
    } else {
        p
    }
}

/// Expands a leading `~` of `path` (alone, or before `/`) to `home`.
pub fn expand_home(path: &str, home: &str) -> (r: String)
    ensures
        r@ == expanded(path@, home@),
{
    let p = chars_of(path);
    let n = p.len();
    if n >= 1 && p[0] == '~' && (n == 1 || p[1] == '/') {
        let mut r = home.to_owned();
        push_range(&mut r, &p, 1, n);
        if n == 1 {
            assert(p@ =~= seq!['~']);
            assert(r@ =~= home@);
        }
        r
    } else {
        proof {
            if p@ == seq!['~'] {
                assert(p@[0] == '~');
            }
        }
        path.to_owned()
    }
}

} // verus!
