//! Choosing, from a walk of a package directory, the files to deploy.
use vstd::prelude::*;
use crate::config::{included, opt_text, should_include_target_with_boat_config, target_of, BoatConfig};
use crate::paths::{last_sep, lemma_last_sep, manifest_name, path_has_prefix, path_starts_with};
use crate::tags::{chars_of, slice_eq};

verus! {

/// One entry of a walk of a package directory.
#[derive(Debug, Clone)]
pub struct WalkEntry {
    /// Path relative to the package root; empty for the root itself.
    pub rel: String,
    /// A directory (links are not followed).
    pub is_dir: bool,
    /// A regular file, or a link to one.
    pub is_file: bool,
    /// A symbolic link whose target is missing.
    pub broken_link: bool,
    /// A directory that holds its own manifest.
    pub has_manifest: bool,
    /// The file's text, when it is readable as UTF-8.
    pub content: Option<String>,
}

/// The files chosen from a walk, and the nested packages met.
#[derive(Debug, Clone)]
pub struct Selection {
    /// Pairs of source path and target path, both relative.
    pub files: Vec<(String, String)>,
    /// Relative paths of subdirectories that are packages of their own.
    pub nested: Vec<String>,
}

/// `Some` of the text of a `String`, or `None`.
pub open spec fn opt_string(c: Option<String>) -> Option<Seq<char>> {
    match c {
        Some(x) => Some(x@),
        None => None,
    }
}

/// The last component of the path `p`.
pub open spec fn file_name(p: Seq<char>) -> Seq<char> {
    p.subrange(last_sep(p, p.len() as int) + 1, p.len() as int)
}

/// A subdirectory with a manifest of its own.
pub open spec fn is_package_dir(e: WalkEntry) -> bool {
    e.is_dir && e.has_manifest && e.rel@.len() > 0
}

/// `rel` lies strictly inside a subdirectory of `entries` that is a package
/// of its own.
pub open spec fn under_package(entries: Seq<WalkEntry>, rel: Seq<char>) -> bool {
    exists|k: int|
        0 <= k < entries.len() && is_package_dir(#[trigger] entries[k]) && rel.len()
            > entries[k].rel@.len() && path_starts_with(rel, entries[k].rel@)
}

/// The entry is a file that this package's manifest governs.
pub open spec fn is_candidate(entries: Seq<WalkEntry>, e: WalkEntry) -> bool {
    &&& e.is_file
    &&& !e.broken_link
    &&& file_name(e.rel@) != manifest_name()
    &&& !under_package(entries, e.rel@)
}

/// Pairs of relative source and target paths chosen from `entries[..n]`.
pub open spec fn selected(entries: Seq<WalkEntry>, cfg: &BoatConfig, t: Seq<char>, n: int) -> Seq<
    (Seq<char>, Seq<char>),
>
    decreases n,
{
    if n <= 0 || n > entries.len() {
        Seq::empty()
    } else {
        let e = entries[n - 1];
        selected(entries, cfg, t, n - 1) + if is_candidate(entries, e) && included(
            cfg,
            e.rel@,
            t,
            opt_string(e.content),
        ) {
            seq![(e.rel@, target_of(cfg, e.rel@))]
        } else {
            Seq::empty()
        }
    }
}

/// Relative paths of the outermost nested packages of `entries[..n]`.
pub open spec fn package_dirs(entries: Seq<WalkEntry>, n: int) -> Seq<Seq<char>>
    decreases n,
{
    if n <= 0 || n > entries.len() {
        Seq::empty()
    } else {
        let e = entries[n - 1];
        package_dirs(entries, n - 1) + if is_package_dir(e) && !under_package(entries, e.rel@) {
            seq![e.rel@]
        } else {
            Seq::empty()
        }
    }
}

/// Whether the last component of `p` is the manifest's name.
fn is_manifest_file(p: &str) -> (r: bool)
    ensures
        r == (file_name(p@) == manifest_name()),
{
    let c = chars_of(p);
    let name = chars_of("boat.toml");
    proof {
        reveal_strlit("boat.toml");
        lemma_last_sep(c@, c@.len() as int);
    }
    assert(name@ =~= manifest_name());
    let mut k = c.len();
    while k > 0 && c[k - 1] != '/'
        invariant
            k <= c@.len(),
            last_sep(c@, k as int) == last_sep(c@, c@.len() as int),
        decreases k,
    {
        k = k - 1;
    }
    assert(last_sep(c@, k as int) == k - 1);
    assert(name@.subrange(0, name@.len() as int) =~= name@);
    slice_eq(&c, k, c.len(), &name, 0, name.len())
}

/// Whether `rel` lies strictly inside a nested package of `entries`.
fn inside_package(entries: &Vec<WalkEntry>, rel: &String) -> (r: bool)
    ensures
        r == under_package(entries@, rel@),
{
    let n = chars_of(rel.as_str()).len();
    let mut k: usize = 0;
    while k < entries.len()
        invariant
            k <= entries@.len(),
            n == rel@.len(),
            forall|m: int|
                0 <= m < k ==> !(is_package_dir(#[trigger] entries@[m]) && rel@.len()
                    > entries@[m].rel@.len() && path_starts_with(rel@, entries@[m].rel@)),
        decreases entries@.len() - k,
    {
        let e = &entries[k];
        if e.is_dir && e.has_manifest {
            let m = chars_of(e.rel.as_str()).len();
            if m > 0 && n > m && path_has_prefix(rel.as_str(), e.rel.as_str()) {
                return true;
            }
        }
        k = k + 1;
    }
    false
}

/// Chooses from the walk `entries` of a package the files that its
/// manifest `boat_config` deploys for `build_tag`, with their targets, and
/// lists the subdirectories that are packages of their own: what lies
/// inside those is left to their own manifests. The manifest files, broken
/// links and directories themselves are never chosen.
pub fn select_files(entries: &Vec<WalkEntry>, boat_config: &BoatConfig, build_tag: &str) -> (r:
    Selection)
    ensures
        r.files@.len() == selected(entries@, boat_config, build_tag@, entries@.len() as int).len(),
        forall|k: int|
            0 <= k < r.files@.len() ==> (#[trigger] r.files@[k].0@, r.files@[k].1@) == selected(
                entries@,
                boat_config,
                build_tag@,
                entries@.len() as int,
            )[k],
        r.nested@.len() == package_dirs(entries@, entries@.len() as int).len(),
        forall|k: int|
            0 <= k < r.nested@.len() ==> #[trigger] r.nested@[k]@ == package_dirs(
                entries@,
                entries@.len() as int,
            )[k],
{
    let mut files: Vec<(String, String)> = Vec::new();
    let mut nested: Vec<String> = Vec::new();
    let mut i: usize = 0;
    while i < entries.len()
        invariant
            i <= entries@.len(),
            files@.len() == selected(entries@, boat_config, build_tag@, i as int).len(),
            forall|k: int|
                0 <= k < files@.len() ==> (#[trigger] files@[k].0@, files@[k].1@) == selected(
                    entries@,
                    boat_config,
                    build_tag@,
                    i as int,
                )[k],
            nested@.len() == package_dirs(entries@, i as int).len(),
            forall|k: int|
                0 <= k < nested@.len() ==> #[trigger] nested@[k]@ == package_dirs(
                    entries@,
                    i as int,
                )[k],
        decreases entries@.len() - i,
    {
        let e = &entries[i];
        let ghost sel = selected(entries@, boat_config, build_tag@, i as int);
        let ghost dirs = package_dirs(entries@, i as int);
        let outer = !inside_package(entries, &e.rel);
        if e.is_dir && e.has_manifest && outer && chars_of(e.rel.as_str()).len() > 0 {
            nested.push(e.rel.clone());
        }
        assert forall|k: int| 0 <= k < nested@.len() implies #[trigger] nested@[k]@
            == package_dirs(entries@, i + 1)[k] by {
            if k < dirs.len() {
                assert(package_dirs(entries@, i + 1)[k] == dirs[k]);
            }
        }
        if e.is_file && !e.broken_link && outer && !is_manifest_file(e.rel.as_str()) {
            let content = match &e.content {
                Some(c) => Some(c.as_str()),
                None => None,
            };
            assert(opt_text(content) == opt_string(e.content));
            let (deploy, target) = should_include_target_with_boat_config(
                e.rel.as_str(),
                build_tag,
                boat_config,
                content,
            );
            if deploy {
                files.push((e.rel.clone(), target));
            }
        }
        assert forall|k: int| 0 <= k < files@.len() implies (#[trigger] files@[k].0@, files@[k].1@)
            == selected(entries@, boat_config, build_tag@, i + 1)[k] by {
            if k < sel.len() {
                assert(selected(entries@, boat_config, build_tag@, i + 1)[k] == sel[k]);
            }
        }
        i = i + 1;
    }
    Selection { files, nested }
}

} // verus!
