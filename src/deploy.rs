//! Deciding what deploying one discovered file takes, and the cache of
//! materialized targets that guards against overwriting manual edits.
use vstd::prelude::*;
use crate::hash::{compute_hash, text_hash};
use crate::keyed::{find_key, keys_unique, lookup, upsert, upserted};
use crate::paths::{path_has_prefix, path_starts_with};
use crate::tags::{has_start_marker, has_tag_marker, process_file_with_build_tags, processed};

verus! {

/// What was recorded when a target was materialized.
#[derive(Debug, Clone)]
pub struct CacheEntry {
    /// Source file path.
    pub source_path: String,
    /// Hash of the source text.
    pub source_hash: String,
    /// Deployed file path.
    pub deployed_path: String,
    /// Hash of the text that was written to the target.
    pub deployed_hash: String,
    /// Build tag the text was processed for.
    pub build_tag: String,
}

/// Records of materialized targets, keyed by target path, keys unique.
#[derive(Debug)]
pub struct Cache {
    pub entries: Vec<(String, CacheEntry)>,
}

impl Default for Cache {
    fn default() -> (r: Self)
        ensures
            r.wf(),
            r.entries@.len() == 0,
    {
        Cache { entries: Vec::new() }
    }
}

impl Cache {
    /// Keys are unique.
    pub open spec fn wf(&self) -> bool {
        keys_unique(self.entries@)
    }

    /// The record for the target at `key`.
    pub open spec fn entry(&self, key: Seq<char>) -> Option<CacheEntry> {
        lookup(self.entries@, key)
    }

    /// The record for the target at `key`.
    pub fn get(&self, key: &String) -> (r: Option<&CacheEntry>)
        ensures
            match r {
                Some(e) => self.entry(key@) == Some(*e),
                None => self.entry(key@) is None,
            },
    {
        match find_key(&self.entries, key) {
            Some(k) => Some(&self.entries[k].1),
            None => None,
        }
    }

    /// Records `entry` for the target at `key`, replacing any earlier one.
    pub fn upsert(&mut self, key: String, entry: CacheEntry)
        requires
            old(self).wf(),
        ensures
            final(self).wf(),
            upserted(old(self).entries@, final(self).entries@, key@, entry),
            final(self).entry(key@) == Some(entry),
            forall|other: Seq<char>|
                other != key@ ==> #[trigger] final(self).entry(other) == old(self).entry(other),
    {
        upsert(&mut self.entries, key, entry);
    }
}

/// What the filesystem shows of one item before it is deployed.
#[derive(Debug, Clone)]
pub struct ItemState {
    /// The source exists.
    pub source_exists: bool,
    /// The source's text, when it is readable as UTF-8.
    pub source_text: Option<String>,
    /// The source's canonical path, when it resolves.
    pub source_canonical: Option<String>,
    /// Canonical resolutions of the target's ancestor directories that are
    /// symbolic links.
    pub ancestor_links: Vec<String>,
    /// The target's parent directory exists.
    pub parent_exists: bool,
    /// Something exists at the target path.
    pub target_exists: bool,
    /// The target is a symbolic link.
    pub target_is_symlink: bool,
    /// Canonical resolution of the target, when it is a symbolic link that
    /// resolves.
    pub target_link: Option<String>,
    /// The target's text, when it is a regular file readable as UTF-8.
    pub target_text: Option<String>,
}

/// Why an item cannot be deployed.
#[derive(Debug, Clone, Copy, PartialEq, Eq)]
pub enum DeployError {
    /// The source vanished after discovery.
    MissingSource,
    /// Something that is not the deployed item is in the way.
    TargetExists,
    /// The materialized target was edited after it was deployed.
    ManualModification,
    /// The source's canonical path could not be had for the link.
    Unresolved,
}

/// The outcome of planning one item.
#[derive(Debug, Clone, Copy, PartialEq, Eq)]
pub enum Step {
    /// Nothing to do.
    AlreadyCorrect,
    /// The target is copied back onto the source.
    Adopt,
    /// The processed text is written to the target.
    Materialize,
    /// The target becomes a link to the source.
    Symlink,
}

/// What deploying an item takes.
#[derive(Debug, Clone)]
pub enum Action {
    /// Nothing: the target already shows the source.
    AlreadyCorrect,
    /// Copy the target's bytes onto the source.
    Adopt,
    /// Write `content` to the target and record `entry` for it.
    Materialize { content: String, entry: CacheEntry },
    /// Link the target to `link_to`.
    Symlink { link_to: String },
}

/// An action, with the preparation it needs.
#[derive(Debug, Clone)]
pub struct DeployPlan {
    pub action: Action,
    /// The target's parent directory must be created first.
    pub create_parent: bool,
    /// What is at the target path must be removed first.
    pub remove_existing: bool,
    /// A manually edited target is overwritten.
    pub overwrites_edit: bool,
}

/// An ancestor of the target is a link to a directory that holds the source.
pub open spec fn ancestor_covers(s: &ItemState) -> bool {
    s.source_canonical is Some && exists|k: int|
        0 <= k < s.ancestor_links@.len() && path_starts_with(
            s.source_canonical->Some_0@,
            #[trigger] s.ancestor_links@[k]@,
        )
}

/// The source's text holds a start marker for tag `t`: it is materialized,
/// not linked.
pub open spec fn uses_markers(s: &ItemState, t: Seq<char>) -> bool {
    s.source_text is Some && has_start_marker(s.source_text->Some_0@, t)
}

/// The target is a link that resolves to the source.
pub open spec fn links_to_source(s: &ItemState) -> bool {
    &&& s.target_is_symlink
    &&& s.target_link is Some
    &&& s.source_canonical is Some
    &&& s.target_link->Some_0@ == s.source_canonical->Some_0@
}

/// The target at `target` was materialized, and its text no longer has the
/// hash recorded for it.
pub open spec fn drifted(s: &ItemState, cache: &Cache, target: Seq<char>, t: Seq<char>) -> bool {
    &&& uses_markers(s, t)
    &&& !s.target_is_symlink
    &&& s.target_text is Some
    &&& cache.entry(target) is Some
    &&& text_hash(s.target_text->Some_0@) != cache.entry(target)->Some_0.deployed_hash@
}

/// The decision for deploying an item to `target` for tag `t`.
pub open spec fn plan_step(
    target: Seq<char>,
    t: Seq<char>,
    force: bool,
    adopt: bool,
    s: &ItemState,
    cache: &Cache,
) -> Result<Step, DeployError> {
    if !s.source_exists {
        Err(DeployError::MissingSource)
    } else if ancestor_covers(s) {
        Ok(Step::AlreadyCorrect)
    } else if adopt && s.target_exists {
        Ok(Step::Adopt)
    } else if s.target_exists && links_to_source(s) {
        Ok(Step::AlreadyCorrect)
    } else if s.target_exists && drifted(s, cache, target, t) && !force {
        Err(DeployError::ManualModification)
    } else if s.target_exists && !force {
        Err(DeployError::TargetExists)
    } else if uses_markers(s, t) {
        Ok(Step::Materialize)
    } else if s.source_canonical is Some {
        Ok(Step::Symlink)
    } else {
        Err(DeployError::Unresolved)
    }
}

/// `p` carries out step `st` for `source` at `target` with tag `t`.
pub open spec fn plan_matches(
    p: DeployPlan,
    st: Step,
    source: Seq<char>,
    target: Seq<char>,
    t: Seq<char>,
    s: &ItemState,
    cache: &Cache,
) -> bool {
    match st {
        Step::AlreadyCorrect => p.action is AlreadyCorrect && !p.create_parent && !p.remove_existing
            && !p.overwrites_edit,
        Step::Adopt => p.action is Adopt && !p.create_parent && !p.remove_existing && !p.overwrites_edit,
        Step::Materialize => {
            &&& p.create_parent == !s.parent_exists
            &&& p.remove_existing == s.target_exists
            &&& p.overwrites_edit == (s.target_exists && drifted(s, cache, target, t))
            &&& match p.action {
                Action::Materialize { content, entry } => {
                    &&& content@ == processed(s.source_text->Some_0@, t)
                    &&& entry.source_path@ == source
                    &&& entry.source_hash@ == text_hash(s.source_text->Some_0@)
                    &&& entry.deployed_path@ == target
                    &&& entry.deployed_hash@ == text_hash(content@)
                    &&& entry.build_tag@ == t
                },
                _ => false,
            }
        },
        Step::Symlink => {
            &&& p.create_parent == !s.parent_exists
            &&& p.remove_existing == s.target_exists
            &&& !p.overwrites_edit
            &&& match p.action {
                Action::Symlink { link_to } => link_to@ == s.source_canonical->Some_0@,
                _ => false,
            }
        },
    }
}

fn settled(action: Action) -> (r: DeployPlan)
    ensures
        r.action == action,
        !r.create_parent,
        !r.remove_existing,
        !r.overwrites_edit,
{
    DeployPlan { action, create_parent: false, remove_existing: false, overwrites_edit: false }
}

/// Decides how to deploy `source` at `target` for `build_tag`, from what
/// the filesystem shows (`state`) and the records of earlier
/// materializations (`cache`). `force` overwrites what is in the way;
/// `adopt` copies an existing target back onto the source.
pub fn plan_deployment(
    source: &str,
    target: &str,
    build_tag: &str,
    force: bool,
    adopt: bool,
    state: &ItemState,
    cache: &Cache,
) -> (r: Result<DeployPlan, DeployError>)
    ensures
        match plan_step(target@, build_tag@, force, adopt, state, cache) {
            Err(e) => r == Err::<DeployPlan, DeployError>(e),
            Ok(st) => r is Ok && plan_matches(r->Ok_0, st, source@, target@, build_tag@, state, cache),
        },
{
    if !state.source_exists {
        return Err(DeployError::MissingSource);
    }
    let covered = match &state.source_canonical {
        Some(c) => {
            let mut k: usize = 0;
            let mut found = false;
            while k < state.ancestor_links.len()
                invariant
                    k <= state.ancestor_links@.len(),
                    state.source_canonical == Some(*c),
                    found == exists|m: int|
                        0 <= m < k && path_starts_with(c@, #[trigger] state.ancestor_links@[m]@),
                decreases state.ancestor_links@.len() - k,
            {
                if path_has_prefix(c.as_str(), state.ancestor_links[k].as_str()) {
                    found = true;
                }
                k = k + 1;
            }
            found
        },
        None => false,
    };
    if covered {
        return Ok(settled(Action::AlreadyCorrect));
    }
    if adopt && state.target_exists {
        return Ok(settled(Action::Adopt));
    }
    let markers = match &state.source_text {
        Some(text) => has_tag_marker(text.as_str(), build_tag),
        None => false,
    };
    let mut overwrites_edit = false;
    if state.target_exists {
        let linked = state.target_is_symlink && match &state.target_link {
            Some(l) => match &state.source_canonical {
                Some(c) => *l == *c,
                None => false,
            },
            None => false,
        };
        if linked {
            return Ok(settled(Action::AlreadyCorrect));
        }
        let drift = markers && !state.target_is_symlink && match &state.target_text {
            Some(live) => {
                let key = target.to_owned();
                match cache.get(&key) {
                    Some(e) => !(compute_hash(live.as_str()) == e.deployed_hash),
                    None => false,
                }
            },
            None => false,
        };
        if drift && !force {
            return Err(DeployError::ManualModification);
        }
        if !force {
            return Err(DeployError::TargetExists);
        }
        overwrites_edit = drift;
    }
    let create_parent = !state.parent_exists;
    let remove_existing = state.target_exists;
    match &state.source_text {
        Some(text) => {
            if markers {
                let content = process_file_with_build_tags(text.as_str(), build_tag);
                let entry = CacheEntry {
                    source_path: source.to_owned(),
                    source_hash: compute_hash(text.as_str()),
                    deployed_path: target.to_owned(),
                    deployed_hash: compute_hash(content.as_str()),
                    build_tag: build_tag.to_owned(),
                };
                return Ok(
                    DeployPlan {
                        action: Action::Materialize { content, entry },
                        create_parent,
                        remove_existing,
                        overwrites_edit,
                    },
                );
            }
        },
        None => {},
    }
    match &state.source_canonical {
        Some(c) => Ok(
            DeployPlan {
                action: Action::Symlink { link_to: c.clone() },
                create_parent,
                remove_existing,
                overwrites_edit: false,
            },
        ),
        None => Err(DeployError::Unresolved),
    }
}

/// Deploying again changes nothing: once a linked item's target is the
/// link that the first deployment made, and neither source nor target was
/// touched in between, the second deployment (with the same flags, adopt
/// not set) finds the item already correct.
pub proof fn redeploy_linked_is_settled(
    target: Seq<char>,
    t: Seq<char>,
    force: bool,
    first: &ItemState,
    second: &ItemState,
    cache: &Cache,
    later: &Cache,
)
    requires
        plan_step(target, t, force, false, first, cache) == Ok::<Step, DeployError>(Step::Symlink),
        second.source_exists == first.source_exists,
        second.source_text == first.source_text,
        second.source_canonical == first.source_canonical,
        second.target_exists,
        second.target_is_symlink,
        second.target_link == first.source_canonical,
    ensures
        plan_step(target, t, force, false, second, later) == Ok::<Step, DeployError>(Step::AlreadyCorrect),
{
}

/// An item already reachable through a linked ancestor stays so: whatever
/// the flags and the cache, it is already correct.
pub proof fn covered_item_is_settled(
    target: Seq<char>,
    t: Seq<char>,
    force: bool,
    adopt: bool,
    s: &ItemState,
    cache: &Cache,
)
    requires
        s.source_exists,
        ancestor_covers(s),
    ensures
        plan_step(target, t, force, adopt, s, cache) == Ok::<Step, DeployError>(Step::AlreadyCorrect),
{
}

/// A materialized target whose text no longer has its recorded hash is not
/// overwritten without force; with force it is materialized again, and
/// recording the new deployment makes the cache hold the hash of the text
/// written.
pub proof fn drift_gating(
    source: Seq<char>,
    target: Seq<char>,
    t: Seq<char>,
    s: &ItemState,
    cache: &Cache,
    p: DeployPlan,
    after: &Cache,
)
    requires
        s.source_exists,
        !ancestor_covers(s),
        s.target_exists,
        !s.target_is_symlink,
        uses_markers(s, t),
        s.target_text is Some,
        cache.entry(target) is Some,
        text_hash(s.target_text->Some_0@) != cache.entry(target)->Some_0.deployed_hash@,
        plan_matches(p, Step::Materialize, source, target, t, s, cache),
        p.action is Materialize,
        upserted(cache.entries@, after.entries@, target, p.action->entry),
    ensures
        plan_step(target, t, false, false, s, cache) == Err::<Step, DeployError>(
            DeployError::ManualModification,
        ),
        plan_step(target, t, true, false, s, cache) == Ok::<Step, DeployError>(Step::Materialize),
        p.overwrites_edit,
        after.entry(target) is Some,
        after.entry(target)->Some_0.deployed_hash@ == text_hash(p.action->content@),
{
}

} // verus!
