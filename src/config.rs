//! Package manifests and the per-path inclusion decision.
use vstd::prelude::*;
use crate::paths::{expand_home, expanded};
use crate::keyed::{find_key, key_index, keys_unique, upsert, upserted};
use crate::tags::{has_start_marker, has_tag_marker};

verus! {

/// The rule for one file or directory of a package.
#[derive(Debug, Clone)]
pub struct TargetConfig {
    /// Target path relative to the target directory; the source's relative
    /// path when absent.
    pub target: Option<String>,
    /// Build tags this path is deployed for.
    pub tags: Vec<String>,
}

/// What happens to paths that no rule covers.
#[derive(Debug, Clone)]
pub struct DefaultConfig {
    /// Whether uncovered paths are deployed at all.
    pub include_all: bool,
    /// The one tag for which uncovered paths are deployed.
    pub default_tag: String,
}

/// A package manifest.
#[derive(Debug, Clone)]
pub struct BoatConfig {
    /// Rules keyed by path relative to the package root, keys unique.
    pub targets: Vec<(String, TargetConfig)>,
    /// Policy for uncovered paths.
    pub default: Option<DefaultConfig>,
    /// Target directory of this package, overriding the caller's.
    pub target_dir: Option<String>,
    /// Build tags of this package; the first is the implied one.
    pub build_tags: Option<Vec<String>>,
}

/// What one run is asked to do.
#[derive(Debug, Clone)]
pub struct Config {
    /// Package directory.
    pub package: String,
    /// Directory the package is deployed into, unless its manifest names one.
    pub target_dir: String,
    /// Build tag asked for; when absent, the manifest's first, else `default`.
    pub build_tag: Option<String>,
    /// Report what would be done, and change nothing.
    pub dry_run: bool,
    /// Overwrite what is in the way.
    pub force: bool,
    /// Copy existing targets back onto the package.
    pub adopt: bool,
    /// Remove the package's deployed files instead of deploying them.
    pub remove: bool,
}

/// The word `default`.
pub open spec fn default_word() -> Seq<char> {
    seq!['d', 'e', 'f', 'a', 'u', 'l', 't']
}

/// The tag that uncovered paths get when the manifest names none.
pub fn default_tag() -> (r: String)
    ensures
        r@ == default_word(),
{
    let r = String::from_str("default");
    proof {
        reveal_strlit("default");
    }
    assert(r@ =~= default_word());
    r
}

impl Default for DefaultConfig {
    fn default() -> (r: Self)
        ensures
            !r.include_all,
            r.default_tag@ == default_word(),
    {
        DefaultConfig { include_all: false, default_tag: default_tag() }
    }
}

/// Whether the string `t` is one of `tags`.
pub open spec fn has_tag(tags: Seq<String>, t: Seq<char>) -> bool {
    exists|k: int| 0 <= k < tags.len() && #[trigger] tags[k]@ == t
}

impl BoatConfig {
    /// Rule keys are unique.
    pub open spec fn wf(&self) -> bool {
        keys_unique(self.targets@)
    }

    /// Index of the rule keyed by `key`.
    pub open spec fn rule_index(&self, key: Seq<char>) -> Option<int> {
        key_index(self.targets@, key)
    }

    /// A manifest with no rules, no policy and no overrides.
    pub fn new() -> (r: Self)
        ensures
            r.wf(),
            r.targets@.len() == 0,
            r.default is None,
            r.target_dir is None,
            r.build_tags is None,
    {
        BoatConfig { targets: Vec::new(), default: None, target_dir: None, build_tags: None }
    }

    /// Sets the rule for `key`, replacing the one it had.
    pub fn set_target(&mut self, key: String, rule: TargetConfig)
        requires
            old(self).wf(),
        ensures
            final(self).wf(),
            final(self).default == old(self).default,
            final(self).target_dir == old(self).target_dir,
            final(self).build_tags == old(self).build_tags,
            upserted(old(self).targets@, final(self).targets@, key@, rule),
    {
        upsert(&mut self.targets, key, rule);
    }

    /// Finds the rule keyed by `key`.
    pub fn find_rule(&self, key: &String) -> (r: Option<usize>)
        ensures
            match r {
                Some(k) => k < self.targets@.len() && self.rule_index(key@) == Some(k as int),
                None => self.rule_index(key@) is None,
            },
    {
        find_key(&self.targets, key)
    }
}

/// `Some` of the text, or `None`.
pub open spec fn opt_text(c: Option<&str>) -> Option<Seq<char>> {
    match c {
        Some(x) => Some(x@),
        None => None,
    }
}

/// Index of the rule of the innermost proper ancestor directory of `rel`
/// whose separator lies before position `k`.
pub open spec fn parent_rule(cfg: &BoatConfig, rel: Seq<char>, k: int) -> Option<int>
    decreases k,
{
    if k <= 1 {
        None
    } else if rel[k - 1] == '/' && cfg.rule_index(rel.subrange(0, k - 1)) is Some {
        cfg.rule_index(rel.subrange(0, k - 1))
    } else {
        parent_rule(cfg, rel, k - 1)
    }
}

/// Whether the default policy of `cfg` takes uncovered paths for tag `t`.
pub open spec fn default_includes(cfg: &BoatConfig, t: Seq<char>) -> bool {
    match cfg.default {
        Some(d) => d.include_all && d.default_tag@ == t,
        None => false,
    }
}

/// Whether the path `rel` of the package is deployed for tag `t`, where
/// `content` is the text of the file when it is a readable regular file:
/// its own rule first, then the innermost ancestor directory with a rule,
/// then a start marker for `t` in its text, then the default policy.
pub open spec fn included(cfg: &BoatConfig, rel: Seq<char>, t: Seq<char>, content: Option<Seq<char>>) -> bool {
    match cfg.rule_index(rel) {
        Some(k) => has_tag(cfg.targets@[k].1.tags@, t),
        None => match parent_rule(cfg, rel, rel.len() as int) {
            Some(k) => has_tag(cfg.targets@[k].1.tags@, t),
            None => (content is Some && has_start_marker(content->Some_0, t)) || default_includes(cfg, t),
        },
    }
}

/// Where the path `rel` of the package goes, relative to the target
/// directory: the override of its own rule, else `rel` itself.
pub open spec fn target_of(cfg: &BoatConfig, rel: Seq<char>) -> Seq<char> {
    match cfg.rule_index(rel) {
        Some(k) => match cfg.targets@[k].1.target {
            Some(x) => x@,
            None => rel,
        },
        None => rel,
    }
}

/// Whether `tag` is one of `tags`.
pub fn contains_tag(tags: &Vec<String>, tag: &String) -> (r: bool)
    ensures
        r == has_tag(tags@, tag@),
{
    let mut k: usize = 0;
    while k < tags.len()
        invariant
            k <= tags@.len(),
            forall|m: int| 0 <= m < k ==> #[trigger] tags@[m]@ != tag@,
        decreases tags@.len() - k,
    {
        if tags[k] == *tag {
            return true;
        }
        k = k + 1;
    }
    false
}

/// Decides whether the file at `relative_path` of a package is deployed for
/// `build_tag`, and where to, relative to the target directory. `content`
/// is the file's text when it is a readable regular file.
pub fn should_include_target_with_boat_config(
    relative_path: &str,
    build_tag: &str,
    boat_config: &BoatConfig,
    content: Option<&str>,
) -> (r: (bool, String))
    ensures
        r.0 == included(boat_config, relative_path@, build_tag@, opt_text(content)),
        r.1@ == target_of(boat_config, relative_path@),
{
    let rel = relative_path.to_owned();
    let tag = build_tag.to_owned();
    match boat_config.find_rule(&rel) {
        Some(k) => {
            let rule = &boat_config.targets[k].1;
            let deploy = contains_tag(&rule.tags, &tag);
            let target = match &rule.target {
                Some(x) => x.clone(),
                None => rel,
            };
            return (deploy, target);
        },
        None => {},
    }
    let chars = crate::tags::chars_of(relative_path);
    let n = chars.len();
    let mut k = n;
    while k > 1
        invariant
            chars@ == rel@,
            rel@ == relative_path@,
            tag@ == build_tag@,
            boat_config.rule_index(rel@) is None,
            n == rel@.len(),
            k <= n,
            parent_rule(boat_config, rel@, n as int) == parent_rule(boat_config, rel@, k as int),
        decreases k,
    {
        if chars[k - 1] == '/' {
            let key = relative_path.substring_char(0, k - 1).to_owned();
            match boat_config.find_rule(&key) {
                Some(m) => {
                    return (contains_tag(&boat_config.targets[m].1.tags, &tag), rel);
                },
                None => {},
            }
        }
        k = k - 1;
    }
    let marked = match content {
        Some(c) => has_tag_marker(c, build_tag),
        None => false,
    };
    if marked {
        return (true, rel);
    }
    let deploy = match &boat_config.default {
        Some(d) => d.include_all && d.default_tag == tag,
        None => false,
    };
    (deploy, rel)
}

/// An explicit rule for a path decides alone: whatever its ancestors' rules,
/// its text or the default policy, the path is deployed exactly for the
/// tags that the rule lists.
pub proof fn explicit_rule_precedence(
    cfg: &BoatConfig,
    rel: Seq<char>,
    t: Seq<char>,
    content: Option<Seq<char>>,
)
    requires
        cfg.rule_index(rel) is Some,
    ensures
        included(cfg, rel, t, content) == has_tag(cfg.targets@[cfg.rule_index(rel)->Some_0].1.tags@, t),
        !has_tag(cfg.targets@[cfg.rule_index(rel)->Some_0].1.tags@, t) ==> !included(cfg, rel, t, content),
{
}

/// A path that no rule covers, directly or through an ancestor, and whose
/// text holds no start marker for the tag, follows the default policy: it
/// is deployed exactly when the policy includes all and the tag is the
/// policy's tag.
pub proof fn default_policy_inclusion(
    cfg: &BoatConfig,
    rel: Seq<char>,
    t: Seq<char>,
    content: Option<Seq<char>>,
)
    requires
        cfg.rule_index(rel) is None,
        parent_rule(cfg, rel, rel.len() as int) is None,
        !(content is Some && has_start_marker(content->Some_0, t)),
    ensures
        included(cfg, rel, t, content) == match cfg.default {
            Some(d) => d.include_all && d.default_tag@ == t,
            None => false,
        },
{
}

/// The build tag in force: the one asked for; else the first that the
/// manifest lists; else `default`.
pub open spec fn tag_in_force(requested: Option<Seq<char>>, cfg: &BoatConfig) -> Seq<char> {
    match requested {
        Some(t) => t,
        None => match cfg.build_tags {
            Some(tags) => if tags@.len() > 0 {
                tags@[0]@
            } else {
                default_word()
            },
            None => default_word(),
        },
    }
}

/// The build tag in force for `requested` under the manifest `cfg`.
pub fn effective_tag(requested: Option<&str>, cfg: &BoatConfig) -> (r: String)
    ensures
        r@ == tag_in_force(opt_text(requested), cfg),
{
    match requested {
        Some(t) => t.to_owned(),
        None => match &cfg.build_tags {
            Some(tags) => if tags.len() > 0 {
                tags[0].clone()
            } else {
                default_tag()
            },
            None => default_tag(),
        },
    }
}

/// The directory a package is deployed into: the manifest's own, with a
/// leading `~` standing for `home`, else the one given by the caller.
pub fn deployment_root(given: &str, cfg: &BoatConfig, home: &str) -> (r: String)
    ensures
        r@ == match cfg.target_dir {
            Some(d) => expanded(d@, home@),
            None => given@,
        },
{
    match &cfg.target_dir {
        Some(d) => expand_home(d.as_str(), home),
        None => given.to_owned(),
    }
}

} // verus!
