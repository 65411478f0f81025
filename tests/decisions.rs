use towboat::config::{
    default_tag, deployment_root, effective_tag, should_include_target_with_boat_config, BoatConfig, DefaultConfig, TargetConfig,
};
use towboat::deploy::{plan_deployment, Action, Cache, DeployError, ItemState};
use towboat::discover::{select_files, WalkEntry};
use towboat::hash::compute_hash;
use towboat::paths::{ancestor_dirs, expand_home, find_boat_config};
use towboat::remove::plan_removal;

fn strings(v: &[&str]) -> Vec<String> {
    v.iter().map(|s| s.to_string()).collect()
}

fn rule(target: Option<&str>, tags: &[&str]) -> TargetConfig {
    TargetConfig { target: target.map(|s| s.to_string()), tags: strings(tags) }
}

fn file(rel: &str, content: &str) -> WalkEntry {
    WalkEntry {
        rel: rel.to_string(),
        is_dir: false,
        is_file: true,
        broken_link: false,
        has_manifest: false,
        content: Some(content.to_string()),
    }
}

fn dir(rel: &str, has_manifest: bool) -> WalkEntry {
    WalkEntry {
        rel: rel.to_string(),
        is_dir: true,
        is_file: false,
        broken_link: false,
        has_manifest,
        content: None,
    }
}

#[test]
fn test_should_include_target_with_boat_config() {
    let mut boat_config = BoatConfig::new();
    boat_config.set_target(".bashrc".to_string(), rule(Some(".bashrc"), &["linux", "macos"]));
    boat_config.default = Some(DefaultConfig {
        include_all: false,
        default_tag: "default".to_string(),
    });

    let (should_include, target_path) =
        should_include_target_with_boat_config(".bashrc", "linux", &boat_config, Some("content"));
    assert!(should_include);
    assert_eq!(target_path, ".bashrc");

    let (should_include, _) =
        should_include_target_with_boat_config(".bashrc", "windows", &boat_config, Some("content"));
    assert!(!should_include);
}

#[test]
fn test_discover_files_with_boat_config() {
    let mut boat_config = BoatConfig::new();
    boat_config.set_target(".bashrc".to_string(), rule(Some(".bashrc"), &["linux"]));
    boat_config.set_target(".vimrc".to_string(), rule(Some(".vimrc"), &["macos"]));
    boat_config.default = Some(DefaultConfig { include_all: false, default_tag: default_tag() });

    let entries = vec![
        dir("", true),
        file("boat.toml", "[targets]\n"),
        file(".bashrc", "linux bash content"),
        file(".vimrc", "macos vim content"),
        file("README.md", "readme content"),
    ];
    let files = select_files(&entries, &boat_config, "linux").files;

    assert_eq!(files.len(), 1);
    let (source_path, target_path) = &files[0];
    assert_eq!(source_path, ".bashrc");
    assert_eq!(target_path, ".bashrc");
}

fn fresh_state(source_text: &str) -> ItemState {
    ItemState {
        source_exists: true,
        source_text: Some(source_text.to_string()),
        source_canonical: Some("/pkg/source.sh".to_string()),
        ancestor_links: Vec::new(),
        parent_exists: true,
        target_exists: false,
        target_is_symlink: false,
        target_link: None,
        target_text: None,
    }
}

#[test]
fn test_cache_detects_modified_file() {
    let source_content = "# Common content\n# {linux-\nexport LINUX_VAR=1\n# -linux}\n";
    let target = "/home/target.sh";
    let mut cache = Cache::default();

    let plan = plan_deployment("/pkg/source.sh", target, "linux", false, false, &fresh_state(source_content), &cache)
        .unwrap();
    let deployed_content = match plan.action {
        Action::Materialize { content, entry } => {
            cache.upsert(target.to_string(), entry);
            content
        }
        _ => panic!("expected a materialized file"),
    };
    assert!(deployed_content.contains("export LINUX_VAR=1"));
    assert!(cache.get(&target.to_string()).is_some());

    let modified_content = "# Modified by user\nexport USER_VAR=2\n";
    let mut edited = fresh_state(source_content);
    edited.target_exists = true;
    edited.target_text = Some(modified_content.to_string());

    let result = plan_deployment("/pkg/source.sh", target, "linux", false, false, &edited, &cache);
    assert_eq!(result.unwrap_err(), DeployError::ManualModification);

    let plan = plan_deployment("/pkg/source.sh", target, "linux", true, false, &edited, &cache).unwrap();
    assert!(plan.overwrites_edit);
    assert!(plan.remove_existing);
    match plan.action {
        Action::Materialize { content, entry } => {
            assert!(content.contains("export LINUX_VAR=1"));
            assert!(!content.contains("USER_VAR"));
            assert_eq!(entry.deployed_hash, compute_hash(&content));
            cache.upsert(target.to_string(), entry);
            assert_eq!(cache.get(&target.to_string()).unwrap().deployed_hash, compute_hash(&content));
        }
        _ => panic!("expected a materialized file"),
    }
}

#[test]
fn materialized_entry_records_provenance() {
    let text = "x\n# {linux-\ny\n# -linux}\n";
    let plan = plan_deployment("/pkg/a", "/home/a", "linux", false, false, &fresh_state(text), &Cache::default())
        .unwrap();
    match plan.action {
        Action::Materialize { content, entry } => {
            assert_eq!(content, "x\ny\n");
            assert_eq!(entry.source_path, "/pkg/a");
            assert_eq!(entry.deployed_path, "/home/a");
            assert_eq!(entry.source_hash, compute_hash(text));
            assert_eq!(entry.deployed_hash, compute_hash("x\ny\n"));
            assert_eq!(entry.build_tag, "linux");
        }
        _ => panic!("expected a materialized file"),
    }
}

#[test]
fn second_deployment_of_link_is_already_correct() {
    let cache = Cache::default();
    let mut state = fresh_state("plain\n");
    state.parent_exists = false;
    let plan = plan_deployment("/pkg/source.sh", "/home/s", "linux", false, false, &state, &cache).unwrap();
    assert!(plan.create_parent);
    match &plan.action {
        Action::Symlink { link_to } => assert_eq!(link_to, "/pkg/source.sh"),
        _ => panic!("expected a link"),
    }
    state.parent_exists = true;
    state.target_exists = true;
    state.target_is_symlink = true;
    state.target_link = Some("/pkg/source.sh".to_string());
    let again = plan_deployment("/pkg/source.sh", "/home/s", "linux", false, false, &state, &cache).unwrap();
    assert!(matches!(again.action, Action::AlreadyCorrect));
    assert!(!again.remove_existing && !again.create_parent);
}

#[test]
fn linked_ancestor_makes_item_already_correct() {
    let mut state = fresh_state("plain\n");
    state.source_canonical = Some("/pkg/conf/app/x".to_string());
    state.ancestor_links = strings(&["/other", "/pkg/conf"]);
    state.target_exists = true;
    let plan = plan_deployment("/pkg/conf/app/x", "/home/.conf/app/x", "linux", false, false, &state, &Cache::default())
        .unwrap();
    assert!(matches!(plan.action, Action::AlreadyCorrect));

    state.ancestor_links = strings(&["/pkg/con"]);
    let result = plan_deployment("/pkg/conf/app/x", "/home/.conf/app/x", "linux", false, false, &state, &Cache::default());
    assert_eq!(result.unwrap_err(), DeployError::TargetExists);
}

#[test]
fn missing_source_fails() {
    let mut state = fresh_state("plain\n");
    state.source_exists = false;
    let result = plan_deployment("/pkg/a", "/home/a", "linux", true, true, &state, &Cache::default());
    assert_eq!(result.unwrap_err(), DeployError::MissingSource);
}

#[test]
fn existing_target_without_force_fails() {
    let mut state = fresh_state("plain\n");
    state.target_exists = true;
    state.target_text = Some("other".to_string());
    let result = plan_deployment("/pkg/a", "/home/a", "linux", false, false, &state, &Cache::default());
    assert_eq!(result.unwrap_err(), DeployError::TargetExists);
    let forced = plan_deployment("/pkg/a", "/home/a", "linux", true, false, &state, &Cache::default()).unwrap();
    assert!(forced.remove_existing);
    assert!(!forced.overwrites_edit);
}

#[test]
fn adopt_takes_existing_target() {
    let mut state = fresh_state("plain\n");
    state.target_exists = true;
    let plan = plan_deployment("/pkg/a", "/home/a", "linux", false, true, &state, &Cache::default()).unwrap();
    assert!(matches!(plan.action, Action::Adopt));
}

#[test]
fn unresolved_source_cannot_be_linked() {
    let mut state = fresh_state("plain\n");
    state.source_canonical = None;
    let result = plan_deployment("/pkg/a", "/home/a", "linux", false, false, &state, &Cache::default());
    assert_eq!(result.unwrap_err(), DeployError::Unresolved);
}

#[test]
fn explicit_rule_overrides_directory_and_markers() {
    let mut cfg = BoatConfig::new();
    cfg.set_target("conf".to_string(), rule(None, &["macos"]));
    cfg.set_target("conf/app.toml".to_string(), rule(Some("app.toml"), &["linux"]));
    let marked = "# {macos-\nx\n# -macos}\n";
    let (deploy, target) = should_include_target_with_boat_config("conf/app.toml", "macos", &cfg, Some(marked));
    assert!(!deploy);
    assert_eq!(target, "app.toml");
    let (deploy, _) = should_include_target_with_boat_config("conf/app.toml", "linux", &cfg, None);
    assert!(deploy);
}

#[test]
fn directory_rule_is_inherited_by_innermost_ancestor() {
    let mut cfg = BoatConfig::new();
    cfg.set_target("a".to_string(), rule(Some("elsewhere"), &["linux"]));
    cfg.set_target("a/b".to_string(), rule(None, &["macos"]));
    let (deploy, target) = should_include_target_with_boat_config("a/b/c.txt", "macos", &cfg, None);
    assert!(deploy);
    assert_eq!(target, "a/b/c.txt");
    let (deploy, _) = should_include_target_with_boat_config("a/b/c.txt", "linux", &cfg, None);
    assert!(!deploy);
    let (deploy, target) = should_include_target_with_boat_config("a/x", "linux", &cfg, None);
    assert!(deploy);
    assert_eq!(target, "a/x");
}

#[test]
fn markers_include_uncovered_file() {
    let cfg = BoatConfig::new();
    let marked = "# {linux-\nx\n# -linux}\n";
    assert!(should_include_target_with_boat_config("f", "linux", &cfg, Some(marked)).0);
    assert!(!should_include_target_with_boat_config("f", "macos", &cfg, Some(marked)).0);
}

#[test]
fn default_policy_includes_only_default_tag() {
    let mut cfg = BoatConfig::new();
    cfg.default = Some(DefaultConfig { include_all: true, default_tag: "default".to_string() });
    assert!(should_include_target_with_boat_config("f", "default", &cfg, Some("x")).0);
    assert!(!should_include_target_with_boat_config("f", "linux", &cfg, Some("x")).0);
    cfg.default = Some(DefaultConfig::default());
    assert!(!should_include_target_with_boat_config("f", "default", &cfg, Some("x")).0);
    assert_eq!(default_tag(), "default");
}

#[test]
fn set_target_replaces_rule() {
    let mut cfg = BoatConfig::new();
    cfg.set_target("f".to_string(), rule(None, &["linux"]));
    cfg.set_target("f".to_string(), rule(None, &["macos"]));
    assert_eq!(cfg.targets.len(), 1);
    assert!(should_include_target_with_boat_config("f", "macos", &cfg, None).0);
}

#[test]
fn nested_packages_are_left_to_their_manifests() {
    let mut cfg = BoatConfig::new();
    cfg.default = Some(DefaultConfig { include_all: true, default_tag: "linux".to_string() });
    let mut broken = file("dangling", "");
    broken.broken_link = true;
    broken.content = None;
    let entries = vec![
        dir("", true),
        file("boat.toml", ""),
        file("top", "t"),
        dir("sub", true),
        file("sub/boat.toml", ""),
        file("sub/inner", "i"),
        dir("subway", false),
        file("subway/x", "x"),
        broken,
    ];
    let sel = select_files(&entries, &cfg, "linux");
    let rels: Vec<&str> = sel.files.iter().map(|p| p.0.as_str()).collect();
    assert_eq!(rels, vec!["top", "subway/x"]);
    assert_eq!(sel.nested, vec!["sub".to_string()]);
}

#[test]
fn removal_prunes_chain_of_empty_directories() {
    let plan = plan_removal(true, &vec![0, 0, 3, 0]);
    assert!(plan.remove_target);
    assert_eq!(plan.prune, 2);
    let plan = plan_removal(true, &vec![0, 0]);
    assert_eq!(plan.prune, 2);
    let plan = plan_removal(true, &vec![1, 0]);
    assert_eq!(plan.prune, 0);
    let plan = plan_removal(false, &vec![0, 0]);
    assert!(!plan.remove_target);
    assert_eq!(plan.prune, 0);
}

#[test]
fn ancestors_and_manifest_lookup() {
    assert_eq!(ancestor_dirs("/a/b"), strings(&["/a/b", "/a", "/"]));
    assert_eq!(ancestor_dirs("a/b"), strings(&["a/b", "a", ""]));
    assert_eq!(find_boat_config("/a/b", &vec![false, true, true]), Some("/a/boat.toml".to_string()));
    assert_eq!(find_boat_config("/a/b", &vec![false, false, true]), Some("/boat.toml".to_string()));
    assert_eq!(find_boat_config("a", &vec![false, true]), Some("boat.toml".to_string()));
    assert_eq!(find_boat_config("/a/b", &vec![false, false, false]), None);
}

#[test]
fn home_expansion_and_deployment_root() {
    assert_eq!(expand_home("~", "/home/u"), "/home/u");
    assert_eq!(expand_home("~/.config", "/home/u"), "/home/u/.config");
    assert_eq!(expand_home("~x/y", "/home/u"), "~x/y");
    assert_eq!(expand_home("/etc", "/home/u"), "/etc");
    let mut cfg = BoatConfig::new();
    assert_eq!(deployment_root("/t", &cfg, "/home/u"), "/t");
    cfg.target_dir = Some("~/.config".to_string());
    assert_eq!(deployment_root("/t", &cfg, "/home/u"), "/home/u/.config");
}

#[test]
fn build_tag_in_force() {
    let mut cfg = BoatConfig::new();
    assert_eq!(effective_tag(None, &cfg), "default");
    cfg.build_tags = Some(strings(&["linux", "macos"]));
    assert_eq!(effective_tag(None, &cfg), "linux");
    assert_eq!(effective_tag(Some("macos"), &cfg), "macos");
    cfg.build_tags = Some(Vec::new());
    assert_eq!(effective_tag(None, &cfg), "default");
}

#[test]
fn test_nested_structure_discovery() {
    let mut boat_config = BoatConfig::new();
    boat_config.set_target(".bashrc.linux".to_string(), rule(None, &["linux"]));
    boat_config.set_target(".bashrc.macos".to_string(), rule(None, &["macos"]));
    boat_config.set_target(".gitconfig".to_string(), rule(None, &["linux", "macos"]));
    boat_config.set_target(".config/nvim/init.vim.linux".to_string(), rule(None, &["linux"]));
    boat_config.set_target(".config/nvim/init.vim.macos".to_string(), rule(None, &["macos"]));
    boat_config.set_target(".ssh/config".to_string(), rule(None, &["linux", "macos"]));
    boat_config.set_target(".config/app/config.toml".to_string(), rule(None, &["linux", "macos"]));

    let entries = vec![
        dir("", true),
        file("boat.toml", ""),
        file(".bashrc.linux", "# Linux-specific bash configuration\n"),
        file(".bashrc.macos", "# macOS-specific bash configuration\n"),
        file(".gitconfig", "[user]\n"),
        dir(".config", false),
        dir(".config/nvim", false),
        file(".config/nvim/init.vim.linux", "set number\n"),
        file(".config/nvim/init.vim.macos", "set number\n"),
        dir(".config/app", false),
        file(".config/app/config.toml", "[font]\n"),
        dir(".ssh", false),
        file(".ssh/config", "Host *\n"),
    ];

    let linux_files = select_files(&entries, &boat_config, "linux").files;
    let macos_files = select_files(&entries, &boat_config, "macos").files;

    assert!(linux_files.len() >= 3);
    assert!(macos_files.len() >= 3);

    let name = |p: &String| p.rsplit('/').next().unwrap_or("").to_string();
    let linux_names: Vec<String> = linux_files.iter().map(|(p, _)| name(p)).collect();
    let macos_names: Vec<String> = macos_files.iter().map(|(p, _)| name(p)).collect();

    assert!(linux_names.contains(&".bashrc.linux".to_string()));
    assert!(macos_names.contains(&".bashrc.macos".to_string()));
    assert_eq!(linux_files.len(), 5);
    assert_eq!(macos_files.len(), 5);
}
