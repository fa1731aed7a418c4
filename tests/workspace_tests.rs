use forge::config::{
    default_build_path, default_include_paths, default_profile, default_test_patterns, BuildProfile, Config,
    CrossConfig,
};
use forge::error::ForgeError;
use forge::workspace::{Workspace, WorkspaceMember};

fn strings(items: &[&str]) -> Vec<String> {
    items.iter().map(|s| s.to_string()).collect()
}

/// A workspace root without an artifact of its own, listing `members`, with
/// `deps` as its dependency table.
fn root_config(members: &[&str], exclude: &[&str], deps: &[(&str, &[&str])]) -> Config {
    let mut cfg = Config::default_for_member("");
    cfg.workspace.members = strings(members);
    cfg.workspace.exclude = strings(exclude);
    cfg.workspace.dependencies = deps.iter().map(|(n, d)| (n.to_string(), strings(d))).collect();
    cfg
}

fn workspace(members: &[&str], deps: &[(&str, &[&str])]) -> Workspace {
    let cfg = root_config(members, &[], deps);
    let configs = members.iter().map(|_| None).collect();
    Workspace::new("/ws", cfg, configs)
}

fn names(v: &[&WorkspaceMember]) -> Vec<String> {
    v.iter().map(|m| m.name.clone()).collect()
}

#[test]
fn chain_orders_dependencies_first() {
    let ws = workspace(&["C", "B", "A"], &[("A", &[]), ("B", &["A"]), ("C", &["B"])]);
    let order = ws.get_build_order().unwrap();
    assert_eq!(names(&order), strings(&["A", "B", "C"]));
}

#[test]
fn mutual_dependency_is_a_cycle() {
    let ws = workspace(&["A", "B"], &[("A", &["B"]), ("B", &["A"])]);
    match ws.get_build_order() {
        Err(ForgeError::DependencyCycle(name)) => assert!(name == "A" || name == "B"),
        other => panic!("expected a cycle, got {:?}", other.map(|v| names(&v))),
    }
}

#[test]
fn self_dependency_is_a_cycle() {
    let ws = workspace(&["A"], &[("A", &["A"])]);
    assert!(matches!(ws.get_build_order(), Err(ForgeError::DependencyCycle(n)) if n == "A"));
}

#[test]
fn unknown_dependency_is_reported() {
    let ws = workspace(&["app"], &[("app", &["missing"])]);
    assert!(matches!(ws.get_build_order(), Err(ForgeError::UnknownDependency(n)) if n == "missing"));
}

#[test]
fn members_without_dependencies_keep_listed_order() {
    let ws = workspace(&["x", "y", "z"], &[]);
    let order = ws.get_build_order().unwrap();
    assert_eq!(names(&order), strings(&["x", "y", "z"]));
}

#[test]
fn diamond_orders_each_after_its_dependencies() {
    let ws = workspace(
        &["app", "left", "right", "base"],
        &[("app", &["left", "right"]), ("left", &["base"]), ("right", &["base"])],
    );
    let order = names(&ws.get_build_order().unwrap());
    assert_eq!(order, strings(&["base", "left", "right", "app"]));
}

#[test]
fn new_adds_root_member_and_skips_excluded() {
    let mut cfg = root_config(&["lib", "tools", "app"], &["tools"], &[]);
    cfg.build.target = "main".to_string();
    let mut lib_cfg = Config::default_for_member("libcore");
    lib_cfg.build.compiler = "clang++".to_string();
    let ws = Workspace::new("/ws", cfg, vec![Some(lib_cfg), None]);
    assert_eq!(ws.members.len(), 3);
    assert_eq!(ws.members[0].name, "root");
    assert_eq!(ws.members[0].path, "/ws");
    assert_eq!(ws.members[0].config.build.target, "main");
    assert_eq!(ws.members[0].config.workspace.members, strings(&["lib", "tools", "app"]));
    assert_eq!(ws.members[0].config.profiles.len(), ws.root_config.profiles.len());
    assert_eq!(ws.members[1].name, "lib");
    assert_eq!(ws.members[1].path, "/ws/lib");
    assert_eq!(ws.members[1].config.build.compiler, "clang++");
    assert_eq!(ws.members[2].name, "app");
    assert_eq!(ws.members[2].config.build.target, "app");
    assert_eq!(ws.members[2].config.build.compiler, "g++");
    assert_eq!(ws.members[2].config.profiles.len(), 2);
    assert_eq!(ws.members[2].workspace_root, "/ws");
}

#[test]
fn listed_members_drop_excluded() {
    let cfg = root_config(&["a", "b", "c"], &["b"], &[]);
    assert_eq!(Workspace::listed_members(&cfg.workspace), strings(&["a", "c"]));
}

#[test]
fn filter_members_selects_by_name() {
    let ws = workspace(&["a", "b", "c"], &[]);
    assert_eq!(names(&ws.filter_members(&vec![])), strings(&["a", "b", "c"]));
    assert_eq!(names(&ws.filter_members(&strings(&["c", "a"]))), strings(&["a", "c"]));
    assert!(ws.filter_members(&strings(&["zzz"])).is_empty());
}

#[test]
fn set_profile_reaches_every_member() {
    let mut ws = workspace(&["a", "b"], &[]);
    ws.set_profile(Some("release".to_string()));
    assert_eq!(ws.selected_profile.as_deref(), Some("release"));
    assert!(ws.members.iter().all(|m| m.selected_profile.as_deref() == Some("release")));
}

#[test]
fn member_paths() {
    let ws = workspace(&["core"], &[]);
    let m = &ws.members[0];
    assert_eq!(m.get_source_dir(), "/ws/core/");
    assert_eq!(m.get_include_dirs(), vec![format!("/ws/core/{}", ["inc", "lude"].concat())]);
    assert_eq!(m.get_build_dir(), "/ws/build/core");
    assert_eq!(m.get_target_path(), "/ws/build/core/debug/core");
}

#[test]
fn target_path_with_cross_target_and_profile() {
    let mut ws = workspace(&["core"], &[]);
    ws.members[0].config.cross = Some(CrossConfig {
        target: "aarch64-unknown-linux-gnu".to_string(),
        toolchain: None,
        sysroot: None,
        extra_flags: vec![],
    });
    ws.set_profile(Some("release".to_string()));
    assert_eq!(ws.members[0].get_target_path(), "/ws/build/core/aarch64-unknown-linux-gnu/release/core");
}

#[test]
fn default_member_config() {
    let cfg = Config::default_for_member("tool");
    assert_eq!(cfg.build.compiler, "g++");
    assert_eq!(cfg.build.target, "tool");
    assert_eq!(cfg.build.default_profile, "debug");
    assert_eq!(cfg.compiler.flags, strings(&["-Wall", "-std=c++17"]));
    let release = cfg.get_profile(Some("release")).unwrap();
    assert_eq!(release.opt_level, "3");
    assert!(release.lto);
    assert_eq!(release.extra_flags, strings(&["-march=native"]));
    let debug = cfg.get_profile(None).unwrap();
    assert_eq!(debug.opt_level, "0");
    assert!(debug.debug_info);
    assert!(cfg.get_profile(Some("fast")).is_none());
    assert_eq!(cfg.testing.unwrap().patterns, strings(&["*_test.cpp", "test_*.cpp"]));
}

#[test]
fn defaults() {
    assert_eq!(default_profile(), "debug");
    assert_eq!(default_include_paths(), vec![["inc", "lude"].concat()]);
    assert_eq!(default_build_path(), "build");
    assert_eq!(default_test_patterns(), strings(&["*_test.cpp", "test_*.cpp"]));
}

#[test]
fn missing_default_profile_is_added() {
    let mut cfg = Config::default_for_member("x");
    cfg.build.default_profile = "dev".to_string();
    cfg.ensure_default_profile();
    assert_eq!(cfg.profiles.len(), 3);
    let dev: &BuildProfile = cfg.get_profile(None).unwrap();
    assert_eq!(dev.opt_level, "0");
    assert!(dev.debug_info && !dev.lto);
    cfg.ensure_default_profile();
    assert_eq!(cfg.profiles.len(), 3);
}
