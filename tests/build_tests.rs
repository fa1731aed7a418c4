use forge::builder::{is_source_file, is_test_source, matches_pattern, Builder, MemberPlan};
use forge::cache::{BuildCache, FileInfo};
use forge::config::{Config, TestConfig};
use forge::error::ForgeError;
use forge::session::{BuildSession, CompileOutcome, FileObservation, Step};
use forge::workspace::Workspace;

fn strings(items: &[&str]) -> Vec<String> {
    items.iter().map(|s| s.to_string()).collect()
}

fn info(hash: &str, mtime: u64, size: u64) -> FileInfo {
    FileInfo { hash: hash.to_string(), mtime, size }
}

/// A workspace at `/ws` with the given members (default configurations) and
/// dependency table.
fn workspace(members: &[&str], deps: &[(&str, &[&str])]) -> Workspace {
    let mut cfg = Config::default_for_member("");
    cfg.workspace.members = strings(members);
    cfg.workspace.dependencies = deps.iter().map(|(n, d)| (n.to_string(), strings(d))).collect();
    Workspace::new("/ws", cfg, members.iter().map(|_| None).collect())
}

fn observation(object_exists: bool, source: FileInfo) -> FileObservation {
    FileObservation { object_exists, source_now: Some(source), headers: vec![] }
}

#[test]
fn patterns() {
    assert!(matches_pattern("net_test.cpp", "*_test.cpp"));
    assert!(!matches_pattern("net.cpp", "*_test.cpp"));
    assert!(matches_pattern("test_net.cpp", "test_*"));
    assert!(matches_pattern("my_test_helpers.cpp", "*test*"));
    assert!(!matches_pattern("main.cpp", "*test*"));
    assert!(matches_pattern("main.cpp", "main.cpp"));
    assert!(!matches_pattern("main.cc", "main.cpp"));
    assert!(matches_pattern("anything", "*"));
}

#[test]
fn test_sources_are_selected_and_excluded() {
    let cfg = TestConfig {
        patterns: strings(&["*_test.cpp", "test_*.cpp"]),
        test_dir: None,
        exclude: strings(&["slow_*"]),
        flags: vec![],
        libs: vec![],
        main: None,
    };
    assert!(is_test_source("net_test.cpp", &cfg));
    assert!(is_test_source("test_io.cpp", &cfg));
    assert!(!is_test_source("slow_net_test.cpp", &cfg));
    assert!(!is_test_source("net.cpp", &cfg));
}

#[test]
fn source_files_by_extension() {
    assert!(is_source_file("src/a.cpp"));
    assert!(is_source_file("src/b.c"));
    assert!(is_source_file("src/c.cc"));
    assert!(!is_source_file("src/d.h"));
    assert!(!is_source_file("src/.cpp"));
    assert!(!is_source_file("src.cpp/readme"));
    assert!(!is_source_file("makefile"));
}

#[test]
fn invalid_triple_is_refused() {
    let ws = workspace(&["a"], &[]);
    assert!(matches!(Builder::new(ws, Some("x86_64"), None, None, None), Err(ForgeError::InvalidTarget(_))));
}

#[test]
fn members_to_build_follow_dependencies() {
    let ws = workspace(&["app", "lib"], &[("app", &["lib"])]);
    let builder = Builder::new(ws, None, None, None, None).unwrap();
    let all: Vec<String> = builder.members_to_build(&vec![]).unwrap().iter().map(|m| m.name.clone()).collect();
    assert_eq!(all, strings(&["lib", "app"]));
    let only: Vec<String> =
        builder.members_to_build(&strings(&["app"])).unwrap().iter().map(|m| m.name.clone()).collect();
    assert_eq!(only, strings(&["app"]));
}

#[test]
fn member_plan_uses_profile_and_target() {
    let ws = workspace(&["core"], &[]);
    let builder = Builder::new(ws, None, None, None, Some("release")).unwrap();
    let member = &builder.workspace().members[0];
    let plan = builder.plan_member(member, &strings(&["/ws/core/src/a.cpp", "/ws/core/src/b.cpp"])).unwrap();
    assert_eq!(plan.target, "native");
    assert_eq!(plan.profile, "release");
    assert_eq!(plan.flags, strings(&["-Wall", "-std=c++17", "-march=native"]));
    assert_eq!(plan.objects, strings(&["/ws/build/core/a.o", "/ws/build/core/b.o"]));
    assert_eq!(plan.artifact, "/ws/build/core/release/core");
    assert_eq!(plan.artifact, member.get_target_path());
    assert_eq!(plan.include_dirs, member.get_include_dirs());
    assert_eq!(plan.compile_commands[1].program, "g++");
    assert_eq!(plan.compile_commands[1].args[1], "/ws/core/src/b.cpp");
    assert_eq!(plan.link_command.args[0..4], strings(&["/ws/build/core/a.o", "/ws/build/core/b.o", "-o", "/ws/build/core/release/core"])[..]);
}

#[test]
fn undefined_profile_is_an_error() {
    let ws = workspace(&["core"], &[]);
    let builder = Builder::new(ws, None, None, None, Some("fast")).unwrap();
    let member = &builder.workspace().members[0];
    assert!(matches!(builder.plan_member(member, &vec![]), Err(ForgeError::Build(m)) if m == "Profile not found: fast"));
}

#[test]
fn cross_target_comes_from_the_builder() {
    let ws = workspace(&["core"], &[]);
    let builder = Builder::new(ws, Some("aarch64-unknown-linux-gnu"), Some("/tc"), None, None).unwrap();
    let member = &builder.workspace().members[0];
    let plan = builder.plan_member(member, &strings(&["a.c"])).unwrap();
    assert_eq!(plan.target, "aarch64-unknown-linux-gnu");
    assert_eq!(plan.compile_commands[0].program, "/tc/aarch64-unknown-linux-g++");
}

#[test]
fn test_plan_adds_entry_file_and_test_flags() {
    let ws = workspace(&["core"], &[]);
    let builder = Builder::new(ws, None, None, None, None).unwrap();
    let member = &builder.workspace().members[0];
    let cfg = TestConfig {
        patterns: strings(&["*_test.cpp"]),
        test_dir: None,
        exclude: vec![],
        flags: strings(&["-DTESTING"]),
        libs: strings(&["gtest"]),
        main: Some("tests/main.cpp".to_string()),
    };
    assert!(matches!(builder.plan_tests(member, &cfg, &vec![], true), Ok(None)));
    let sources = strings(&["/ws/core/src/a_test.cpp"]);
    assert!(matches!(
        builder.plan_tests(member, &cfg, &sources, false),
        Err(ForgeError::Build(m)) if m == "Test main file not found: tests/main.cpp"
    ));
    let plan = builder.plan_tests(member, &cfg, &sources, true).unwrap().unwrap();
    assert_eq!(plan.sources, strings(&["/ws/core/src/a_test.cpp", "/ws/core/tests/main.cpp"]));
    assert_eq!(plan.objects, strings(&["/ws/build/core/tests/a_test.o", "/ws/build/core/tests/main.o"]));
    assert_eq!(plan.artifact, "/ws/build/core/tests/core");
    assert_eq!(plan.flags, strings(&["-Wall", "-std=c++17", "-DTESTING"]));
    assert!(plan.compile_commands[0].args.contains(&"-DTESTING".to_string()));
    assert!(plan.link_command.args.contains(&"-lgtest".to_string()));
}

/// The plan of member `name` with the given sources, built natively in debug.
fn plan_for(builder: &Builder, index: usize, sources: &[&str]) -> MemberPlan {
    builder.plan_member(&builder.workspace().members[index], &strings(sources)).unwrap()
}

#[test]
fn edited_file_alone_is_recompiled_and_both_are_linked() {
    let ws = workspace(&["core"], &[]);
    let builder = Builder::new(ws, None, None, None, None).unwrap();
    let plan = plan_for(&builder, 0, &["/ws/core/src/a.cpp", "/ws/core/src/b.cpp"]);
    let mut cache = BuildCache::new("/ws");
    for (src, f) in [("/ws/core/src/a.cpp", info("q", 10, 100)), ("/ws/core/src/b.cpp", info("q", 20, 200))] {
        cache.update(src, f, vec![], &plan.flags, "native", "debug", 1);
    }
    let mut session = BuildSession::new(cache, vec![plan]);
    assert!(matches!(session.next_step(), Step::Check { member: 0 }));
    // `a.cpp` was edited since the last build; `b.cpp` was not.
    session.checked(vec![observation(true, info("q", 11, 104)), observation(true, info("q", 20, 200))]);
    match session.next_step() {
        Step::Compile { member, files } => {
            assert_eq!(member, 0);
            assert_eq!(files, vec![0]);
        }
        other => panic!("expected compiles, got {:?}", other),
    }
    let outcome: CompileOutcome = Ok((info("q", 11, 104), vec![]));
    session.compiled(vec![outcome], 2);
    assert!(matches!(session.next_step(), Step::Link { member: 0 }));
    let link = &session.plans()[0].link_command;
    assert_eq!(link.args[0..2], strings(&["/ws/build/core/a.o", "/ws/build/core/b.o"])[..]);
    session.linked(Ok(()));
    assert!(matches!(session.next_step(), Step::Finished));
    let cache = session.into_cache();
    assert!(!cache.needs_rebuild(
        "/ws/core/src/a.cpp",
        true,
        &Some(info("q", 11, 104)),
        &vec![],
        &strings(&["-Wall", "-std=c++17"]),
        "native",
        "debug"
    ));
}

#[test]
fn library_compiles_finish_before_application_starts() {
    let ws = workspace(&["app", "lib"], &[("app", &["lib"])]);
    let builder = Builder::new(ws, None, None, None, None).unwrap();
    let order: Vec<usize> = {
        let members = builder.members_to_build(&vec![]).unwrap();
        members.iter().map(|m| builder.workspace().members.iter().position(|x| x.name == m.name).unwrap()).collect()
    };
    let plans: Vec<MemberPlan> = order
        .iter()
        .map(|&i| {
            let name = builder.workspace().members[i].name.clone();
            let src = format!("/ws/{}/src/{}.cpp", name, name);
            plan_for(&builder, i, &[src.as_str()])
        })
        .collect();
    assert_eq!(plans[0].name, "lib");
    assert_eq!(plans[1].name, "app");
    let mut session = BuildSession::new(BuildCache::new("/ws"), plans);
    let mut events: Vec<(String, &str)> = Vec::new();
    loop {
        match session.next_step() {
            Step::Check { member } => {
                session.checked(vec![observation(false, info("q", 1, 1))]);
                let _ = member;
            }
            Step::Compile { member, files } => {
                let name = session.plans()[member].name.clone();
                events.push((name.clone(), "start"));
                let results: Vec<CompileOutcome> = files.iter().map(|_| Ok((info("q", 1, 1), vec![]))).collect();
                session.compiled(results, 3);
                events.push((name, "finish"));
            }
            Step::Link { .. } => session.linked(Ok(())),
            Step::Finished => break,
            Step::Failed(e) => panic!("build failed: {:?}", e),
        }
    }
    let expected: Vec<(String, &str)> = vec![
        ("lib".to_string(), "start"),
        ("lib".to_string(), "finish"),
        ("app".to_string(), "start"),
        ("app".to_string(), "finish"),
    ];
    assert_eq!(events, expected);
}

#[test]
fn first_compile_failure_stops_the_build() {
    let ws = workspace(&["a", "b"], &[]);
    let builder = Builder::new(ws, None, None, None, None).unwrap();
    let plans = vec![plan_for(&builder, 0, &["x.c", "y.c"]), plan_for(&builder, 1, &["z.c"])];
    let mut session = BuildSession::new(BuildCache::new("/ws"), plans);
    session.checked(vec![observation(false, info("q", 1, 1)), observation(false, info("q", 2, 2))]);
    let results: Vec<CompileOutcome> = vec![Err("x.c:1: error".to_string()), Err("y.c:1: error".to_string())];
    session.compiled(results, 1);
    assert!(matches!(session.next_step(), Step::Failed(ForgeError::Compiler(m)) if m == "x.c:1: error"));
}

#[test]
fn link_failure_surfaces_linker_text() {
    let ws = workspace(&["a"], &[]);
    let builder = Builder::new(ws, None, None, None, None).unwrap();
    let mut session = BuildSession::new(BuildCache::new("/ws"), vec![plan_for(&builder, 0, &["x.c"])]);
    session.checked(vec![observation(true, info("q", 1, 1))]);
    assert!(matches!(session.next_step(), Step::Compile { files, .. } if files == vec![0]));
    session.compiled(vec![Ok((info("q", 1, 1), vec![]))], 1);
    session.linked(Err("undefined reference to `main'".to_string()));
    assert!(matches!(session.next_step(), Step::Failed(ForgeError::Compiler(m)) if m == "undefined reference to `main'"));
}

#[test]
fn empty_plan_list_finishes_at_once() {
    let session = BuildSession::new(BuildCache::new("/ws"), vec![]);
    assert!(matches!(session.next_step(), Step::Finished));
}
