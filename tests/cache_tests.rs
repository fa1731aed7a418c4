use forge::cache::{cache_file_name, BuildCache, CacheEntry, FileInfo};

fn info(hash: &str, mtime: u64, size: u64) -> FileInfo {
    FileInfo { hash: hash.to_string(), mtime, size }
}

fn strings(items: &[&str]) -> Vec<String> {
    items.iter().map(|s| s.to_string()).collect()
}

/// A cache holding one entry for `src/main.cpp` with one header.
fn cache_with_entry(quick: bool) -> BuildCache {
    let mut cache = BuildCache::new("/ws");
    cache.set_quick_check(quick);
    cache.update(
        "src/main.cpp",
        info("h1", 10, 100),
        vec![("hdr/a.h".to_string(), info("ha", 20, 200))],
        &strings(&["-Wall"]),
        "native",
        "debug",
        1000,
    );
    cache
}

fn observed(hash: &str, mtime: u64, size: u64) -> Option<FileInfo> {
    Some(info(hash, mtime, size))
}

#[test]
fn new_cache_is_empty_and_quick() {
    let cache = BuildCache::new("/ws");
    assert_eq!(cache.len(), 0);
    assert!(cache.quick_check());
    assert_eq!(cache.cache_dir(), "/ws/.forge_cache");
}

#[test]
fn no_entry_needs_rebuild() {
    let cache = BuildCache::new("/ws");
    assert!(cache.needs_rebuild(
        "src/main.cpp",
        true,
        &observed("h1", 10, 100),
        &vec![],
        &strings(&["-Wall"]),
        "native",
        "debug"
    ));
}

#[test]
fn matching_entry_needs_no_rebuild() {
    let cache = cache_with_entry(true);
    let headers = vec![("hdr/a.h".to_string(), observed("ha", 20, 200))];
    assert!(!cache.needs_rebuild(
        "src/main.cpp",
        true,
        &observed("h1", 10, 100),
        &headers,
        &strings(&["-Wall"]),
        "native",
        "debug"
    ));
}

#[test]
fn update_then_check_is_fresh_in_exact_mode() {
    let cache = cache_with_entry(false);
    let headers = vec![("hdr/a.h".to_string(), observed("ha", 20, 200))];
    assert!(!cache.needs_rebuild(
        "src/main.cpp",
        true,
        &observed("h1", 10, 100),
        &headers,
        &strings(&["-Wall"]),
        "native",
        "debug"
    ));
}

#[test]
fn changed_flag_target_or_profile_needs_rebuild() {
    let cache = cache_with_entry(true);
    let headers = vec![("hdr/a.h".to_string(), observed("ha", 20, 200))];
    let src = observed("h1", 10, 100);
    assert!(cache.needs_rebuild("src/main.cpp", true, &src, &headers, &strings(&["-Wall", "-O2"]), "native", "debug"));
    assert!(cache.needs_rebuild("src/main.cpp", true, &src, &headers, &strings(&["-Wall"]), "aarch64-unknown-linux", "debug"));
    assert!(cache.needs_rebuild("src/main.cpp", true, &src, &headers, &strings(&["-Wall"]), "native", "release"));
}

#[test]
fn missing_object_needs_rebuild() {
    let cache = cache_with_entry(true);
    let headers = vec![("hdr/a.h".to_string(), observed("ha", 20, 200))];
    assert!(cache.needs_rebuild(
        "src/main.cpp",
        false,
        &observed("h1", 10, 100),
        &headers,
        &strings(&["-Wall"]),
        "native",
        "debug"
    ));
}

#[test]
fn added_header_needs_rebuild() {
    let cache = cache_with_entry(true);
    let headers = vec![
        ("hdr/a.h".to_string(), observed("ha", 20, 200)),
        ("hdr/b.h".to_string(), observed("hb", 30, 300)),
    ];
    assert!(cache.needs_rebuild(
        "src/main.cpp",
        true,
        &observed("h1", 10, 100),
        &headers,
        &strings(&["-Wall"]),
        "native",
        "debug"
    ));
}

#[test]
fn removed_header_needs_rebuild() {
    let cache = cache_with_entry(true);
    assert!(cache.needs_rebuild(
        "src/main.cpp",
        true,
        &observed("h1", 10, 100),
        &vec![],
        &strings(&["-Wall"]),
        "native",
        "debug"
    ));
}

#[test]
fn quick_mode_compares_mtime_and_size() {
    let cache = cache_with_entry(true);
    let headers = vec![("hdr/a.h".to_string(), observed("ha", 20, 200))];
    let flags = strings(&["-Wall"]);
    // Same metadata, other content: quick mode does not notice.
    assert!(!cache.needs_rebuild("src/main.cpp", true, &observed("other", 10, 100), &headers, &flags, "native", "debug"));
    // Newer modification time of the source.
    assert!(cache.needs_rebuild("src/main.cpp", true, &observed("h1", 11, 100), &headers, &flags, "native", "debug"));
    // Other size of a header.
    let grown = vec![("hdr/a.h".to_string(), observed("ha", 20, 201))];
    assert!(cache.needs_rebuild("src/main.cpp", true, &observed("h1", 10, 100), &grown, &flags, "native", "debug"));
}

#[test]
fn exact_mode_compares_hashes() {
    let cache = cache_with_entry(false);
    let headers = vec![("hdr/a.h".to_string(), observed("ha", 20, 200))];
    let flags = strings(&["-Wall"]);
    // Touched but identical content: exact mode does not rebuild.
    assert!(!cache.needs_rebuild("src/main.cpp", true, &observed("h1", 99, 100), &headers, &flags, "native", "debug"));
    assert!(cache.needs_rebuild("src/main.cpp", true, &observed("h2", 10, 100), &headers, &flags, "native", "debug"));
}

#[test]
fn unreadable_file_counts_as_changed() {
    let cache = cache_with_entry(true);
    let headers = vec![("hdr/a.h".to_string(), observed("ha", 20, 200))];
    let flags = strings(&["-Wall"]);
    assert!(cache.needs_rebuild("src/main.cpp", true, &None, &headers, &flags, "native", "debug"));
    let lost = vec![("hdr/a.h".to_string(), None)];
    assert!(cache.needs_rebuild("src/main.cpp", true, &observed("h1", 10, 100), &lost, &flags, "native", "debug"));
}

#[test]
fn exact_fingerprint_is_sha256_hex() {
    let mut cache = BuildCache::new("/ws");
    cache.set_quick_check(false);
    let f = cache.file_info(5, 3, b"abc");
    assert_eq!(f.hash, "ba7816bf8f01cfea414140de5dae2223b00361a396177a9cb410ff61f20015ad");
    assert_eq!(f.mtime, 5);
    assert_eq!(f.size, 3);
}

#[test]
fn quick_fingerprint_skips_content() {
    let cache = BuildCache::new("/ws");
    let f = cache.file_info(5, 3, b"abc");
    assert_eq!(f.hash, "quick_check");
}

#[test]
fn update_replaces_whole_entry() {
    let mut cache = cache_with_entry(true);
    cache.update("src/main.cpp", info("h9", 11, 101), vec![], &strings(&[]), "native", "debug", 2000);
    assert_eq!(cache.len(), 1);
    let (path, entry) = &cache.entries()[0];
    assert_eq!(path, "src/main.cpp");
    assert_eq!(entry.includes.len(), 0);
    assert_eq!(entry.source.mtime, 11);
    assert_eq!(entry.timestamp, 2000);
    assert!(!cache.needs_rebuild("src/main.cpp", true, &observed("h9", 11, 101), &vec![], &strings(&[]), "native", "debug"));
}

#[test]
fn clean_then_load_nothing_is_empty() {
    let mut cache = cache_with_entry(true);
    cache.update("src/util.cpp", info("h2", 1, 2), vec![], &strings(&[]), "native", "debug", 5);
    assert_eq!(cache.len(), 2);
    cache.clean();
    cache.load(vec![]);
    assert_eq!(cache.len(), 0);
}

#[test]
fn load_adds_records_by_source_path() {
    let mut cache = BuildCache::new("/ws");
    let entry = CacheEntry {
        source: info("h1", 10, 100),
        includes: vec![],
        compiler_flags: strings(&["-O2"]),
        target: "native".to_string(),
        profile: "release".to_string(),
        timestamp: 7,
    };
    cache.load(vec![("a/util.cpp".to_string(), entry)]);
    assert_eq!(cache.len(), 1);
    assert!(!cache.needs_rebuild("a/util.cpp", true, &observed("h1", 10, 100), &vec![], &strings(&["-O2"]), "native", "release"));
    // The same file name in another directory has no entry.
    assert!(cache.needs_rebuild("b/util.cpp", true, &observed("h1", 10, 100), &vec![], &strings(&["-O2"]), "native", "release"));
}

#[test]
fn cache_file_names_keep_paths_apart() {
    assert_eq!(cache_file_name("src/a_b.cpp"), "src_sa__b.cpp.cache");
    assert_eq!(cache_file_name("main.cpp"), "main.cpp.cache");
    assert_ne!(cache_file_name("a/util.cpp"), cache_file_name("b/util.cpp"));
    assert_ne!(cache_file_name("a_s.c"), cache_file_name("a/.c"));
}
