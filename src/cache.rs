use sha2::Digest;
use vstd::prelude::*;

use crate::paths::{join_path, path_join};
use crate::text::{clone_strings, same_text, strings_equal, strs};

verus! {

/// The digest of a file's content as SHA-256 written in lowercase hex.
pub uninterp spec fn sha256_hex(data: Seq<u8>) -> Seq<char>;

/// Relies on sha2's `Sha256::digest` (through `Digest::digest`) for the
/// SHA-256 digest of `data`, and on its `LowerHex` output for the hex text.
#[verifier::external_body]
fn content_digest(data: &[u8]) -> (r: String)
    ensures
        r@ == sha256_hex(data@),
{
    format!("{:x}", sha2::Sha256::digest(data))
}

/// The hash text recorded for every file fingerprinted in quick mode, where
/// the content is never read.
pub open spec fn quick_mark() -> Seq<char> {
    "quick_check"@
}

/// Name of the directory, under the workspace root, that holds the cache.
pub open spec fn cache_dir_name() -> Seq<char> {
    ".forge_cache"@
}

/// What is known of one file at one moment: a content hash (exact mode), and
/// its modification time and size (both modes).
#[derive(Debug)]
pub struct FileInfo {
    pub hash: String,
    pub mtime: u64,
    pub size: u64,
}

/// Mathematical value of a [`FileInfo`].
pub struct FileInfoView {
    pub hash: Seq<char>,
    pub mtime: u64,
    pub size: u64,
}

impl View for FileInfo {
    type V = FileInfoView;

    open spec fn view(&self) -> FileInfoView {
        FileInfoView { hash: self.hash@, mtime: self.mtime, size: self.size }
    }
}

/// The fingerprint of a file whose metadata reads `mtime` and `size` and whose
/// content is `content`; in quick mode the content plays no part.
pub open spec fn fingerprint_of(quick: bool, mtime: u64, size: u64, content: Seq<u8>) -> FileInfoView {
    FileInfoView {
        hash: if quick {
            quick_mark()
        } else {
            sha256_hex(content)
        },
        mtime,
        size,
    }
}

/// Whether a file recorded as `recorded` counts as changed, given what is
/// observed of it now (`None`: it could not be examined, which always counts
/// as a change). Quick mode compares modification time and size, exact mode
/// compares content hashes.
pub open spec fn info_changed(quick: bool, recorded: FileInfoView, now: Option<FileInfoView>) -> bool {
    match now {
        None => true,
        Some(n) => if quick {
            n.mtime != recorded.mtime || n.size != recorded.size
        } else {
            n.hash != recorded.hash
        },
    }
}

pub open spec fn opt_info(o: Option<FileInfo>) -> Option<FileInfoView> {
    match o {
        Some(i) => Some(i@),
        None => None,
    }
}

/// Paths paired with their fingerprints, as values.
pub open spec fn include_records(s: Seq<(String, FileInfo)>) -> Seq<(Seq<char>, FileInfoView)> {
    s.map_values(|p: (String, FileInfo)| (p.0@, p.1@))
}

/// Paths paired with what is observed of them now, as values.
pub open spec fn include_observations(s: Seq<(String, Option<FileInfo>)>) -> Seq<(Seq<char>, Option<FileInfoView>)> {
    s.map_values(|p: (String, Option<FileInfo>)| (p.0@, opt_info(p.1)))
}

/// The persisted record of the last successful build of one source file.
#[derive(Debug)]
pub struct CacheEntry {
    /// Fingerprint of the source file itself.
    pub source: FileInfo,
    /// Each header discovered in the source, with its fingerprint.
    pub includes: Vec<(String, FileInfo)>,
    pub compiler_flags: Vec<String>,
    pub target: String,
    pub profile: String,
    /// Seconds since the Unix epoch when the entry was made.
    pub timestamp: u64,
}

/// Mathematical value of a [`CacheEntry`].
pub struct CacheEntryView {
    pub source: FileInfoView,
    pub includes: Seq<(Seq<char>, FileInfoView)>,
    pub flags: Seq<Seq<char>>,
    pub target: Seq<char>,
    pub profile: Seq<char>,
    pub timestamp: u64,
}

impl View for CacheEntry {
    type V = CacheEntryView;

    open spec fn view(&self) -> CacheEntryView {
        CacheEntryView {
            source: self.source@,
            includes: include_records(self.includes@),
            flags: strs(self.compiler_flags@),
            target: self.target@,
            profile: self.profile@,
            timestamp: self.timestamp,
        }
    }
}

/// A header counts as unchanged when some recorded fingerprint for its path
/// is unchanged given what is observed of it now.
pub open spec fn include_fresh(
    quick: bool,
    recorded: Seq<(Seq<char>, FileInfoView)>,
    path: Seq<char>,
    now: Option<FileInfoView>,
) -> bool {
    exists|j: int|
        0 <= j < recorded.len() && #[trigger] recorded[j].0 == path && !info_changed(
            quick,
            recorded[j].1,
            now,
        )
}

/// Whether the entry `e` fails to certify a build of its source with the
/// given flags, target and profile, given what is observed now of the source
/// and of each header the source currently has.
pub open spec fn entry_stale(
    quick: bool,
    e: CacheEntryView,
    source_now: Option<FileInfoView>,
    includes: Seq<(Seq<char>, Option<FileInfoView>)>,
    flags: Seq<Seq<char>>,
    target: Seq<char>,
    profile: Seq<char>,
) -> bool {
    ||| e.flags != flags
    ||| e.target != target
    ||| e.profile != profile
    ||| info_changed(quick, e.source, source_now)
    ||| exists|i: int|
        0 <= i < includes.len() && !include_fresh(
            quick,
            e.includes,
            #[trigger] includes[i].0,
            includes[i].1,
        )
    ||| e.includes.len() != includes.len()
}

/// Mathematical value of a [`BuildCache`].
pub struct BuildCacheView {
    pub cache_dir: Seq<char>,
    pub entries: Map<Seq<char>, CacheEntryView>,
    pub quick_check: bool,
}

/// Whether `source` must be rebuilt: its object is missing, it has no entry,
/// or its entry is stale.
pub open spec fn rebuild_needed(
    cache: BuildCacheView,
    source: Seq<char>,
    object_exists: bool,
    source_now: Option<FileInfoView>,
    includes: Seq<(Seq<char>, Option<FileInfoView>)>,
    flags: Seq<Seq<char>>,
    target: Seq<char>,
    profile: Seq<char>,
) -> bool {
    ||| !object_exists
    ||| !cache.entries.contains_key(source)
    ||| entry_stale(
        cache.quick_check,
        cache.entries[source],
        source_now,
        includes,
        flags,
        target,
        profile,
    )
}

/// The entry that `update` records.
pub open spec fn entry_of(
    source_info: FileInfoView,
    includes: Seq<(Seq<char>, FileInfoView)>,
    flags: Seq<Seq<char>>,
    target: Seq<char>,
    profile: Seq<char>,
    timestamp: u64,
) -> CacheEntryView {
    CacheEntryView { source: source_info, includes, flags, target, profile, timestamp }
}

/// Source paths paired with their entries, as values.
pub open spec fn include_entries(s: Seq<(String, CacheEntry)>) -> Seq<(Seq<char>, CacheEntryView)> {
    s.map_values(|p: (String, CacheEntry)| (p.0@, p.1@))
}

/// The entries after loading `records` into `entries`, one after another, each
/// replacing any entry for the same source.
pub open spec fn loaded(
    entries: Map<Seq<char>, CacheEntryView>,
    records: Seq<(Seq<char>, CacheEntryView)>,
) -> Map<Seq<char>, CacheEntryView>
    decreases records.len(),
{
    if records.len() == 0 {
        entries
    } else {
        loaded(entries, records.drop_last()).insert(records.last().0, records.last().1)
    }
}

/// The entries held in `s`, keyed by source path.
pub open spec fn entry_map(s: Seq<(String, CacheEntry)>) -> Map<Seq<char>, CacheEntryView> {
    Map::new(
        |k: Seq<char>| exists|i: int| 0 <= i < s.len() && #[trigger] s[i].0@ == k,
        |k: Seq<char>| s[choose|i: int| 0 <= i < s.len() && #[trigger] s[i].0@ == k].1@,
    )
}

pub open spec fn distinct_keys(s: Seq<(String, CacheEntry)>) -> bool {
    forall|i: int, j: int|
        0 <= i < s.len() && 0 <= j < s.len() && i != j ==> #[trigger] s[i].0@ != #[trigger] s[j].0@
}

proof fn lemma_entry_map_at(s: Seq<(String, CacheEntry)>, i: int)
    requires
        distinct_keys(s),
        0 <= i < s.len(),
    ensures
        entry_map(s).contains_key(s[i].0@),
        entry_map(s)[s[i].0@] == s[i].1@,
{
    let k = s[i].0@;
    assert(entry_map(s).dom().contains(k));
    let j = choose|j: int| 0 <= j < s.len() && #[trigger] s[j].0@ == k;
    assert(j == i);
}

/// Replacing, or adding, the entry for `k` in `s` inserts into its map.
proof fn lemma_entry_map_insert(s: Seq<(String, CacheEntry)>, s2: Seq<(String, CacheEntry)>, at: int)
    requires
        distinct_keys(s),
        distinct_keys(s2),
        0 <= at < s2.len(),
        s2.len() == s.len() || (s2.len() == s.len() + 1 && at == s.len()),
        at < s.len() ==> s[at].0@ == s2[at].0@,
        forall|i: int| 0 <= i < s.len() && i != at ==> s2[i] == s[i],
    ensures
        entry_map(s2) =~= entry_map(s).insert(s2[at].0@, s2[at].1@),
{
    let k0 = s2[at].0@;
    lemma_entry_map_at(s2, at);
    assert forall|k: Seq<char>| k != k0 implies (#[trigger] entry_map(s2).contains_key(k) == entry_map(s).contains_key(k)) && (
    entry_map(s2).contains_key(k) ==> entry_map(s2)[k] == entry_map(s)[k]) by {
        if entry_map(s2).contains_key(k) {
            let i = choose|i: int| 0 <= i < s2.len() && #[trigger] s2[i].0@ == k;
            assert(i != at);
            lemma_entry_map_at(s2, i);
            lemma_entry_map_at(s, i);
        }
        if entry_map(s).contains_key(k) {
            let i = choose|i: int| 0 <= i < s.len() && #[trigger] s[i].0@ == k;
            assert(i != at);
            assert(s2[i] == s[i]);
            assert(entry_map(s2).dom().contains(k));
        }
    }
}

/// The persistent per-workspace build cache: one entry per source path.
pub struct BuildCache {
    cache_dir: String,
    entries: Vec<(String, CacheEntry)>,
    quick_check: bool,
}

impl View for BuildCache {
    type V = BuildCacheView;

    closed spec fn view(&self) -> BuildCacheView {
        BuildCacheView {
            cache_dir: self.cache_dir@,
            entries: entry_map(self.entries@),
            quick_check: self.quick_check,
        }
    }
}

impl BuildCache {
    /// Well-formedness: no two entries are kept for one source path.
    pub closed spec fn wf(&self) -> bool {
        distinct_keys(self.entries@)
    }

    /// An empty cache for the workspace rooted at `workspace_root`, in quick
    /// mode. Creating the directory on disk is the caller's part.
    pub fn new(workspace_root: &str) -> (r: BuildCache)
        ensures
            r.wf(),
            r@.cache_dir == path_join(workspace_root@, cache_dir_name()),
            r@.entries == Map::<Seq<char>, CacheEntryView>::empty(),
            r@.quick_check,
    {
        let r = BuildCache {
            cache_dir: join_path(workspace_root, ".forge_cache"),
            entries: Vec::new(),
            quick_check: true,
        };
        assert(r@.entries =~= Map::<Seq<char>, CacheEntryView>::empty());
        r
    }

    /// The directory that holds the persisted entries.
    pub fn cache_dir(&self) -> (r: &String)
        ensures
            r@ == self@.cache_dir,
    {
        &self.cache_dir
    }

    /// Whether quick mode is on.
    pub fn quick_check(&self) -> (r: bool)
        ensures
            r == self@.quick_check,
    {
        self.quick_check
    }

    /// Switches between quick mode (fingerprints from metadata) and exact mode
    /// (fingerprints from content hashes).
    pub fn set_quick_check(&mut self, enable: bool)
        requires
            old(self).wf(),
        ensures
            final(self).wf(),
            final(self)@.quick_check == enable,
            final(self)@.entries == old(self)@.entries,
            final(self)@.cache_dir == old(self)@.cache_dir,
    {
        self.quick_check = enable;
    }

    /// The number of entries held.
    pub fn len(&self) -> (r: usize)
        requires
            self.wf(),
        ensures
            r == self@.entries.len(),
    {
        proof {
            self.lemma_entries_len();
        }
        self.entries.len()
    }

    /// Every entry with its source path, for persisting.
    pub fn entries(&self) -> (r: &Vec<(String, CacheEntry)>)
        requires
            self.wf(),
        ensures
            forall|i: int|
                0 <= i < r.len() ==> #[trigger] self@.entries.contains_key(r@[i].0@)
                    && self@.entries[r@[i].0@] == r@[i].1@,
            forall|k: Seq<char>|
                #[trigger] self@.entries.contains_key(k) ==> exists|i: int|
                    0 <= i < r.len() && #[trigger] r@[i].0@ == k,
    {
        proof {
            assert forall|i: int| 0 <= i < self.entries.len() implies #[trigger] self@.entries.contains_key(
                self.entries@[i].0@,
            ) && self@.entries[self.entries@[i].0@] == self.entries@[i].1@ by {
                lemma_entry_map_at(self.entries@, i);
            }
        }
        &self.entries
    }

    /// The fingerprint of a file whose metadata reads `mtime` and `size` and
    /// whose content is `content`, under the current mode. In quick mode the
    /// content is not looked at, and callers need not read it.
    pub fn file_info(&self, mtime: u64, size: u64, content: &[u8]) -> (r: FileInfo)
        ensures
            r@ == fingerprint_of(self@.quick_check, mtime, size, content@),
    {
        let hash = if self.quick_check {
            String::from_str("quick_check")
        } else {
            content_digest(content)
        };
        FileInfo { hash, mtime, size }
    }

    /// Whether `source` must be recompiled, given whether its object file
    /// exists, what is observed now of the source (`None`: it could not be
    /// examined) and of each header it currently has, and the flags, target
    /// and profile of the current request.
    pub fn needs_rebuild(
        &self,
        source: &str,
        object_exists: bool,
        source_now: &Option<FileInfo>,
        includes: &Vec<(String, Option<FileInfo>)>,
        compiler_flags: &Vec<String>,
        target: &str,
        profile: &str,
    ) -> (r: bool)
        requires
            self.wf(),
        ensures
            r == rebuild_needed(
                self@,
                source@,
                object_exists,
                opt_info(*source_now),
                include_observations(includes@),
                strs(compiler_flags@),
                target@,
                profile@,
            ),
    {
        if !object_exists {
            return true;
        }
        let found = self.find(source);
        match found {
            None => true,
            Some(idx) => {
                proof {
                    lemma_entry_map_at(self.entries@, idx as int);
                }
                let entry = &self.entries[idx].1;
                let r = self.entry_stale_now(entry, source_now, includes, compiler_flags, target, profile);
                r
            },
        }
    }

    /// Records `entry` for `source`, replacing any entry it had.
    pub fn insert_entry(&mut self, source: String, entry: CacheEntry)
        requires
            old(self).wf(),
        ensures
            final(self).wf(),
            final(self)@.entries == old(self)@.entries.insert(source@, entry@),
            final(self)@.quick_check == old(self)@.quick_check,
            final(self)@.cache_dir == old(self)@.cache_dir,
    {
        let ghost before = self.entries@;
        let found = self.find(source.as_str());
        match found {
            Some(i) => {
                self.entries.set(i, (source, entry));
                proof {
                    assert forall|k: int| 0 <= k < before.len() implies #[trigger] self.entries@[k].0@ == before[k].0@ by {}
                    assert(distinct_keys(self.entries@)) by {
                        assert forall|a: int, b: int|
                            0 <= a < self.entries@.len() && 0 <= b < self.entries@.len() && a != b implies #[trigger] self.entries@[a].0@
                            != #[trigger] self.entries@[b].0@ by {
                            assert(self.entries@[a].0@ == before[a].0@);
                            assert(self.entries@[b].0@ == before[b].0@);
                        }
                    }
                    lemma_entry_map_insert(before, self.entries@, i as int);
                }
            },
            None => {
                proof {
                    assert forall|j: int| 0 <= j < before.len() implies #[trigger] before[j].0@ != source@ by {
                        if before[j].0@ == source@ {
                            assert(entry_map(before).dom().contains(source@));
                        }
                    }
                }
                self.entries.push((source, entry));
                proof {
                    assert(distinct_keys(self.entries@)) by {
                        assert forall|a: int, b: int|
                            0 <= a < self.entries@.len() && 0 <= b < self.entries@.len() && a != b implies #[trigger] self.entries@[a].0@
                            != #[trigger] self.entries@[b].0@ by {
                            if a < before.len() && b < before.len() {
                                assert(self.entries@[a] == before[a]);
                                assert(self.entries@[b] == before[b]);
                            } else if a < before.len() {
                                assert(self.entries@[a] == before[a]);
                                assert(self.entries@[b].0@ == source@);
                                assert(before[a].0@ != source@);
                            } else {
                                assert(self.entries@[b] == before[b]);
                                assert(self.entries@[a].0@ == source@);
                                assert(before[b].0@ != source@);
                            }
                        }
                    }
                    lemma_entry_map_insert(before, self.entries@, before.len() as int);
                }
            },
        }
    }

    /// Records a successful build of `source`: its fingerprint, each header
    /// with its fingerprint, the flags, target and profile used, and the time
    /// (seconds since the Unix epoch). Any earlier entry for `source` is
    /// replaced whole, never merged.
    pub fn update(
        &mut self,
        source: &str,
        source_info: FileInfo,
        includes: Vec<(String, FileInfo)>,
        compiler_flags: &Vec<String>,
        target: &str,
        profile: &str,
        timestamp: u64,
    )
        requires
            old(self).wf(),
        ensures
            final(self).wf(),
            final(self)@.entries == old(self)@.entries.insert(
                source@,
                entry_of(
                    source_info@,
                    include_records(includes@),
                    strs(compiler_flags@),
                    target@,
                    profile@,
                    timestamp,
                ),
            ),
            final(self)@.quick_check == old(self)@.quick_check,
            final(self)@.cache_dir == old(self)@.cache_dir,
    {
        let entry = CacheEntry {
            source: source_info,
            includes,
            compiler_flags: clone_strings(compiler_flags),
            target: target.to_owned(),
            profile: profile.to_owned(),
            timestamp,
        };
        self.insert_entry(source.to_owned(), entry);
    }

    /// Adds persisted records, one after another, each replacing any entry
    /// for the same source.
    pub fn load(&mut self, records: Vec<(String, CacheEntry)>)
        requires
            old(self).wf(),
        ensures
            final(self).wf(),
            final(self)@.entries == loaded(old(self)@.entries, include_entries(records@)),
            final(self)@.quick_check == old(self)@.quick_check,
            final(self)@.cache_dir == old(self)@.cache_dir,
    {
        let ghost all = include_entries(records@);
        let mut rest = records;
        let ghost done: int = 0;
        while rest.len() > 0
            invariant
                0 <= done <= all.len(),
                include_entries(rest@) == all.skip(done),
                self@.entries == loaded(old(self)@.entries, all.take(done)),
                self@.quick_check == old(self)@.quick_check,
                self@.cache_dir == old(self)@.cache_dir,
                self.wf(),
            decreases rest.len(),
        {
            let ghost prev = rest@;
            let (source, entry) = rest.remove(0);
            proof {
                assert(include_entries(prev).len() == prev.len());
                assert(done < all.len());
                assert(include_entries(prev)[0] == (prev[0].0@, prev[0].1@));
                assert(all[done] == all.skip(done)[0]);
                assert(include_entries(rest@) =~= all.skip(done + 1)) by {
                    assert forall|k: int| 0 <= k < rest@.len() implies #[trigger] include_entries(rest@)[k] == all.skip(done + 1)[k] by {
                        assert(rest@[k] == prev[k + 1]);
                        assert(include_entries(prev)[k + 1] == all.skip(done)[k + 1]);
                    }
                }
                assert(all[done] == (source@, entry@));
                assert(all.take(done + 1).drop_last() =~= all.take(done));
            }
            self.insert_entry(source, entry);
            proof {
                done = done + 1;
            }
        }
        proof {
            assert(all.take(done) =~= all);
        }
    }

    /// Discards every entry. Removing and recreating the directory on disk is
    /// the caller's part.
    pub fn clean(&mut self)
        requires
            old(self).wf(),
        ensures
            final(self).wf(),
            final(self)@ == cleaned(old(self)@),
            final(self)@.entries == Map::<Seq<char>, CacheEntryView>::empty(),
            final(self)@.quick_check == old(self)@.quick_check,
            final(self)@.cache_dir == old(self)@.cache_dir,
    {
        self.entries = Vec::new();
        assert(self@.entries =~= Map::<Seq<char>, CacheEntryView>::empty());
    }

    fn entry_stale_now(
        &self,
        entry: &CacheEntry,
        source_now: &Option<FileInfo>,
        includes: &Vec<(String, Option<FileInfo>)>,
        compiler_flags: &Vec<String>,
        target: &str,
        profile: &str,
    ) -> (r: bool)
        requires
            self.wf(),
        ensures
            r == entry_stale(
                self@.quick_check,
                entry@,
                opt_info(*source_now),
                include_observations(includes@),
                strs(compiler_flags@),
                target@,
                profile@,
            ),
    {
        let quick = self.quick_check;
        if !same_text(entry.target.as_str(), target) || !same_text(entry.profile.as_str(), profile)
            || !strings_equal(&entry.compiler_flags, compiler_flags) {
            return true;
        }
        if changed(quick, &entry.source, source_now) {
            return true;
        }
        let ghost obs = include_observations(includes@);
        let mut i: usize = 0;
        while i < includes.len()
            invariant
                i <= includes.len(),
                quick == self@.quick_check,
                obs == include_observations(includes@),
                forall|k: int| 0 <= k < i ==> include_fresh(quick, entry@.includes, #[trigger] obs[k].0, obs[k].1),
            decreases includes.len() - i,
        {
            let fresh = include_unchanged(quick, &entry.includes, &includes[i].0, &includes[i].1);
            if !fresh {
                assert(!include_fresh(quick, entry@.includes, obs[i as int].0, obs[i as int].1));
                assert(exists|k: int|
                    0 <= k < obs.len() && !include_fresh(quick, entry@.includes, #[trigger] obs[k].0, obs[k].1));
                return true;
            }
            i = i + 1;
        }
        entry.includes.len() != includes.len()
    }

    /// Index of the entry for `source`, if there is one.
    fn find(&self, source: &str) -> (r: Option<usize>)
        requires
            self.wf(),
        ensures
            match r {
                Some(i) => i < self.entries.len() && self.entries@[i as int].0@ == source@,
                None => !self@.entries.contains_key(source@),
            },
    {
        let mut i: usize = 0;
        while i < self.entries.len()
            invariant
                i <= self.entries.len(),
                forall|k: int| 0 <= k < i ==> #[trigger] self.entries@[k].0@ != source@,
            decreases self.entries.len() - i,
        {
            if same_text(self.entries[i].0.as_str(), source) {
                return Some(i);
            }
            i = i + 1;
        }
        None
    }

    proof fn lemma_entries_len(&self)
        requires
            self.wf(),
        ensures
            self@.entries.dom().finite(),
            self@.entries.len() == self.entries.len(),
    {
        let keys = self.entries@.map_values(|p: (String, CacheEntry)| p.0@);
        assert(keys.no_duplicates()) by {
            assert forall|a: int, b: int| 0 <= a < keys.len() && 0 <= b < keys.len() && a != b implies keys[a]
                != keys[b] by {
                assert(self.entries@[a].0@ != self.entries@[b].0@);
            }
        }
        assert(self@.entries.dom() =~= keys.to_set()) by {
            assert forall|k: Seq<char>| self@.entries.dom().contains(k) implies keys.to_set().contains(k) by {
                let i = choose|i: int| 0 <= i < self.entries.len() && #[trigger] self.entries@[i].0@ == k;
                assert(keys[i] == k);
            }
            assert forall|k: Seq<char>| keys.to_set().contains(k) implies self@.entries.dom().contains(k) by {
                let i = choose|i: int| 0 <= i < keys.len() && keys[i] == k;
                assert(self.entries@[i].0@ == k);
            }
        }
        keys.unique_seq_to_set();
    }
}

/// Whether a file recorded as `recorded` counts as changed given `now`.
fn changed(quick: bool, recorded: &FileInfo, now: &Option<FileInfo>) -> (r: bool)
    ensures
        r == info_changed(quick, recorded@, opt_info(*now)),
{
    match now {
        None => true,
        Some(n) => if quick {
            n.mtime != recorded.mtime || n.size != recorded.size
        } else {
            n.hash != recorded.hash
        },
    }
}

/// Whether some fingerprint recorded for `path` is unchanged given `now`.
fn include_unchanged(quick: bool, recorded: &Vec<(String, FileInfo)>, path: &String, now: &Option<FileInfo>) -> (r:
    bool)
    ensures
        r == include_fresh(quick, include_records(recorded@), path@, opt_info(*now)),
{
    let ghost rec = include_records(recorded@);
    let mut j: usize = 0;
    while j < recorded.len()
        invariant
            j <= recorded.len(),
            rec == include_records(recorded@),
            forall|k: int| 0 <= k < j ==> !(#[trigger] rec[k].0 == path@ && !info_changed(quick, rec[k].1, opt_info(*now))),
        decreases recorded.len() - j,
    {
        if recorded[j].0 == *path && !changed(quick, &recorded[j].1, now) {
            assert(rec[j as int].0 == path@);
            return true;
        }
        j = j + 1;
    }
    false
}

/// How one character of a source path is written in a persisted file name:
/// `_`, `/`, `\\` and `:` become two-character escapes, anything else stays.
pub open spec fn escape_char(c: char) -> Seq<char> {
    if c == '_' {
        seq!['_', '_']
    } else if c == '/' {
        seq!['_', 's']
    } else if c == '\\' {
        seq!['_', 'b']
    } else if c == ':' {
        seq!['_', 'c']
    } else {
        seq![c]
    }
}

/// A source path written with every character escaped.
pub open spec fn escaped(s: Seq<char>) -> Seq<char>
    decreases s.len(),
{
    if s.len() == 0 {
        Seq::empty()
    } else {
        escape_char(s[0]) + escaped(s.skip(1))
    }
}

proof fn lemma_escaped_push(s: Seq<char>, c: char)
    ensures
        escaped(s.push(c)) == escaped(s) + escape_char(c),
    decreases s.len(),
{
    if s.len() == 0 {
        assert(s.push(c).skip(1) =~= Seq::<char>::empty());
        assert(s.push(c)[0] == c);
        assert(escaped(s.push(c).skip(1)) == Seq::<char>::empty());
        assert(escaped(s.push(c)) =~= escape_char(c));
        assert(escaped(s) + escape_char(c) =~= escape_char(c));
    } else {
        assert(s.push(c).skip(1) =~= s.skip(1).push(c));
        lemma_escaped_push(s.skip(1), c);
        assert(escaped(s.push(c)) =~= escaped(s) + escape_char(c));
    }
}

proof fn lemma_escaped_injective(a: Seq<char>, b: Seq<char>)
    requires
        escaped(a) == escaped(b),
    ensures
        a == b,
    decreases a.len(),
{
    if a.len() == 0 {
        if b.len() > 0 {
            assert(escaped(b).len() > 0);
        }
        assert(a =~= b);
    } else if b.len() == 0 {
        assert(escaped(a).len() > 0);
    } else {
        let e = escaped(a);
        let ea = escape_char(a[0]);
        let eb = escape_char(b[0]);
        assert(e[0] == ea[0]);
        assert(e[0] == eb[0]);
        if ea.len() == 2 {
            assert(e[1] == ea[1]);
        }
        if eb.len() == 2 {
            assert(e[1] == eb[1]);
        }
        assert(a[0] == b[0]);
        assert(escaped(a.skip(1)) =~= e.skip(ea.len() as int));
        assert(escaped(b.skip(1)) =~= e.skip(eb.len() as int));
        lemma_escaped_injective(a.skip(1), b.skip(1));
        assert(a =~= b) by {
            assert forall|k: int| 0 <= k < a.len() implies a[k] == b[k] by {
                if k > 0 {
                    assert(a[k] == a.skip(1)[k - 1]);
                    assert(b[k] == b.skip(1)[k - 1]);
                }
            }
        }
    }
}

/// Name of the file that persists the entry of `source`: derived from the
/// whole path, so that same-named sources in different directories do not
/// share a file.
pub open spec fn cache_file_name_of(source: Seq<char>) -> Seq<char> {
    escaped(source) + ".cache"@
}

/// The escape of one character, as text.
fn escape_piece(source: &str, i: usize) -> (r: String)
    requires
        i < source@.len() <= usize::MAX,
    ensures
        r@ == escape_char(source@[i as int]),
{
    let c = source.get_char(i);
    proof {
        reveal_strlit("__");
        reveal_strlit("_s");
        reveal_strlit("_b");
        reveal_strlit("_c");
    }
    if c == '_' {
        String::from_str("__")
    } else if c == '/' {
        String::from_str("_s")
    } else if c == '\\' {
        String::from_str("_b")
    } else if c == ':' {
        String::from_str("_c")
    } else {
        let r = source.substring_char(i, i + 1).to_owned();
        assert(r@ =~= seq![c]);
        r
    }
}

/// Name of the file, inside the cache directory, that persists the entry of
/// `source`.
pub fn cache_file_name(source: &str) -> (r: String)
    ensures
        r@ == cache_file_name_of(source@),
{
    let n = source.unicode_len();
    let mut out = String::new();
    let mut i: usize = 0;
    while i < n
        invariant
            i <= n,
            n == source@.len(),
            out@ == escaped(source@.take(i as int)),
        decreases n - i,
    {
        let piece = escape_piece(source, i);
        proof {
            assert(source@.take(i + 1) =~= source@.take(i as int).push(source@[i as int]));
            lemma_escaped_push(source@.take(i as int), source@[i as int]);
        }
        out = out.concat(piece.as_str());
        i = i + 1;
    }
    proof {
        assert(source@.take(n as int) =~= source@);
    }
    out.concat(".cache")
}

/// Some fingerprint recorded for `path` is exactly `now`.
pub open spec fn recorded_as(
    recorded: Seq<(Seq<char>, FileInfoView)>,
    path: Seq<char>,
    now: Option<FileInfoView>,
) -> bool {
    exists|j: int| 0 <= j < recorded.len() && #[trigger] recorded[j].0 == path && now == Some(recorded[j].1)
}

/// A source whose entry records exactly the current flags, target and
/// profile, whose fingerprint and every header fingerprint equal what is
/// observed now, with as many includes recorded as it has now, and whose
/// object exists, needs no rebuild.
pub proof fn lemma_matching_entry_needs_no_rebuild(
    cache: BuildCacheView,
    source: Seq<char>,
    source_now: Option<FileInfoView>,
    includes: Seq<(Seq<char>, Option<FileInfoView>)>,
    flags: Seq<Seq<char>>,
    target: Seq<char>,
    profile: Seq<char>,
)
    requires
        cache.entries.contains_key(source),
        cache.entries[source].flags == flags,
        cache.entries[source].target == target,
        cache.entries[source].profile == profile,
        source_now == Some(cache.entries[source].source),
        forall|i: int|
            0 <= i < includes.len() ==> recorded_as(
                cache.entries[source].includes,
                #[trigger] includes[i].0,
                includes[i].1,
            ),
        cache.entries[source].includes.len() == includes.len(),
    ensures
        !rebuild_needed(cache, source, true, source_now, includes, flags, target, profile),
{
    let e = cache.entries[source];
    assert forall|i: int| 0 <= i < includes.len() implies include_fresh(
        cache.quick_check,
        e.includes,
        #[trigger] includes[i].0,
        includes[i].1,
    ) by {
        assert(recorded_as(e.includes, includes[i].0, includes[i].1));
        let j = choose|j: int|
            0 <= j < e.includes.len() && #[trigger] e.includes[j].0 == includes[i].0 && includes[i].1 == Some(
                e.includes[j].1,
            );
        assert(e.includes[j].0 == includes[i].0);
    }
}

/// With an entry for the source, a change of the flags, the target or the
/// profile from what the entry records forces a rebuild, whatever is observed
/// of the files.
pub proof fn lemma_changed_configuration_needs_rebuild(
    cache: BuildCacheView,
    source: Seq<char>,
    object_exists: bool,
    source_now: Option<FileInfoView>,
    includes: Seq<(Seq<char>, Option<FileInfoView>)>,
    flags: Seq<Seq<char>>,
    target: Seq<char>,
    profile: Seq<char>,
)
    requires
        cache.entries.contains_key(source),
        cache.entries[source].flags != flags || cache.entries[source].target != target
            || cache.entries[source].profile != profile,
    ensures
        rebuild_needed(cache, source, object_exists, source_now, includes, flags, target, profile),
{
}

/// A missing object file forces a rebuild, whatever the entry and the
/// fingerprints say.
pub proof fn lemma_missing_object_needs_rebuild(
    cache: BuildCacheView,
    source: Seq<char>,
    source_now: Option<FileInfoView>,
    includes: Seq<(Seq<char>, Option<FileInfoView>)>,
    flags: Seq<Seq<char>>,
    target: Seq<char>,
    profile: Seq<char>,
)
    ensures
        rebuild_needed(cache, source, false, source_now, includes, flags, target, profile),
{
}

/// A header that the entry does not record forces a rebuild, and so does
/// an entry that records more includes than the source has now.
pub proof fn lemma_include_set_change_needs_rebuild(
    cache: BuildCacheView,
    source: Seq<char>,
    object_exists: bool,
    source_now: Option<FileInfoView>,
    includes: Seq<(Seq<char>, Option<FileInfoView>)>,
    flags: Seq<Seq<char>>,
    target: Seq<char>,
    profile: Seq<char>,
)
    requires
        cache.entries.contains_key(source),
        (exists|i: int|
            0 <= i < includes.len() && forall|j: int|
                0 <= j < cache.entries[source].includes.len() ==> #[trigger] cache.entries[source].includes[j].0
                    != #[trigger] includes[i].0) || cache.entries[source].includes.len() > includes.len(),
    ensures
        rebuild_needed(cache, source, object_exists, source_now, includes, flags, target, profile),
{
    let e = cache.entries[source];
    if e.includes.len() <= includes.len() {
        let i = choose|i: int|
            0 <= i < includes.len() && forall|j: int|
                0 <= j < e.includes.len() ==> #[trigger] e.includes[j].0 != #[trigger] includes[i].0;
        assert(!include_fresh(cache.quick_check, e.includes, includes[i].0, includes[i].1));
    }
}

/// Distinct source paths are persisted in distinct files, so that entries
/// of same-named sources in different directories never overwrite each
/// other.
pub proof fn lemma_cache_file_names_distinct(a: Seq<char>, b: Seq<char>)
    requires
        a != b,
    ensures
        cache_file_name_of(a) != cache_file_name_of(b),
{
    if cache_file_name_of(a) == cache_file_name_of(b) {
        let t = ".cache"@;
        assert(escaped(a) =~= cache_file_name_of(a).subrange(0, cache_file_name_of(a).len() - t.len()));
        assert(escaped(b) =~= cache_file_name_of(b).subrange(0, cache_file_name_of(b).len() - t.len()));
        lemma_escaped_injective(a, b);
    }
}

/// What `update` records is fresh: asking right after it, with the same
/// flags, target and profile, the object present, and the source and its
/// includes observed as they were fingerprinted, needs no rebuild.
pub proof fn lemma_update_then_no_rebuild(
    cache: BuildCacheView,
    source: Seq<char>,
    source_info: FileInfoView,
    includes: Seq<(Seq<char>, FileInfoView)>,
    flags: Seq<Seq<char>>,
    target: Seq<char>,
    profile: Seq<char>,
    timestamp: u64,
)
    ensures
        !rebuild_needed(
            BuildCacheView {
                entries: cache.entries.insert(
                    source,
                    entry_of(source_info, includes, flags, target, profile, timestamp),
                ),
                ..cache
            },
            source,
            true,
            Some(source_info),
            includes.map_values(|p: (Seq<char>, FileInfoView)| (p.0, Some(p.1))),
            flags,
            target,
            profile,
        ),
{
    let c2 = BuildCacheView {
        entries: cache.entries.insert(source, entry_of(source_info, includes, flags, target, profile, timestamp)),
        ..cache
    };
    let obs = includes.map_values(|p: (Seq<char>, FileInfoView)| (p.0, Some(p.1)));
    assert(c2.entries[source] == entry_of(source_info, includes, flags, target, profile, timestamp));
    assert(c2.entries[source].includes == includes);
    assert forall|i: int| 0 <= i < obs.len() implies recorded_as(includes, #[trigger] obs[i].0, obs[i].1) by {
        assert(includes[i].0 == obs[i].0);
    }
    lemma_matching_entry_needs_no_rebuild(c2, source, Some(source_info), obs, flags, target, profile);
}

/// The cache as `clean` leaves it: no entries, everything else kept.
pub open spec fn cleaned(c: BuildCacheView) -> BuildCacheView {
    BuildCacheView { entries: Map::empty(), ..c }
}

proof fn lemma_loaded_from_empty(records: Seq<(Seq<char>, CacheEntryView)>)
    ensures
        loaded(Map::empty(), records).dom().finite(),
        records.len() > 0 ==> loaded(Map::empty(), records).contains_key(records.last().0),
    decreases records.len(),
{
    if records.len() > 0 {
        lemma_loaded_from_empty(records.drop_last());
    }
}

/// A cleaned cache holds no entries after a `load` exactly when the store
/// gave it no records; the store `clean` empties gives none.
pub proof fn lemma_clean_then_load_is_empty(c: BuildCacheView, records: Seq<(Seq<char>, CacheEntryView)>)
    ensures
        loaded(cleaned(c).entries, records).len() == 0 <==> records.len() == 0,
{
    lemma_loaded_from_empty(records);
    let m = loaded(cleaned(c).entries, records);
    if records.len() > 0 {
        let k = records.last().0;
        assert(m.dom().contains(k));
        assert(m.dom().remove(k).len() + 1 == m.dom().len());
    } else {
        assert(m.dom() =~= Set::<Seq<char>>::empty());
    }
}

} // verus!
