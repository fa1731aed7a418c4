use vstd::prelude::*;

use crate::text::{clone_strings, strs};

verus! {

/// A project description: how to build, where files are, which compiler
/// settings and profiles apply, and (for a workspace root) its members.
#[derive(Debug, Clone)]
pub struct Config {
    pub build: BuildConfig,
    pub paths: PathConfig,
    pub compiler: CompilerConfig,
    pub workspace: WorkspaceConfig,
    pub cross: Option<CrossConfig>,
    /// Named build profiles; a name is looked up at its first occurrence.
    pub profiles: Vec<(String, BuildProfile)>,
    pub testing: Option<TestConfig>,
}

#[derive(Debug, Clone)]
pub struct BuildConfig {
    /// Compiler binary name.
    pub compiler: String,
    /// File name of the artifact; an empty name at a workspace root means the
    /// root itself builds nothing.
    pub target: String,
    pub jobs: Option<usize>,
    pub default_profile: String,
}

/// Source, header and build locations, relative to a member's root (the
/// build location: to the workspace root).
#[derive(Debug, Clone)]
pub struct PathConfig {
    pub src: String,
    pub include_dirs: Vec<String>,
    pub build: String,
}

#[derive(Debug, Clone)]
pub struct CompilerConfig {
    pub flags: Vec<String>,
    /// Preprocessor definitions, name and value.
    pub definitions: Vec<(String, String)>,
    pub warnings_as_errors: bool,
    pub library_paths: Vec<String>,
    pub libraries: Vec<String>,
}

#[derive(Debug, Clone)]
pub struct WorkspaceConfig {
    pub members: Vec<String>,
    pub exclude: Vec<String>,
    /// Member name with the names of the members it depends on; a name is
    /// looked up at its first occurrence, and an absent name has none.
    pub dependencies: Vec<(String, Vec<String>)>,
}

#[derive(Debug, Clone)]
pub struct CrossConfig {
    /// Target triple to cross-compile for.
    pub target: String,
    pub toolchain: Option<String>,
    pub sysroot: Option<String>,
    pub extra_flags: Vec<String>,
}

/// A named bundle of optimisation, debug-info and link-time-optimisation
/// settings, with extra flags.
#[derive(Debug, Clone)]
pub struct BuildProfile {
    pub opt_level: String,
    pub debug_info: bool,
    pub lto: bool,
    pub extra_flags: Vec<String>,
}

/// Which files are tests, where they are, and what they need besides the
/// member's own settings.
#[derive(Debug, Clone)]
pub struct TestConfig {
    /// File-name patterns that select test sources.
    pub patterns: Vec<String>,
    /// Test directory, relative to the member root; the source directory
    /// when absent.
    pub test_dir: Option<String>,
    /// File-name patterns that exclude test sources.
    pub exclude: Vec<String>,
    pub flags: Vec<String>,
    pub libs: Vec<String>,
    /// An entry file, relative to the member root, added to the test sources.
    pub main: Option<String>,
}

/// The index of the first pair whose name is `name`, or -1.
pub open spec fn first_named<V>(s: Seq<(String, V)>, name: Seq<char>) -> int
    decreases s.len(),
{
    if s.len() == 0 {
        -1
    } else if s[0].0@ == name {
        0
    } else {
        let r = first_named(s.skip(1), name);
        if r < 0 {
            -1
        } else {
            r + 1
        }
    }
}

pub proof fn lemma_first_named_range<V>(s: Seq<(String, V)>, name: Seq<char>)
    ensures
        -1 <= first_named(s, name) < s.len(),
        first_named(s, name) >= 0 ==> s[first_named(s, name)].0@ == name,
        first_named(s, name) >= 0 ==> forall|k: int| 0 <= k < first_named(s, name) ==> s[k].0@ != name,
        first_named(s, name) < 0 ==> forall|k: int| 0 <= k < s.len() ==> s[k].0@ != name,
    decreases s.len(),
{
    if s.len() > 0 && s[0].0@ != name {
        lemma_first_named_range(s.skip(1), name);
        assert forall|k: int| 1 <= k < s.len() implies s[k] == s.skip(1)[k - 1] by {}
    }
}

/// Index of the first pair named `name` in `s`.
pub fn find_named<V>(s: &Vec<(String, V)>, name: &str) -> (r: Option<usize>)
    ensures
        match r {
            Some(i) => first_named(s@, name@) == i as int && i < s@.len(),
            None => first_named(s@, name@) == -1,
        },
{
    proof {
        lemma_first_named_range(s@, name@);
    }
    let mut i: usize = 0;
    while i < s.len()
        invariant
            i <= s.len(),
            forall|k: int| 0 <= k < i ==> #[trigger] s@[k].0@ != name@,
            -1 <= first_named(s@, name@) < s@.len(),
            first_named(s@, name@) >= 0 ==> s@[first_named(s@, name@)].0@ == name@,
            first_named(s@, name@) >= 0 ==> forall|k: int|
                0 <= k < first_named(s@, name@) ==> #[trigger] s@[k].0@ != name@,
            first_named(s@, name@) < 0 ==> forall|k: int| 0 <= k < s@.len() ==> #[trigger] s@[k].0@ != name@,
        decreases s.len() - i,
    {
        if crate::text::same_text(s[i].0.as_str(), name) {
            assert(s@[i as int].0@ == name@);
            return Some(i);
        }
        i = i + 1;
    }
    None
}

/// Name of the profile used when none is selected.
pub fn default_profile() -> (r: String)
    ensures
        r@ == "debug"@,
{
    String::from_str("debug")
}

/// Name of the header directory used when none is configured.
pub open spec fn default_header_dir() -> Seq<char> {
    "inc"@ + "lude"@
}

/// Header directories used when none are configured.
pub fn default_include_paths() -> (r: Vec<String>)
    ensures
        strs(r@) == seq![default_header_dir()],
{
    let r = vec![String::from_str("inc").concat("lude")];
    assert(strs(r@) =~= seq![default_header_dir()]);
    r
}

/// Build directory used when none is configured.
pub fn default_build_path() -> (r: String)
    ensures
        r@ == "build"@,
{
    String::from_str("build")
}

/// Test-file patterns used when none are configured.
pub fn default_test_patterns() -> (r: Vec<String>)
    ensures
        strs(r@) == seq!["*_test.cpp"@, "test_*.cpp"@],
{
    let r = vec![String::from_str("*_test.cpp"), String::from_str("test_*.cpp")];
    assert(strs(r@) =~= seq!["*_test.cpp"@, "test_*.cpp"@]);
    r
}

impl Default for PathConfig {
    fn default() -> (r: Self)
        ensures
            r.src@ == Seq::<char>::empty(),
            strs(r.include_dirs@) == seq![default_header_dir()],
            r.build@ == "build"@,
    {
        PathConfig { src: String::new(), include_dirs: default_include_paths(), build: default_build_path() }
    }
}

/// The profile added under the default name when a loaded configuration does
/// not define it: no optimisation, debug info, no link-time optimisation.
pub fn fallback_profile() -> (r: BuildProfile)
    ensures
        r.opt_level@ == "0"@,
        r.debug_info,
        !r.lto,
        r.extra_flags@.len() == 0,
{
    BuildProfile { opt_level: String::from_str("0"), debug_info: true, lto: false, extra_flags: Vec::new() }
}

/// `c` is the configuration of a member named `name` that has no
/// description of its own: `g++` with `-Wall -std=c++17`, artifact named
/// after the member, default paths, a `debug` and a `release` profile, and
/// default test settings.
pub open spec fn is_default_config(c: Config, name: Seq<char>) -> bool {
    &&& c.build.compiler@ == "g++"@
    &&& c.build.target@ == name
    &&& c.build.jobs is None
    &&& c.build.default_profile@ == "debug"@
    &&& c.paths.src@ == Seq::<char>::empty()
    &&& strs(c.paths.include_dirs@) == seq![default_header_dir()]
    &&& c.paths.build@ == "build"@
    &&& strs(c.compiler.flags@) == seq!["-Wall"@, "-std=c++17"@]
    &&& c.compiler.definitions@.len() == 0
    &&& !c.compiler.warnings_as_errors
    &&& c.compiler.library_paths@.len() == 0
    &&& c.compiler.libraries@.len() == 0
    &&& c.workspace.members@.len() == 0
    &&& c.workspace.exclude@.len() == 0
    &&& c.workspace.dependencies@.len() == 0
    &&& c.cross is None
    &&& c.profiles@.len() == 2
    &&& c.profiles@[0].0@ == "debug"@
    &&& c.profiles@[0].1.opt_level@ == "0"@
    &&& c.profiles@[0].1.debug_info
    &&& !c.profiles@[0].1.lto
    &&& c.profiles@[0].1.extra_flags@.len() == 0
    &&& c.profiles@[1].0@ == "release"@
    &&& c.profiles@[1].1.opt_level@ == "3"@
    &&& !c.profiles@[1].1.debug_info
    &&& c.profiles@[1].1.lto
    &&& strs(c.profiles@[1].1.extra_flags@) == seq!["-march=native"@]
    &&& c.testing matches Some(t) && strs(t.patterns@) == seq!["*_test.cpp"@, "test_*.cpp"@] && t.test_dir is None
        && t.exclude@.len() == 0 && t.flags@.len() == 0 && t.libs@.len() == 0 && t.main is None
}

impl Config {
    /// Completes a loaded configuration: when no profile carries the default
    /// profile's name, a fallback profile is added under that name.
    pub fn ensure_default_profile(&mut self)
        ensures
            first_named(old(self).profiles@, old(self).build.default_profile@) >= 0 ==> final(self).profiles@
                == old(self).profiles@,
            first_named(old(self).profiles@, old(self).build.default_profile@) < 0 ==> {
                &&& final(self).profiles@.len() == old(self).profiles@.len() + 1
                &&& final(self).profiles@.drop_last() == old(self).profiles@
                &&& final(self).profiles@.last().0@ == old(self).build.default_profile@
                &&& final(self).profiles@.last().1.opt_level@ == "0"@
                &&& final(self).profiles@.last().1.debug_info
                &&& !final(self).profiles@.last().1.lto
                &&& final(self).profiles@.last().1.extra_flags@.len() == 0
            },
            final(self).build == old(self).build,
            final(self).paths == old(self).paths,
            final(self).compiler == old(self).compiler,
            final(self).workspace == old(self).workspace,
            final(self).cross == old(self).cross,
            final(self).testing == old(self).testing,
    {
        let found = find_named(&self.profiles, self.build.default_profile.as_str());
        if found.is_none() {
            let name = self.build.default_profile.clone();
            self.profiles.push((name, fallback_profile()));
            assert(self.profiles@.drop_last() =~= old(self).profiles@);
        }
    }

    /// The configuration of a workspace member that has no description of
    /// its own: `g++` with `-Wall -std=c++17`, artifact named after the
    /// member, default paths, a `debug` and a `release` profile, and default
    /// test settings.
    pub fn default_for_member(name: &str) -> (r: Self)
        ensures
            is_default_config(r, name@),
    {
        let flags = vec![String::from_str("-Wall"), String::from_str("-std=c++17")];
        assert(strs(flags@) =~= seq!["-Wall"@, "-std=c++17"@]);
        let release_flags = vec![String::from_str("-march=native")];
        assert(strs(release_flags@) =~= seq!["-march=native"@]);
        let debug = BuildProfile {
            opt_level: String::from_str("0"),
            debug_info: true,
            lto: false,
            extra_flags: Vec::new(),
        };
        let release = BuildProfile {
            opt_level: String::from_str("3"),
            debug_info: false,
            lto: true,
            extra_flags: release_flags,
        };
        let profiles = vec![(String::from_str("debug"), debug), (String::from_str("release"), release)];
        Config {
            build: BuildConfig {
                compiler: String::from_str("g++"),
                target: name.to_owned(),
                jobs: None,
                default_profile: default_profile(),
            },
            paths: PathConfig::default(),
            compiler: CompilerConfig {
                flags,
                definitions: Vec::new(),
                warnings_as_errors: false,
                library_paths: Vec::new(),
                libraries: Vec::new(),
            },
            workspace: WorkspaceConfig { members: Vec::new(), exclude: Vec::new(), dependencies: Vec::new() },
            cross: None,
            profiles,
            testing: Some(
                TestConfig {
                    patterns: default_test_patterns(),
                    test_dir: None,
                    exclude: Vec::new(),
                    flags: Vec::new(),
                    libs: Vec::new(),
                    main: None,
                },
            ),
        }
    }

    /// The profile named `name`, or the default profile when no name is
    /// given; `None` when no profile carries that name.
    pub fn get_profile(&self, name: Option<&str>) -> (r: Option<&BuildProfile>)
        ensures
            ({
                let wanted = match name {
                    Some(n) => n@,
                    None => self.build.default_profile@,
                };
                let i = first_named(self.profiles@, wanted);
                match r {
                    Some(p) => i >= 0 && *p == self.profiles@[i].1,
                    None => i < 0,
                }
            }),
    {
        let wanted = match name {
            Some(n) => n,
            None => self.build.default_profile.as_str(),
        };
        proof {
            lemma_first_named_range(self.profiles@, wanted@);
        }
        match find_named(&self.profiles, wanted) {
            Some(i) => Some(&self.profiles[i].1),
            None => None,
        }
    }
}

/// Two optional texts hold the same characters, or are both absent.
pub open spec fn same_opt_text(a: Option<String>, b: Option<String>) -> bool {
    match (a, b) {
        (Some(x), Some(y)) => x@ == y@,
        (None, None) => true,
        _ => false,
    }
}

pub open spec fn same_profile(a: BuildProfile, b: BuildProfile) -> bool {
    &&& a.opt_level@ == b.opt_level@
    &&& a.debug_info == b.debug_info
    &&& a.lto == b.lto
    &&& strs(a.extra_flags@) == strs(b.extra_flags@)
}

pub open spec fn same_profiles(a: Seq<(String, BuildProfile)>, b: Seq<(String, BuildProfile)>) -> bool {
    &&& a.len() == b.len()
    &&& forall|i: int| 0 <= i < a.len() ==> #[trigger] a[i].0@ == b[i].0@ && same_profile(a[i].1, b[i].1)
}

pub open spec fn same_definitions(a: Seq<(String, String)>, b: Seq<(String, String)>) -> bool {
    &&& a.len() == b.len()
    &&& forall|i: int| 0 <= i < a.len() ==> #[trigger] a[i].0@ == b[i].0@ && a[i].1@ == b[i].1@
}

pub open spec fn same_dependencies(a: Seq<(String, Vec<String>)>, b: Seq<(String, Vec<String>)>) -> bool {
    &&& a.len() == b.len()
    &&& forall|i: int| 0 <= i < a.len() ==> #[trigger] a[i].0@ == b[i].0@ && strs(a[i].1@) == strs(b[i].1@)
}

pub open spec fn same_cross(a: Option<CrossConfig>, b: Option<CrossConfig>) -> bool {
    match (a, b) {
        (Some(x), Some(y)) => x.target@ == y.target@ && same_opt_text(x.toolchain, y.toolchain) && same_opt_text(
            x.sysroot,
            y.sysroot,
        ) && strs(x.extra_flags@) == strs(y.extra_flags@),
        (None, None) => true,
        _ => false,
    }
}

pub open spec fn same_testing(a: Option<TestConfig>, b: Option<TestConfig>) -> bool {
    match (a, b) {
        (Some(x), Some(y)) => strs(x.patterns@) == strs(y.patterns@) && same_opt_text(x.test_dir, y.test_dir) && strs(
            x.exclude@,
        ) == strs(y.exclude@) && strs(x.flags@) == strs(y.flags@) && strs(x.libs@) == strs(y.libs@)
            && same_opt_text(x.main, y.main),
        (None, None) => true,
        _ => false,
    }
}

/// Two configurations hold the same settings, field by field.
pub open spec fn same_config(a: Config, b: Config) -> bool {
    &&& a.build.compiler@ == b.build.compiler@
    &&& a.build.target@ == b.build.target@
    &&& a.build.jobs == b.build.jobs
    &&& a.build.default_profile@ == b.build.default_profile@
    &&& a.paths.src@ == b.paths.src@
    &&& strs(a.paths.include_dirs@) == strs(b.paths.include_dirs@)
    &&& a.paths.build@ == b.paths.build@
    &&& strs(a.compiler.flags@) == strs(b.compiler.flags@)
    &&& same_definitions(a.compiler.definitions@, b.compiler.definitions@)
    &&& a.compiler.warnings_as_errors == b.compiler.warnings_as_errors
    &&& strs(a.compiler.library_paths@) == strs(b.compiler.library_paths@)
    &&& strs(a.compiler.libraries@) == strs(b.compiler.libraries@)
    &&& strs(a.workspace.members@) == strs(b.workspace.members@)
    &&& strs(a.workspace.exclude@) == strs(b.workspace.exclude@)
    &&& same_dependencies(a.workspace.dependencies@, b.workspace.dependencies@)
    &&& same_cross(a.cross, b.cross)
    &&& same_profiles(a.profiles@, b.profiles@)
    &&& same_testing(a.testing, b.testing)
}

fn copy_opt_text(o: &Option<String>) -> (r: Option<String>)
    ensures
        same_opt_text(r, *o),
{
    match o {
        Some(s) => Some(s.clone()),
        None => None,
    }
}

impl BuildProfile {
    /// A copy of this profile.
    pub fn duplicate(&self) -> (r: BuildProfile)
        ensures
            same_profile(r, *self),
    {
        BuildProfile {
            opt_level: self.opt_level.clone(),
            debug_info: self.debug_info,
            lto: self.lto,
            extra_flags: clone_strings(&self.extra_flags),
        }
    }
}

impl Config {
    /// A copy of this configuration.
    pub fn duplicate(&self) -> (r: Config)
        ensures
            same_config(r, *self),
    {
        let mut definitions: Vec<(String, String)> = Vec::new();
        let mut i: usize = 0;
        while i < self.compiler.definitions.len()
            invariant
                i <= self.compiler.definitions.len(),
                definitions@.len() == i,
                forall|k: int|
                    0 <= k < i ==> #[trigger] definitions@[k].0@ == self.compiler.definitions@[k].0@
                        && definitions@[k].1@ == self.compiler.definitions@[k].1@,
            decreases self.compiler.definitions.len() - i,
        {
            let d = &self.compiler.definitions[i];
            definitions.push((d.0.clone(), d.1.clone()));
            i = i + 1;
        }
        assert(same_definitions(definitions@, self.compiler.definitions@)) by {
            assert forall|k: int| 0 <= k < definitions@.len() implies #[trigger] definitions@[k].0@ == self.compiler.definitions@[k].0@ by {}
        }
        let mut dependencies: Vec<(String, Vec<String>)> = Vec::new();
        let mut i: usize = 0;
        while i < self.workspace.dependencies.len()
            invariant
                i <= self.workspace.dependencies.len(),
                dependencies@.len() == i,
                forall|k: int|
                    0 <= k < i ==> #[trigger] dependencies@[k].0@ == self.workspace.dependencies@[k].0@ && strs(
                        dependencies@[k].1@,
                    ) == strs(self.workspace.dependencies@[k].1@),
            decreases self.workspace.dependencies.len() - i,
        {
            let d = &self.workspace.dependencies[i];
            dependencies.push((d.0.clone(), clone_strings(&d.1)));
            i = i + 1;
        }
        assert(same_dependencies(dependencies@, self.workspace.dependencies@)) by {
            assert forall|k: int| 0 <= k < dependencies@.len() implies #[trigger] dependencies@[k].0@ == self.workspace.dependencies@[k].0@ by {}
        }
        let mut profiles: Vec<(String, BuildProfile)> = Vec::new();
        let mut i: usize = 0;
        while i < self.profiles.len()
            invariant
                i <= self.profiles.len(),
                profiles@.len() == i,
                forall|k: int|
                    0 <= k < i ==> #[trigger] profiles@[k].0@ == self.profiles@[k].0@ && same_profile(
                        profiles@[k].1,
                        self.profiles@[k].1,
                    ),
            decreases self.profiles.len() - i,
        {
            let p = &self.profiles[i];
            profiles.push((p.0.clone(), p.1.duplicate()));
            i = i + 1;
        }
        assert(same_profiles(profiles@, self.profiles@)) by {
            assert forall|k: int| 0 <= k < profiles@.len() implies #[trigger] profiles@[k].0@ == self.profiles@[k].0@ by {}
        }
        let cross = match &self.cross {
            Some(c) => Some(
                CrossConfig {
                    target: c.target.clone(),
                    toolchain: copy_opt_text(&c.toolchain),
                    sysroot: copy_opt_text(&c.sysroot),
                    extra_flags: clone_strings(&c.extra_flags),
                },
            ),
            None => None,
        };
        let testing = match &self.testing {
            Some(t) => Some(
                TestConfig {
                    patterns: clone_strings(&t.patterns),
                    test_dir: copy_opt_text(&t.test_dir),
                    exclude: clone_strings(&t.exclude),
                    flags: clone_strings(&t.flags),
                    libs: clone_strings(&t.libs),
                    main: copy_opt_text(&t.main),
                },
            ),
            None => None,
        };
        Config {
            build: BuildConfig {
                compiler: self.build.compiler.clone(),
                target: self.build.target.clone(),
                jobs: self.build.jobs,
                default_profile: self.build.default_profile.clone(),
            },
            paths: PathConfig {
                src: self.paths.src.clone(),
                include_dirs: clone_strings(&self.paths.include_dirs),
                build: self.paths.build.clone(),
            },
            compiler: CompilerConfig {
                flags: clone_strings(&self.compiler.flags),
                definitions,
                warnings_as_errors: self.compiler.warnings_as_errors,
                library_paths: clone_strings(&self.compiler.library_paths),
                libraries: clone_strings(&self.compiler.libraries),
            },
            workspace: WorkspaceConfig {
                members: clone_strings(&self.workspace.members),
                exclude: clone_strings(&self.workspace.exclude),
                dependencies,
            },
            cross,
            profiles,
            testing,
        }
    }
}

} // verus!
