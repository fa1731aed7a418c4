use vstd::prelude::*;

use crate::compiler::{
    compile_args_of, file_name_of, find_last, invocation_of, last_index_of, link_args_of, object_path_of, Compiler,
};
use crate::config::{first_named, BuildProfile, CompilerConfig, TestConfig};
use crate::error::{ForgeError, ForgeResult};
use crate::paths::{join_path, path_join};
use crate::target::{split_dash, Target};
use crate::text::{append_strings, clone_strings, concat_strings, same_text, strs};
use crate::toolchains::{CompilerCommand, Toolchain};
use crate::workspace::{
    contains_text, derefs, include_dirs_of, is_build_order, member_names, resolution_failure, selected, target_path_of,
    Workspace, WorkspaceMember,
};

verus! {

/// Whether the name from position `i` on matches the pattern from position
/// `j` on, where `*` stands for any run of characters (the empty one
/// included) and every other character for itself.
pub open spec fn glob_from(name: Seq<char>, pattern: Seq<char>, i: int, j: int) -> bool
    decreases name.len() - i + pattern.len() - j,
{
    if i < 0 || j < 0 || i > name.len() || j > pattern.len() {
        false
    } else if j == pattern.len() {
        i == name.len()
    } else if pattern[j] == '*' {
        glob_from(name, pattern, i, j + 1) || (i < name.len() && glob_from(name, pattern, i + 1, j))
    } else {
        i < name.len() && name[i] == pattern[j] && glob_from(name, pattern, i + 1, j + 1)
    }
}

/// Whether the file name `name` matches the glob `pattern`.
pub open spec fn pattern_matches(name: Seq<char>, pattern: Seq<char>) -> bool {
    glob_from(name, pattern, 0, 0)
}

/// Some pattern of `patterns` matches `name`.
pub open spec fn any_matches(name: Seq<char>, patterns: Seq<Seq<char>>) -> bool {
    exists|k: int| 0 <= k < patterns.len() && pattern_matches(name, #[trigger] patterns[k])
}

/// The extension of a file name: what follows its last dot, unless that dot
/// is the name's first character.
pub open spec fn extension_of(name: Seq<char>) -> Option<Seq<char>> {
    if last_index_of(name, '.') > 0 {
        Some(name.subrange(last_index_of(name, '.') + 1, name.len() as int))
    } else {
        None
    }
}

/// A path is a source file when its extension is `cpp`, `c` or `cc`.
pub open spec fn is_source_path(path: Seq<char>) -> bool {
    match extension_of(file_name_of(path)) {
        Some(e) => e == "cpp"@ || e == "c"@ || e == "cc"@,
        None => false,
    }
}

/// The target a member builds for: the builder's override, else the
/// member's cross target, else `native`.
pub open spec fn effective_target(triple: Option<String>, member: WorkspaceMember) -> Seq<char> {
    match triple {
        Some(t) => t@,
        None => match member.config.cross {
            Some(c) => c.target@,
            None => "native"@,
        },
    }
}

/// The profile a member builds with: the builder's choice, else the
/// member's default.
pub open spec fn effective_profile(chosen: Option<String>, member: WorkspaceMember) -> Seq<char> {
    match chosen {
        Some(p) => p@,
        None => member.config.build.default_profile@,
    }
}

/// Whether the file name `name` matches the glob `pattern`, where `*`
/// stands for any run of characters.
pub fn matches_pattern(name: &str, pattern: &str) -> (r: bool)
    ensures
        r == pattern_matches(name@, pattern@),
{
    let n = name.unicode_len();
    let m = pattern.unicode_len();
    // `next[i]`: whether the name from `i` matches the pattern from `j + 1`.
    let mut next: Vec<bool> = Vec::new();
    let mut i: usize = 0;
    while i < n
        invariant
            i <= n,
            n == name@.len(),
            m == pattern@.len(),
            next@.len() == i,
            forall|k: int| 0 <= k < i ==> #[trigger] next@[k] == glob_from(name@, pattern@, k, m as int),
        decreases n - i,
    {
        next.push(false);
        i = i + 1;
    }
    next.push(true);
    let mut j: usize = m;
    while j > 0
        invariant
            j <= m,
            n == name@.len(),
            m == pattern@.len(),
            next@.len() == n + 1,
            forall|k: int| 0 <= k <= n ==> #[trigger] next@[k] == glob_from(name@, pattern@, k, j as int),
        decreases j,
    {
        let pj = pattern.get_char(j - 1);
        let size = next.len();
        let mut cur: Vec<bool> = vec![false; size];
        let mut i: usize = size;
        while i > 0
            invariant
                0 < j <= m,
                size == n + 1,
                i <= n + 1,
                n == name@.len(),
                m == pattern@.len(),
                pj == pattern@[j - 1],
                next@.len() == n + 1,
                cur@.len() == n + 1,
                forall|k: int| 0 <= k <= n ==> #[trigger] next@[k] == glob_from(name@, pattern@, k, j as int),
                forall|k: int| i <= k <= n ==> #[trigger] cur@[k] == glob_from(name@, pattern@, k, j - 1),
            decreases i,
        {
            let k = i - 1;
            let v = if pj == '*' {
                next[k] || (k < n && cur[k + 1])
            } else {
                k < n && name.get_char(k) == pj && next[k + 1]
            };
            cur.set(k, v);
            i = k;
        }
        next = cur;
        j = j - 1;
    }
    next[0]
}

/// Whether some pattern of `patterns` matches `name`.
fn matches_any(name: &str, patterns: &Vec<String>) -> (r: bool)
    ensures
        r == any_matches(name@, strs(patterns@)),
{
    let mut i: usize = 0;
    while i < patterns.len()
        invariant
            i <= patterns.len(),
            forall|k: int| 0 <= k < i ==> !pattern_matches(name@, #[trigger] strs(patterns@)[k]),
        decreases patterns.len() - i,
    {
        if matches_pattern(name, patterns[i].as_str()) {
            assert(pattern_matches(name@, strs(patterns@)[i as int]));
            return true;
        }
        i = i + 1;
    }
    false
}

/// Whether a file named `file_name` is a test source: some pattern selects
/// it and no exclusion pattern matches it.
pub fn is_test_source(file_name: &str, test_config: &TestConfig) -> (r: bool)
    ensures
        r == (any_matches(file_name@, strs(test_config.patterns@)) && !any_matches(
            file_name@,
            strs(test_config.exclude@),
        )),
{
    matches_any(file_name, &test_config.patterns) && !matches_any(file_name, &test_config.exclude)
}

/// Whether `path` names a C or C++ source file.
pub fn is_source_file(path: &str) -> (r: bool)
    ensures
        r == is_source_path(path@),
{
    let n = path.unicode_len();
    let start: usize = match find_last(path, '/') {
        Some(i) => i + 1,
        None => 0,
    };
    let name = path.substring_char(start, n);
    proof {
        assert(name@ == file_name_of(path@));
    }
    let m = name.unicode_len();
    match find_last(name, '.') {
        Some(d) => {
            if d == 0 {
                return false;
            }
            let ext = name.substring_char(d + 1, m);
            same_text(ext, "cpp") || same_text(ext, "c") || same_text(ext, "cc")
        },
        None => false,
    }
}

/// What building one member (or its tests) involves: each source with its
/// object file and compile command, the artifact and its link command, and
/// the target, profile and flags that the cache records.
#[derive(Debug)]
pub struct MemberPlan {
    pub name: String,
    pub build_dir: String,
    pub sources: Vec<String>,
    pub objects: Vec<String>,
    pub compile_commands: Vec<CompilerCommand>,
    pub artifact: String,
    pub link_command: CompilerCommand,
    pub target: String,
    pub profile: String,
    pub flags: Vec<String>,
    /// The member's header directories, against which includes resolve.
    pub include_dirs: Vec<String>,
}

/// `p` builds `sources` into objects in `build_dir` and links them into
/// `artifact`, compiling with `compile_cfg` and linking with `link_cfg`
/// under `profile`, through `compiler` as a compiler with toolchain `tc`
/// runs it.
pub open spec fn is_plan(
    p: MemberPlan,
    tc: Option<Toolchain>,
    sources: Seq<String>,
    build_dir: Seq<char>,
    artifact: Seq<char>,
    compile_cfg: CompilerConfig,
    link_cfg: CompilerConfig,
    profile: BuildProfile,
    dirs: Seq<Seq<char>>,
    compiler: Seq<char>,
) -> bool {
    &&& p.build_dir@ == build_dir
    &&& p.sources@.len() == sources.len()
    &&& p.objects@.len() == sources.len()
    &&& p.compile_commands@.len() == sources.len()
    &&& strs(p.include_dirs@) == dirs
    &&& forall|i: int|
        0 <= i < sources.len() ==> {
            &&& #[trigger] p.sources@[i]@ == sources[i]@
            &&& p.objects@[i]@ == object_path_of(sources[i]@, build_dir)
            &&& p.compile_commands@[i].program@ == invocation_of(tc, compiler).0
            &&& strs(p.compile_commands@[i].args@) == invocation_of(tc, compiler).1 + compile_args_of(
                sources[i]@,
                p.objects@[i]@,
                compile_cfg,
                profile,
                dirs,
            )
        }
    &&& p.artifact@ == artifact
    &&& p.link_command.program@ == invocation_of(tc, compiler).0
    &&& strs(p.link_command.args@) == invocation_of(tc, compiler).1 + link_args_of(
        strs(p.objects@),
        artifact,
        link_cfg,
        profile,
    )
}

/// `c` is `base` with `flags` added to its flags and `libs` to its
/// libraries, everything else kept.
pub open spec fn extended_config(c: CompilerConfig, base: CompilerConfig, flags: Seq<Seq<char>>, libs: Seq<Seq<char>>) -> bool {
    &&& strs(c.flags@) == strs(base.flags@) + flags
    &&& strs(c.libraries@) == strs(base.libraries@) + libs
    &&& strs(c.library_paths@) == strs(base.library_paths@)
    &&& crate::compiler::definition_args(c.definitions@) == crate::compiler::definition_args(base.definitions@)
    &&& c.warnings_as_errors == base.warnings_as_errors
}

/// A copy of `base` with extra flags and libraries.
fn extend_config(base: &CompilerConfig, flags: &Vec<String>, libs: &Vec<String>) -> (r: CompilerConfig)
    ensures
        extended_config(r, *base, strs(flags@), strs(libs@)),
{
    let mut definitions: Vec<(String, String)> = Vec::new();
    let mut i: usize = 0;
    while i < base.definitions.len()
        invariant
            i <= base.definitions.len(),
            definitions@.len() == i,
            forall|k: int|
                0 <= k < i ==> #[trigger] definitions@[k].0@ == base.definitions@[k].0@ && definitions@[k].1@
                    == base.definitions@[k].1@,
        decreases base.definitions.len() - i,
    {
        definitions.push((base.definitions[i].0.clone(), base.definitions[i].1.clone()));
        i = i + 1;
    }
    assert(crate::compiler::definition_args(definitions@) =~= crate::compiler::definition_args(base.definitions@));
    CompilerConfig {
        flags: concat_strings(&base.flags, flags),
        definitions,
        warnings_as_errors: base.warnings_as_errors,
        library_paths: clone_strings(&base.library_paths),
        libraries: concat_strings(&base.libraries, libs),
    }
}

/// Runs the builds of a workspace: which members, in which order, and the
/// plan of each.
pub struct Builder {
    workspace: Workspace,
    compiler: Compiler,
    target_triple: Option<String>,
    selected_profile: Option<String>,
    quick_check: bool,
}

impl Builder {
    pub closed spec fn workspace_view(&self) -> Workspace {
        self.workspace
    }

    pub closed spec fn toolchain_view(&self) -> Option<Toolchain> {
        self.compiler.toolchain_view()
    }

    pub closed spec fn triple_view(&self) -> Option<String> {
        self.target_triple
    }

    pub closed spec fn profile_view(&self) -> Option<String> {
        self.selected_profile
    }

    pub closed spec fn quick_view(&self) -> bool {
        self.quick_check
    }

    /// A builder for `workspace`, optionally cross-compiling for the triple
    /// `target_triple` through a toolchain under `toolchain_path` with
    /// `sysroot`, building with `profile` when one is chosen. Fails when the
    /// triple has fewer than three components.
    pub fn new(
        workspace: Workspace,
        target_triple: Option<&str>,
        toolchain_path: Option<&str>,
        sysroot: Option<&str>,
        profile: Option<&str>,
    ) -> (r: ForgeResult<Builder>)
        ensures
            match target_triple {
                Some(t) => split_dash(t@).len() < 3 <==> r is Err,
                None => r is Ok,
            },
            r matches Err(e) ==> e is InvalidTarget,
            r matches Ok(b) ==> {
                &&& b.quick_view()
                &&& b.workspace_view().members@.len() == workspace.members@.len()
                &&& b.workspace_view().root_path == workspace.root_path
                &&& b.workspace_view().root_config == workspace.root_config
                &&& forall|k: int|
                    0 <= k < workspace.members@.len() ==> #[trigger] b.workspace_view().members@[k]
                        == (WorkspaceMember { selected_profile: b.profile_view(), ..workspace.members@[k] })
                &&& match profile {
                    Some(p) => b.profile_view() matches Some(x) && x@ == p@,
                    None => b.profile_view() is None,
                }
                &&& match target_triple {
                    Some(t) => (b.triple_view() matches Some(x) && x@ == t@) && (b.toolchain_view() matches Some(
                        tc,
                    ) && tc.target_view() == crate::target::target_of(split_dash(t@))),
                    None => b.triple_view() is None && b.toolchain_view() is None,
                }
            },
    {
        let toolchain = match target_triple {
            Some(triple) => {
                let target = match Target::parse(triple) {
                    Ok(t) => t,
                    Err(e) => {
                        return Err(e);
                    },
                };
                match Toolchain::new(target, toolchain_path, sysroot, Vec::new()) {
                    Ok(tc) => Some(tc),
                    Err(e) => {
                        return Err(e);
                    },
                }
            },
            None => None,
        };
        let selected_profile = match profile {
            Some(p) => Some(p.to_owned()),
            None => None,
        };
        let mut workspace = workspace;
        let chosen = match &selected_profile {
            Some(p) => Some(p.clone()),
            None => None,
        };
        workspace.set_profile(chosen);
        let triple = match target_triple {
            Some(t) => Some(t.to_owned()),
            None => None,
        };
        Ok(
            Builder {
                workspace,
                compiler: Compiler::new(toolchain),
                target_triple: triple,
                selected_profile,
                quick_check: true,
            },
        )
    }

    pub fn workspace(&self) -> (r: &Workspace)
        ensures
            *r == self.workspace_view(),
    {
        &self.workspace
    }

    pub fn quick_check(&self) -> (r: bool)
        ensures
            r == self.quick_view(),
    {
        self.quick_check
    }

    /// Chooses quick or exact change detection for the builds to come; the
    /// cache that the builds use takes the same setting.
    pub fn set_quick_check(&mut self, enable: bool)
        ensures
            final(self).quick_view() == enable,
            final(self).workspace_view() == old(self).workspace_view(),
            final(self).toolchain_view() == old(self).toolchain_view(),
            final(self).triple_view() == old(self).triple_view(),
            final(self).profile_view() == old(self).profile_view(),
    {
        self.quick_check = enable;
    }

    /// The members to build, in dependency order, restricted to those named
    /// in `requested` (all of them when it is empty).
    pub fn members_to_build(&self, requested: &Vec<String>) -> (r: ForgeResult<Vec<&WorkspaceMember>>)
        ensures
            match r {
                Ok(v) => exists|order: Seq<int>|
                    {
                        &&& #[trigger] is_build_order(
                            member_names(self.workspace_view().members@),
                            self.workspace_view().root_config.workspace,
                            order,
                        )
                        &&& derefs(v@) == selected(
                            order.map_values(|k: int| self.workspace_view().members@[k]),
                            strs(requested@),
                        )
                    },
                Err(e) => resolution_failure(
                    member_names(self.workspace_view().members@),
                    self.workspace_view().root_config.workspace,
                    e,
                ),
            },
    {
        let order = match self.workspace.get_build_order() {
            Ok(v) => v,
            Err(e) => {
                return Err(e);
            },
        };
        let ghost witness = choose|o: Seq<int>|
            {
                &&& is_build_order(member_names(self.workspace.members@), self.workspace.root_config.workspace, o)
                &&& #[trigger] o.len() == order@.len()
                &&& forall|k: int| 0 <= k < order@.len() ==> *order@[k] == self.workspace.members@[o[k]]
            };
        let ghost all = witness.map_values(|k: int| self.workspace.members@[k]);
        proof {
            assert(derefs(order@) =~= all);
        }
        let all_selected = requested.len() == 0;
        let mut r: Vec<&WorkspaceMember> = Vec::new();
        let mut i: usize = 0;
        while i < order.len()
            invariant
                i <= order.len(),
                all_selected == (requested@.len() == 0),
                derefs(order@) == all,
                derefs(r@) == selected(all.take(i as int), strs(requested@)),
            decreases order.len() - i,
        {
            proof {
                assert(all.take(i + 1).drop_last() =~= all.take(i as int));
                assert(all.take(i + 1).last() == *order@[i as int]);
            }
            let m = order[i];
            if all_selected || contains_text(requested, m.name.as_str()) {
                r.push(m);
                assert(derefs(r@) =~= selected(all.take(i + 1), strs(requested@)));
            } else {
                assert(derefs(r@) =~= selected(all.take(i + 1), strs(requested@)));
            }
            i = i + 1;
        }
        proof {
            assert(all.take(order@.len() as int) =~= all);
        }
        Ok(r)
    }

    /// Compiles each source to its object and links them all, as the plan
    /// records.
    fn plan(
        &self,
        name: &str,
        sources: &Vec<String>,
        build_dir: &str,
        artifact: String,
        compile_cfg: &CompilerConfig,
        link_cfg: &CompilerConfig,
        profile_cfg: &BuildProfile,
        dirs: Vec<String>,
        compiler: &str,
        target: &str,
        profile: &str,
        flags: Vec<String>,
    ) -> (r: MemberPlan)
        ensures
            is_plan(
                r,
                self.toolchain_view(),
                sources@,
                build_dir@,
                artifact@,
                *compile_cfg,
                *link_cfg,
                *profile_cfg,
                strs(dirs@),
                compiler@,
            ),
            r.name@ == name@,
            r.target@ == target@,
            r.profile@ == profile@,
            strs(r.flags@) == strs(flags@),
    {
        let mut objects: Vec<String> = Vec::new();
        let mut commands: Vec<CompilerCommand> = Vec::new();
        let mut copies: Vec<String> = Vec::new();
        let mut i: usize = 0;
        while i < sources.len()
            invariant
                i <= sources.len(),
                objects@.len() == i,
                commands@.len() == i,
                copies@.len() == i,
                forall|k: int|
                    0 <= k < i ==> {
                        &&& #[trigger] copies@[k]@ == sources@[k]@
                        &&& objects@[k]@ == object_path_of(sources@[k]@, build_dir@)
                        &&& commands@[k].program@ == invocation_of(self.toolchain_view(), compiler@).0
                        &&& strs(commands@[k].args@) == invocation_of(self.toolchain_view(), compiler@).1
                            + compile_args_of(sources@[k]@, objects@[k]@, *compile_cfg, *profile_cfg, strs(dirs@))
                    },
            decreases sources.len() - i,
        {
            let object = Compiler::get_object_path(sources[i].as_str(), build_dir);
            let cmd = self.compiler.compile(
                sources[i].as_str(),
                object.as_str(),
                compile_cfg,
                profile_cfg,
                &dirs,
                compiler,
            );
            objects.push(object);
            commands.push(cmd);
            copies.push(sources[i].clone());
            i = i + 1;
        }
        let link_command = self.compiler.link(&objects, artifact.as_str(), link_cfg, profile_cfg, compiler);
        MemberPlan {
            name: name.to_owned(),
            build_dir: build_dir.to_owned(),
            sources: copies,
            objects,
            compile_commands: commands,
            artifact,
            link_command,
            target: target.to_owned(),
            profile: profile.to_owned(),
            flags,
            include_dirs: dirs,
        }
    }

    /// The target and profile `member` builds with, and its profile's
    /// settings; fails when no profile carries the profile's name.
    fn resolve_profile<'a>(&self, member: &'a WorkspaceMember) -> (r: ForgeResult<(String, String, &'a BuildProfile)>)
        ensures
            ({
                let profile = effective_profile(self.profile_view(), *member);
                let i = first_named(member.config.profiles@, profile);
                match r {
                    Ok((t, p, cfg)) => i >= 0 && t@ == effective_target(self.triple_view(), *member) && p@ == profile
                        && *cfg == member.config.profiles@[i].1,
                    Err(e) => i < 0 && (e matches ForgeError::Build(m) && m@ == "Profile not found: "@ + profile),
                }
            }),
    {
        let target = match &self.target_triple {
            Some(t) => t.clone(),
            None => match &member.config.cross {
                Some(c) => c.target.clone(),
                None => String::from_str("native"),
            },
        };
        let profile = match &self.selected_profile {
            Some(p) => p.clone(),
            None => member.config.build.default_profile.clone(),
        };
        match member.config.get_profile(Some(profile.as_str())) {
            Some(cfg) => Ok((target, profile, cfg)),
            None => Err(ForgeError::Build(String::from_str("Profile not found: ").concat(profile.as_str()))),
        }
    }

    /// The plan that builds `member` from `sources`: objects in the member's
    /// build directory, artifact at its target path, the effective target
    /// and profile, and the member's flags followed by the profile's. Fails
    /// when the profile is not defined.
    pub fn plan_member(&self, member: &WorkspaceMember, sources: &Vec<String>) -> (r: ForgeResult<MemberPlan>)
        ensures
            ({
                let profile = effective_profile(self.profile_view(), *member);
                let i = first_named(member.config.profiles@, profile);
                let build_dir = path_join(
                    path_join(member.workspace_root@, member.config.paths.build@),
                    member.name@,
                );
                match r {
                    Ok(p) => {
                        &&& i >= 0
                        &&& p.name@ == member.name@
                        &&& p.target@ == effective_target(self.triple_view(), *member)
                        &&& p.profile@ == profile
                        &&& strs(p.flags@) == strs(member.config.compiler.flags@) + strs(
                            member.config.profiles@[i].1.extra_flags@,
                        )
                        &&& p.artifact@ == target_path_of(*member)
                        &&& strs(p.include_dirs@) == include_dirs_of(*member)
                        &&& is_plan(
                            p,
                            self.toolchain_view(),
                            sources@,
                            build_dir,
                            p.artifact@,
                            member.config.compiler,
                            member.config.compiler,
                            member.config.profiles@[i].1,
                            strs(p.include_dirs@),
                            member.config.build.compiler@,
                        )
                    },
                    Err(e) => i < 0 && (e matches ForgeError::Build(m) && m@ == "Profile not found: "@ + profile),
                }
            }),
    {
        let (target, profile, profile_cfg) = match self.resolve_profile(member) {
            Ok(x) => x,
            Err(e) => {
                return Err(e);
            },
        };
        let flags = concat_strings(&member.config.compiler.flags, &profile_cfg.extra_flags);
        let build_dir = member.get_build_dir();
        let artifact = member.get_target_path();
        let dirs = member.get_include_dirs();
        let plan = self.plan(
            member.name.as_str(),
            sources,
            build_dir.as_str(),
            artifact,
            &member.config.compiler,
            &member.config.compiler,
            profile_cfg,
            dirs,
            member.config.build.compiler.as_str(),
            target.as_str(),
            profile.as_str(),
            flags,
        );
        Ok(plan)
    }

    /// The plan that builds the tests of `member`: the test sources, then
    /// the entry file when the configuration names one, compiled into the
    /// member's `tests` build directory with the test flags and libraries
    /// added, and linked into the artifact there. `None` when there are no
    /// test sources; fails when the entry file is named but does not exist
    /// (`main_exists`), or when the profile is not defined.
    pub fn plan_tests(
        &self,
        member: &WorkspaceMember,
        test_config: &TestConfig,
        test_sources: &Vec<String>,
        main_exists: bool,
    ) -> (r: ForgeResult<Option<MemberPlan>>)
        ensures
            test_sources@.len() == 0 ==> r == Ok::<Option<MemberPlan>, ForgeError>(None),
            test_sources@.len() > 0 && test_config.main is Some && !main_exists ==> (r matches Err(
                ForgeError::Build(m),
            ) && m@ == "Test main file not found: "@ + test_config.main->0@),
            ({
                let profile = effective_profile(self.profile_view(), *member);
                let i = first_named(member.config.profiles@, profile);
                let test_dir = path_join(
                    path_join(path_join(member.workspace_root@, member.config.paths.build@), member.name@),
                    "tests"@,
                );
                test_sources@.len() > 0 && (test_config.main is None || main_exists) ==> match r {
                    Ok(Some(p)) => {
                        &&& i >= 0
                        &&& p.target@ == effective_target(self.triple_view(), *member)
                        &&& p.profile@ == profile
                        &&& strs(p.flags@) == strs(member.config.compiler.flags@) + strs(
                            member.config.profiles@[i].1.extra_flags@,
                        ) + strs(test_config.flags@)
                        &&& p.sources@.len() == test_sources@.len() + if test_config.main is Some {
                            1int
                        } else {
                            0int
                        }
                        &&& forall|k: int| 0 <= k < test_sources@.len() ==> #[trigger] p.sources@[k]@ == test_sources@[k]@
                        &&& test_config.main matches Some(m) ==> p.sources@.last()@ == path_join(member.path@, m@)
                        &&& strs(p.include_dirs@) == include_dirs_of(*member)
                        &&& exists|c: CompilerConfig|
                            {
                                &&& extended_config(
                                    c,
                                    member.config.compiler,
                                    strs(test_config.flags@),
                                    strs(test_config.libs@),
                                )
                                &&& #[trigger] is_plan(
                                    p,
                                    self.toolchain_view(),
                                    p.sources@,
                                    test_dir,
                                    path_join(test_dir, member.config.build.target@),
                                    c,
                                    c,
                                    member.config.profiles@[i].1,
                                    strs(p.include_dirs@),
                                    member.config.build.compiler@,
                                )
                            }
                    },
                    Ok(None) => false,
                    Err(e) => i < 0 && (e matches ForgeError::Build(m) && m@ == "Profile not found: "@ + profile),
                }
            }),
    {
        if test_sources.len() == 0 {
            return Ok(None);
        }
        let mut all = clone_strings(test_sources);
        match &test_config.main {
            Some(m) => {
                if !main_exists {
                    return Err(ForgeError::Build(String::from_str("Test main file not found: ").concat(m.as_str())));
                }
                all.push(join_path(member.path.as_str(), m.as_str()));
            },
            None => {},
        }
        let (target, profile, profile_cfg) = match self.resolve_profile(member) {
            Ok(x) => x,
            Err(e) => {
                return Err(e);
            },
        };
        let mut flags = concat_strings(&member.config.compiler.flags, &profile_cfg.extra_flags);
        append_strings(&mut flags, &test_config.flags);
        let test_dir = join_path(member.get_build_dir().as_str(), "tests");
        let artifact = join_path(test_dir.as_str(), member.config.build.target.as_str());
        let cfg = extend_config(&member.config.compiler, &test_config.flags, &test_config.libs);
        let dirs = member.get_include_dirs();
        let plan = self.plan(
            member.name.as_str(),
            &all,
            test_dir.as_str(),
            artifact,
            &cfg,
            &cfg,
            profile_cfg,
            dirs,
            member.config.build.compiler.as_str(),
            target.as_str(),
            profile.as_str(),
            flags,
        );
        proof {
            reveal_strlit("tests");
            assert(is_plan(
                plan,
                self.toolchain_view(),
                plan.sources@,
                plan.build_dir@,
                plan.artifact@,
                cfg,
                cfg,
                *profile_cfg,
                strs(plan.include_dirs@),
                member.config.build.compiler@,
            ));
        }
        Ok(Some(plan))
    }
}

} // verus!
