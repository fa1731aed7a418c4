use vstd::prelude::*;

use crate::config::{BuildProfile, CompilerConfig};
use crate::paths::{join_path, path_join};
use crate::text::{append_strings, strs};
use crate::toolchains::{compiler_path_of, toolchain_args, CompilerCommand, Toolchain};

verus! {

/// The text of capture group 1 (empty where the group took no part) in each
/// successive non-overlapping match of `pattern` in `text`.
pub uninterp spec fn first_group_matches(pattern: Seq<char>, text: Seq<char>) -> Seq<Seq<char>>;

/// Relies on regex's `Regex::new`, which fails only on a pattern that is not
/// valid syntax or exceeds the size limit (the file-inclusion directive
/// pattern is neither), and `Regex::captures_iter`, which yields the
/// successive non-overlapping leftmost-first matches, reading capture group
/// 1 of each.
#[verifier::external_body]
fn regex_first_groups(pattern: &str, text: &str) -> (r: Option<Vec<String>>)
    ensures
        r matches Some(v) ==> strs(v@) == first_group_matches(pattern@, text@),
        pattern@ == directive_pattern() ==> r is Some,
{
    match regex::Regex::new(pattern) {
        Ok(re) => Some(re.captures_iter(text).map(|c| c.get(1).map_or(String::new(), |m| m.as_str().to_string())).collect()),
        Err(_) => None,
    }
}

/// The pattern of a preprocessor file-inclusion directive, capturing the
/// header name between quotes or angle brackets.
pub open spec fn directive_pattern() -> Seq<char> {
    "#inc"@ + "lude"@ + "\\s*[<\"]([^>\"]+)[>\"]"@
}

/// Each element of `items` with `prefix` in front.
pub open spec fn with_prefix(prefix: Seq<char>, items: Seq<Seq<char>>) -> Seq<Seq<char>> {
    items.map_values(|s: Seq<char>| prefix + s)
}

/// `-Dname=value` for each definition.
pub open spec fn definition_args(defs: Seq<(String, String)>) -> Seq<Seq<char>> {
    defs.map_values(|d: (String, String)| "-D"@ + d.0@ + "="@ + d.1@)
}

/// The arguments that compile `source` to `object`.
pub open spec fn compile_args_of(
    source: Seq<char>,
    object: Seq<char>,
    config: CompilerConfig,
    profile: BuildProfile,
    header_dirs: Seq<Seq<char>>,
) -> Seq<Seq<char>> {
    seq!["-c"@, source, "-o"@, object] + with_prefix("-I"@, header_dirs) + strs(config.flags@) + seq![
        "-O"@ + profile.opt_level@,
    ] + (if profile.debug_info {
        seq!["-g"@]
    } else {
        Seq::empty()
    }) + (if profile.lto {
        seq!["-flto"@]
    } else {
        Seq::empty()
    }) + strs(profile.extra_flags@) + definition_args(config.definitions@) + with_prefix(
        "-L"@,
        strs(config.library_paths@),
    ) + (if config.warnings_as_errors {
        seq!["-Werror"@]
    } else {
        Seq::empty()
    })
}

/// The arguments that link `objects` into `target`.
pub open spec fn link_args_of(
    objects: Seq<Seq<char>>,
    target: Seq<char>,
    config: CompilerConfig,
    profile: BuildProfile,
) -> Seq<Seq<char>> {
    objects + seq!["-o"@, target] + with_prefix("-L"@, strs(config.library_paths@)) + with_prefix(
        "-l"@,
        strs(config.libraries@),
    ) + (if profile.lto {
        seq!["-flto"@]
    } else {
        Seq::empty()
    }) + strs(profile.extra_flags@)
}

/// The program a compiler with toolchain `tc` runs for `compiler`, and the
/// arguments it puts before its own.
pub open spec fn invocation_of(tc: Option<Toolchain>, compiler: Seq<char>) -> (Seq<char>, Seq<Seq<char>>) {
    match tc {
        Some(t) => (
            compiler_path_of(t.root_view(), t.target_view(), compiler),
            toolchain_args(t.target_view(), t.sysroot_view(), t.extra_flags_view()),
        ),
        None => (compiler, Seq::empty()),
    }
}

/// Index of the last `c` in `s`, or -1.
pub open spec fn last_index_of(s: Seq<char>, c: char) -> int
    decreases s.len(),
{
    if s.len() == 0 {
        -1
    } else if s.last() == c {
        s.len() - 1
    } else {
        last_index_of(s.drop_last(), c)
    }
}

proof fn lemma_last_index_range(s: Seq<char>, c: char)
    ensures
        -1 <= last_index_of(s, c) < s.len(),
        last_index_of(s, c) >= 0 ==> s[last_index_of(s, c)] == c,
    decreases s.len(),
{
    if s.len() > 0 && s.last() != c {
        lemma_last_index_range(s.drop_last(), c);
    }
}

/// The last component of a path.
pub open spec fn file_name_of(path: Seq<char>) -> Seq<char> {
    path.subrange(last_index_of(path, '/') + 1, path.len() as int)
}

/// A file name without its final extension: everything before the last dot,
/// unless that dot is the name's first character.
pub open spec fn stem_of(name: Seq<char>) -> Seq<char> {
    if last_index_of(name, '.') > 0 {
        name.subrange(0, last_index_of(name, '.'))
    } else {
        name
    }
}

/// Where the object file of `source` goes in `build_dir`.
pub open spec fn object_path_of(source: Seq<char>, build_dir: Seq<char>) -> Seq<char> {
    path_join(build_dir, stem_of(file_name_of(source)) + ".o"@)
}

/// Index of the first `true` in `s`, or -1.
pub open spec fn first_present(s: Seq<bool>) -> int
    decreases s.len(),
{
    if s.len() == 0 {
        -1
    } else if s[0] {
        0
    } else if first_present(s.skip(1)) < 0 {
        -1
    } else {
        first_present(s.skip(1)) + 1
    }
}

proof fn lemma_first_present(s: Seq<bool>)
    ensures
        -1 <= first_present(s) < s.len(),
        first_present(s) >= 0 ==> s[first_present(s)],
        first_present(s) >= 0 ==> forall|k: int| 0 <= k < first_present(s) ==> !s[k],
        first_present(s) < 0 ==> forall|k: int| 0 <= k < s.len() ==> !s[k],
    decreases s.len(),
{
    if s.len() > 0 && !s[0] {
        lemma_first_present(s.skip(1));
        assert forall|k: int| 1 <= k < s.len() implies s[k] == s.skip(1)[k - 1] by {}
    }
}

/// The paths that the header names resolve to, in order, where `present[i][k]`
/// tells whether header `i` exists in directory `k`: each name takes the
/// first directory holding it, and a name held by none is left out.
pub open spec fn resolved_headers(names: Seq<Seq<char>>, dirs: Seq<Seq<char>>, present: Seq<Seq<bool>>) -> Seq<
    Seq<char>,
>
    decreases names.len(),
{
    if names.len() == 0 || present.len() == 0 {
        Seq::empty()
    } else {
        let r = resolved_headers(names.drop_last(), dirs, present.drop_last());
        let k = first_present(present.last());
        if k >= 0 {
            r.push(path_join(dirs[k], names.last()))
        } else {
            r
        }
    }
}

pub open spec fn presence(present: Seq<Vec<bool>>) -> Seq<Seq<bool>> {
    present.map_values(|v: Vec<bool>| v@)
}

/// Index of the last `c` in `s`.
pub(crate) fn find_last(s: &str, c: char) -> (r: Option<usize>)
    ensures
        match r {
            Some(i) => i as int == last_index_of(s@, c) && i < s@.len(),
            None => last_index_of(s@, c) == -1,
        },
{
    let n = s.unicode_len();
    let mut i: usize = n;
    assert(s@.take(n as int) =~= s@);
    while i > 0
        invariant
            i <= n,
            n == s@.len(),
            last_index_of(s@, c) == last_index_of(s@.take(i as int), c),
        decreases i,
    {
        let ch = s.get_char(i - 1);
        proof {
            assert(s@.take(i as int).last() == ch);
            assert(s@.take(i as int).drop_last() =~= s@.take(i - 1));
        }
        if ch == c {
            return Some(i - 1);
        }
        i = i - 1;
    }
    proof {
        assert(s@.take(0) =~= Seq::<char>::empty());
    }
    None
}

/// Each of `items` with `prefix` in front.
fn prefix_each(prefix: &str, items: &Vec<String>) -> (r: Vec<String>)
    ensures
        strs(r@) == with_prefix(prefix@, strs(items@)),
{
    let mut r: Vec<String> = Vec::new();
    let mut i: usize = 0;
    while i < items.len()
        invariant
            i <= items.len(),
            r@.len() == i,
            forall|k: int| 0 <= k < i ==> #[trigger] r@[k]@ == prefix@ + items@[k]@,
        decreases items.len() - i,
    {
        r.push(String::from_str(prefix).concat(items[i].as_str()));
        i = i + 1;
    }
    assert(strs(r@) =~= with_prefix(prefix@, strs(items@)));
    r
}

fn definitions(defs: &Vec<(String, String)>) -> (r: Vec<String>)
    ensures
        strs(r@) == definition_args(defs@),
{
    let mut r: Vec<String> = Vec::new();
    let mut i: usize = 0;
    while i < defs.len()
        invariant
            i <= defs.len(),
            r@.len() == i,
            forall|k: int| 0 <= k < i ==> #[trigger] r@[k]@ == "-D"@ + defs@[k].0@ + "="@ + defs@[k].1@,
        decreases defs.len() - i,
    {
        r.push(String::from_str("-D").concat(defs[i].0.as_str()).concat("=").concat(defs[i].1.as_str()));
        i = i + 1;
    }
    assert(strs(r@) =~= definition_args(defs@));
    r
}

/// Invokes the compiler and linker for a target, directly or through a
/// cross-compilation toolchain.
pub struct Compiler {
    toolchain: Option<Toolchain>,
}

impl Compiler {
    pub closed spec fn toolchain_view(&self) -> Option<Toolchain> {
        self.toolchain
    }

    pub fn new(toolchain: Option<Toolchain>) -> (r: Self)
        ensures
            r.toolchain_view() == toolchain,
    {
        Compiler { toolchain }
    }

    /// The header names that the source text `content` asks to include, in
    /// order of appearance: what the directive pattern captures.
    pub fn header_names(content: &str) -> (r: Vec<String>)
        ensures
            strs(r@) == first_group_matches(directive_pattern(), content@),
    {
        let pattern = String::from_str("#inc").concat("lude").concat("\\s*[<\"]([^>\"]+)[>\"]");
        proof {
            assert(pattern@ =~= directive_pattern());
        }
        match regex_first_groups(pattern.as_str(), content) {
            Some(v) => v,
            None => Vec::new(),
        }
    }

    /// Resolves `header` against the header directories, in order: the first
    /// directory where it is `present` wins; `None` when it is in none.
    pub fn resolve_header(header: &str, include_dirs: &Vec<String>, present: &Vec<bool>) -> (r: Option<String>)
        requires
            present@.len() == include_dirs@.len(),
        ensures
            first_present(present@) < 0 ==> r is None,
            first_present(present@) >= 0 ==> (r matches Some(p) && p@ == path_join(
                include_dirs@[first_present(present@)]@,
                header@,
            )),
    {
        proof {
            lemma_first_present(present@);
        }
        let mut i: usize = 0;
        while i < present.len()
            invariant
                i <= present.len(),
                present@.len() == include_dirs@.len(),
                forall|k: int| 0 <= k < i ==> !present@[k],
                -1 <= first_present(present@) < present@.len(),
                first_present(present@) >= 0 ==> present@[first_present(present@)],
                first_present(present@) >= 0 ==> forall|k: int| 0 <= k < first_present(present@) ==> !present@[k],
                first_present(present@) < 0 ==> forall|k: int| 0 <= k < present@.len() ==> !present@[k],
            decreases present.len() - i,
        {
            if present[i] {
                return Some(join_path(include_dirs[i].as_str(), header));
            }
            i = i + 1;
        }
        None
    }

    /// Resolves every header name against the header directories, in order,
    /// given for each name which directories hold it; names held by none are
    /// left out.
    pub fn resolve_headers(names: &Vec<String>, include_dirs: &Vec<String>, present: &Vec<Vec<bool>>) -> (r: Vec<
        String,
    >)
        requires
            present@.len() == names@.len(),
            forall|i: int| 0 <= i < present@.len() ==> (#[trigger] present@[i])@.len() == include_dirs@.len(),
        ensures
            strs(r@) == resolved_headers(strs(names@), strs(include_dirs@), presence(present@)),
    {
        let ghost all_names = strs(names@);
        let ghost all_present = presence(present@);
        let mut r: Vec<String> = Vec::new();
        let mut i: usize = 0;
        while i < names.len()
            invariant
                i <= names.len(),
                present@.len() == names@.len(),
                forall|j: int| 0 <= j < present@.len() ==> (#[trigger] present@[j])@.len() == include_dirs@.len(),
                all_names == strs(names@),
                all_present == presence(present@),
                strs(r@) == resolved_headers(all_names.take(i as int), strs(include_dirs@), all_present.take(i as int)),
            decreases names.len() - i,
        {
            proof {
                assert(all_names.take(i + 1).drop_last() =~= all_names.take(i as int));
                assert(all_present.take(i + 1).drop_last() =~= all_present.take(i as int));
                assert(all_names.take(i + 1).last() == names@[i as int]@);
                assert(all_present.take(i + 1).last() == present@[i as int]@);
                assert(present@[i as int]@.len() == include_dirs@.len());
            }
            match Compiler::resolve_header(names[i].as_str(), include_dirs, &present[i]) {
                Some(p) => {
                    proof {
                        let k = first_present(present@[i as int]@);
                        lemma_first_present(present@[i as int]@);
                        assert(strs(include_dirs@)[k] == include_dirs@[k]@);
                    }
                    r.push(p);
                    assert(strs(r@) =~= resolved_headers(
                        all_names.take(i + 1),
                        strs(include_dirs@),
                        all_present.take(i + 1),
                    ));
                },
                None => {},
            }
            i = i + 1;
        }
        proof {
            assert(all_names.take(names@.len() as int) =~= all_names);
            assert(all_present.take(names@.len() as int) =~= all_present);
        }
        r
    }

    /// The arguments that compile `source` to `object` with the given
    /// settings and header directories.
    pub fn compile_args(
        source: &str,
        object: &str,
        config: &CompilerConfig,
        profile: &BuildProfile,
        include_dirs: &Vec<String>,
    ) -> (r: Vec<String>)
        ensures
            strs(r@) == compile_args_of(source@, object@, *config, *profile, strs(include_dirs@)),
    {
        let mut args: Vec<String> = Vec::new();
        args.push(String::from_str("-c"));
        args.push(source.to_owned());
        args.push(String::from_str("-o"));
        args.push(object.to_owned());
        let ghost a0 = strs(args@);
        proof {
            assert(a0 =~= seq!["-c"@, source@, "-o"@, object@]);
        }
        append_strings(&mut args, &prefix_each("-I", include_dirs));
        append_strings(&mut args, &config.flags);
        let ghost a1 = strs(args@);
        args.push(String::from_str("-O").concat(profile.opt_level.as_str()));
        let ghost a2 = strs(args@);
        proof {
            assert(a2 =~= a1 + seq!["-O"@ + profile.opt_level@]);
        }
        if profile.debug_info {
            args.push(String::from_str("-g"));
        }
        let ghost a3 = strs(args@);
        proof {
            assert(a3 =~= a2 + (if profile.debug_info {
                seq!["-g"@]
            } else {
                Seq::empty()
            }));
        }
        if profile.lto {
            args.push(String::from_str("-flto"));
        }
        let ghost a4 = strs(args@);
        proof {
            assert(a4 =~= a3 + (if profile.lto {
                seq!["-flto"@]
            } else {
                Seq::empty()
            }));
        }
        append_strings(&mut args, &profile.extra_flags);
        append_strings(&mut args, &definitions(&config.definitions));
        append_strings(&mut args, &prefix_each("-L", &config.library_paths));
        let ghost a5 = strs(args@);
        if config.warnings_as_errors {
            args.push(String::from_str("-Werror"));
        }
        proof {
            assert(strs(args@) =~= a5 + (if config.warnings_as_errors {
                seq!["-Werror"@]
            } else {
                Seq::empty()
            }));
            assert(strs(args@) =~= compile_args_of(source@, object@, *config, *profile, strs(include_dirs@)));
        }
        args
    }

    /// The arguments that link `objects` into `target`.
    pub fn link_args(objects: &Vec<String>, target: &str, config: &CompilerConfig, profile: &BuildProfile) -> (r:
        Vec<String>)
        ensures
            strs(r@) == link_args_of(strs(objects@), target@, *config, *profile),
    {
        let mut args: Vec<String> = Vec::new();
        append_strings(&mut args, objects);
        let ghost a0 = strs(args@);
        args.push(String::from_str("-o"));
        args.push(target.to_owned());
        proof {
            assert(strs(args@) =~= a0 + seq!["-o"@, target@]);
        }
        append_strings(&mut args, &prefix_each("-L", &config.library_paths));
        append_strings(&mut args, &prefix_each("-l", &config.libraries));
        let ghost a1 = strs(args@);
        if profile.lto {
            args.push(String::from_str("-flto"));
        }
        proof {
            assert(strs(args@) =~= a1 + (if profile.lto {
                seq!["-flto"@]
            } else {
                Seq::empty()
            }));
        }
        append_strings(&mut args, &profile.extra_flags);
        proof {
            assert(strs(args@) =~= link_args_of(strs(objects@), target@, *config, *profile));
        }
        args
    }

    /// The program `compiler` as this compiler invokes it: through the
    /// toolchain when there is one, with the toolchain's own arguments first.
    fn invocation(&self, compiler: &str) -> (r: CompilerCommand)
        ensures
            match self.toolchain_view() {
                Some(t) => r.program@ == compiler_path_of(t.root_view(), t.target_view(), compiler@) && strs(r.args@)
                    == toolchain_args(t.target_view(), t.sysroot_view(), t.extra_flags_view()),
                None => r.program@ == compiler@ && r.args@.len() == 0,
            },
    {
        match &self.toolchain {
            Some(t) => t.get_compiler_command(compiler),
            None => CompilerCommand { program: compiler.to_owned(), args: Vec::new() },
        }
    }

    /// The command that compiles `source` to `object` with `compiler`.
    pub fn compile(
        &self,
        source: &str,
        object: &str,
        config: &CompilerConfig,
        profile: &BuildProfile,
        include_dirs: &Vec<String>,
        compiler: &str,
    ) -> (r: CompilerCommand)
        ensures
            r.program@ == invocation_of(self.toolchain_view(), compiler@).0,
            strs(r.args@) == invocation_of(self.toolchain_view(), compiler@).1 + compile_args_of(
                source@,
                object@,
                *config,
                *profile,
                strs(include_dirs@),
            ),
    {
        let mut cmd = self.invocation(compiler);
        let ghost front = strs(cmd.args@);
        append_strings(&mut cmd.args, &Compiler::compile_args(source, object, config, profile, include_dirs));
        proof {
            if self.toolchain_view() is None {
                assert(front =~= Seq::<Seq<char>>::empty());
                assert(front + compile_args_of(source@, object@, *config, *profile, strs(include_dirs@))
                    =~= compile_args_of(source@, object@, *config, *profile, strs(include_dirs@)));
            }
        }
        cmd
    }

    /// The command that links `objects` into `target` with `compiler`.
    pub fn link(
        &self,
        objects: &Vec<String>,
        target: &str,
        config: &CompilerConfig,
        profile: &BuildProfile,
        compiler: &str,
    ) -> (r: CompilerCommand)
        ensures
            r.program@ == invocation_of(self.toolchain_view(), compiler@).0,
            strs(r.args@) == invocation_of(self.toolchain_view(), compiler@).1 + link_args_of(
                strs(objects@),
                target@,
                *config,
                *profile,
            ),
    {
        let mut cmd = self.invocation(compiler);
        let ghost front = strs(cmd.args@);
        append_strings(&mut cmd.args, &Compiler::link_args(objects, target, config, profile));
        proof {
            if self.toolchain_view() is None {
                assert(front =~= Seq::<Seq<char>>::empty());
                assert(front + link_args_of(strs(objects@), target@, *config, *profile) =~= link_args_of(
                    strs(objects@),
                    target@,
                    *config,
                    *profile,
                ));
            }
        }
        cmd
    }

    /// Where the object file of `source` goes in `build_dir`: the source's
    /// file name without its extension, then `.o`.
    pub fn get_object_path(source: &str, build_dir: &str) -> (r: String)
        ensures
            r@ == object_path_of(source@, build_dir@),
    {
        let n = source.unicode_len();
        let start: usize = match find_last(source, '/') {
            Some(i) => i + 1,
            None => 0,
        };
        let name = source.substring_char(start, n);
        proof {
            assert(name@ == file_name_of(source@));
        }
        let stem = match find_last(name, '.') {
            Some(d) => if d > 0 {
                name.substring_char(0, d)
            } else {
                name
            },
            None => name,
        };
        let file = String::from_str(stem).concat(".o");
        join_path(build_dir, file.as_str())
    }
}

impl Default for Compiler {
    fn default() -> (r: Self)
        ensures
            r.toolchain_view() is None,
    {
        Compiler::new(None)
    }
}

} // verus!
