use vstd::prelude::*;

use crate::error::{ForgeError, ForgeResult};
use crate::paths::{join_path, path_join};
use crate::target::{arch_name, os_name, triple_of, vendor_name, Target, OS};
use crate::text::{append_strings, strs};

verus! {

/// A program to run and its arguments.
#[derive(Debug)]
pub struct CompilerCommand {
    pub program: String,
    pub args: Vec<String>,
}

/// A cross-compilation toolchain: where its binaries are, what it targets,
/// an optional sysroot, and flags every invocation gets.
#[derive(Debug, Clone)]
pub struct Toolchain {
    root: String,
    target: Target,
    sysroot: Option<String>,
    extra_flags: Vec<String>,
}

/// Directory searched for toolchain binaries when none is given.
pub open spec fn default_toolchain_root() -> Seq<char> {
    "/usr/local/bin"@
}

/// The toolchain binary for `compiler`: `compiler.exe` under the root for
/// Windows targets, else the compiler prefixed with `arch-vendor-os-`.
pub open spec fn compiler_path_of(root: Seq<char>, target: Target, compiler: Seq<char>) -> Seq<char> {
    if target.os == OS::Windows {
        path_join(root, compiler + ".exe"@)
    } else {
        path_join(
            root,
            arch_name(target.arch) + "-"@ + vendor_name(target.vendor) + "-"@ + os_name(target.os) + "-"@ + compiler,
        )
    }
}

/// The arguments a toolchain puts before every invocation: the target, the
/// sysroot when there is one, then its extra flags.
pub open spec fn toolchain_args(target: Target, sysroot: Option<String>, extra: Seq<Seq<char>>) -> Seq<Seq<char>> {
    seq!["--target="@ + triple_of(target)] + match sysroot {
        Some(s) => seq!["--sysroot="@ + s@],
        None => Seq::empty(),
    } + extra
}

impl Toolchain {
    pub closed spec fn root_view(&self) -> Seq<char> {
        self.root@
    }

    pub closed spec fn target_view(&self) -> Target {
        self.target
    }

    pub closed spec fn sysroot_view(&self) -> Option<String> {
        self.sysroot
    }

    pub closed spec fn extra_flags_view(&self) -> Seq<Seq<char>> {
        strs(self.extra_flags@)
    }

    /// A toolchain for `target`, with binaries under `toolchain_path` (or the
    /// default directory) and an optional sysroot.
    pub fn new(
        target: Target,
        toolchain_path: Option<&str>,
        sysroot: Option<&str>,
        extra_flags: Vec<String>,
    ) -> (r: ForgeResult<Self>)
        ensures
            r matches Ok(t) && t.root_view() == match toolchain_path {
                Some(p) => p@,
                None => default_toolchain_root(),
            } && t.target_view() == target && t.extra_flags_view() == strs(extra_flags@) && match sysroot {
                Some(s) => t.sysroot_view() matches Some(x) && x@ == s@,
                None => t.sysroot_view() is None,
            },
    {
        let root = match toolchain_path {
            Some(p) => p.to_owned(),
            None => String::from_str("/usr/local/bin"),
        };
        let sysroot = match sysroot {
            Some(s) => Some(s.to_owned()),
            None => None,
        };
        Ok(Toolchain { root, target, sysroot, extra_flags })
    }

    /// Where the binary for `compiler` lives in this toolchain.
    pub fn get_compiler_path(&self, compiler: &str) -> (r: String)
        ensures
            r@ == compiler_path_of(self.root_view(), self.target_view(), compiler@),
    {
        if self.target.is_windows() {
            let name = String::from_str(compiler).concat(".exe");
            join_path(self.root.as_str(), name.as_str())
        } else {
            let name = self.target.arch.to_string().concat("-").concat(self.target.vendor.to_string().as_str()).concat(
                "-",
            ).concat(self.target.os.to_string().as_str()).concat("-").concat(compiler);
            join_path(self.root.as_str(), name.as_str())
        }
    }

    /// The invocation of `compiler` through this toolchain, before any
    /// arguments of its own.
    pub fn get_compiler_command(&self, compiler: &str) -> (r: CompilerCommand)
        ensures
            r.program@ == compiler_path_of(self.root_view(), self.target_view(), compiler@),
            strs(r.args@) == toolchain_args(self.target_view(), self.sysroot_view(), self.extra_flags_view()),
    {
        let program = self.get_compiler_path(compiler);
        let mut args: Vec<String> = Vec::new();
        args.push(String::from_str("--target=").concat(self.target.to_string().as_str()));
        match &self.sysroot {
            Some(s) => {
                args.push(String::from_str("--sysroot=").concat(s.as_str()));
            },
            None => {},
        }
        let ghost front = strs(args@);
        append_strings(&mut args, &self.extra_flags);
        proof {
            assert(strs(args@) =~= toolchain_args(self.target, self.sysroot, strs(self.extra_flags@)));
        }
        CompilerCommand { program, args }
    }

    pub fn get_sysroot(&self) -> (r: Option<&str>)
        ensures
            match self.sysroot_view() {
                Some(s) => r matches Some(x) && x@ == s@,
                None => r is None,
            },
    {
        match &self.sysroot {
            Some(s) => Some(s.as_str()),
            None => None,
        }
    }

    /// This toolchain with its extra flags replaced by `flags`.
    pub fn with_extra_flags(self, flags: Vec<String>) -> (r: Self)
        ensures
            r.root_view() == self.root_view(),
            r.target_view() == self.target_view(),
            r.sysroot_view() == self.sysroot_view(),
            r.extra_flags_view() == strs(flags@),
    {
        Toolchain { extra_flags: flags, ..self }
    }

    /// Checks the toolchain's directories, given whether its root exists and
    /// whether its sysroot (when it has one) exists.
    pub fn verify(&self, root_exists: bool, sysroot_exists: bool) -> (r: ForgeResult<()>)
        ensures
            !root_exists ==> (r matches Err(ForgeError::Config(m)) && m@
                == "Toolchain root directory does not exist: "@ + self.root_view()),
            root_exists && self.sysroot_view() is Some && !sysroot_exists ==> (r matches Err(ForgeError::Config(m))
                && m@ == "Sysroot directory does not exist: "@ + self.sysroot_view()->0@),
            root_exists && (self.sysroot_view() is None || sysroot_exists) ==> r is Ok,
    {
        if !root_exists {
            return Err(
                ForgeError::Config(
                    String::from_str("Toolchain root directory does not exist: ").concat(self.root.as_str()),
                ),
            );
        }
        match &self.sysroot {
            Some(s) => {
                if !sysroot_exists {
                    return Err(
                        ForgeError::Config(String::from_str("Sysroot directory does not exist: ").concat(s.as_str())),
                    );
                }
            },
            None => {},
        }
        Ok(())
    }
}

} // verus!
