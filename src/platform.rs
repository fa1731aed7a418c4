use vstd::prelude::*;

use crate::text::same_text;

verus! {

/// An operating system the tool itself runs on.
#[derive(Debug, Clone, Copy, PartialEq, Eq, Structural)]
pub enum Platform {
    Windows,
    Linux,
    MacOS,
}

/// A processor architecture the tool itself runs on.
#[derive(Debug, Clone, Copy, PartialEq, Eq, Structural)]
pub enum Architecture {
    X86_64,
    AArch64,
}

pub open spec fn separator_of(p: Platform) -> char {
    match p {
        Platform::Windows => '\\',
        _ => '/',
    }
}

/// `path` with every slash and backslash written as the platform's separator.
pub open spec fn normalized(p: Platform, path: Seq<char>) -> Seq<char> {
    path.map_values(|c: char| if c == '/' || c == '\\' { separator_of(p) } else { c })
}

impl Platform {
    /// The platform an operating-system name (as the standard library spells
    /// it) denotes; `None` for any other system.
    pub fn current(os: &str) -> (r: Option<Platform>)
        ensures
            r == (if os@ == "windows"@ {
                Some(Platform::Windows)
            } else if os@ == "linux"@ {
                Some(Platform::Linux)
            } else if os@ == "macos"@ {
                Some(Platform::MacOS)
            } else {
                None
            }),
    {
        if same_text(os, "windows") {
            Some(Platform::Windows)
        } else if same_text(os, "linux") {
            Some(Platform::Linux)
        } else if same_text(os, "macos") {
            Some(Platform::MacOS)
        } else {
            None
        }
    }

    /// File-name extension of executables.
    pub fn extension(&self) -> (r: &'static str)
        ensures
            *self == Platform::Windows ==> r@ == ".exe"@,
            *self != Platform::Windows ==> r@ == ""@,
    {
        match self {
            Platform::Windows => ".exe",
            _ => "",
        }
    }

    pub fn path_separator(&self) -> (r: char)
        ensures
            r == separator_of(*self),
    {
        match self {
            Platform::Windows => '\\',
            _ => '/',
        }
    }

    /// The compiler used when a project names none.
    pub fn default_compiler(&self) -> (r: &'static str)
        ensures
            *self == Platform::Windows ==> r@ == "cl.exe"@,
            *self != Platform::Windows ==> r@ == "g++"@,
    {
        match self {
            Platform::Windows => "cl.exe",
            _ => "g++",
        }
    }

    /// `path` with the platform's separator throughout.
    pub fn normalize_path(&self, path: &str) -> (r: String)
        ensures
            r@ == normalized(*self, path@),
    {
        let sep: &str = match self {
            Platform::Windows => "\\",
            _ => "/",
        };
        proof {
            reveal_strlit("\\");
            reveal_strlit("/");
        }
        let n = path.unicode_len();
        let mut out = String::new();
        let mut i: usize = 0;
        while i < n
            invariant
                i <= n,
                n == path@.len(),
                sep@ == seq![separator_of(*self)],
                out@ == normalized(*self, path@.take(i as int)),
            decreases n - i,
        {
            let c = path.get_char(i);
            if c == '/' || c == '\\' {
                out = out.concat(sep);
            } else {
                let piece = path.substring_char(i, i + 1);
                assert(piece@ =~= seq![c]);
                out = out.concat(piece);
            }
            i = i + 1;
            assert(out@ =~= normalized(*self, path@.take(i as int)));
        }
        assert(path@.take(n as int) =~= path@);
        out
    }
}

impl Architecture {
    /// The architecture a name (as the standard library spells it) denotes;
    /// `None` for any other.
    pub fn current(arch: &str) -> (r: Option<Architecture>)
        ensures
            r == (if arch@ == "x86_64"@ {
                Some(Architecture::X86_64)
            } else if arch@ == "aarch64"@ {
                Some(Architecture::AArch64)
            } else {
                None
            }),
    {
        if same_text(arch, "x86_64") {
            Some(Architecture::X86_64)
        } else if same_text(arch, "aarch64") {
            Some(Architecture::AArch64)
        } else {
            None
        }
    }
}

} // verus!
