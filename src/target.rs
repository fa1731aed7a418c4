use vstd::prelude::*;

use crate::error::ForgeError;
use crate::text::same_text;

verus! {

/// A target platform: architecture, vendor, operating system, environment.
#[derive(Debug, Clone, Copy, PartialEq, Eq, Hash, Structural)]
pub struct Target {
    pub arch: Architecture,
    pub vendor: Vendor,
    pub os: OS,
    pub env: Environment,
}

#[derive(Debug, Clone, Copy, PartialEq, Eq, Hash, Structural)]
pub enum Architecture {
    X86,
    X86_64,
    ARM,
    AArch64,
    RISCV64,
    Unknown,
}

#[derive(Debug, Clone, Copy, PartialEq, Eq, Hash, Structural)]
pub enum Vendor {
    Unknown,
    PC,
    Apple,
    Other,
}

#[derive(Debug, Clone, Copy, PartialEq, Eq, Hash, Structural)]
pub enum OS {
    Linux,
    Windows,
    Darwin,
    Bare,
    Unknown,
}

#[derive(Debug, Clone, Copy, PartialEq, Eq, Hash, Structural)]
pub enum Environment {
    GNU,
    MSVC,
    Musl,
    Absent,
    Unknown,
}

/// The dash-separated components of `s`, empty ones included.
pub open spec fn split_dash(s: Seq<char>) -> Seq<Seq<char>>
    decreases s.len(),
{
    if s.len() == 0 {
        seq![Seq::<char>::empty()]
    } else {
        let r = split_dash(s.drop_last());
        if s.last() == '-' {
            r.push(Seq::<char>::empty())
        } else {
            r.update(r.len() - 1, r.last().push(s.last()))
        }
    }
}

proof fn lemma_split_dash_nonempty(s: Seq<char>)
    ensures
        split_dash(s).len() >= 1,
    decreases s.len(),
{
    if s.len() > 0 {
        lemma_split_dash_nonempty(s.drop_last());
    }
}

pub open spec fn arch_of(s: Seq<char>) -> Architecture {
    if s == "x86_64"@ {
        Architecture::X86_64
    } else if s == "i686"@ {
        Architecture::X86
    } else if s == "aarch64"@ {
        Architecture::AArch64
    } else if s == "arm"@ {
        Architecture::ARM
    } else if s == "riscv64"@ {
        Architecture::RISCV64
    } else {
        Architecture::Unknown
    }
}

pub open spec fn vendor_of(s: Seq<char>) -> Vendor {
    if s == "pc"@ {
        Vendor::PC
    } else if s == "unknown"@ {
        Vendor::Unknown
    } else if s == "apple"@ {
        Vendor::Apple
    } else {
        Vendor::Other
    }
}

pub open spec fn os_of(s: Seq<char>) -> OS {
    if s == "linux"@ {
        OS::Linux
    } else if s == "windows"@ {
        OS::Windows
    } else if s == "darwin"@ {
        OS::Darwin
    } else if s == "none"@ {
        OS::Bare
    } else {
        OS::Unknown
    }
}

pub open spec fn env_of(s: Seq<char>) -> Environment {
    if s == "gnu"@ {
        Environment::GNU
    } else if s == "msvc"@ {
        Environment::MSVC
    } else if s == "musl"@ {
        Environment::Musl
    } else {
        Environment::Unknown
    }
}

/// The target a triple `arch-vendor-os[-env]` names, when it has at least
/// three components; unrecognised components fall back to their catch-all
/// variant, and components after the fourth are ignored.
pub open spec fn target_of(parts: Seq<Seq<char>>) -> Target {
    Target {
        arch: arch_of(parts[0]),
        vendor: vendor_of(parts[1]),
        os: os_of(parts[2]),
        env: if parts.len() > 3 {
            env_of(parts[3])
        } else {
            Environment::Absent
        },
    }
}

pub open spec fn arch_name(a: Architecture) -> Seq<char> {
    match a {
        Architecture::X86_64 => "x86_64"@,
        Architecture::X86 => "i686"@,
        Architecture::ARM => "arm"@,
        Architecture::AArch64 => "aarch64"@,
        Architecture::RISCV64 => "riscv64"@,
        Architecture::Unknown => "unknown"@,
    }
}

pub open spec fn vendor_name(v: Vendor) -> Seq<char> {
    match v {
        Vendor::Unknown => "unknown"@,
        Vendor::PC => "pc"@,
        Vendor::Apple => "apple"@,
        Vendor::Other => "other"@,
    }
}

pub open spec fn os_name(o: OS) -> Seq<char> {
    match o {
        OS::Linux => "linux"@,
        OS::Windows => "windows"@,
        OS::Darwin => "darwin"@,
        OS::Bare => "none"@,
        OS::Unknown => "unknown"@,
    }
}

/// The environment as it ends a triple: a dash and its name, or nothing.
pub open spec fn env_suffix(e: Environment) -> Seq<char> {
    match e {
        Environment::GNU => "-gnu"@,
        Environment::MSVC => "-msvc"@,
        Environment::Musl => "-musl"@,
        Environment::Absent => Seq::empty(),
        Environment::Unknown => "-unknown"@,
    }
}

pub open spec fn triple_of(t: Target) -> Seq<char> {
    arch_name(t.arch) + "-"@ + vendor_name(t.vendor) + "-"@ + os_name(t.os) + env_suffix(t.env)
}

/// The dash-separated components of `s`.
fn split_on_dash(s: &str) -> (r: Vec<String>)
    ensures
        r@.len() == split_dash(s@).len(),
        forall|k: int| 0 <= k < r@.len() ==> #[trigger] r@[k]@ == split_dash(s@)[k],
{
    let n = s.unicode_len();
    let mut parts: Vec<String> = Vec::new();
    let mut start: usize = 0;
    let mut i: usize = 0;
    while i < n
        invariant
            n == s@.len(),
            start <= i <= n,
            parts@.len() + 1 == split_dash(s@.take(i as int)).len(),
            forall|k: int| 0 <= k < parts@.len() ==> #[trigger] parts@[k]@ == split_dash(s@.take(i as int))[k],
            split_dash(s@.take(i as int)).last() == s@.subrange(start as int, i as int),
        decreases n - i,
    {
        let c = s.get_char(i);
        proof {
            assert(s@.take(i + 1).drop_last() =~= s@.take(i as int));
            assert(s@.take(i + 1).last() == c);
            lemma_split_dash_nonempty(s@.take(i as int));
        }
        if c == '-' {
            parts.push(s.substring_char(start, i).to_owned());
            start = i + 1;
            proof {
                assert(s@.subrange(start as int, i + 1) =~= Seq::<char>::empty());
            }
        } else {
            proof {
                assert(s@.subrange(start as int, i + 1) =~= s@.subrange(start as int, i as int).push(c));
            }
        }
        i = i + 1;
    }
    parts.push(s.substring_char(start, n).to_owned());
    proof {
        assert(s@.take(n as int) =~= s@);
    }
    parts
}

impl Architecture {
    /// The architecture's name as it stands in a triple.
    pub fn to_string(&self) -> (r: String)
        ensures
            r@ == arch_name(*self),
    {
        match self {
            Architecture::X86_64 => String::from_str("x86_64"),
            Architecture::X86 => String::from_str("i686"),
            Architecture::ARM => String::from_str("arm"),
            Architecture::AArch64 => String::from_str("aarch64"),
            Architecture::RISCV64 => String::from_str("riscv64"),
            Architecture::Unknown => String::from_str("unknown"),
        }
    }
}

impl Vendor {
    /// The vendor's name as it stands in a triple.
    pub fn to_string(&self) -> (r: String)
        ensures
            r@ == vendor_name(*self),
    {
        match self {
            Vendor::Unknown => String::from_str("unknown"),
            Vendor::PC => String::from_str("pc"),
            Vendor::Apple => String::from_str("apple"),
            Vendor::Other => String::from_str("other"),
        }
    }
}

impl OS {
    /// The operating system's name as it stands in a triple.
    pub fn to_string(&self) -> (r: String)
        ensures
            r@ == os_name(*self),
    {
        match self {
            OS::Linux => String::from_str("linux"),
            OS::Windows => String::from_str("windows"),
            OS::Darwin => String::from_str("darwin"),
            OS::Bare => String::from_str("none"),
            OS::Unknown => String::from_str("unknown"),
        }
    }
}

impl Environment {
    /// The environment as it ends a triple.
    pub fn suffix(&self) -> (r: String)
        ensures
            r@ == env_suffix(*self),
    {
        match self {
            Environment::GNU => String::from_str("-gnu"),
            Environment::MSVC => String::from_str("-msvc"),
            Environment::Musl => String::from_str("-musl"),
            Environment::Absent => String::new(),
            Environment::Unknown => String::from_str("-unknown"),
        }
    }
}

impl Target {
    /// Reads a triple `arch-vendor-os[-env]`. Fewer than three components is
    /// an error; unrecognised components become their catch-all variant.
    pub fn parse(s: &str) -> (r: Result<Target, ForgeError>)
        ensures
            split_dash(s@).len() >= 3 ==> r == Ok::<Target, ForgeError>(target_of(split_dash(s@))),
            split_dash(s@).len() < 3 ==> (r matches Err(ForgeError::InvalidTarget(m)) && m@ == "Invalid target triple"@),
    {
        let parts = split_on_dash(s);
        if parts.len() < 3 {
            return Err(ForgeError::InvalidTarget(String::from_str("Invalid target triple")));
        }
        let a = parts[0].as_str();
        let arch = if same_text(a, "x86_64") {
            Architecture::X86_64
        } else if same_text(a, "i686") {
            Architecture::X86
        } else if same_text(a, "aarch64") {
            Architecture::AArch64
        } else if same_text(a, "arm") {
            Architecture::ARM
        } else if same_text(a, "riscv64") {
            Architecture::RISCV64
        } else {
            Architecture::Unknown
        };
        let v = parts[1].as_str();
        let vendor = if same_text(v, "pc") {
            Vendor::PC
        } else if same_text(v, "unknown") {
            Vendor::Unknown
        } else if same_text(v, "apple") {
            Vendor::Apple
        } else {
            Vendor::Other
        };
        let o = parts[2].as_str();
        let os = if same_text(o, "linux") {
            OS::Linux
        } else if same_text(o, "windows") {
            OS::Windows
        } else if same_text(o, "darwin") {
            OS::Darwin
        } else if same_text(o, "none") {
            OS::Bare
        } else {
            OS::Unknown
        };
        let env = if parts.len() > 3 {
            let e = parts[3].as_str();
            if same_text(e, "gnu") {
                Environment::GNU
            } else if same_text(e, "msvc") {
                Environment::MSVC
            } else if same_text(e, "musl") {
                Environment::Musl
            } else {
                Environment::Unknown
            }
        } else {
            Environment::Absent
        };
        Ok(Target { arch, vendor, os, env })
    }

    /// The triple naming the host: `arch-unknown-os` from the host's
    /// architecture and operating-system names.
    pub fn host(arch: &str, os: &str) -> (r: Result<Target, ForgeError>)
        ensures
            ({
                let s = arch@ + "-unknown-"@ + os@;
                &&& split_dash(s).len() >= 3 ==> r == Ok::<Target, ForgeError>(target_of(split_dash(s)))
                &&& split_dash(s).len() < 3 ==> r is Err
            }),
    {
        let triple = String::from_str(arch).concat("-unknown-").concat(os);
        Target::parse(triple.as_str())
    }

    /// The triple text: `arch-vendor-os`, then `-env` when there is one.
    pub fn to_string(&self) -> (r: String)
        ensures
            r@ == triple_of(*self),
    {
        let r = self.arch.to_string().concat("-").concat(self.vendor.to_string().as_str()).concat("-").concat(
            self.os.to_string().as_str(),
        ).concat(self.env.suffix().as_str());
        r
    }

    pub fn is_windows(&self) -> (r: bool)
        ensures
            r == (self.os == OS::Windows),
    {
        match self.os {
            OS::Windows => true,
            _ => false,
        }
    }

    pub fn is_unix(&self) -> (r: bool)
        ensures
            r == (self.os == OS::Linux || self.os == OS::Darwin),
    {
        match self.os {
            OS::Linux | OS::Darwin => true,
            _ => false,
        }
    }

    /// `.exe` for Windows targets, nothing otherwise.
    pub fn executable_extension(&self) -> (r: &'static str)
        ensures
            self.os == OS::Windows ==> r@ == ".exe"@,
            self.os != OS::Windows ==> r@ == ""@,
    {
        if self.is_windows() {
            ".exe"
        } else {
            ""
        }
    }
}

impl std::str::FromStr for Target {
    type Err = ForgeError;

    /// Reads a triple, as [`Target::parse`] does.
    fn from_str(s: &str) -> (r: Result<Target, ForgeError>)
        ensures
            split_dash(s@).len() >= 3 ==> r == Ok::<Target, ForgeError>(target_of(split_dash(s@))),
            split_dash(s@).len() < 3 ==> (r matches Err(ForgeError::InvalidTarget(m)) && m@ == "Invalid target triple"@),
    {
        Target::parse(s)
    }
}

/// No character of `s` is a dash.
pub open spec fn no_dash(s: Seq<char>) -> bool {
    forall|i: int| 0 <= i < s.len() ==> s[i] != '-'
}

proof fn lemma_split_no_dash(s: Seq<char>)
    requires
        no_dash(s),
    ensures
        split_dash(s) == seq![s],
    decreases s.len(),
{
    if s.len() > 0 {
        lemma_split_no_dash(s.drop_last());
        assert(s.drop_last().push(s.last()) =~= s);
        assert(split_dash(s) =~= seq![s]);
    } else {
        assert(s =~= Seq::<char>::empty());
    }
}

proof fn lemma_split_join(p: Seq<char>, s: Seq<char>)
    requires
        no_dash(s),
    ensures
        split_dash(p + seq!['-'] + s) == split_dash(p).push(s),
    decreases s.len(),
{
    let q = p + seq!['-'] + s;
    if s.len() == 0 {
        assert(q.drop_last() =~= p);
        assert(q.last() == '-');
        assert(s =~= Seq::<char>::empty());
    } else {
        assert(q.drop_last() =~= p + seq!['-'] + s.drop_last());
        assert(q.last() == s.last());
        lemma_split_join(p, s.drop_last());
        assert(s.drop_last().push(s.last()) =~= s);
        assert(split_dash(q) =~= split_dash(p).push(s));
    }
}

proof fn lemma_names_no_dash(t: Target)
    ensures
        no_dash(arch_name(t.arch)),
        no_dash(vendor_name(t.vendor)),
        no_dash(os_name(t.os)),
        arch_of(arch_name(t.arch)) == t.arch,
        vendor_of(vendor_name(t.vendor)) == t.vendor,
        os_of(os_name(t.os)) == t.os,
{
    reveal_strlit("x86_64");
    reveal_strlit("i686");
    reveal_strlit("arm");
    reveal_strlit("aarch64");
    reveal_strlit("riscv64");
    reveal_strlit("unknown");
    reveal_strlit("pc");
    reveal_strlit("apple");
    reveal_strlit("other");
    reveal_strlit("linux");
    reveal_strlit("windows");
    reveal_strlit("darwin");
    reveal_strlit("none");
    reveal_strlit("gnu");
    reveal_strlit("msvc");
    reveal_strlit("musl");
    reveal_strlit("-gnu");
    reveal_strlit("-msvc");
    reveal_strlit("-musl");
    reveal_strlit("-unknown");
    reveal_strlit("-");
    assert("x86_64"@[0] == 'x' && "x86_64"@[1] == '8');
    assert("i686"@[0] == 'i' && "i686"@[1] == '6');
    assert("arm"@[0] == 'a' && "arm"@[1] == 'r');
    assert("aarch64"@[0] == 'a' && "aarch64"@[1] == 'a');
    assert("riscv64"@[0] == 'r' && "riscv64"@[1] == 'i');
    assert("unknown"@[0] == 'u' && "unknown"@[1] == 'n');
    assert("pc"@[0] == 'p' && "pc"@[1] == 'c');
    assert("apple"@[0] == 'a' && "apple"@[1] == 'p');
    assert("other"@[0] == 'o' && "other"@[1] == 't');
    assert("linux"@[0] == 'l' && "linux"@[1] == 'i');
    assert("windows"@[0] == 'w' && "windows"@[1] == 'i');
    assert("darwin"@[0] == 'd' && "darwin"@[1] == 'a');
    assert("none"@[0] == 'n' && "none"@[1] == 'o');
    assert("gnu"@[0] == 'g' && "gnu"@[1] == 'n');
    assert("msvc"@[0] == 'm' && "msvc"@[1] == 's');
    assert("musl"@[0] == 'm' && "musl"@[1] == 'u');
}

/// Printing a target and reading the text back gives the same target: the
/// triple has at least three components, and each reads as what was printed.
pub proof fn lemma_triple_round_trip(t: Target)
    ensures
        split_dash(triple_of(t)).len() >= 3,
        target_of(split_dash(triple_of(t))) == t,
{
    reveal_strlit("x86_64");
    reveal_strlit("i686");
    reveal_strlit("arm");
    reveal_strlit("aarch64");
    reveal_strlit("riscv64");
    reveal_strlit("unknown");
    reveal_strlit("pc");
    reveal_strlit("apple");
    reveal_strlit("other");
    reveal_strlit("linux");
    reveal_strlit("windows");
    reveal_strlit("darwin");
    reveal_strlit("none");
    reveal_strlit("gnu");
    reveal_strlit("msvc");
    reveal_strlit("musl");
    reveal_strlit("-gnu");
    reveal_strlit("-msvc");
    reveal_strlit("-musl");
    reveal_strlit("-unknown");
    reveal_strlit("-");
    lemma_names_no_dash(t);
    let a = arch_name(t.arch);
    let v = vendor_name(t.vendor);
    let o = os_name(t.os);
    assert("-"@ =~= seq!['-']);
    lemma_split_no_dash(a);
    lemma_split_join(a, v);
    let av = a + seq!['-'] + v;
    lemma_split_join(av, o);
    let avo = av + seq!['-'] + o;
    assert(split_dash(avo) =~= seq![a, v, o]);
    match t.env {
        Environment::Absent => {
            assert(triple_of(t) =~= avo);
        },
        _ => {
            let e = match t.env {
                Environment::GNU => "gnu"@,
                Environment::MSVC => "msvc"@,
                Environment::Musl => "musl"@,
                _ => "unknown"@,
            };
            assert(no_dash(e));
            assert("none"@[0] == 'n' && "none"@[1] == 'o');
            assert("gnu"@[0] == 'g' && "gnu"@[1] == 'n');
            assert("msvc"@[0] == 'm' && "msvc"@[1] == 's');
            assert("musl"@[0] == 'm' && "musl"@[1] == 'u');
            assert(env_suffix(t.env) =~= seq!['-'] + e);
            assert(triple_of(t) =~= avo + seq!['-'] + e);
            lemma_split_join(avo, e);
            assert(split_dash(triple_of(t)) =~= seq![a, v, o, e]);
            assert(env_of(e) == t.env);
        },
    }
}

} // verus!
