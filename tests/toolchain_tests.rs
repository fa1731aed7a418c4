use forge::compiler::Compiler;
use forge::config::{BuildProfile, CompilerConfig};
use forge::error::ForgeError;
use forge::platform::{Architecture as HostArch, Platform};
use forge::target::{Architecture, Environment, Target, Vendor, OS};
use forge::toolchains::Toolchain;

fn strings(items: &[&str]) -> Vec<String> {
    items.iter().map(|s| s.to_string()).collect()
}

fn linux_target() -> Target {
    Target::parse("aarch64-unknown-linux-gnu").unwrap()
}

#[test]
fn parse_full_triple() {
    let t = linux_target();
    assert_eq!(t.arch, Architecture::AArch64);
    assert_eq!(t.vendor, Vendor::Unknown);
    assert_eq!(t.os, OS::Linux);
    assert_eq!(t.env, Environment::GNU);
    assert!(t.is_unix());
    assert!(!t.is_windows());
    assert_eq!(t.executable_extension(), "");
}

#[test]
fn parse_three_components() {
    let t = Target::parse("x86_64-pc-windows").unwrap();
    assert_eq!(t.arch, Architecture::X86_64);
    assert_eq!(t.vendor, Vendor::PC);
    assert_eq!(t.os, OS::Windows);
    assert_eq!(t.env, Environment::Absent);
    assert!(t.is_windows());
    assert_eq!(t.executable_extension(), ".exe");
}

#[test]
fn unrecognised_components_fall_back() {
    let t = Target::parse("sparc-acme-plan9-weird").unwrap();
    assert_eq!(t.arch, Architecture::Unknown);
    assert_eq!(t.vendor, Vendor::Other);
    assert_eq!(t.os, OS::Unknown);
    assert_eq!(t.env, Environment::Unknown);
    let bare = Target::parse("arm-none-none").unwrap();
    assert_eq!(bare.arch, Architecture::ARM);
    assert_eq!(bare.vendor, Vendor::Other);
    assert_eq!(bare.os, OS::Bare);
}

#[test]
fn too_few_components_is_an_error() {
    assert!(matches!(Target::parse("x86_64-linux"), Err(ForgeError::InvalidTarget(_))));
    assert!(matches!(Target::parse(""), Err(ForgeError::InvalidTarget(_))));
    assert!(matches!("x86_64-linux".parse::<Target>(), Err(ForgeError::InvalidTarget(_))));
}

#[test]
fn triple_text() {
    assert_eq!(linux_target().to_string(), "aarch64-unknown-linux-gnu");
    assert_eq!(Target::parse("i686-apple-darwin").unwrap().to_string(), "i686-apple-darwin");
    assert_eq!(Target::parse("riscv64-foo-none-musl").unwrap().to_string(), "riscv64-other-none-musl");
    assert_eq!(Architecture::X86.to_string(), "i686");
    assert_eq!(Vendor::Apple.to_string(), "apple");
    assert_eq!(OS::Darwin.to_string(), "darwin");
}

#[test]
fn host_target() {
    let t = Target::host("x86_64", "linux").unwrap();
    assert_eq!(t.to_string(), "x86_64-unknown-linux");
}

#[test]
fn compiler_path_by_target() {
    let tc = Toolchain::new(linux_target(), Some("/opt/cross/bin"), None, vec![]).unwrap();
    assert_eq!(tc.get_compiler_path("g++"), "/opt/cross/bin/aarch64-unknown-linux-g++");
    let win = Toolchain::new(Target::parse("x86_64-pc-windows-msvc").unwrap(), None, None, vec![]).unwrap();
    assert_eq!(win.get_compiler_path("cl"), "/usr/local/bin/cl.exe");
}

#[test]
fn compiler_command_carries_target_and_sysroot() {
    let tc = Toolchain::new(linux_target(), Some("/tc"), Some("/sysroot"), vec![])
        .unwrap()
        .with_extra_flags(strings(&["-static"]));
    assert_eq!(tc.get_sysroot(), Some("/sysroot"));
    let cmd = tc.get_compiler_command("gcc");
    assert_eq!(cmd.program, "/tc/aarch64-unknown-linux-gcc");
    assert_eq!(cmd.args, strings(&["--target=aarch64-unknown-linux-gnu", "--sysroot=/sysroot", "-static"]));
}

#[test]
fn toolchain_directory_checks() {
    let tc = Toolchain::new(linux_target(), Some("/tc"), Some("/sr"), vec![]).unwrap();
    assert!(matches!(tc.verify(false, true), Err(ForgeError::Config(m)) if m == "Toolchain root directory does not exist: /tc"));
    assert!(matches!(tc.verify(true, false), Err(ForgeError::Config(m)) if m == "Sysroot directory does not exist: /sr"));
    assert!(tc.verify(true, true).is_ok());
}

fn compiler_config() -> CompilerConfig {
    CompilerConfig {
        flags: strings(&["-Wall"]),
        definitions: vec![("VERSION".to_string(), "1".to_string())],
        warnings_as_errors: true,
        library_paths: strings(&["/opt/lib"]),
        libraries: strings(&["m"]),
    }
}

fn release_profile() -> BuildProfile {
    BuildProfile { opt_level: "3".to_string(), debug_info: false, lto: true, extra_flags: strings(&["-march=native"]) }
}

#[test]
fn compile_arguments_in_order() {
    let args = Compiler::compile_args("src/a.cpp", "build/a.o", &compiler_config(), &release_profile(), &strings(&["inc"]));
    assert_eq!(
        args,
        strings(&[
            "-c", "src/a.cpp", "-o", "build/a.o", "-Iinc", "-Wall", "-O3", "-flto", "-march=native", "-DVERSION=1",
            "-L/opt/lib", "-Werror",
        ])
    );
}

#[test]
fn compile_arguments_with_debug_info() {
    let profile = BuildProfile { opt_level: "0".to_string(), debug_info: true, lto: false, extra_flags: vec![] };
    let cfg = CompilerConfig { warnings_as_errors: false, ..compiler_config() };
    let args = Compiler::compile_args("a.c", "a.o", &cfg, &profile, &vec![]);
    assert_eq!(args, strings(&["-c", "a.c", "-o", "a.o", "-Wall", "-O0", "-g", "-DVERSION=1", "-L/opt/lib"]));
}

#[test]
fn link_arguments_in_order() {
    let args = Compiler::link_args(&strings(&["a.o", "b.o"]), "bin/app", &compiler_config(), &release_profile());
    assert_eq!(args, strings(&["a.o", "b.o", "-o", "bin/app", "-L/opt/lib", "-lm", "-flto", "-march=native"]));
}

#[test]
fn compile_through_toolchain() {
    let tc = Toolchain::new(linux_target(), Some("/tc"), None, vec![]).unwrap();
    let compiler = Compiler::new(Some(tc));
    let cmd = compiler.compile("a.c", "a.o", &compiler_config(), &release_profile(), &vec![], "g++");
    assert_eq!(cmd.program, "/tc/aarch64-unknown-linux-g++");
    assert_eq!(cmd.args[0], "--target=aarch64-unknown-linux-gnu");
    assert_eq!(cmd.args[1], "-c");
    let plain = Compiler::default().link(&strings(&["a.o"]), "app", &compiler_config(), &release_profile(), "g++");
    assert_eq!(plain.program, "g++");
    assert_eq!(plain.args[0], "a.o");
}

#[test]
fn object_paths() {
    assert_eq!(Compiler::get_object_path("src/net/socket.cpp", "build/app"), "build/app/socket.o");
    assert_eq!(Compiler::get_object_path("main.c", "out/"), "out/main.o");
    assert_eq!(Compiler::get_object_path("src/archive.tar.cc", "b"), "b/archive.tar.o");
    assert_eq!(Compiler::get_object_path("src/.hidden", "b"), "b/.hidden.o");
}

/// The preprocessor's file-inclusion keyword, with its hash.
fn directive() -> String {
    ["#inc", "lude"].concat()
}

#[test]
fn header_names_from_directives() {
    let d = directive();
    let text = format!("{d} <vector>\n{d} \"util/a.h\"\nint x;\n#  {}\t<map>\n", &d[1..]);
    assert_eq!(Compiler::header_names(&text), strings(&["vector", "util/a.h"]));
    let spaced = format!("{d}   \"b.h\"");
    assert_eq!(Compiler::header_names(&spaced), strings(&["b.h"]));
    assert!(Compiler::header_names("int main() {}").is_empty());
}

#[test]
fn first_header_directory_wins() {
    let dirs = strings(&["/p/headers", "/q/headers", "/r/headers"]);
    assert_eq!(Compiler::resolve_header("a.h", &dirs, &vec![false, true, true]), Some("/q/headers/a.h".to_string()));
    assert_eq!(Compiler::resolve_header("a.h", &dirs, &vec![false, false, false]), None);
}

#[test]
fn host_platform() {
    assert_eq!(Platform::current("linux"), Some(Platform::Linux));
    assert_eq!(Platform::current("windows"), Some(Platform::Windows));
    assert_eq!(Platform::current("haiku"), None);
    assert_eq!(HostArch::current("aarch64"), Some(HostArch::AArch64));
    assert_eq!(HostArch::current("mips"), None);
    assert_eq!(Platform::Windows.extension(), ".exe");
    assert_eq!(Platform::MacOS.extension(), "");
    assert_eq!(Platform::Windows.default_compiler(), "cl.exe");
    assert_eq!(Platform::Linux.default_compiler(), "g++");
    assert_eq!(Platform::Linux.path_separator(), '/');
}

#[test]
fn normalized_paths() {
    assert_eq!(Platform::Windows.normalize_path("a/b\\c"), "a\\b\\c");
    assert_eq!(Platform::Linux.normalize_path("a\\b/c"), "a/b/c");
}

#[test]
fn from_str_reads_triples() {
    assert!(matches!("x86_64-linux".parse::<Target>(), Err(ForgeError::InvalidTarget(_))));
    let t: Target = "sparc-unknown-linux-gnu".parse().unwrap();
    assert_eq!(t.arch, Architecture::Unknown);
    assert_eq!(t.vendor, Vendor::Unknown);
    assert_eq!(t.os, OS::Linux);
    assert_eq!(t.env, Environment::GNU);
}

#[test]
fn printed_triples_read_back() {
    for text in ["x86_64-pc-windows-msvc", "unknown-other-none", "arm-apple-darwin-musl", "riscv64-unknown-unknown-unknown"] {
        let t: Target = text.parse().unwrap();
        let back: Target = t.to_string().parse().unwrap();
        assert_eq!(back, t);
    }
}

#[test]
fn headers_resolve_in_order() {
    let names = strings(&["a.h", "missing.h", "b.h"]);
    let dirs = strings(&["/p", "/q"]);
    let present = vec![vec![false, true], vec![false, false], vec![true, true]];
    assert_eq!(Compiler::resolve_headers(&names, &dirs, &present), strings(&["/q/a.h", "/p/b.h"]));
}
