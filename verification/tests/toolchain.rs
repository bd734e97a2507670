use cbuild::graph::{BinaryType, Os, ToolChain, WarningFlag};

fn custom() -> ToolChain {
    ToolChain::Custom { compiler: "tcc".to_string(), linker: "tld".to_string() }
}

#[test]
fn msvc_static_library_uses_the_librarian() {
    assert_eq!(ToolChain::Msvc.linker(&BinaryType::StaticLib), "lib.exe");
    assert_eq!(ToolChain::Msvc.linker(&BinaryType::Executable), "link.exe");
}

#[test]
fn linker_of_each_family() {
    assert_eq!(ToolChain::Gcc.linker(&BinaryType::Executable), "gcc");
    assert_eq!(ToolChain::Clang.linker(&BinaryType::Executable), "clang");
    assert_eq!(ToolChain::Zig.linker(&BinaryType::Executable), "zig");
    assert_eq!(custom().linker(&BinaryType::Executable), "tld");
    assert_eq!(custom().linker(&BinaryType::DynLib), "tld");
    assert_eq!(custom().linker(&BinaryType::StaticLib), "tld");
}

#[test]
fn can_link_table() {
    let kinds = [BinaryType::Executable, BinaryType::DynLib, BinaryType::StaticLib];
    let gcc = [true, false, false];
    let msvc = [true, false, true];
    for i in 0..3 {
        assert_eq!(ToolChain::Gcc.can_link(&kinds[i]), gcc[i]);
        assert_eq!(ToolChain::Clang.can_link(&kinds[i]), gcc[i]);
        assert_eq!(ToolChain::Zig.can_link(&kinds[i]), gcc[i]);
        assert_eq!(ToolChain::Msvc.can_link(&kinds[i]), msvc[i]);
        assert!(custom().can_link(&kinds[i]));
    }
}

#[test]
fn compiler_of_each_family() {
    assert_eq!(ToolChain::Gcc.compiler(), "gcc");
    assert_eq!(ToolChain::Clang.compiler(), "clang");
    assert_eq!(ToolChain::Msvc.compiler(), "cl.exe");
    assert_eq!(ToolChain::Zig.compiler(), "zig");
    assert_eq!(custom().compiler(), "tcc");
}

#[test]
fn unix_style_flags() {
    for chain in [ToolChain::Gcc, ToolChain::Clang, ToolChain::Zig, custom()] {
        assert_eq!(chain.obj_file_ext(), "o");
        assert_eq!(chain.compiler_input_flag(), "-c");
        assert_eq!(chain.compiler_output_flag(), "-o");
        assert_eq!(chain.compiler_include_flag(), "-I");
        assert_eq!(chain.compiler_warning_flag(), "-W");
        assert_eq!(chain.compiler_no_warning_flag(), "-Wno-");
        assert_eq!(chain.linker_output_flag(), "-o");
        assert_eq!(chain.linker_link_lib(), "-l");
        assert_eq!(chain.linker_link_dir_flag(), "-L");
        assert!(!chain.is_msvc());
    }
}

#[test]
fn msvc_style_flags() {
    let chain = ToolChain::Msvc;
    assert_eq!(chain.obj_file_ext(), "obj");
    assert_eq!(chain.compiler_input_flag(), "/c");
    assert_eq!(chain.compiler_output_flag(), "/Fo");
    assert_eq!(chain.compiler_include_flag(), "/I");
    assert_eq!(chain.compiler_warning_flag(), "");
    assert_eq!(chain.compiler_no_warning_flag(), "");
    assert_eq!(chain.linker_output_flag(), "/OUT:");
    assert!(chain.is_msvc());
    assert!(!chain.is_zig());
    assert!(ToolChain::Zig.is_zig());
}

#[test]
fn warning_names() {
    let chain = ToolChain::Clang;
    assert_eq!(WarningFlag::Error.to_string(&chain), "error");
    assert_eq!(WarningFlag::Pedantic.to_string(&chain), "pedantic");
    assert_eq!(WarningFlag::Extra.to_string(&chain), "extra");
    assert_eq!(WarningFlag::All.to_string(&chain), "all");
    assert_eq!(WarningFlag::DeprecatedDeclarations.to_string(&chain), "deprecated-declarations");
}

#[test]
fn warning_names_are_empty_on_msvc() {
    for flag in [
        WarningFlag::Error,
        WarningFlag::Pedantic,
        WarningFlag::Extra,
        WarningFlag::All,
        WarningFlag::DeprecatedDeclarations,
    ] {
        assert_eq!(flag.to_string(&ToolChain::Msvc), "");
    }
}

#[test]
fn host_system_by_name() {
    assert_eq!(Os::current("windows"), Some(Os::Window));
    assert_eq!(Os::current("linux"), Some(Os::Linux));
    assert_eq!(Os::current("macos"), Some(Os::MacOs));
    assert_eq!(Os::current("freebsd"), None);
    assert_eq!(Os::current(""), None);
    assert_eq!(Os::current("linu"), None);
}

#[test]
fn platform_default_toolchain() {
    assert_eq!(ToolChain::platform_default(&Os::Window), ToolChain::Msvc);
    assert_eq!(ToolChain::platform_default(&Os::Linux), ToolChain::Gcc);
    assert_eq!(ToolChain::platform_default(&Os::MacOs), ToolChain::Clang);
}

#[test]
fn toolchain_clone_keeps_the_names() {
    assert_eq!(custom().clone(), custom());
    assert_eq!(ToolChain::Zig.clone(), ToolChain::Zig);
}
