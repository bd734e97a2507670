use cbuild::command::{Command, CommandExt, ProcessOutcome};
use cbuild::error::{BuildError, ConfigFault, Stage};
use cbuild::file::{CompileStep, FileStamp, InputFile, OutputFile};
use cbuild::graph::{CompilerFlags, ToolChain, WarningFlag};

fn strings(items: &[&str]) -> Vec<String> {
    items.iter().map(|s| s.to_string()).collect()
}

fn flags() -> CompilerFlags {
    CompilerFlags {
        warnings: vec![WarningFlag::All, WarningFlag::Extra],
        no_warnings: vec![WarningFlag::DeprecatedDeclarations],
        custom: strings(&["-O2", "-g"]),
    }
}

fn unit(chain: ToolChain, full_rebuild: bool) -> InputFile {
    InputFile::new(
        "src/a.c".to_string(),
        ".cargoc/obj/a.o".to_string(),
        chain,
        flags(),
        strings(&["include", "third_party/inc"]),
        full_rebuild,
    )
}

fn reused() -> CompileStep {
    CompileStep::Skipped(OutputFile { path: ".cargoc/obj/a.o".to_string() })
}

fn is_compiling(step: &Result<CompileStep, BuildError>) -> bool {
    matches!(step, Ok(CompileStep::Compiling(_)))
}

#[test]
fn new_keeps_every_field() {
    let file = unit(ToolChain::Clang, true);
    assert_eq!(file.path, "src/a.c");
    assert_eq!(file.output_path, ".cargoc/obj/a.o");
    assert_eq!(file.tool_chain, ToolChain::Clang);
    assert_eq!(file.args.custom, strings(&["-O2", "-g"]));
    assert_eq!(file.includes, strings(&["include", "third_party/inc"]));
    assert!(file.full_rebuild);
}

#[test]
fn clang_compile_command() {
    let cmd = unit(ToolChain::Clang, false).command();
    assert_eq!(cmd.program, "clang");
    assert_eq!(
        cmd.args,
        strings(&[
            "-c",
            "src/a.c",
            "-o",
            ".cargoc/obj/a.o",
            "-Wall",
            "-Wextra",
            "-Wno-deprecated-declarations",
            "-O2",
            "-g",
            "-I",
            "include",
            "-I",
            "third_party/inc",
        ])
    );
}

#[test]
fn msvc_compile_command_joins_the_output_flag() {
    let cmd = unit(ToolChain::Msvc, false).command();
    assert_eq!(cmd.program, "cl.exe");
    assert_eq!(
        cmd.args,
        strings(&[
            "/c",
            "src/a.c",
            "/Fo.cargoc/obj/a.o",
            "/nologo",
            "",
            "",
            "",
            "-O2",
            "-g",
            "/I",
            "include",
            "/I",
            "third_party/inc",
        ])
    );
}

#[test]
fn zig_compile_command_starts_with_cc() {
    let cmd = unit(ToolChain::Zig, false).command();
    assert_eq!(cmd.program, "zig");
    assert_eq!(cmd.args[0], "cc");
    assert_eq!(cmd.args[1], "-c");
    assert_eq!(cmd.args.len(), 14);
}

#[test]
fn custom_compile_command_uses_the_given_compiler() {
    let chain = ToolChain::Custom { compiler: "tcc".to_string(), linker: "tld".to_string() };
    let file = InputFile::new(
        "m.c".to_string(),
        "m.o".to_string(),
        chain,
        CompilerFlags::default(),
        Vec::new(),
        false,
    );
    let cmd = file.command();
    assert_eq!(cmd.program, "tcc");
    assert_eq!(cmd.args, strings(&["-c", "m.c", "-o", "m.o"]));
}

#[test]
fn missing_object_is_compiled() {
    let file = unit(ToolChain::Clang, false);
    assert_eq!(file.should_recompile(&FileStamp::Modified(5), &FileStamp::Missing), Ok(true));
    assert_eq!(file.should_recompile(&FileStamp::Unknown, &FileStamp::Missing), Ok(true));
    assert!(is_compiling(&file.compile(&FileStamp::Modified(5), &FileStamp::Missing)));
}

#[test]
fn newer_object_is_skipped() {
    let file = unit(ToolChain::Clang, false);
    assert_eq!(file.should_recompile(&FileStamp::Modified(5), &FileStamp::Modified(9)), Ok(false));
    assert_eq!(file.compile(&FileStamp::Modified(5), &FileStamp::Modified(9)), Ok(reused()));
}

#[test]
fn equal_times_are_skipped() {
    let file = unit(ToolChain::Clang, false);
    assert_eq!(file.should_recompile(&FileStamp::Modified(7), &FileStamp::Modified(7)), Ok(false));
    assert_eq!(file.compile(&FileStamp::Modified(7), &FileStamp::Modified(7)), Ok(reused()));
}

#[test]
fn newer_source_is_compiled() {
    let file = unit(ToolChain::Clang, false);
    assert_eq!(file.should_recompile(&FileStamp::Modified(10), &FileStamp::Modified(9)), Ok(true));
    let step = file.compile(&FileStamp::Modified(10), &FileStamp::Modified(9));
    assert_eq!(step, Ok(CompileStep::Compiling(file.command())));
}

#[test]
fn full_rebuild_compiles_whatever_the_times() {
    let file = unit(ToolChain::Clang, true);
    for source in [FileStamp::Missing, FileStamp::Unknown, FileStamp::Modified(1)] {
        for object in [FileStamp::Missing, FileStamp::Unknown, FileStamp::Modified(u128::MAX)] {
            assert_eq!(file.should_recompile(&source, &object), Ok(true));
            assert!(is_compiling(&file.compile(&source, &object)));
        }
    }
}

#[test]
fn unreadable_files_are_filesystem_errors() {
    let file = unit(ToolChain::Clang, false);
    let source = Err(BuildError::Filesystem { path: "src/a.c".to_string() });
    let object = Err(BuildError::Filesystem { path: ".cargoc/obj/a.o".to_string() });
    assert_eq!(file.should_recompile(&FileStamp::Missing, &FileStamp::Modified(1)), source);
    assert_eq!(file.should_recompile(&FileStamp::Missing, &FileStamp::Unknown), source);
    assert_eq!(file.should_recompile(&FileStamp::Unknown, &FileStamp::Modified(1)), source);
    assert_eq!(file.should_recompile(&FileStamp::Unknown, &FileStamp::Unknown), source);
    assert_eq!(file.should_recompile(&FileStamp::Modified(1), &FileStamp::Unknown), object);
    assert_eq!(
        file.compile(&FileStamp::Missing, &FileStamp::Modified(1)),
        Err(BuildError::Filesystem { path: "src/a.c".to_string() })
    );
}

#[test]
fn finish_maps_each_outcome() {
    let file = unit(ToolChain::Clang, false);
    assert_eq!(
        file.finish(ProcessOutcome::Exited { success: true }),
        Ok(OutputFile { path: ".cargoc/obj/a.o".to_string() })
    );
    assert_eq!(
        file.finish(ProcessOutcome::Exited { success: false }),
        Err(BuildError::ProcessFailure { stage: Stage::Compile, path: "src/a.c".to_string(), detail: None })
    );
    assert_eq!(
        file.finish(ProcessOutcome::SpawnFailed { cause: "not found".to_string() }),
        Err(BuildError::Spawn {
            stage: Stage::Compile,
            path: "src/a.c".to_string(),
            cause: "not found".to_string()
        })
    );
    assert_eq!(
        file.finish(ProcessOutcome::WaitFailed { cause: "interrupted".to_string() }),
        Err(BuildError::ProcessFailure {
            stage: Stage::Compile,
            path: "src/a.c".to_string(),
            detail: Some("interrupted".to_string())
        })
    );
}

#[test]
fn from_outcome_is_none_on_success_only() {
    let path = "x".to_string();
    assert_eq!(BuildError::from_outcome(Stage::Link, &path, ProcessOutcome::Exited { success: true }), None);
    assert!(BuildError::from_outcome(Stage::Link, &path, ProcessOutcome::Exited { success: false }).is_some());
}

#[test]
fn build_error_clone_is_equal() {
    let errors = [
        BuildError::Filesystem { path: "p".to_string() },
        BuildError::Spawn { stage: Stage::Link, path: "p".to_string(), cause: "c".to_string() },
        BuildError::ProcessFailure { stage: Stage::Compile, path: "p".to_string(), detail: Some("d".to_string()) },
        BuildError::ProcessFailure { stage: Stage::Compile, path: "p".to_string(), detail: None },
    ];
    for e in errors.iter() {
        assert_eq!(&e.clone(), e);
    }
}

#[test]
fn command_display_joins_with_spaces() {
    let mut cmd = Command::new("clang");
    assert_eq!(cmd.display(), "clang");
    cmd.arg("-c");
    cmd.arg("a b.c");
    cmd.arg_joined("/Fo", "a.obj");
    assert_eq!(cmd.args, strings(&["-c", "a b.c", "/Foa.obj"]));
    assert_eq!(cmd.display(), "clang -c a b.c /Foa.obj");
    assert_eq!(cmd.clone(), cmd);
}

#[test]
fn messages_name_the_stage_the_file_and_the_cause() {
    let p = "src/a.c".to_string();
    assert_eq!(
        BuildError::ProcessFailure { stage: Stage::Compile, path: p.clone(), detail: None }.message(),
        "failed to compile `src/a.c`; compilation aborted"
    );
    assert_eq!(
        BuildError::ProcessFailure { stage: Stage::Link, path: "bin/app".to_string(), detail: Some("killed".to_string()) }
            .message(),
        "failed to link `bin/app`; compilation aborted: killed"
    );
    assert_eq!(
        BuildError::Spawn { stage: Stage::Compile, path: p.clone(), cause: "No such file".to_string() }.message(),
        "failed to spawn process to compile `src/a.c`: No such file"
    );
    assert_eq!(BuildError::Filesystem { path: p }.message(), "cannot examine `src/a.c`");
    assert_eq!(
        BuildError::Configuration { fault: ConfigFault::UnsupportedBinaryType }.message(),
        "the toolchain cannot link this kind of binary"
    );
    assert_eq!(
        BuildError::Configuration { fault: ConfigFault::UnsupportedLibraries }.message(),
        "the toolchain has no flags for libraries"
    );
    assert_eq!(Stage::Compile.verb(), "compile");
    assert_eq!(Stage::Link.verb(), "link");
}

#[test]
fn missing_object_is_compiled_whatever_the_source() {
    let file = unit(ToolChain::Gcc, false);
    for source in [FileStamp::Missing, FileStamp::Unknown, FileStamp::Modified(3)] {
        assert_eq!(file.should_recompile(&source, &FileStamp::Missing), Ok(true));
        assert_eq!(file.compile(&source, &FileStamp::Missing), Ok(CompileStep::Compiling(file.command())));
    }
}
