use vstd::prelude::*;
use crate::command::{texts, Command, ProcessOutcome};
use crate::error::{failure_of, BuildError, Stage};
use crate::graph::{CompilerFlags, ToolChain, WarningFlag};

verus! {

/// What the file system says of a file when a staleness check asks.
#[derive(Debug, Clone, Copy, PartialEq, Eq, Structural)]
pub enum FileStamp {
    /// No file is there, or it cannot be examined.
    Missing,
    /// The file is there and has no readable modification time.
    Unknown,
    /// The file's modification time, in nanoseconds since the Unix epoch.
    Modified(u128),
}

/// The object file of one compiled source.
#[derive(Debug, PartialEq, Eq)]
pub struct OutputFile {
    pub path: String,
}

impl Clone for OutputFile {
    fn clone(&self) -> (copy: Self)
        ensures
            copy == *self,
    {
        OutputFile { path: self.path.clone() }
    }
}

/// An object file with what the file system says of it once its
/// compile job is done.
#[derive(Debug, PartialEq, Eq)]
pub struct StampedObject {
    pub file: OutputFile,
    pub stamp: FileStamp,
}

impl Clone for StampedObject {
    fn clone(&self) -> (copy: Self)
        ensures
            copy == *self,
    {
        StampedObject { file: self.file.clone(), stamp: self.stamp }
    }
}

/// One compilation unit with all that compiling it needs.
#[derive(Debug)]
pub struct InputFile {
    pub tool_chain: ToolChain,
    pub args: CompilerFlags,
    pub includes: Vec<String>,
    pub path: String,
    pub output_path: String,
    pub full_rebuild: bool,
}

/// What is to be done for one source file once its staleness is decided.
#[derive(Debug, PartialEq, Eq)]
pub enum CompileStep {
    /// The object is up to date and is reused: no process is run.
    Skipped(OutputFile),
    /// The compiler is to be run with this command.
    Compiling(Command),
}

/// One argument per warning: the prefix with the warning's name behind it.
pub open spec fn warning_args(prefix: Seq<char>, list: Seq<WarningFlag>, chain: &ToolChain) -> Seq<Seq<char>> {
    Seq::new(list.len(), |i: int| prefix + list[i].suffix(chain))
}

/// Two arguments per directory: the flag, then the directory.
pub open spec fn include_args(flag: Seq<char>, dirs: Seq<String>) -> Seq<Seq<char>> {
    Seq::new(2 * dirs.len(), |i: int| if i % 2 == 0 { flag } else { dirs[i / 2]@ })
}

impl InputFile {
    /// A compilation unit from its parts.
    pub fn new(
        path: String,
        output_path: String,
        tool_chain: ToolChain,
        args: CompilerFlags,
        includes: Vec<String>,
        full_rebuild: bool,
    ) -> (file: Self)
        ensures
            file == (InputFile { tool_chain, args, includes, path, output_path, full_rebuild }),
    {
        InputFile { tool_chain, args, path, output_path, includes, full_rebuild }
    }

    /// Whether the source must be compiled again, or the error that keeps
    /// the question open.
    pub open spec fn stale(&self, source: FileStamp, object: FileStamp) -> Result<bool, BuildError> {
        if self.full_rebuild || object is Missing {
            Ok(true)
        } else if !(source is Modified) {
            Err(BuildError::Filesystem { path: self.path })
        } else if object is Unknown {
            Err(BuildError::Filesystem { path: self.output_path })
        } else {
            Ok(source->Modified_0 > object->Modified_0)
        }
    }

    /// Decides staleness from the two files' stamps: always stale under a
    /// full rebuild, stale without an object, else stale exactly when the
    /// source is strictly newer than the object. Where an object is there,
    /// a source or an object whose time cannot be read is an error.
    pub fn should_recompile(&self, source: &FileStamp, object: &FileStamp) -> (verdict: Result<bool, BuildError>)
        ensures
            verdict == self.stale(*source, *object),
    {
        if self.full_rebuild {
            return Ok(true);
        }
        match (source, object) {
            (_, FileStamp::Missing) => Ok(true),
            (FileStamp::Modified(s), FileStamp::Modified(o)) => Ok(*s > *o),
            (FileStamp::Modified(_), FileStamp::Unknown) => Err(
                BuildError::Filesystem { path: self.output_path.clone() },
            ),
            _ => Err(BuildError::Filesystem { path: self.path.clone() }),
        }
    }

    /// The arguments that name the source and the object.
    pub open spec fn file_args(&self) -> Seq<Seq<char>> {
        seq![self.tool_chain.input_flag(), self.path@] + if self.tool_chain.msvc() {
            seq!["/Fo"@ + self.output_path@]
        } else {
            seq!["-o"@, self.output_path@]
        }
    }

    /// The arguments from the target's flags: warnings turned on, warnings
    /// turned off, then the free-form flags.
    pub open spec fn flag_args(&self) -> Seq<Seq<char>> {
        (if self.tool_chain.msvc() { seq!["/nologo"@] } else { Seq::<Seq<char>>::empty() })
            + warning_args(self.tool_chain.warning_flag(), self.args.warnings@, &self.tool_chain)
            + warning_args(self.tool_chain.no_warning_flag(), self.args.no_warnings@, &self.tool_chain)
            + texts(self.args.custom@)
    }

    /// All arguments of the compiler, in order.
    pub open spec fn compiler_args(&self) -> Seq<Seq<char>> {
        (if self.tool_chain.zig() { seq!["cc"@] } else { Seq::<Seq<char>>::empty() })
            + self.file_args()
            + self.flag_args()
            + include_args(self.tool_chain.include_flag(), self.includes@)
    }

    fn append_input_file(&self, cmd: &mut Command)
        ensures
            final(cmd).program == old(cmd).program,
            final(cmd).arg_texts() == old(cmd).arg_texts() + seq![self.tool_chain.input_flag(), self.path@],
    {
        cmd.arg(self.tool_chain.compiler_input_flag());
        cmd.arg(self.path.as_str());
        assert(cmd.arg_texts() =~= old(cmd).arg_texts() + seq![self.tool_chain.input_flag(), self.path@]);
    }

    fn append_output_file(&self, cmd: &mut Command)
        ensures
            final(cmd).program == old(cmd).program,
            final(cmd).arg_texts() == old(cmd).arg_texts() + if self.tool_chain.msvc() {
                seq!["/Fo"@ + self.output_path@]
            } else {
                seq!["-o"@, self.output_path@]
            },
    {
        if self.tool_chain.is_msvc() {
            cmd.arg_joined(self.tool_chain.compiler_output_flag(), self.output_path.as_str());
            assert(cmd.arg_texts() =~= old(cmd).arg_texts() + seq!["/Fo"@ + self.output_path@]);
            return;
        }
        cmd.arg(self.tool_chain.compiler_output_flag());
        cmd.arg(self.output_path.as_str());
        assert(cmd.arg_texts() =~= old(cmd).arg_texts() + seq!["-o"@, self.output_path@]);
    }

    fn append_warnings(&self, cmd: &mut Command, prefix: &str, list: &Vec<WarningFlag>)
        ensures
            final(cmd).program == old(cmd).program,
            final(cmd).arg_texts() == old(cmd).arg_texts() + warning_args(prefix@, list@, &self.tool_chain),
    {
        let mut i: usize = 0;
        while i < list.len()
            invariant
                i <= list.len(),
                cmd.program == old(cmd).program,
                cmd.arg_texts() == old(cmd).arg_texts() + warning_args(prefix@, list@.take(i as int), &self.tool_chain),
            decreases list.len() - i,
        {
            cmd.arg_joined(prefix, list[i].to_string(&self.tool_chain));
            assert(cmd.arg_texts() =~= old(cmd).arg_texts() + warning_args(
                prefix@,
                list@.take(i + 1),
                &self.tool_chain,
            ));
            i += 1;
        }
        assert(list@.take(i as int) =~= list@);
    }

    fn append_args(&self, cmd: &mut Command)
        ensures
            final(cmd).program == old(cmd).program,
            final(cmd).arg_texts() == old(cmd).arg_texts() + self.flag_args(),
    {
        if self.tool_chain.is_msvc() {
            cmd.arg("/nologo");
        }
        let ghost lead = cmd.arg_texts();
        assert(lead =~= old(cmd).arg_texts() + if self.tool_chain.msvc() {
            seq!["/nologo"@]
        } else {
            Seq::<Seq<char>>::empty()
        });
        self.append_warnings(cmd, self.tool_chain.compiler_warning_flag(), &self.args.warnings);
        self.append_warnings(cmd, self.tool_chain.compiler_no_warning_flag(), &self.args.no_warnings);
        let ghost before = cmd.arg_texts();
        let mut i: usize = 0;
        while i < self.args.custom.len()
            invariant
                i <= self.args.custom.len(),
                cmd.program == old(cmd).program,
                cmd.arg_texts() == before + texts(self.args.custom@.take(i as int)),
            decreases self.args.custom.len() - i,
        {
            cmd.arg(self.args.custom[i].as_str());
            assert(cmd.arg_texts() =~= before + texts(self.args.custom@.take(i + 1)));
            i += 1;
        }
        assert(self.args.custom@.take(i as int) =~= self.args.custom@);
        assert(cmd.arg_texts() =~= old(cmd).arg_texts() + self.flag_args());
    }

    fn append_includes(&self, cmd: &mut Command)
        ensures
            final(cmd).program == old(cmd).program,
            final(cmd).arg_texts() == old(cmd).arg_texts() + include_args(
                self.tool_chain.include_flag(),
                self.includes@,
            ),
    {
        let mut i: usize = 0;
        while i < self.includes.len()
            invariant
                i <= self.includes.len(),
                cmd.program == old(cmd).program,
                cmd.arg_texts() == old(cmd).arg_texts() + include_args(
                    self.tool_chain.include_flag(),
                    self.includes@.take(i as int),
                ),
            decreases self.includes.len() - i,
        {
            cmd.arg(self.tool_chain.compiler_include_flag());
            cmd.arg(self.includes[i].as_str());
            assert(cmd.arg_texts() =~= old(cmd).arg_texts() + include_args(
                self.tool_chain.include_flag(),
                self.includes@.take(i + 1),
            ));
            i += 1;
        }
        assert(self.includes@.take(i as int) =~= self.includes@);
    }

    /// The compiler's command for this file.
    pub fn command(&self) -> (cmd: Command)
        ensures
            cmd.program@ == self.tool_chain.compiler_name(),
            cmd.arg_texts() == self.compiler_args(),
    {
        let mut cmd = Command::new(self.tool_chain.compiler());
        if self.tool_chain.is_zig() {
            cmd.arg("cc");
        }
        let ghost lead = cmd.arg_texts();
        assert(lead =~= if self.tool_chain.zig() {
            seq!["cc"@]
        } else {
            Seq::<Seq<char>>::empty()
        });
        self.append_input_file(&mut cmd);
        self.append_output_file(&mut cmd);
        assert(cmd.arg_texts() =~= lead + self.file_args());
        self.append_args(&mut cmd);
        self.append_includes(&mut cmd);
        cmd
    }

    /// What the staleness check leads to: an error, the reused object, or
    /// the compiler's command.
    pub open spec fn step_for(&self, source: FileStamp, object: FileStamp, step: Result<CompileStep, BuildError>) -> bool {
        match self.stale(source, object) {
            Err(e) => step == Err::<CompileStep, BuildError>(e),
            Ok(false) => step == Ok::<CompileStep, BuildError>(
                CompileStep::Skipped(OutputFile { path: self.output_path }),
            ),
            Ok(true) => {
                &&& step is Ok
                &&& step->Ok_0 is Compiling
                &&& step->Ok_0->Compiling_0.program@ == self.tool_chain.compiler_name()
                &&& step->Ok_0->Compiling_0.arg_texts() == self.compiler_args()
            },
        }
    }

    /// Takes the file from unchecked to skipped or compiling. A file is
    /// compiled under a full rebuild, when it has no object, and when the
    /// source is strictly newer than the object; else it is skipped. The
    /// caller runs the command of a compiling file and hands the process's
    /// end to `finish`.
    pub fn compile(&self, source: &FileStamp, object: &FileStamp) -> (step: Result<CompileStep, BuildError>)
        ensures
            self.step_for(*source, *object, step),
            self.full_rebuild ==> step is Ok && step->Ok_0 is Compiling,
            *object is Missing ==> step is Ok && step->Ok_0 is Compiling,
            !self.full_rebuild && *source is Modified && *object is Modified && source->Modified_0
                <= object->Modified_0 ==> step == Ok::<CompileStep, BuildError>(
                CompileStep::Skipped(OutputFile { path: self.output_path }),
            ),
    {
        match self.should_recompile(source, object) {
            Err(e) => Err(e),
            Ok(false) => Ok(CompileStep::Skipped(OutputFile { path: self.output_path.clone() })),
            Ok(true) => Ok(CompileStep::Compiling(self.command())),
        }
    }

    /// Takes a compiling file to completed or failed: the object on
    /// success, else the failure with the source's path.
    pub fn finish(&self, outcome: ProcessOutcome) -> (done: Result<OutputFile, BuildError>)
        ensures
            done == match failure_of(Stage::Compile, self.path, outcome) {
                Some(e) => Err::<OutputFile, BuildError>(e),
                None => Ok(OutputFile { path: self.output_path }),
            },
    {
        match BuildError::from_outcome(Stage::Compile, &self.path, outcome) {
            Some(e) => Err(e),
            None => Ok(OutputFile { path: self.output_path.clone() }),
        }
    }
}

} // verus!
