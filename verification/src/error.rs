use vstd::prelude::*;
use vstd::string::*;
use crate::command::ProcessOutcome;

verus! {

/// The step of a build at which a process is run.
#[derive(Debug, Clone, Copy, PartialEq, Eq, Structural)]
pub enum Stage {
    Compile,
    Link,
}

/// A request that a toolchain cannot serve.
#[derive(Debug, Clone, Copy, PartialEq, Eq, Structural)]
pub enum ConfigFault {
    /// The toolchain has no linker for the kind of binary asked for.
    UnsupportedBinaryType,
    /// The toolchain has no flags for libraries or library directories.
    UnsupportedLibraries,
}

/// Why a build failed.
#[derive(Debug, PartialEq, Eq)]
pub enum BuildError {
    /// The target asks for what its toolchain cannot do.
    Configuration { fault: ConfigFault },
    /// The compiler or linker could not be launched; `path` is the source
    /// file or the artifact, `cause` what the system reported.
    Spawn { stage: Stage, path: String, cause: String },
    /// The process was launched and ended badly: with a failing status
    /// (`detail` is `None`) or without one that could be read.
    ProcessFailure { stage: Stage, path: String, detail: Option<String> },
    /// A file that a staleness check needs could not be examined.
    Filesystem { path: String },
}

/// The failure, if any, that a process's end means for the file at `path`:
/// none exactly when the process ran and reported success.
pub open spec fn failure_of(stage: Stage, path: String, outcome: ProcessOutcome) -> Option<BuildError> {
    match outcome {
        ProcessOutcome::SpawnFailed { cause } => Some(BuildError::Spawn { stage, path, cause }),
        ProcessOutcome::WaitFailed { cause } => Some(
            BuildError::ProcessFailure { stage, path, detail: Some(cause) },
        ),
        ProcessOutcome::Exited { success } => if success {
            None
        } else {
            Some(BuildError::ProcessFailure { stage, path, detail: None })
        },
    }
}

/// What a stage does to its file, as a word.
pub open spec fn stage_verb(stage: Stage) -> Seq<char> {
    match stage {
        Stage::Compile => "compile"@,
        Stage::Link => "link"@,
    }
}

impl Stage {
    /// What the stage does to its file, as a word.
    pub fn verb(&self) -> (word: &'static str)
        ensures
            word@ == stage_verb(*self),
    {
        match self {
            Stage::Compile => "compile",
            Stage::Link => "link",
        }
    }
}

impl BuildError {
    /// The failure in words, for the user.
    pub open spec fn message_text(&self) -> Seq<char> {
        match *self {
            BuildError::Configuration { fault } => match fault {
                ConfigFault::UnsupportedBinaryType => "the toolchain cannot link this kind of binary"@,
                ConfigFault::UnsupportedLibraries => "the toolchain has no flags for libraries"@,
            },
            BuildError::Spawn { stage, path, cause } => "failed to spawn process to "@ + stage_verb(stage)
                + " `"@ + path@ + "`: "@ + cause@,
            BuildError::ProcessFailure { stage, path, detail } => "failed to "@ + stage_verb(stage)
                + " `"@ + path@ + "`; compilation aborted"@ + match detail {
                Some(text) => ": "@ + text@,
                None => Seq::<char>::empty(),
            },
            BuildError::Filesystem { path } => "cannot examine `"@ + path@ + "`"@,
        }
    }

    /// The failure in words: what failed, on which file, and the cause
    /// where the system gave one.
    pub fn message(&self) -> (text: String)
        ensures
            text@ == self.message_text(),
    {
        match self {
            BuildError::Configuration { fault } => match fault {
                ConfigFault::UnsupportedBinaryType => String::from_str(
                    "the toolchain cannot link this kind of binary",
                ),
                ConfigFault::UnsupportedLibraries => String::from_str(
                    "the toolchain has no flags for libraries",
                ),
            },
            BuildError::Spawn { stage, path, cause } => {
                let mut text = String::from_str("failed to spawn process to ");
                text.append(stage.verb());
                text.append(" `");
                text.append(path.as_str());
                text.append("`: ");
                text.append(cause.as_str());
                assert(text@ =~= self.message_text());
                text
            },
            BuildError::ProcessFailure { stage, path, detail } => {
                let mut text = String::from_str("failed to ");
                text.append(stage.verb());
                text.append(" `");
                text.append(path.as_str());
                text.append("`; compilation aborted");
                match detail {
                    Some(more) => {
                        text.append(": ");
                        text.append(more.as_str());
                        assert(text@ =~= self.message_text());
                    },
                    None => {
                        assert(text@ =~= self.message_text());
                    },
                }
                text
            },
            BuildError::Filesystem { path } => {
                let mut text = String::from_str("cannot examine `");
                text.append(path.as_str());
                text.append("`");
                text
            },
        }
    }

    /// Turns the end of a compiler or linker process into the build's
    /// failure, keeping the path and the cause that the system gave.
    pub fn from_outcome(stage: Stage, path: &String, outcome: ProcessOutcome) -> (failure: Option<BuildError>)
        ensures
            failure == failure_of(stage, *path, outcome),
    {
        match outcome {
            ProcessOutcome::SpawnFailed { cause } => Some(
                BuildError::Spawn { stage, path: path.clone(), cause },
            ),
            ProcessOutcome::WaitFailed { cause } => Some(
                BuildError::ProcessFailure { stage, path: path.clone(), detail: Some(cause) },
            ),
            ProcessOutcome::Exited { success } => if success {
                None
            } else {
                Some(BuildError::ProcessFailure { stage, path: path.clone(), detail: None })
            },
        }
    }
}

impl Clone for BuildError {
    fn clone(&self) -> (copy: Self)
        ensures
            copy == *self,
    {
        match self {
            BuildError::Configuration { fault } => BuildError::Configuration { fault: *fault },
            BuildError::Spawn { stage, path, cause } => BuildError::Spawn {
                stage: *stage,
                path: path.clone(),
                cause: cause.clone(),
            },
            BuildError::ProcessFailure { stage, path, detail } => {
                let detail = match detail {
                    Some(text) => Some(text.clone()),
                    None => None,
                };
                BuildError::ProcessFailure { stage: *stage, path: path.clone(), detail }
            },
            BuildError::Filesystem { path } => BuildError::Filesystem { path: path.clone() },
        }
    }
}

} // verus!
