//! A convenience layer around running single shell commands: a builder for
//! the command, its working directory, environment overrides and output mode,
//! and the classification of a finished command's outcome by exit status.
//!
//! Spawning the process is I/O and happens outside this library; the library
//! builds the command values and decides what a finished command's captured
//! outcome means.

use vstd::prelude::*;
use vstd::string::StringExecFns;

use crate::decimal::decimal_seq;
use crate::decimal::push_decimal;

verus! {

/// How a spawned command's stdio streams are wired.
#[derive(Clone, Copy, PartialEq, Eq, Structural, Debug)]
pub enum OutputMode {
    /// Capture stdout and stderr.
    Piped,
    /// Inherit the parent's stdin, stdout and stderr.
    Inherited,
}

/// A single shell command to be executed, together with its working
/// directory, environment variable overrides and output mode.
///
/// Environment overrides are applied in order; a later entry for the same
/// key overrides an earlier one.
pub struct Cmd {
    /// The shell command line.
    pub command: String,
    /// The working directory of the process, if one is set.
    pub working_dir: Option<String>,
    /// Environment variable overrides, applied in order.
    pub envs: Vec<(String, String)>,
    /// How the process's stdio streams are wired.
    pub output_mode: OutputMode,
}

impl Cmd {
    /// Create a new wrapper with the command that should be executed.
    pub fn new(command: String) -> (c: Cmd)
        ensures
            c.command@ == command@,
            c.working_dir is None,
            c.envs@ == Seq::<(String, String)>::empty(),
            c.output_mode == OutputMode::Piped,
    {
        Cmd { command, working_dir: None, envs: Vec::new(), output_mode: OutputMode::Piped }
    }

    /// Set the current working directory of the process.
    pub fn cwd(self, dir: String) -> (c: Cmd)
        ensures
            c.command == self.command,
            c.working_dir == Some(dir),
            c.envs == self.envs,
            c.output_mode == self.output_mode,
    {
        Cmd {
            command: self.command,
            working_dir: Some(dir),
            envs: self.envs,
            output_mode: self.output_mode,
        }
    }

    /// Set an environment variable for the process.
    pub fn env(self, key: String, value: String) -> (c: Cmd)
        ensures
            c.command == self.command,
            c.working_dir == self.working_dir,
            c.envs@ == self.envs@.push((key, value)),
            c.output_mode == self.output_mode,
    {
        let mut envs = self.envs;
        envs.push((key, value));
        Cmd { command: self.command, working_dir: self.working_dir, envs, output_mode: self.output_mode }
    }

    /// Let the process inherit the caller's stdio streams.
    pub fn io_passthrough(self) -> (c: Cmd)
        ensures
            c.command == self.command,
            c.working_dir == self.working_dir,
            c.envs == self.envs,
            c.output_mode == OutputMode::Inherited,
    {
        Cmd {
            command: self.command,
            working_dir: self.working_dir,
            envs: self.envs,
            output_mode: OutputMode::Inherited,
        }
    }
}

/// The observed outcome of a finished command: its exit code (`None` when the
/// process was terminated by a signal) and its captured output streams.
pub struct CmdOutput {
    /// The exit code, or `None` for termination by a signal.
    pub exit_code: Option<i32>,
    /// Captured standard output (empty when the streams were inherited).
    pub stdout: Vec<u8>,
    /// Captured standard error (empty when the streams were inherited).
    pub stderr: Vec<u8>,
}

impl CmdOutput {
    /// A command succeeded exactly when it exited with code zero.
    pub open spec fn is_success(self) -> bool {
        self.exit_code == Some(0i32)
    }

    /// Whether the command exited with code zero.
    pub fn success(&self) -> (r: bool)
        ensures
            r == self.is_success(),
    {
        match self.exit_code {
            Some(code) => code == 0,
            None => false,
        }
    }
}

/// A failure of a command: either it could not be spawned at all, or it ran
/// and exited with a non-zero status. Both carry the original command line.
pub enum CmdError {
    /// The command could not be spawned at all.
    SpawnFailed { command: String },
    /// The command ran and exited with a non-zero status.
    NonZeroExit { command: String, exit_code: Option<i32> },
}

/// The rendering of an exit code inside an error message.
pub open spec fn exit_code_seq(code: Option<i32>) -> Seq<char> {
    match code {
        Some(c) => if c >= 0 {
            decimal_seq(c as nat)
        } else {
            "-"@ + decimal_seq((-(c as int)) as nat)
        },
        None => "terminated by signal"@,
    }
}

/// The message text of a command failure: it names the original command, and
/// for a non-zero exit also the exit status.
pub open spec fn cmd_error_seq(e: CmdError) -> Seq<char> {
    match e {
        CmdError::SpawnFailed { command } => "Failed during: "@ + command@
            + "\nCritical error: the command could not be spawned"@,
        CmdError::NonZeroExit { command, exit_code } => "Failed during: "@ + command@
            + "\nGot non-zero exit code: "@ + exit_code_seq(exit_code),
    }
}

impl CmdError {
    /// Render this failure as a human-readable message holding the original
    /// command text and, for a non-zero exit, the exit status.
    pub fn message(&self) -> (s: String)
        ensures
            s@ == cmd_error_seq(*self),
    {
        let mut s = String::new();
        match self {
            CmdError::SpawnFailed { command } => {
                s.append("Failed during: ");
                s.append(command.as_str());
                s.append("\nCritical error: the command could not be spawned");
            },
            CmdError::NonZeroExit { command, exit_code } => {
                s.append("Failed during: ");
                s.append(command.as_str());
                s.append("\nGot non-zero exit code: ");
                match exit_code {
                    Some(code) => {
                        if *code < 0 {
                            s.append("-");
                            let neg: i64 = -(*code as i64);
                            push_decimal(&mut s, neg as u64);
                        } else {
                            push_decimal(&mut s, *code as u64);
                        }
                    },
                    None => {
                        s.append("terminated by signal");
                    },
                }
            },
        }
        proof {
            assert(s@ =~= cmd_error_seq(*self));
        }
        s
    }
}

impl Cmd {
    /// Classify the outcome that running this command produced: a zero exit
    /// status passes the output through, any other outcome becomes a
    /// `NonZeroExit` error carrying this command's text and the exit status.
    pub fn run_success(&self, output: CmdOutput) -> (r: Result<CmdOutput, CmdError>)
        ensures
            output.is_success() ==> (r matches Ok(o) && o == output),
            !output.is_success() ==> (r matches Err(e) && e matches CmdError::NonZeroExit {
                command,
                exit_code,
            } && command@ == self.command@ && exit_code == output.exit_code),
    {
        if output.success() {
            Ok(output)
        } else {
            Err(
                CmdError::NonZeroExit {
                    command: self.command.clone(),
                    exit_code: output.exit_code,
                },
            )
        }
    }
}

} // verus!
