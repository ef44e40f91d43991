//! The game-server lifecycle: `startup`, `shutdown`, `update` and `backup`
//! as guarded operations over the session backend.
//!
//! Each operation is a decision from the game's plan and the observed
//! session state to either a typed precondition error or an exact sequence
//! of steps: template deployments, session creation, input injection,
//! interrupts, settle delays, external commands and file moves. An executor
//! applies the steps in order, stopping at the first failure; the verified
//! executor here applies them to the in-memory backend, and the surrounding
//! application applies them to the real multiplexer and file system.

use vstd::prelude::*;
use vstd::string::StringExecFns;

use crate::backup::backup_file_name;
use crate::backup::backup_name_seq;
use crate::backup::Timestamp;
use crate::config::join_path;
use crate::config::join_seq;
use crate::process::Cmd;
use crate::process::OutputMode;
use crate::session::input_and_newline_logged;
use crate::session::InMemoryBackend;
use crate::session::SessionError;
use crate::session::SessionEvent;
use crate::store::DeployError;
use crate::template::push_all;
use crate::template::secrets_view;
use crate::template::substitute_seq;

verus! {

/// One configuration template to deploy: the template's location, the
/// destination, and the secrets substituted on the way.
pub struct DeploySpec {
    /// The template file to read.
    pub source: String,
    /// The file to write, replacing any file already there.
    pub dest: String,
    /// The secrets substituted into the template.
    pub secrets: Vec<(Vec<u8>, Vec<u8>)>,
}

/// How a game is asked to stop gracefully: an interrupt keystroke, or a
/// console command injected into its session.
pub enum StopSignal {
    /// An interrupt keystroke.
    CtrlC,
    /// A console command, such as `exit` or `/stop`.
    Console(String),
}

/// What a backup archives.
pub enum BackupSource {
    /// A whole directory, archived as a zstd-compressed tar file.
    Directory { path: String },
    /// A fixed, well-known save file.
    FixedFile { path: String, extension: String },
    /// The most recently modified file of a save directory; nothing is
    /// archived when the directory has no files.
    NewestFile { directory: String, extension: String },
}

/// How a game's data is backed up: what to archive, where the stamped
/// artifact goes, and an optional console command that flushes the save
/// first, with the settle delay the flush is given.
pub struct BackupPlan {
    /// What to archive.
    pub source: BackupSource,
    /// The directory the stamped artifact is written to.
    pub target_dir: String,
    /// The base name of the stamped artifact.
    pub save_name: String,
    /// The console command that flushes the save, sent only when the session
    /// is open.
    pub save_command: Option<String>,
    /// The settle delay after the flush command, in seconds.
    pub save_wait_seconds: u64,
}

/// Everything the lifecycle needs to know about one game: the session name,
/// the directories, the configuration templates, the launch command line,
/// the stop signal, the settle delays, and the optional backup and update
/// capabilities.
pub struct GamePlan {
    /// The name of the session the game runs in.
    pub session_name: String,
    /// The game's installation directory; the session starts there.
    pub game_dir: String,
    /// The configuration templates deployed before the session is created.
    pub deploys: Vec<DeploySpec>,
    /// The command line injected into the fresh session to launch the game.
    pub launch_input: String,
    /// Environment overrides carried by the launch injection.
    pub launch_envs: Vec<(String, String)>,
    /// How the game is asked to stop.
    pub stop_signal: StopSignal,
    /// The settle delay after the stop signal, in seconds.
    pub settle_seconds: u64,
    /// Whether `shutdown` backs the game up after the stop signal.
    pub backup_on_shutdown: bool,
    /// The backup capability; games without one fail `backup` with
    /// `NotImplemented`.
    pub backup: Option<BackupPlan>,
    /// The update client invocation; games without one fail `update` with
    /// `NotImplemented`.
    pub update_command: Option<Cmd>,
    /// The settle delay between an update's internal shutdown and the update
    /// client, in seconds.
    pub update_settle_seconds: u64,
}

/// One step of a lifecycle operation, to be applied in order by an executor.
pub enum Step {
    /// Deploy a configuration template with secret substitution.
    Deploy { source: String, dest: String, secrets: Vec<(Vec<u8>, Vec<u8>)> },
    /// Create a new detached session.
    StartSession { session: String, cwd: String },
    /// Inject text and a newline, with environment overrides, into a session.
    SendInput { session: String, input: String, envs: Vec<(String, String)> },
    /// Send an interrupt keystroke to a session.
    SendCtrlC { session: String },
    /// Exit the shell inside a session, closing it.
    ExitSession { session: String },
    /// Wait a fixed number of seconds.
    Sleep { seconds: u64 },
    /// Run an external command.
    RunCommand { command: Cmd },
    /// Copy a file.
    CopyFile { source: String, dest: String },
    /// Remove a file, if one exists.
    RemoveFile { path: String },
}

/// The failures of a lifecycle operation, each naming the session.
#[derive(Debug)]
pub enum LifecycleError {
    /// A precondition was violated: the session is already open.
    SessionAlreadyOpen { session: String },
    /// A precondition was violated: the session is not open.
    SessionNotOpen { session: String },
    /// The game does not support this operation.
    NotImplemented { operation: String, session: String },
}

/// The views of an environment override list.
pub open spec fn envs_view(e: Seq<(String, String)>) -> Seq<(Seq<char>, Seq<char>)> {
    e.map_values(|kv: (String, String)| (kv.0@, kv.1@))
}

/// The view of an optional string.
pub open spec fn opt_str_view(o: Option<String>) -> Option<Seq<char>> {
    match o {
        Some(s) => Some(s@),
        None => None,
    }
}

/// Two commands agree in everything observable: command text, working
/// directory, environment overrides and output mode.
pub open spec fn cmd_views_eq(a: Cmd, b: Cmd) -> bool {
    &&& a.command@ == b.command@
    &&& opt_str_view(a.working_dir) == opt_str_view(b.working_dir)
    &&& envs_view(a.envs@) == envs_view(b.envs@)
    &&& a.output_mode == b.output_mode
}

/// A command that runs a plain command line: no working directory, no
/// environment overrides, piped output.
pub open spec fn is_plain_command(c: Cmd, text: Seq<char>) -> bool {
    &&& c.command@ == text
    &&& c.working_dir is None
    &&& c.envs@ == Seq::<(String, String)>::empty()
    &&& c.output_mode == OutputMode::Piped
}

/// The step deploys exactly this template.
pub open spec fn is_deploy_of(s: Step, d: DeploySpec) -> bool {
    s matches Step::Deploy { source, dest, secrets } && source@ == d.source@ && dest@ == d.dest@
        && secrets_view(secrets@) == secrets_view(d.secrets@)
}

/// The exact steps of `startup`: every configured template deployed in
/// order, then the session created in the game directory, then exactly one
/// launch command line injected.
pub open spec fn is_startup_steps(plan: GamePlan, steps: Seq<Step>) -> bool {
    let n = plan.deploys@.len() as int;
    &&& steps.len() == n + 2
    &&& forall|i: int| 0 <= i < n ==> is_deploy_of(#[trigger] steps[i], plan.deploys@[i])
    &&& (steps[n] matches Step::StartSession { session, cwd } && session@ == plan.session_name@
        && cwd@ == plan.game_dir@)
    &&& (steps[n + 1] matches Step::SendInput { session, input, envs } && session@
        == plan.session_name@ && input@ == plan.launch_input@ && envs_view(envs@) == envs_view(
        plan.launch_envs@,
    ))
}

/// The command that archives a directory into a zstd-compressed tar file.
pub open spec fn tar_command_seq(dest: Seq<char>, dir: Seq<char>) -> Seq<char> {
    "tar -I zstd -cvf "@ + dest + " "@ + dir
}

/// The stamped destination of a backup.
pub open spec fn backup_dest_seq(bp: BackupPlan, now: Timestamp) -> Seq<char> {
    match bp.source {
        BackupSource::Directory { .. } => join_seq(
            bp.target_dir@,
            backup_name_seq(bp.save_name@, now, "tar.zst"@),
        ),
        BackupSource::FixedFile { extension, .. } => join_seq(
            bp.target_dir@,
            backup_name_seq(bp.save_name@, now, extension@),
        ),
        BackupSource::NewestFile { extension, .. } => join_seq(
            bp.target_dir@,
            backup_name_seq(bp.save_name@, now, extension@),
        ),
    }
}

/// How many steps the archiving part of a backup takes.
pub open spec fn backup_core_len(bp: BackupPlan, newest: Option<String>) -> int {
    match bp.source {
        BackupSource::NewestFile { .. } => if newest is Some {
            2
        } else {
            0
        },
        _ => 2,
    }
}

/// The exact archiving steps of a backup: any artifact already carrying the
/// stamped name is removed, then the source is archived to it. A
/// newest-file backup with no save file archives nothing.
pub open spec fn is_backup_core_steps(
    bp: BackupPlan,
    now: Timestamp,
    newest: Option<String>,
    steps: Seq<Step>,
) -> bool {
    match bp.source {
        BackupSource::Directory { path } => {
            &&& steps.len() == 2
            &&& (steps[0] matches Step::RemoveFile { path: p } && p@ == backup_dest_seq(bp, now))
            &&& (steps[1] matches Step::RunCommand { command } && is_plain_command(
                command,
                tar_command_seq(backup_dest_seq(bp, now), path@),
            ))
        },
        BackupSource::FixedFile { path, .. } => {
            &&& steps.len() == 2
            &&& (steps[0] matches Step::RemoveFile { path: p } && p@ == backup_dest_seq(bp, now))
            &&& (steps[1] matches Step::CopyFile { source, dest } && source@ == path@ && dest@
                == backup_dest_seq(bp, now))
        },
        BackupSource::NewestFile { .. } => {
            match newest {
                None => steps.len() == 0,
                Some(f) => {
                    &&& steps.len() == 2
                    &&& (steps[0] matches Step::RemoveFile { path: p } && p@ == backup_dest_seq(
                        bp,
                        now,
                    ))
                    &&& (steps[1] matches Step::CopyFile { source, dest } && source@ == f@ && dest@
                        == backup_dest_seq(bp, now))
                },
            }
        },
    }
}

/// The exact steps of `backup`: when the session is open and the game has a
/// save-flush command, that command is injected and given its settle delay
/// first; then the archiving steps follow.
pub open spec fn is_backup_steps(
    bp: BackupPlan,
    session_open: bool,
    session: Seq<char>,
    now: Timestamp,
    newest: Option<String>,
    steps: Seq<Step>,
) -> bool {
    if session_open && bp.save_command is Some {
        &&& steps.len() == 2 + backup_core_len(bp, newest)
        &&& (bp.save_command matches Some(c) && steps[0] matches Step::SendInput {
            session: s,
            input,
            envs,
        } && s@ == session && input@ == c@ && envs@ == Seq::<(String, String)>::empty())
        &&& (steps[1] matches Step::Sleep { seconds } && seconds == bp.save_wait_seconds)
        &&& is_backup_core_steps(bp, now, newest, steps.skip(2))
    } else {
        is_backup_core_steps(bp, now, newest, steps)
    }
}

/// The step that carries the plan's stop signal.
pub open spec fn is_stop_step(plan: GamePlan, s: Step) -> bool {
    match plan.stop_signal {
        StopSignal::CtrlC => s matches Step::SendCtrlC { session } && session@
            == plan.session_name@,
        StopSignal::Console(c) => s matches Step::SendInput { session, input, envs } && session@
            == plan.session_name@ && input@ == c@ && envs@ == Seq::<(String, String)>::empty(),
    }
}

/// How many archiving steps `shutdown` embeds.
pub open spec fn shutdown_backup_len(plan: GamePlan, newest: Option<String>) -> int {
    match plan.backup {
        Some(bp) => if plan.backup_on_shutdown {
            backup_core_len(bp, newest)
        } else {
            0
        },
        None => 0,
    }
}

/// The exact steps of `shutdown`: the stop signal, the settle delay, the
/// backup's archiving steps when the plan asks for a backup on shutdown, and
/// finally the exit of the session's shell.
pub open spec fn is_shutdown_steps(
    plan: GamePlan,
    now: Timestamp,
    newest: Option<String>,
    steps: Seq<Step>,
) -> bool {
    let core = shutdown_backup_len(plan, newest);
    &&& steps.len() == 3 + core
    &&& is_stop_step(plan, steps[0])
    &&& (steps[1] matches Step::Sleep { seconds } && seconds == plan.settle_seconds)
    &&& (plan.backup_on_shutdown ==> (plan.backup matches Some(bp) ==> is_backup_core_steps(
        bp,
        now,
        newest,
        steps.subrange(2, 2 + core),
    )))
    &&& (steps.last() matches Step::ExitSession { session } && session@ == plan.session_name@)
}

/// The exact steps of `update`: with an open session, first the shutdown
/// steps and the update settle delay; in every case the update client's
/// command, then the startup steps. With no open session the internal
/// shutdown is skipped and the update client runs at once.
pub open spec fn is_update_steps(
    plan: GamePlan,
    session_open: bool,
    now: Timestamp,
    newest: Option<String>,
    steps: Seq<Step>,
) -> bool {
    plan.update_command matches Some(ucmd) && {
        if session_open {
            let sdlen = 3 + shutdown_backup_len(plan, newest);
            &&& steps.len() == sdlen + 2 + plan.deploys@.len() + 2
            &&& is_shutdown_steps(plan, now, newest, steps.subrange(0, sdlen))
            &&& (steps[sdlen] matches Step::Sleep { seconds } && seconds
                == plan.update_settle_seconds)
            &&& (steps[sdlen + 1] matches Step::RunCommand { command } && cmd_views_eq(
                command,
                ucmd,
            ))
            &&& is_startup_steps(plan, steps.skip(sdlen + 2))
        } else {
            &&& steps.len() == 1 + plan.deploys@.len() + 2
            &&& (steps[0] matches Step::RunCommand { command } && cmd_views_eq(command, ucmd))
            &&& is_startup_steps(plan, steps.skip(1))
        }
    }
}

/// A byte-for-byte copy of a byte vector.
fn clone_bytes(v: &Vec<u8>) -> (r: Vec<u8>)
    ensures
        r@ == v@,
{
    let mut r: Vec<u8> = Vec::new();
    push_all(&mut r, v);
    proof {
        assert(r@ =~= v@);
    }
    r
}

/// A copy of a secrets list with the same keys and values.
fn clone_secrets(s: &Vec<(Vec<u8>, Vec<u8>)>) -> (r: Vec<(Vec<u8>, Vec<u8>)>)
    ensures
        secrets_view(r@) == secrets_view(s@),
{
    let mut r: Vec<(Vec<u8>, Vec<u8>)> = Vec::new();
    let mut i: usize = 0;
    while i < s.len()
        invariant
            i <= s@.len(),
            r@.len() == i,
            forall|j: int|
                0 <= j < i ==> (#[trigger] r@[j]).0@ == s@[j].0@ && r@[j].1@ == s@[j].1@,
        decreases s@.len() - i,
    {
        let k = clone_bytes(&s[i].0);
        let v = clone_bytes(&s[i].1);
        r.push((k, v));
        i = i + 1;
    }
    proof {
        assert(secrets_view(r@) =~= secrets_view(s@));
    }
    r
}

/// A copy of an environment override list with the same keys and values.
fn clone_envs(e: &Vec<(String, String)>) -> (r: Vec<(String, String)>)
    ensures
        r@ == e@,
{
    let mut r: Vec<(String, String)> = Vec::new();
    let mut i: usize = 0;
    while i < e.len()
        invariant
            i <= e@.len(),
            r@ =~= e@.subrange(0, i as int),
        decreases e@.len() - i,
    {
        let k = e[i].0.clone();
        let v = e[i].1.clone();
        r.push((k, v));
        i = i + 1;
        proof {
            assert(r@ =~= e@.subrange(0, i as int));
        }
    }
    proof {
        assert(r@ =~= e@);
    }
    r
}

impl Cmd {
    /// A copy of this command with the same observable parts.
    pub fn clone_cmd(&self) -> (r: Cmd)
        ensures
            cmd_views_eq(r, *self),
    {
        let working_dir = match &self.working_dir {
            Some(d) => Some(d.clone()),
            None => None,
        };
        Cmd {
            command: self.command.clone(),
            working_dir,
            envs: clone_envs(&self.envs),
            output_mode: self.output_mode,
        }
    }
}

/// Build the archiving steps of a backup of a whole directory: remove any
/// artifact already carrying the stamped name, then archive the directory
/// into a zstd-compressed tar file under it. Returns the stamped destination
/// and the steps.
pub fn backup_directory(
    dir_to_backup: &String,
    target_dir: &String,
    save_name: &String,
    now: &Timestamp,
) -> (r: (String, Vec<Step>))
    ensures
        r.0@ == join_seq(target_dir@, backup_name_seq(save_name@, *now, "tar.zst"@)),
        r.1@.len() == 2,
        (r.1@[0] matches Step::RemoveFile { path } && path@ == r.0@),
        (r.1@[1] matches Step::RunCommand { command } && is_plain_command(
            command,
            tar_command_seq(r.0@, dir_to_backup@),
        )),
{
    let name = backup_file_name(save_name.as_str(), now, "tar.zst");
    let dest = join_path(target_dir.as_str(), name.as_str());
    let mut command = String::new();
    command.append("tar -I zstd -cvf ");
    command.append(dest.as_str());
    command.append(" ");
    command.append(dir_to_backup.as_str());
    proof {
        assert(command@ =~= tar_command_seq(dest@, dir_to_backup@));
    }
    let mut steps: Vec<Step> = Vec::new();
    steps.push(Step::RemoveFile { path: dest.clone() });
    steps.push(Step::RunCommand { command: Cmd::new(command) });
    (dest, steps)
}

/// Build the archiving steps of a backup of one file: remove any artifact
/// already carrying the stamped name, then copy the file to it. Returns the
/// stamped destination and the steps.
pub fn backup_file(
    file_to_backup: &String,
    target_dir: &String,
    save_name: &String,
    extension: &String,
    now: &Timestamp,
) -> (r: (String, Vec<Step>))
    ensures
        r.0@ == join_seq(target_dir@, backup_name_seq(save_name@, *now, extension@)),
        r.1@.len() == 2,
        (r.1@[0] matches Step::RemoveFile { path } && path@ == r.0@),
        (r.1@[1] matches Step::CopyFile { source, dest } && source@ == file_to_backup@ && dest@
            == r.0@),
{
    let name = backup_file_name(save_name.as_str(), now, extension.as_str());
    let dest = join_path(target_dir.as_str(), name.as_str());
    let mut steps: Vec<Step> = Vec::new();
    steps.push(Step::RemoveFile { path: dest.clone() });
    steps.push(Step::CopyFile { source: file_to_backup.clone(), dest: dest.clone() });
    (dest, steps)
}

/// Build the archiving steps for a backup plan.
fn backup_core(bp: &BackupPlan, now: &Timestamp, newest_save: &Option<String>) -> (r: Vec<Step>)
    ensures
        is_backup_core_steps(*bp, *now, *newest_save, r@),
        r@.len() == backup_core_len(*bp, *newest_save),
{
    match &bp.source {
        BackupSource::Directory { path } => {
            let (_, steps) = backup_directory(path, &bp.target_dir, &bp.save_name, now);
            steps
        },
        BackupSource::FixedFile { path, extension } => {
            let (_, steps) = backup_file(path, &bp.target_dir, &bp.save_name, extension, now);
            steps
        },
        BackupSource::NewestFile { directory: _, extension } => {
            match newest_save {
                Some(f) => {
                    let (_, steps) = backup_file(f, &bp.target_dir, &bp.save_name, extension, now);
                    steps
                },
                None => Vec::new(),
            }
        },
    }
}

/// One game server: its plan, and the lifecycle operations over it.
pub struct GameServer {
    /// The game's plan.
    pub plan: GamePlan,
}

impl GameServer {
    /// The name of the session the game runs in.
    pub fn session_name(&self) -> (r: String)
        ensures
            r@ == self.plan.session_name@,
    {
        self.plan.session_name.clone()
    }

    /// Start the game server. With a session already open this is an
    /// operator error: the typed precondition violation comes back and
    /// nothing is deployed. Otherwise the steps deploy every configured
    /// template, create the session in the game directory, and inject
    /// exactly one launch command line.
    pub fn startup(&self, session_open: bool) -> (r: Result<Vec<Step>, LifecycleError>)
        ensures
            session_open ==> (r matches Err(LifecycleError::SessionAlreadyOpen { session })
                && session@ == self.plan.session_name@),
            !session_open ==> (r matches Ok(steps) && is_startup_steps(self.plan, steps@)),
    {
        if session_open {
            return Err(
                LifecycleError::SessionAlreadyOpen { session: self.plan.session_name.clone() },
            );
        }
        let mut steps: Vec<Step> = Vec::new();
        let mut i: usize = 0;
        while i < self.plan.deploys.len()
            invariant
                i <= self.plan.deploys@.len(),
                steps@.len() == i,
                forall|j: int| 0 <= j < i ==> is_deploy_of(#[trigger] steps@[j], self.plan.deploys@[j]),
            decreases self.plan.deploys@.len() - i,
        {
            let d = &self.plan.deploys[i];
            steps.push(
                Step::Deploy {
                    source: d.source.clone(),
                    dest: d.dest.clone(),
                    secrets: clone_secrets(&d.secrets),
                },
            );
            i = i + 1;
        }
        steps.push(
            Step::StartSession {
                session: self.plan.session_name.clone(),
                cwd: self.plan.game_dir.clone(),
            },
        );
        steps.push(
            Step::SendInput {
                session: self.plan.session_name.clone(),
                input: self.plan.launch_input.clone(),
                envs: clone_envs(&self.plan.launch_envs),
            },
        );
        Ok(steps)
    }

    /// Back the game server up. A game without the capability fails with
    /// `NotImplemented`, naming the operation and the session. Otherwise the
    /// steps flush the save first when the session is open and the game has
    /// a flush command, then archive the save under a name stamped with the
    /// given time.
    pub fn backup(&self, session_open: bool, now: &Timestamp, newest_save: &Option<String>) -> (r:
        Result<Vec<Step>, LifecycleError>)
        ensures
            self.plan.backup is None ==> (r matches Err(
                LifecycleError::NotImplemented { operation, session },
            ) && operation@ == "backup"@ && session@ == self.plan.session_name@),
            self.plan.backup matches Some(bp) ==> (r matches Ok(steps) && is_backup_steps(
                bp,
                session_open,
                self.plan.session_name@,
                *now,
                *newest_save,
                steps@,
            )),
    {
        let bp = match &self.plan.backup {
            Some(bp) => bp,
            None => {
                return Err(
                    LifecycleError::NotImplemented {
                        operation: String::from_str("backup"),
                        session: self.plan.session_name.clone(),
                    },
                );
            },
        };
        let mut steps: Vec<Step> = Vec::new();
        let mut flushed = false;
        if session_open {
            if let Some(cmd) = &bp.save_command {
                steps.push(
                    Step::SendInput {
                        session: self.plan.session_name.clone(),
                        input: cmd.clone(),
                        envs: Vec::new(),
                    },
                );
                steps.push(Step::Sleep { seconds: bp.save_wait_seconds });
                flushed = true;
            }
        }
        let mut core = backup_core(bp, now, newest_save);
        let ghost pre = steps@;
        steps.append(&mut core);
        proof {
            if flushed {
                assert(steps@.skip(2) =~= steps@.subrange(2, steps@.len() as int));
                assert(steps@.skip(2) =~= pre.skip(2) + steps@.subrange(
                    pre.len() as int,
                    steps@.len() as int,
                ));
            }
        }
        Ok(steps)
    }

    /// Shut the game server down. With no session open this is an operator
    /// error: the typed precondition violation comes back. Otherwise the
    /// steps send the stop signal, wait the configured settle delay, archive
    /// the save when the plan backs up on shutdown, and exit the session's
    /// shell, leaving the session closed.
    pub fn shutdown(&self, session_open: bool, now: &Timestamp, newest_save: &Option<String>) -> (
        r: Result<Vec<Step>, LifecycleError>)
        ensures
            !session_open ==> (r matches Err(LifecycleError::SessionNotOpen { session })
                && session@ == self.plan.session_name@),
            session_open ==> (r matches Ok(steps) && is_shutdown_steps(
                self.plan,
                *now,
                *newest_save,
                steps@,
            )),
    {
        if !session_open {
            return Err(
                LifecycleError::SessionNotOpen { session: self.plan.session_name.clone() },
            );
        }
        let mut steps: Vec<Step> = Vec::new();
        match &self.plan.stop_signal {
            StopSignal::CtrlC => {
                steps.push(Step::SendCtrlC { session: self.plan.session_name.clone() });
            },
            StopSignal::Console(c) => {
                steps.push(
                    Step::SendInput {
                        session: self.plan.session_name.clone(),
                        input: c.clone(),
                        envs: Vec::new(),
                    },
                );
            },
        }
        steps.push(Step::Sleep { seconds: self.plan.settle_seconds });
        if self.plan.backup_on_shutdown {
            if let Some(bp) = &self.plan.backup {
                let mut core = backup_core(bp, now, newest_save);
                let ghost pre = steps@;
                steps.append(&mut core);
                proof {
                    assert(steps@.subrange(2, steps@.len() as int) =~= steps@.subrange(
                        pre.len() as int,
                        steps@.len() as int,
                    ));
                }
            }
        }
        steps.push(Step::ExitSession { session: self.plan.session_name.clone() });
        proof {
            let core = shutdown_backup_len(self.plan, *newest_save);
            assert(steps@.subrange(2, 2 + core) =~= steps@.drop_last().subrange(
                2,
                steps@.drop_last().len() as int,
            ));
        }
        Ok(steps)
    }

    /// Update the game server. A game without the capability fails with
    /// `NotImplemented`, naming the operation and the session. With a
    /// session open, the shutdown steps run first and the update settle
    /// delay is waited; with no session open that internal shutdown is
    /// skipped. Either way the update client's command runs and the startup
    /// steps relaunch the server.
    pub fn update(&self, session_open: bool, now: &Timestamp, newest_save: &Option<String>) -> (r:
        Result<Vec<Step>, LifecycleError>)
        ensures
            self.plan.update_command is None ==> (r matches Err(
                LifecycleError::NotImplemented { operation, session },
            ) && operation@ == "update"@ && session@ == self.plan.session_name@),
            self.plan.update_command is Some ==> (r matches Ok(steps) && is_update_steps(
                self.plan,
                session_open,
                *now,
                *newest_save,
                steps@,
            )),
    {
        let ucmd = match &self.plan.update_command {
            Some(c) => c,
            None => {
                return Err(
                    LifecycleError::NotImplemented {
                        operation: String::from_str("update"),
                        session: self.plan.session_name.clone(),
                    },
                );
            },
        };
        let mut steps: Vec<Step> = Vec::new();
        if session_open {
            let mut sd = match self.shutdown(true, now, newest_save) {
                Ok(v) => v,
                Err(_) => vstd::pervasive::unreached(),
            };
            let ghost sdv = sd@;
            steps.append(&mut sd);
            steps.push(Step::Sleep { seconds: self.plan.update_settle_seconds });
            proof {
                assert(steps@.subrange(0, sdv.len() as int) =~= sdv);
            }
        }
        steps.push(Step::RunCommand { command: ucmd.clone_cmd() });
        let mut su = match self.startup(false) {
            Ok(v) => v,
            Err(_) => vstd::pervasive::unreached(),
        };
        let ghost pre = steps@;
        let ghost suv = su@;
        steps.append(&mut su);
        proof {
            assert(steps@.subrange(0, pre.len() as int) =~= pre);
            assert(steps@.skip(pre.len() as int) =~= suv);
            if session_open {
                let sdlen = 3 + shutdown_backup_len(self.plan, *newest_save);
                assert(steps@.subrange(0, sdlen) =~= pre.subrange(0, sdlen));
            }
        }
        Ok(steps)
    }
}

/// The failures of applying a step to the in-memory backend.
#[derive(Debug)]
pub enum StepError {
    /// The session backend refused the step.
    Session(SessionError),
    /// A file the step reads does not exist.
    Deploy(DeployError),
}

/// The step exits this session.
pub open spec fn step_exits(step: Step, n: Seq<char>) -> bool {
    step matches Step::ExitSession { session } && session@ == n
}

/// What applying one step to the in-memory backend does: the exact effect on
/// the open sessions, the event log, the files, the commands run and the
/// sleeps taken, and exactly when the step fails.
pub open spec fn step_applied(
    pre: InMemoryBackend,
    post: InMemoryBackend,
    step: Step,
    r: Result<(), StepError>,
) -> bool {
    match step {
        Step::Deploy { source, dest, secrets } => {
            &&& post.sessions() == pre.sessions()
            &&& post.event_log() == pre.event_log()
            &&& post.commands_run() == pre.commands_run()
            &&& post.sleeps_taken() == pre.sleeps_taken()
            &&& pre.file_contents().contains_key(source@) ==> (r is Ok && post.file_contents()
                == pre.file_contents().insert(
                dest@,
                substitute_seq(pre.file_contents()[source@], secrets_view(secrets@)),
            ))
            &&& !pre.file_contents().contains_key(source@) ==> (r matches Err(
                StepError::Deploy(DeployError::SourceNotFound { path }),
            ) && path@ == source@ && post.file_contents() == pre.file_contents())
        },
        Step::StartSession { session, cwd: _ } => {
            &&& post.event_log() == pre.event_log()
            &&& post.file_contents() == pre.file_contents()
            &&& post.commands_run() == pre.commands_run()
            &&& post.sleeps_taken() == pre.sleeps_taken()
            &&& pre.sessions().contains(session@) ==> (r matches Err(
                StepError::Session(SessionError::SessionSpawnError { session: s }),
            ) && s@ == session@ && post.sessions() == pre.sessions())
            &&& !pre.sessions().contains(session@) ==> (r is Ok && post.sessions()
                == pre.sessions().insert(session@))
        },
        Step::SendInput { session, input, envs } => {
            &&& post.sessions() == pre.sessions()
            &&& post.file_contents() == pre.file_contents()
            &&& post.commands_run() == pre.commands_run()
            &&& post.sleeps_taken() == pre.sleeps_taken()
            &&& pre.sessions().contains(session@) ==> (r is Ok && post.event_log().len()
                == pre.event_log().len() + 2 && post.event_log().subrange(
                0,
                pre.event_log().len() as int,
            ) == pre.event_log() && (post.event_log()[pre.event_log().len() as int]
                matches SessionEvent::Input { session: s, text } && s@ == session@ && text@
                == input@) && (post.event_log().last() matches SessionEvent::Newline {
                session: s,
                envs: e,
            } && s@ == session@ && e@ == envs@))
            &&& !pre.sessions().contains(session@) ==> (r matches Err(
                StepError::Session(SessionError::NoSuchSession { session: s }),
            ) && s@ == session@ && post.event_log() == pre.event_log())
        },
        Step::SendCtrlC { session } => {
            &&& post.sessions() == pre.sessions()
            &&& post.file_contents() == pre.file_contents()
            &&& post.commands_run() == pre.commands_run()
            &&& post.sleeps_taken() == pre.sleeps_taken()
            &&& pre.sessions().contains(session@) ==> (r is Ok && post.event_log()
                == pre.event_log().push(SessionEvent::Interrupt { session }))
            &&& !pre.sessions().contains(session@) ==> (r matches Err(
                StepError::Session(SessionError::NoSuchSession { session: s }),
            ) && s@ == session@ && post.event_log() == pre.event_log())
        },
        Step::ExitSession { session } => {
            &&& post.file_contents() == pre.file_contents()
            &&& post.commands_run() == pre.commands_run()
            &&& post.sleeps_taken() == pre.sleeps_taken()
            &&& pre.sessions().contains(session@) ==> (r is Ok && post.sessions()
                == pre.sessions().remove(session@) && input_and_newline_logged(
                pre.event_log(),
                post.event_log(),
                session@,
                "exit"@,
            ))
            &&& !pre.sessions().contains(session@) ==> (r matches Err(
                StepError::Session(SessionError::NoSuchSession { session: s }),
            ) && s@ == session@ && post == pre)
        },
        Step::Sleep { seconds } => {
            &&& r is Ok
            &&& post.sessions() == pre.sessions()
            &&& post.event_log() == pre.event_log()
            &&& post.file_contents() == pre.file_contents()
            &&& post.commands_run() == pre.commands_run()
            &&& post.sleeps_taken() == pre.sleeps_taken().push(seconds)
        },
        Step::RunCommand { command } => {
            &&& r is Ok
            &&& post.sessions() == pre.sessions()
            &&& post.event_log() == pre.event_log()
            &&& post.file_contents() == pre.file_contents()
            &&& post.sleeps_taken() == pre.sleeps_taken()
            &&& post.commands_run().len() == pre.commands_run().len() + 1
            &&& post.commands_run().subrange(0, pre.commands_run().len() as int)
                == pre.commands_run()
            &&& cmd_views_eq(post.commands_run().last(), command)
        },
        Step::CopyFile { source, dest } => {
            &&& post.sessions() == pre.sessions()
            &&& post.event_log() == pre.event_log()
            &&& post.commands_run() == pre.commands_run()
            &&& post.sleeps_taken() == pre.sleeps_taken()
            &&& pre.file_contents().contains_key(source@) ==> (r is Ok && post.file_contents()
                == pre.file_contents().insert(dest@, pre.file_contents()[source@]))
            &&& !pre.file_contents().contains_key(source@) ==> (r matches Err(
                StepError::Deploy(DeployError::SourceNotFound { path }),
            ) && path@ == source@ && post.file_contents() == pre.file_contents())
        },
        Step::RemoveFile { path } => {
            &&& r is Ok
            &&& post.sessions() == pre.sessions()
            &&& post.event_log() == pre.event_log()
            &&& post.commands_run() == pre.commands_run()
            &&& post.sleeps_taken() == pre.sleeps_taken()
            &&& post.file_contents() == pre.file_contents().remove(path@)
        },
    }
}

/// Apply one step to the in-memory backend: the exact effect is
/// `step_applied`. A session that is open stays open unless the step exits
/// exactly it.
pub fn run_step(backend: &mut InMemoryBackend, step: &Step) -> (r: Result<(), StepError>)
    requires
        old(backend).wf(),
    ensures
        final(backend).wf(),
        step_applied(*old(backend), *final(backend), *step, r),
        forall|n: Seq<char>|
            old(backend).sessions().contains(n) && !step_exits(*step, n)
                ==> final(backend).sessions().contains(n),
{
    match step {
        Step::Deploy { source, dest, secrets } => {
            match backend.copy_secret_file(source, dest, secrets) {
                Ok(_) => Ok(()),
                Err(e) => Err(StepError::Deploy(e)),
            }
        },
        Step::StartSession { session, cwd } => {
            match backend.start_session(session, cwd) {
                Ok(_) => Ok(()),
                Err(e) => Err(StepError::Session(e)),
            }
        },
        Step::SendInput { session, input, envs } => {
            let r = match backend.send_input_newline_with_env(session, input, clone_envs(envs)) {
                Ok(_) => Ok(()),
                Err(e) => Err(StepError::Session(e)),
            };
            proof {
                if old(backend).sessions().contains(session@) {
                    assert(backend.event_log().subrange(0, old(backend).event_log().len() as int)
                        =~= old(backend).event_log());
                }
            }
            r
        },
        Step::SendCtrlC { session } => {
            match backend.send_ctrl_c(session) {
                Ok(_) => Ok(()),
                Err(e) => Err(StepError::Session(e)),
            }
        },
        Step::ExitSession { session } => {
            match backend.exit_session(session) {
                Ok(_) => Ok(()),
                Err(e) => Err(StepError::Session(e)),
            }
        },
        Step::Sleep { seconds } => {
            backend.sleep_seconds(*seconds);
            Ok(())
        },
        Step::RunCommand { command } => {
            backend.run_command(command.clone_cmd());
            proof {
                assert(backend.commands_run().subrange(
                    0,
                    old(backend).commands_run().len() as int,
                ) =~= old(backend).commands_run());
            }
            Ok(())
        },
        Step::CopyFile { source, dest } => {
            match backend.copy_file(source, dest) {
                Ok(_) => Ok(()),
                Err(e) => Err(StepError::Deploy(e)),
            }
        },
        Step::RemoveFile { path } => {
            backend.remove_file(path);
            Ok(())
        },
    }
}

/// The steps were applied to the backend in order, each one succeeding.
pub open spec fn steps_applied(
    pre: InMemoryBackend,
    post: InMemoryBackend,
    steps: Seq<Step>,
) -> bool
    decreases steps.len(),
{
    if steps.len() == 0 {
        post == pre
    } else {
        exists|mid: InMemoryBackend|
            {
                &&& #[trigger] step_applied(pre, mid, steps[0], Ok(()))
                &&& steps_applied(mid, post, steps.drop_first())
            }
    }
}

/// Applying one more successful step extends an applied sequence.
proof fn lemma_steps_applied_snoc(
    pre: InMemoryBackend,
    mid: InMemoryBackend,
    post: InMemoryBackend,
    steps: Seq<Step>,
    x: Step,
)
    requires
        steps_applied(pre, mid, steps),
        step_applied(mid, post, x, Ok(())),
    ensures
        steps_applied(pre, post, steps.push(x)),
    decreases steps.len(),
{
    if steps.len() == 0 {
        assert(steps.push(x)[0] == x);
        assert(steps.push(x).drop_first() =~= Seq::<Step>::empty());
        assert(step_applied(pre, post, x, Ok(())));
        assert(steps_applied(post, post, steps.push(x).drop_first()));
    } else {
        let first = choose|m: InMemoryBackend|
            {
                &&& #[trigger] step_applied(pre, m, steps[0], Ok(()))
                &&& steps_applied(m, mid, steps.drop_first())
            };
        lemma_steps_applied_snoc(first, mid, post, steps.drop_first(), x);
        assert(steps.push(x)[0] == steps[0]);
        assert(steps.push(x).drop_first() =~= steps.drop_first().push(x));
        assert(step_applied(pre, first, steps.push(x)[0], Ok(())));
        assert(steps_applied(first, post, steps.push(x).drop_first()));
    }
}

/// A session that is open stays open across applied steps until one exits
/// exactly it: creating other sessions, injecting input, interrupts, sleeps,
/// external commands, file moves, and even exiting a differently named
/// session all leave it open.
pub proof fn lemma_session_open_until_exit(
    pre: InMemoryBackend,
    post: InMemoryBackend,
    steps: Seq<Step>,
    n: Seq<char>,
)
    requires
        steps_applied(pre, post, steps),
        pre.sessions().contains(n),
        forall|i: int| 0 <= i < steps.len() ==> !step_exits(#[trigger] steps[i], n),
    ensures
        post.sessions().contains(n),
    decreases steps.len(),
{
    if steps.len() > 0 {
        let mid = choose|m: InMemoryBackend|
            {
                &&& #[trigger] step_applied(pre, m, steps[0], Ok(()))
                &&& steps_applied(m, post, steps.drop_first())
            };
        assert(!step_exits(steps[0], n));
        assert(mid.sessions().contains(n));
        lemma_session_open_until_exit(mid, post, steps.drop_first(), n);
    }
}

/// An applied sequence splits at any point: some intermediate backend saw
/// the prefix applied and the rest applied after it.
proof fn lemma_steps_applied_split(
    pre: InMemoryBackend,
    post: InMemoryBackend,
    steps: Seq<Step>,
    k: int,
)
    requires
        steps_applied(pre, post, steps),
        0 <= k <= steps.len(),
    ensures
        exists|mid: InMemoryBackend|
            {
                &&& #[trigger] steps_applied(pre, mid, steps.subrange(0, k))
                &&& steps_applied(mid, post, steps.skip(k))
            },
    decreases k,
{
    if k == 0 {
        assert(steps.subrange(0, 0) =~= Seq::<Step>::empty());
        assert(steps.skip(0) =~= steps);
        assert(steps_applied(pre, pre, steps.subrange(0, 0)));
        assert(steps_applied(pre, post, steps.skip(0)));
    } else {
        let first = choose|m: InMemoryBackend|
            {
                &&& #[trigger] step_applied(pre, m, steps[0], Ok(()))
                &&& steps_applied(m, post, steps.drop_first())
            };
        lemma_steps_applied_split(first, post, steps.drop_first(), k - 1);
        let mid = choose|mid: InMemoryBackend|
            {
                &&& #[trigger] steps_applied(first, mid, steps.drop_first().subrange(0, k - 1))
                &&& steps_applied(mid, post, steps.drop_first().skip(k - 1))
            };
        assert(steps.subrange(0, k)[0] == steps[0]);
        assert(steps.subrange(0, k).drop_first() =~= steps.drop_first().subrange(0, k - 1));
        assert(steps_applied(pre, mid, steps.subrange(0, k)));
        assert(steps.skip(k) =~= steps.drop_first().skip(k - 1));
        assert(steps_applied(mid, post, steps.skip(k)));
    }
}

/// Applied deployment steps touch only the files: the open sessions and the
/// event log are left as they are.
proof fn lemma_deploys_preserve_sessions_and_events(
    pre: InMemoryBackend,
    post: InMemoryBackend,
    steps: Seq<Step>,
)
    requires
        steps_applied(pre, post, steps),
        forall|i: int| 0 <= i < steps.len() ==> (#[trigger] steps[i]) is Deploy,
    ensures
        post.sessions() == pre.sessions(),
        post.event_log() == pre.event_log(),
    decreases steps.len(),
{
    if steps.len() > 0 {
        let mid = choose|m: InMemoryBackend|
            {
                &&& #[trigger] step_applied(pre, m, steps[0], Ok(()))
                &&& steps_applied(m, post, steps.drop_first())
            };
        assert(steps[0] is Deploy);
        assert forall|i: int| 0 <= i < steps.drop_first().len() implies (
        #[trigger] steps.drop_first()[i]) is Deploy by {
            assert(steps.drop_first()[i] == steps[i + 1]);
        }
        lemma_deploys_preserve_sessions_and_events(mid, post, steps.drop_first());
    }
}

/// Applying the startup steps opens the session and injects exactly one
/// launch command line: the session was closed before (creating it
/// succeeded), it is open afterwards, and the event log grew by exactly the
/// launch input and its newline. The deployments touch only the files.
pub proof fn lemma_startup_steps_open_and_launch(
    plan: GamePlan,
    pre: InMemoryBackend,
    post: InMemoryBackend,
    steps: Seq<Step>,
)
    requires
        is_startup_steps(plan, steps),
        steps_applied(pre, post, steps),
    ensures
        !pre.sessions().contains(plan.session_name@),
        post.sessions() == pre.sessions().insert(plan.session_name@),
        post.event_log().len() == pre.event_log().len() + 2,
        post.event_log().subrange(0, pre.event_log().len() as int) == pre.event_log(),
        (post.event_log()[pre.event_log().len() as int] matches SessionEvent::Input {
            session,
            text,
        } && session@ == plan.session_name@ && text@ == plan.launch_input@),
{
    let n = plan.deploys@.len() as int;
    lemma_steps_applied_split(pre, post, steps, n);
    let mid_a = choose|mid: InMemoryBackend|
        {
            &&& #[trigger] steps_applied(pre, mid, steps.subrange(0, n))
            &&& steps_applied(mid, post, steps.skip(n))
        };
    assert forall|i: int| 0 <= i < steps.subrange(0, n).len() implies (#[trigger] steps.subrange(
        0,
        n,
    )[i]) is Deploy by {
        assert(is_deploy_of(steps[i], plan.deploys@[i]));
    }
    lemma_deploys_preserve_sessions_and_events(pre, mid_a, steps.subrange(0, n));
    let rest = steps.skip(n);
    assert(rest.len() == 2);
    assert(rest[0] == steps[n]);
    assert(rest[1] == steps[n + 1]);
    let mid_b = choose|m: InMemoryBackend|
        {
            &&& #[trigger] step_applied(mid_a, m, rest[0], Ok(()))
            &&& steps_applied(m, post, rest.drop_first())
        };
    // creating the session succeeded, so it was closed and is now open
    assert(!mid_a.sessions().contains(plan.session_name@));
    assert(mid_b.sessions() == mid_a.sessions().insert(plan.session_name@));
    let last = rest.drop_first();
    assert(last.len() == 1);
    assert(last[0] == steps[n + 1]);
    let mid_c = choose|m: InMemoryBackend|
        {
            &&& #[trigger] step_applied(mid_b, m, last[0], Ok(()))
            &&& steps_applied(m, post, last.drop_first())
        };
    assert(post == mid_c);
}

/// Applying the shutdown steps leaves the session closed: the final step
/// exits the session's shell, and its success removes the session.
pub proof fn lemma_shutdown_steps_close_the_session(
    plan: GamePlan,
    now: Timestamp,
    newest: Option<String>,
    pre: InMemoryBackend,
    post: InMemoryBackend,
    steps: Seq<Step>,
)
    requires
        is_shutdown_steps(plan, now, newest, steps),
        steps_applied(pre, post, steps),
    ensures
        !post.sessions().contains(plan.session_name@),
{
    let k = steps.len() - 1;
    lemma_steps_applied_split(pre, post, steps, k);
    let mid = choose|mid: InMemoryBackend|
        {
            &&& #[trigger] steps_applied(pre, mid, steps.subrange(0, k))
            &&& steps_applied(mid, post, steps.skip(k))
        };
    let rest = steps.skip(k);
    assert(rest.len() == 1);
    assert(rest[0] == steps.last());
    let mid_c = choose|m: InMemoryBackend|
        {
            &&& #[trigger] step_applied(mid, m, rest[0], Ok(()))
            &&& steps_applied(m, post, rest.drop_first())
        };
    assert(post == mid_c);
}

/// Apply steps to the in-memory backend in order, stopping at the first
/// failure: on success the whole sequence was applied, on failure some
/// prefix was applied and the named step failed. A session that is open
/// before stays open afterwards as long as no step exits it: in particular a
/// session just created stays open until a terminating step runs.
pub fn run_steps(backend: &mut InMemoryBackend, steps: &Vec<Step>) -> (r: Result<(), StepError>)
    requires
        old(backend).wf(),
    ensures
        final(backend).wf(),
        r is Ok ==> steps_applied(*old(backend), *final(backend), steps@),
        r is Err ==> exists|k: int, mid: InMemoryBackend|
            {
                &&& 0 <= k < steps@.len()
                &&& #[trigger] steps_applied(*old(backend), mid, steps@.subrange(0, k))
                &&& step_applied(mid, *final(backend), steps@[k], r)
            },
        forall|n: Seq<char>|
            old(backend).sessions().contains(n) && (forall|i: int|
                0 <= i < steps@.len() ==> !step_exits(#[trigger] steps@[i], n))
                ==> final(backend).sessions().contains(n),
{
    let mut k: usize = 0;
    proof {
        assert(steps@.subrange(0, 0) =~= Seq::<Step>::empty());
    }
    while k < steps.len()
        invariant
            k <= steps@.len(),
            backend.wf(),
            steps_applied(*old(backend), *backend, steps@.subrange(0, k as int)),
            forall|n: Seq<char>|
                old(backend).sessions().contains(n) && (forall|i: int|
                    0 <= i < k ==> !step_exits(#[trigger] steps@[i], n)) ==> backend.sessions().contains(
                    n,
                ),
        decreases steps@.len() - k,
    {
        let ghost before = *backend;
        match run_step(backend, &steps[k]) {
            Ok(_) => {},
            Err(e) => {
                proof {
                    assert(steps_applied(*old(backend), before, steps@.subrange(0, k as int)));
                    assert(step_applied(before, *backend, steps@[k as int], Err(e)));
                }
                return Err(e);
            },
        }
        proof {
            lemma_steps_applied_snoc(
                *old(backend),
                before,
                *backend,
                steps@.subrange(0, k as int),
                steps@[k as int],
            );
            assert(steps@.subrange(0, k as int).push(steps@[k as int]) =~= steps@.subrange(
                0,
                k as int + 1,
            ));
        }
        k = k + 1;
    }
    proof {
        assert(steps@.subrange(0, steps@.len() as int) =~= steps@);
    }
    Ok(())
}

} // verus!
