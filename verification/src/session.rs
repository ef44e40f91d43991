//! The session backend: building the terminal-multiplexer commands that
//! create a session, query it, inject input and send an interrupt; and an
//! in-memory backend that models the multiplexer's observable state (which
//! sessions are open, what was injected into them) together with the files
//! and external commands the lifecycle touches.
//!
//! The in-memory backend is the model the lifecycle operations are exercised
//! against; the real multiplexer is driven by executing the built commands
//! outside this library.

use vstd::prelude::*;
use vstd::string::StringExecFns;

use crate::process::Cmd;
use crate::process::OutputMode;
use crate::store::DeployError;
use crate::store::FileStore;
use crate::template::secrets_view;
use crate::template::substitute_seq;

verus! {

/// The command that creates a new detached session with the given name,
/// started in the given working directory.
pub fn start_session_command(name: &String, cwd: &String) -> (c: Cmd)
    ensures
        c.command@ == "tmux new -d -s "@ + name@,
        c.working_dir == Some(*cwd),
        c.envs@ == Seq::<(String, String)>::empty(),
        c.output_mode == OutputMode::Piped,
{
    let mut s = String::new();
    s.append("tmux new -d -s ");
    s.append(name.as_str());
    proof {
        assert(s@ =~= "tmux new -d -s "@ + name@);
    }
    Cmd::new(s).cwd(cwd.clone())
}

/// The command that queries whether a session with the given name exists;
/// its exit status answers the question.
pub fn has_session_command(name: &String) -> (c: Cmd)
    ensures
        c.command@ == "tmux has-session -t "@ + name@,
        c.working_dir is None,
        c.envs@ == Seq::<(String, String)>::empty(),
        c.output_mode == OutputMode::Piped,
{
    let mut s = String::new();
    s.append("tmux has-session -t ");
    s.append(name.as_str());
    proof {
        assert(s@ =~= "tmux has-session -t "@ + name@);
    }
    Cmd::new(s)
}

/// The command that injects literal text into a session's input stream,
/// wrapped in shell quoting; it does not send a newline.
pub fn send_input_command(name: &String, input: &String) -> (c: Cmd)
    ensures
        c.command@ == "tmux send -t "@ + name@ + " '"@ + input@ + "'"@,
        c.working_dir is None,
        c.envs@ == Seq::<(String, String)>::empty(),
        c.output_mode == OutputMode::Piped,
{
    let mut s = String::new();
    s.append("tmux send -t ");
    s.append(name.as_str());
    s.append(" '");
    s.append(input.as_str());
    s.append("'");
    proof {
        assert(s@ =~= "tmux send -t "@ + name@ + " '"@ + input@ + "'"@);
    }
    Cmd::new(s)
}

/// The command that sends a newline keystroke to a session.
pub fn send_newline_command(name: &String) -> (c: Cmd)
    ensures
        c.command@ == "tmux send -t "@ + name@ + " ENTER"@,
        c.working_dir is None,
        c.envs@ == Seq::<(String, String)>::empty(),
        c.output_mode == OutputMode::Piped,
{
    let mut s = String::new();
    s.append("tmux send -t ");
    s.append(name.as_str());
    s.append(" ENTER");
    proof {
        assert(s@ =~= "tmux send -t "@ + name@ + " ENTER"@);
    }
    Cmd::new(s)
}

/// The command that sends an interrupt keystroke to a session.
pub fn send_ctrl_c_command(name: &String) -> (c: Cmd)
    ensures
        c.command@ == "tmux send-keys -t "@ + name@ + " C-c"@,
        c.working_dir is None,
        c.envs@ == Seq::<(String, String)>::empty(),
        c.output_mode == OutputMode::Piped,
{
    let mut s = String::new();
    s.append("tmux send-keys -t ");
    s.append(name.as_str());
    s.append(" C-c");
    proof {
        assert(s@ =~= "tmux send-keys -t "@ + name@ + " C-c"@);
    }
    Cmd::new(s)
}

/// `i..j` are the bounds of a full line of `s`: the line abuts the start of
/// the text or a newline, ends at the end of the text or at a newline, and
/// holds no newline itself. The text after the last newline counts as a
/// line, even when it is empty.
pub open spec fn is_line_at(s: Seq<u8>, i: int, j: int) -> bool {
    &&& 0 <= i <= j <= s.len()
    &&& (i == 0 || s[i - 1] == 10u8)
    &&& (j == s.len() || s[j] == 10u8)
    &&& forall|k: int| i <= k < j ==> s[k] != 10u8
}

/// Some full line of `s` equals `line`.
pub open spec fn has_line(s: Seq<u8>, line: Seq<u8>) -> bool {
    exists|i: int, j: int| is_line_at(s, i, j) && s.subrange(i, j) == line
}

/// Interpret a session listing: whether some full line of the listing that
/// the multiplexer's list command printed equals the session name.
pub fn is_session_open(listing: &Vec<u8>, session: &Vec<u8>) -> (r: bool)
    ensures
        r == has_line(listing@, session@),
{
    let n = listing.len();
    let mut start: usize = 0;
    loop
        invariant
            start <= n,
            n == listing@.len(),
            start == 0 || listing@[start - 1] == 10u8,
            forall|i: int, j: int|
                is_line_at(listing@, i, j) && i < start ==> listing@.subrange(i, j) != session@,
        decreases n - start,
    {
        let mut end: usize = start;
        while end < n && listing[end] != 10u8
            invariant
                start <= end <= n,
                n == listing@.len(),
                forall|k: int| start <= k < end ==> listing@[k] != 10u8,
            decreases n - end,
        {
            end = end + 1;
        }
        proof {
            // the line starting here can only end here
            assert forall|j: int| is_line_at(listing@, start as int, j) implies j == end by {
                if j < end {
                    assert(listing@[j] != 10u8);
                } else if j > end {
                    assert(end < n);
                    assert(listing@[end as int] != 10u8);
                }
            }
        }
        let matches_here = end - start == session.len() && crate::template::is_match_at(
            listing,
            session,
            start,
        );
        if matches_here {
            proof {
                assert(listing@.subrange(start as int, start + session@.len()) == session@);
                assert(is_line_at(listing@, start as int, end as int));
                assert(listing@.subrange(start as int, end as int) == session@);
            }
            return true;
        }
        proof {
            assert(listing@.subrange(start as int, end as int) != session@) by {
                if listing@.subrange(start as int, end as int) == session@ {
                    assert(session@.len() == end - start);
                    assert(crate::template::match_at(listing@, session@, start as int));
                }
            }
            // every line beginning at or before `end` has now been checked
            assert forall|i: int, j: int|
                is_line_at(listing@, i, j) && i <= end implies listing@.subrange(i, j)
                != session@ by {
                if i >= start {
                    assert(i == start) by {
                        if i > start {
                            assert(listing@[i - 1] == 10u8);
                            assert(listing@[i - 1] != 10u8);
                        }
                    }
                    assert(j == end);
                }
            }
        }
        if end == n {
            return false;
        }
        start = end + 1;
    }
}

/// One observable event at a session: injected text, a newline keystroke
/// (optionally carrying environment overrides), or an interrupt.
pub enum SessionEvent {
    /// Literal text injected into the session's input stream.
    Input { session: String, text: String },
    /// A newline keystroke, with the environment overrides its injection
    /// carried.
    Newline { session: String, envs: Vec<(String, String)> },
    /// An interrupt keystroke.
    Interrupt { session: String },
}

/// The failures of the session backend, each naming the session.
#[derive(Debug)]
pub enum SessionError {
    /// Creating the session failed: one with that name already exists.
    SessionSpawnError { session: String },
    /// Input was sent to a session that is not open.
    NoSuchSession { session: String },
    /// A precondition was violated: the session is already open.
    SessionAlreadyOpen { session: String },
    /// A precondition was violated: the session is not open.
    SessionNotOpen { session: String },
}

/// An in-memory session backend: the model of the multiplexer's observable
/// state, together with the files and external commands that lifecycle
/// operations touch. It stands in for the real multiplexer in tests and in
/// the verified statements about the lifecycle.
pub struct InMemoryBackend {
    open: Vec<String>,
    events: Vec<SessionEvent>,
    files: FileStore,
    commands: Vec<Cmd>,
    sleeps: Vec<u64>,
}

impl InMemoryBackend {
    /// The names of the sessions that are open.
    pub closed spec fn sessions(&self) -> Set<Seq<char>> {
        Set::new(
            |n: Seq<char>|
                exists|i: int| 0 <= i < self.open@.len() && (#[trigger] self.open@[i])@ == n,
        )
    }

    /// Everything injected into sessions, in order.
    pub closed spec fn event_log(&self) -> Seq<SessionEvent> {
        self.events@
    }

    /// The files, as a map from path to content.
    pub closed spec fn file_contents(&self) -> Map<Seq<char>, Seq<u8>> {
        self.files.contents()
    }

    /// The external commands that were run, in order.
    pub closed spec fn commands_run(&self) -> Seq<Cmd> {
        self.commands@
    }

    /// The sleeps that were taken, in order, in seconds.
    pub closed spec fn sleeps_taken(&self) -> Seq<u64> {
        self.sleeps@
    }

    /// Well-formedness: open session names are pairwise distinct, and the
    /// file store is well-formed.
    pub closed spec fn wf(&self) -> bool {
        &&& forall|i: int, j: int|
            0 <= i < j < self.open@.len() ==> (#[trigger] self.open@[i])@ != (
            #[trigger] self.open@[j])@
        &&& self.files.wf()
    }

    /// A backend with no open session, no events, no files, no commands and
    /// no sleeps.
    pub fn new() -> (b: InMemoryBackend)
        ensures
            b.wf(),
            b.sessions() == Set::<Seq<char>>::empty(),
            b.event_log() == Seq::<SessionEvent>::empty(),
            b.file_contents() == Map::<Seq<char>, Seq<u8>>::empty(),
            b.commands_run() == Seq::<Cmd>::empty(),
            b.sleeps_taken() == Seq::<u64>::empty(),
    {
        let b = InMemoryBackend {
            open: Vec::new(),
            events: Vec::new(),
            files: FileStore::new(),
            commands: Vec::new(),
            sleeps: Vec::new(),
        };
        proof {
            assert(b.sessions() =~= Set::<Seq<char>>::empty());
        }
        b
    }

    /// The position of an open session's name, if the session is open.
    fn find_session(&self, name: &String) -> (r: Option<usize>)
        ensures
            r matches Some(i) ==> i < self.open@.len() && self.open@[i as int]@ == name@,
            r is None ==> forall|j: int|
                0 <= j < self.open@.len() ==> (#[trigger] self.open@[j])@ != name@,
    {
        let mut k: usize = 0;
        while k < self.open.len()
            invariant
                k <= self.open@.len(),
                forall|j: int| 0 <= j < k ==> (#[trigger] self.open@[j])@ != name@,
            decreases self.open@.len() - k,
        {
            if self.open[k].eq(name) {
                return Some(k);
            }
            k = k + 1;
        }
        None
    }

    /// Whether a session with this name is currently open. The query itself
    /// never fails; it answers the question.
    pub fn is_session_open(&self, name: &String) -> (r: bool)
        ensures
            r == self.sessions().contains(name@),
    {
        match self.find_session(name) {
            Some(_) => true,
            None => false,
        }
    }

    /// Guard for operations that create the session: the session must not be
    /// open. The violation comes back as a typed error for the caller to act
    /// on; a closed session passes.
    pub fn ensure_session_not_open(&self, name: &String) -> (r: Result<(), SessionError>)
        ensures
            self.sessions().contains(name@) ==> (r matches Err(
                SessionError::SessionAlreadyOpen { session },
            ) && session@ == name@),
            !self.sessions().contains(name@) ==> r is Ok,
    {
        if self.is_session_open(name) {
            Err(SessionError::SessionAlreadyOpen { session: name.clone() })
        } else {
            Ok(())
        }
    }

    /// Guard for operations that need the session: the session must be open.
    /// The violation comes back as a typed error for the caller to act on;
    /// an open session passes.
    pub fn ensure_session_is_open(&self, name: &String) -> (r: Result<(), SessionError>)
        ensures
            !self.sessions().contains(name@) ==> (r matches Err(
                SessionError::SessionNotOpen { session },
            ) && session@ == name@),
            self.sessions().contains(name@) ==> r is Ok,
    {
        if self.is_session_open(name) {
            Ok(())
        } else {
            Err(SessionError::SessionNotOpen { session: name.clone() })
        }
    }

    /// Create a new detached session: create-if-absent, with the collision
    /// as the only source of truth. On success the session is open; a name
    /// collision fails and changes nothing.
    pub fn start_session(&mut self, name: &String, _cwd: &String) -> (r: Result<(), SessionError>)
        requires
            old(self).wf(),
        ensures
            final(self).wf(),
            final(self).event_log() == old(self).event_log(),
            final(self).file_contents() == old(self).file_contents(),
            final(self).commands_run() == old(self).commands_run(),
            final(self).sleeps_taken() == old(self).sleeps_taken(),
            old(self).sessions().contains(name@) ==> (r matches Err(
                SessionError::SessionSpawnError { session },
            ) && session@ == name@ && *final(self) == *old(self)),
            !old(self).sessions().contains(name@) ==> (r is Ok && final(self).sessions()
                == old(self).sessions().insert(name@)),
    {
        if self.is_session_open(name) {
            return Err(SessionError::SessionSpawnError { session: name.clone() });
        }
        let ghost before = *self;
        self.open.push(name.clone());
        proof {
            assert(self.sessions() =~= before.sessions().insert(name@)) by {
                assert forall|n: Seq<char>| self.sessions().contains(n) implies before.sessions()
                    .insert(name@).contains(n) by {
                    let i = choose|i: int|
                        0 <= i < self.open@.len() && (#[trigger] self.open@[i])@ == n;
                    if i < before.open@.len() {
                        assert(before.open@[i]@ == n);
                    }
                }
                assert forall|n: Seq<char>| before.sessions().insert(name@).contains(
                    n,
                ) implies self.sessions().contains(n) by {
                    if n == name@ {
                        assert(self.open@[before.open@.len() as int]@ == n);
                    } else {
                        let i = choose|i: int|
                            0 <= i < before.open@.len() && (#[trigger] before.open@[i])@ == n;
                        assert(self.open@[i]@ == n);
                    }
                }
            }
        }
        Ok(())
    }

    /// Inject literal text into a session's input stream, without a newline.
    /// Fails, changing nothing, exactly when the session is not open.
    pub fn send_input(&mut self, name: &String, input: &String) -> (r: Result<(), SessionError>)
        requires
            old(self).wf(),
        ensures
            final(self).wf(),
            final(self).sessions() == old(self).sessions(),
            final(self).file_contents() == old(self).file_contents(),
            final(self).commands_run() == old(self).commands_run(),
            final(self).sleeps_taken() == old(self).sleeps_taken(),
            !old(self).sessions().contains(name@) ==> (r matches Err(
                SessionError::NoSuchSession { session },
            ) && session@ == name@ && *final(self) == *old(self)),
            old(self).sessions().contains(name@) ==> (r is Ok && final(self).event_log()
                == old(self).event_log().push(
                SessionEvent::Input { session: *name, text: *input },
            )),
    {
        if !self.is_session_open(name) {
            return Err(SessionError::NoSuchSession { session: name.clone() });
        }
        self.events.push(SessionEvent::Input { session: name.clone(), text: input.clone() });
        Ok(())
    }

    /// Inject text followed by a newline keystroke carrying environment
    /// overrides: the two injections are separate events, as they are
    /// separate commands at the multiplexer. Fails, changing nothing,
    /// exactly when the session is not open.
    pub fn send_input_newline_with_env(
        &mut self,
        name: &String,
        input: &String,
        envs: Vec<(String, String)>,
    ) -> (r: Result<(), SessionError>)
        requires
            old(self).wf(),
        ensures
            final(self).wf(),
            final(self).sessions() == old(self).sessions(),
            final(self).file_contents() == old(self).file_contents(),
            final(self).commands_run() == old(self).commands_run(),
            final(self).sleeps_taken() == old(self).sleeps_taken(),
            !old(self).sessions().contains(name@) ==> (r matches Err(
                SessionError::NoSuchSession { session },
            ) && session@ == name@ && *final(self) == *old(self)),
            old(self).sessions().contains(name@) ==> (r is Ok && final(self).event_log()
                == old(self).event_log().push(
                SessionEvent::Input { session: *name, text: *input },
            ).push(SessionEvent::Newline { session: *name, envs })),
    {
        if !self.is_session_open(name) {
            return Err(SessionError::NoSuchSession { session: name.clone() });
        }
        self.events.push(SessionEvent::Input { session: name.clone(), text: input.clone() });
        self.events.push(SessionEvent::Newline { session: name.clone(), envs });
        Ok(())
    }

    /// Inject text followed by a newline keystroke. Fails, changing nothing,
    /// exactly when the session is not open.
    pub fn send_input_newline(&mut self, name: &String, input: &String) -> (r: Result<
        (),
        SessionError,
    >)
        requires
            old(self).wf(),
        ensures
            final(self).wf(),
            final(self).sessions() == old(self).sessions(),
            final(self).file_contents() == old(self).file_contents(),
            final(self).commands_run() == old(self).commands_run(),
            final(self).sleeps_taken() == old(self).sleeps_taken(),
            !old(self).sessions().contains(name@) ==> (r matches Err(
                SessionError::NoSuchSession { session },
            ) && session@ == name@ && *final(self) == *old(self)),
            old(self).sessions().contains(name@) ==> (r is Ok && input_and_newline_logged(
                old(self).event_log(),
                final(self).event_log(),
                name@,
                input@,
            )),
    {
        let r = self.send_input_newline_with_env(name, input, Vec::new());
        proof {
            if old(self).sessions().contains(name@) {
                assert(self.event_log().subrange(0, old(self).event_log().len() as int)
                    =~= old(self).event_log());
            }
        }
        r
    }

    /// Send an interrupt keystroke to a session, requesting a graceful stop
    /// of the process inside it. Fails, changing nothing, exactly when the
    /// session is not open.
    pub fn send_ctrl_c(&mut self, name: &String) -> (r: Result<(), SessionError>)
        requires
            old(self).wf(),
        ensures
            final(self).wf(),
            final(self).sessions() == old(self).sessions(),
            final(self).file_contents() == old(self).file_contents(),
            final(self).commands_run() == old(self).commands_run(),
            final(self).sleeps_taken() == old(self).sleeps_taken(),
            !old(self).sessions().contains(name@) ==> (r matches Err(
                SessionError::NoSuchSession { session },
            ) && session@ == name@ && *final(self) == *old(self)),
            old(self).sessions().contains(name@) ==> (r is Ok && final(self).event_log()
                == old(self).event_log().push(SessionEvent::Interrupt { session: *name })),
    {
        if !self.is_session_open(name) {
            return Err(SessionError::NoSuchSession { session: name.clone() });
        }
        self.events.push(SessionEvent::Interrupt { session: name.clone() });
        Ok(())
    }

    /// Exit the shell inside a session: `exit` and a newline are injected and
    /// the session closes. Fails, changing nothing, exactly when the session
    /// is not open.
    pub fn exit_session(&mut self, name: &String) -> (r: Result<(), SessionError>)
        requires
            old(self).wf(),
        ensures
            final(self).wf(),
            final(self).file_contents() == old(self).file_contents(),
            final(self).commands_run() == old(self).commands_run(),
            final(self).sleeps_taken() == old(self).sleeps_taken(),
            !old(self).sessions().contains(name@) ==> (r matches Err(
                SessionError::NoSuchSession { session },
            ) && session@ == name@ && *final(self) == *old(self)),
            old(self).sessions().contains(name@) ==> (r is Ok && final(self).sessions()
                == old(self).sessions().remove(name@) && input_and_newline_logged(
                old(self).event_log(),
                final(self).event_log(),
                name@,
                "exit"@,
            )),
    {
        let i = match self.find_session(name) {
            Some(i) => i,
            None => {
                return Err(SessionError::NoSuchSession { session: name.clone() });
            },
        };
        let ghost before = *self;
        self.events.push(
            SessionEvent::Input { session: name.clone(), text: String::from_str("exit") },
        );
        self.events.push(SessionEvent::Newline { session: name.clone(), envs: Vec::new() });
        self.open.remove(i);
        proof {
            assert(self.event_log().subrange(0, before.event_log().len() as int)
                =~= before.event_log());
            assert(self.sessions() =~= before.sessions().remove(name@)) by {
                assert forall|n: Seq<char>| self.sessions().contains(n) implies before.sessions()
                    .remove(name@).contains(n) by {
                    let j = choose|j: int|
                        0 <= j < self.open@.len() && (#[trigger] self.open@[j])@ == n;
                    if j < i {
                        assert(before.open@[j]@ == n);
                        assert(n != name@);
                    } else {
                        assert(before.open@[j + 1]@ == n);
                        assert(n != name@);
                    }
                }
                assert forall|n: Seq<char>| before.sessions().remove(name@).contains(
                    n,
                ) implies self.sessions().contains(n) by {
                    let j = choose|j: int|
                        0 <= j < before.open@.len() && (#[trigger] before.open@[j])@ == n;
                    assert(j != i);
                    if j < i {
                        assert(self.open@[j]@ == n);
                    } else {
                        assert(self.open@[j - 1]@ == n);
                    }
                }
            }
        }
        Ok(())
    }

    /// Record that an external command was run. The model assumes the happy
    /// path; a real executor stops at the first failing command.
    pub fn run_command(&mut self, cmd: Cmd)
        requires
            old(self).wf(),
        ensures
            final(self).wf(),
            final(self).commands_run() == old(self).commands_run().push(cmd),
            final(self).sessions() == old(self).sessions(),
            final(self).event_log() == old(self).event_log(),
            final(self).file_contents() == old(self).file_contents(),
            final(self).sleeps_taken() == old(self).sleeps_taken(),
    {
        self.commands.push(cmd);
    }

    /// Record a fixed settle delay of the given number of seconds.
    pub fn sleep_seconds(&mut self, seconds: u64)
        requires
            old(self).wf(),
        ensures
            final(self).wf(),
            final(self).sleeps_taken() == old(self).sleeps_taken().push(seconds),
            final(self).sessions() == old(self).sessions(),
            final(self).event_log() == old(self).event_log(),
            final(self).file_contents() == old(self).file_contents(),
            final(self).commands_run() == old(self).commands_run(),
    {
        self.sleeps.push(seconds);
    }

    /// Write `data` to `path` in the model's files.
    pub fn write_file(&mut self, path: &String, data: Vec<u8>)
        requires
            old(self).wf(),
        ensures
            final(self).wf(),
            final(self).file_contents() == old(self).file_contents().insert(path@, data@),
            final(self).sessions() == old(self).sessions(),
            final(self).event_log() == old(self).event_log(),
            final(self).commands_run() == old(self).commands_run(),
            final(self).sleeps_taken() == old(self).sleeps_taken(),
    {
        self.files.write_file(path, data);
    }

    /// Remove the file at `path` in the model's files, if one exists.
    pub fn remove_file(&mut self, path: &String)
        requires
            old(self).wf(),
        ensures
            final(self).wf(),
            final(self).file_contents() == old(self).file_contents().remove(path@),
            final(self).sessions() == old(self).sessions(),
            final(self).event_log() == old(self).event_log(),
            final(self).commands_run() == old(self).commands_run(),
            final(self).sleeps_taken() == old(self).sleeps_taken(),
    {
        self.files.remove_file(path);
    }

    /// Copy the file at `source` to `dest` in the model's files. Fails,
    /// changing nothing, exactly when there is no file at `source`.
    pub fn copy_file(&mut self, source: &String, dest: &String) -> (r: Result<(), DeployError>)
        requires
            old(self).wf(),
        ensures
            final(self).wf(),
            final(self).sessions() == old(self).sessions(),
            final(self).event_log() == old(self).event_log(),
            final(self).commands_run() == old(self).commands_run(),
            final(self).sleeps_taken() == old(self).sleeps_taken(),
            old(self).file_contents().contains_key(source@) ==> (r is Ok
                && final(self).file_contents() == old(self).file_contents().insert(
                dest@,
                old(self).file_contents()[source@],
            )),
            !old(self).file_contents().contains_key(source@) ==> (r matches Err(
                DeployError::SourceNotFound { path },
            ) && path@ == source@ && final(self).file_contents() == old(self).file_contents()),
    {
        let data: Vec<u8> = match self.files.read_file(source) {
            Some(content) => {
                let mut copy: Vec<u8> = Vec::new();
                crate::template::push_all(&mut copy, content);
                copy
            },
            None => {
                return Err(DeployError::SourceNotFound { path: source.clone() });
            },
        };
        self.files.write_file(dest, data);
        Ok(())
    }

    /// Deploy a configuration template in the model's files: substitute the
    /// secrets into the template at `src` and write the result to `dest`,
    /// replacing any file already there. Fails, changing nothing, exactly
    /// when there is no file at `src`.
    pub fn copy_secret_file(
        &mut self,
        src: &String,
        dest: &String,
        secrets: &Vec<(Vec<u8>, Vec<u8>)>,
    ) -> (r: Result<(), DeployError>)
        requires
            old(self).wf(),
        ensures
            final(self).wf(),
            final(self).sessions() == old(self).sessions(),
            final(self).event_log() == old(self).event_log(),
            final(self).commands_run() == old(self).commands_run(),
            final(self).sleeps_taken() == old(self).sleeps_taken(),
            old(self).file_contents().contains_key(src@) ==> (r is Ok
                && final(self).file_contents() == old(self).file_contents().insert(
                dest@,
                substitute_seq(old(self).file_contents()[src@], secrets_view(secrets@)),
            )),
            !old(self).file_contents().contains_key(src@) ==> (r matches Err(
                DeployError::SourceNotFound { path },
            ) && path@ == src@ && final(self).file_contents() == old(self).file_contents()),
    {
        self.files.copy_secret_file(src, dest, secrets)
    }

    /// The event log, for inspection.
    pub fn events(&self) -> (r: &Vec<SessionEvent>)
        ensures
            r@ == self.event_log(),
    {
        &self.events
    }

    /// The external commands that were run, for inspection.
    pub fn commands(&self) -> (r: &Vec<Cmd>)
        ensures
            r@ == self.commands_run(),
    {
        &self.commands
    }

    /// The sleeps that were taken, for inspection.
    pub fn sleeps(&self) -> (r: &Vec<u64>)
        ensures
            r@ == self.sleeps_taken(),
    {
        &self.sleeps
    }

    /// The content of the file at a path, if one exists.
    pub fn read_file(&self, path: &String) -> (r: Option<&Vec<u8>>)
        requires
            self.wf(),
        ensures
            r matches Some(v) ==> self.file_contents().contains_key(path@) && v@
                == self.file_contents()[path@],
            r is None ==> !self.file_contents().contains_key(path@),
    {
        self.files.read_file(path)
    }
}

/// The log grew by exactly an input event with the given text and a newline
/// keystroke without environment overrides, in that order.
pub open spec fn input_and_newline_logged(
    before: Seq<SessionEvent>,
    after: Seq<SessionEvent>,
    session: Seq<char>,
    text: Seq<char>,
) -> bool {
    &&& after.len() == before.len() + 2
    &&& after.subrange(0, before.len() as int) == before
    &&& (after[before.len() as int] matches SessionEvent::Input { session: s, text: t } && s@
        == session && t@ == text)
    &&& (after.last() matches SessionEvent::Newline { session: s, envs } && s@ == session && envs@
        == Seq::<(String, String)>::empty())
}

} // verus!
