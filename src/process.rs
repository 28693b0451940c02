use vstd::prelude::*;

use crate::command::{env_overrides, has_word, views, words, Command};
use crate::error::{CommandError, ErrorKind};

verus! {

/// Where a managed process stands in its lifecycle.
#[derive(Clone, Copy, Debug, PartialEq, Eq, Structural)]
pub enum ProcessState {
    /// No operating-system process is held.
    Idle,
    /// A child process was started and is held.
    Running,
    /// The held child was seen to terminate, with this exit code.
    Exited(i32),
}

/// The exit code reported for a terminated process: the one the system gave, or 0 where it
/// gave none (for instance when a signal killed it).
pub open spec fn code_or_zero(code: Option<i32>) -> i32 {
    match code {
        Some(c) => c,
        None => 0,
    }
}

/// The state after `cancel`.
pub open spec fn after_cancel(s: ProcessState) -> ProcessState {
    ProcessState::Idle
}

/// The state after `spawn`, given whether the command line has a program and whether the
/// system started it.
pub open spec fn after_spawn(s: ProcessState, has_program: bool, launched: bool) -> ProcessState {
    if has_program && launched {
        ProcessState::Running
    } else {
        s
    }
}

/// The state after `reset`: a cancel, then a spawn.
pub open spec fn after_reset(s: ProcessState, has_program: bool, launched: bool) -> ProcessState {
    after_spawn(after_cancel(s), has_program, launched)
}

/// The state after `block`, given whether the wait (or the single run) succeeded.
pub open spec fn after_block(s: ProcessState, waited: bool) -> ProcessState {
    match s {
        ProcessState::Running => if waited {
            ProcessState::Idle
        } else {
            s
        },
        _ => ProcessState::Idle,
    }
}

/// The state after `check`, given what the non-blocking poll reported.
pub open spec fn after_check(s: ProcessState, polled: &Result<Option<Option<i32>>, String>) -> ProcessState {
    match (s, polled) {
        (ProcessState::Running, Ok(Some(c))) => ProcessState::Exited(code_or_zero(*c)),
        _ => s,
    }
}

/// The result of `check` where it succeeds: the exit code once the child is seen to exit.
pub open spec fn check_result(s: ProcessState, polled: &Result<Option<Option<i32>>, String>) -> Result<Option<i32>, CommandError> {
    match s {
        ProcessState::Idle => Ok(None),
        ProcessState::Exited(c) => Ok(Some(c)),
        ProcessState::Running => match polled {
            Ok(Some(c)) => Ok(Some(code_or_zero(*c))),
            _ => Ok(None),
        },
    }
}

/// Whether `block` on a process `p`, with `outcome` reported by the system, gives exit
/// code 0.
pub open spec fn block_succeeds(p: ProcessView, outcome: Result<Option<i32>, String>) -> bool {
    match p.state {
        ProcessState::Exited(c) => c == 0,
        ProcessState::Running => outcome matches Ok(c) && code_or_zero(c) == 0,
        ProcessState::Idle => p.has_program() && (outcome matches Ok(c) && code_or_zero(c) == 0),
    }
}

/// Turns what the system reported for a wait into an exit code or an execution error.
pub fn exit_code(outcome: &Result<Option<i32>, String>) -> (r: Result<i32, CommandError>)
    ensures
        match outcome {
            Ok(c) => r == Ok::<i32, CommandError>(code_or_zero(*c)),
            Err(m) => r matches Err(e) && e.kind == ErrorKind::Execution && e.msg@ == m@,
        },
{
    match outcome {
        Ok(Some(c)) => Ok(*c),
        Ok(None) => Ok(0),
        Err(m) => Err(CommandError::new(ErrorKind::Execution, m.clone())),
    }
}

/// A command together with the lifecycle of at most one child process that runs it.
///
/// The library keeps the lifecycle; the caller holds the operating-system handle and hands
/// in what the system reported for each operation that needs it.
pub struct CancelableProcess {
    cmd: String,
    env: Option<Vec<String>>,
    state: ProcessState,
}

/// The mathematical content of a [`CancelableProcess`].
pub struct ProcessView {
    pub cmd: Seq<char>,
    pub env: Option<Seq<Seq<char>>>,
    pub state: ProcessState,
}

impl ProcessView {
    /// The command line has a program to run.
    pub open spec fn has_program(&self) -> bool {
        has_word(self.cmd)
    }

    /// Same command and environment as `other`.
    pub open spec fn same_command(&self, other: ProcessView) -> bool {
        self.cmd == other.cmd && self.env == other.env
    }
}

impl View for CancelableProcess {
    type V = ProcessView;

    closed spec fn view(&self) -> ProcessView {
        ProcessView {
            cmd: self.cmd@,
            env: match self.env {
                Some(v) => Some(views(v@)),
                None => None,
            },
            state: self.state,
        }
    }
}

impl CancelableProcess {
    /// A process for the command line `cmd` with the environment settings `env`; nothing is
    /// started yet.
    pub fn new(cmd: &str, env: Option<Vec<String>>) -> (r: CancelableProcess)
        ensures
            r@.cmd == cmd@,
            r@.env == (match env {
                Some(v) => Some(views(v@)),
                None => None::<Seq<Seq<char>>>,
            }),
            r@.state == ProcessState::Idle,
    {
        CancelableProcess { cmd: cmd.to_owned(), env, state: ProcessState::Idle }
    }

    /// Where the process stands.
    pub fn state(&self) -> (r: ProcessState)
        ensures
            r == self@.state,
    {
        self.state
    }

    /// The command to hand to the system: the first word of the command line is the
    /// program, the others are its arguments, and the settings give its environment.
    pub fn command(&self) -> (r: Result<Command, CommandError>)
        ensures
            r is Ok <==> self@.has_program(),
            r matches Err(e) ==> e.kind == ErrorKind::Config,
            r matches Ok(c) ==> {
                &&& c@.program == words(self@.cmd)[0]
                &&& c@.args == words(self@.cmd).skip(1)
                &&& c@.env == env_overrides(self@.env)
            },
    {
        Command::parse(self.cmd.as_str(), &self.env)
    }

    /// Records a start of the command. `launched` is what the system reported when asked to
    /// start [`Self::command`]; it is not looked at when the command line has no program.
    pub fn spawn(&mut self, launched: &Result<(), String>) -> (r: Result<(), CommandError>)
        requires
            !(old(self)@.state is Running),
        ensures
            final(self)@.same_command(old(self)@),
            r is Ok <==> old(self)@.has_program() && launched is Ok,
            r matches Err(e) ==> e.kind == ErrorKind::Spawn,
            final(self)@.state == after_spawn(
                old(self)@.state,
                old(self)@.has_program(),
                launched is Ok,
            ),
    {
        match self.command() {
            Err(e) => Err(CommandError::new(ErrorKind::Spawn, e.msg)),
            Ok(_) => match launched {
                Ok(()) => {
                    self.state = ProcessState::Running;
                    Ok(())
                },
                Err(m) => Err(CommandError::new(ErrorKind::Spawn, m.clone())),
            },
        }
    }

    /// Records the end of a wait. Where a child runs, `outcome` is what waiting on it
    /// reported; where none is held, what running the command once to completion reported.
    /// A child already seen to exit gives its recorded code without a further wait.
    pub fn block(&mut self, outcome: &Result<Option<i32>, String>) -> (r: Result<i32, CommandError>)
        ensures
            final(self)@.same_command(old(self)@),
            final(self)@.state == after_block(old(self)@.state, outcome is Ok),
            match old(self)@.state {
                ProcessState::Exited(c) => r == Ok::<i32, CommandError>(c),
                ProcessState::Running => match outcome {
                    Ok(c) => r == Ok::<i32, CommandError>(code_or_zero(*c)),
                    Err(_) => r matches Err(e) && e.kind == ErrorKind::Execution,
                },
                ProcessState::Idle => if !old(self)@.has_program() {
                    r matches Err(e) && e.kind == ErrorKind::Execution
                } else {
                    match outcome {
                        Ok(c) => r == Ok::<i32, CommandError>(code_or_zero(*c)),
                        Err(_) => r matches Err(e) && e.kind == ErrorKind::Execution,
                    }
                },
            },
    {
        match self.state {
            ProcessState::Exited(c) => {
                self.state = ProcessState::Idle;
                Ok(c)
            },
            ProcessState::Running => {
                let r = exit_code(outcome);
                if r.is_ok() {
                    self.state = ProcessState::Idle;
                }
                r
            },
            ProcessState::Idle => match self.command() {
                Err(e) => Err(CommandError::new(ErrorKind::Execution, e.msg)),
                Ok(_) => exit_code(outcome),
            },
        }
    }

    /// Runs [`Self::block`] and tells whether the command exited with code 0; an error
    /// counts as failure.
    pub fn is_success(&mut self, outcome: &Result<Option<i32>, String>) -> (r: bool)
        ensures
            final(self)@.same_command(old(self)@),
            final(self)@.state == after_block(old(self)@.state, outcome is Ok),
            r == block_succeeds(old(self)@, *outcome),
    {
        match self.block(outcome) {
            Ok(code) => code == 0,
            Err(_) => false,
        }
    }

    /// Records a poll that does not wait. `polled` is what the system reported when asked,
    /// without waiting, whether the held child has exited: `Some(code)` once it has. It is
    /// not looked at when no child runs.
    pub fn check(&mut self, polled: &Result<Option<Option<i32>>, String>) -> (r: Result<
        Option<i32>,
        CommandError,
    >)
        ensures
            final(self)@.same_command(old(self)@),
            final(self)@.state == after_check(old(self)@.state, polled),
            old(self)@.state is Running && polled is Err ==> (r matches Err(e) && e.kind
                == ErrorKind::Execution),
            !(old(self)@.state is Running && polled is Err) ==> r == check_result(
                old(self)@.state,
                polled,
            ),
    {
        match self.state {
            ProcessState::Idle => Ok(None),
            ProcessState::Exited(c) => Ok(Some(c)),
            ProcessState::Running => match polled {
                Ok(Some(c)) => {
                    let code = match c {
                        Some(v) => *v,
                        None => 0,
                    };
                    self.state = ProcessState::Exited(code);
                    Ok(Some(code))
                },
                Ok(None) => Ok(None),
                Err(m) => Err(CommandError::new(ErrorKind::Execution, m.clone())),
            },
        }
    }

    /// Lets go of the child, if any. Returns true when a child may still be alive and must be
    /// sent a termination request; whether that request succeeds does not matter here.
    pub fn cancel(&mut self) -> (kill: bool)
        ensures
            final(self)@.same_command(old(self)@),
            final(self)@.state == after_cancel(old(self)@.state),
            kill == (old(self)@.state is Running),
            old(self)@.state is Idle ==> final(self)@ == old(self)@ && !kill,
    {
        let kill = match self.state {
            ProcessState::Running => true,
            _ => false,
        };
        self.state = ProcessState::Idle;
        kill
    }

    /// Records a restart: a cancel, then a spawn. `launched` is what the system reported
    /// when asked to start [`Self::command`] after the old child, if one ran, was sent a
    /// termination request. Returns whether such a request is owed (exactly when a child
    /// was running), and the outcome of the spawn; a failed termination is never an error.
    pub fn reset(&mut self, launched: &Result<(), String>) -> (r: (bool, Result<(), CommandError>))
        ensures
            final(self)@.same_command(old(self)@),
            r.0 == (old(self)@.state is Running),
            r.1 is Ok <==> old(self)@.has_program() && launched is Ok,
            r.1 matches Err(e) ==> e.kind == ErrorKind::Spawn,
            final(self)@.state == after_reset(
                old(self)@.state,
                old(self)@.has_program(),
                launched is Ok,
            ),
    {
        let kill = self.cancel();
        let spawned = self.spawn(launched);
        (kill, spawned)
    }
}

/// After a cancel, a reset whose start succeeds always leaves the process running, whatever
/// state it was in; and a cancel of an idle process leaves it idle.
pub proof fn lemma_reset_after_cancel(s: ProcessState, has_program: bool)
    ensures
        has_program ==> after_reset(after_cancel(s), has_program, true) == ProcessState::Running,
        s is Idle ==> after_cancel(s) == s,
{
}

} // verus!
