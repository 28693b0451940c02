use vstd::prelude::*;

use crate::command::views;
use crate::config::{all_globs_valid, check_globs, excluded_by, is_excluded, str_views};
use crate::error::{CommandError, ErrorKind};
use crate::events::{classify, event_kind, event_path, fires, get_file, is_fireable, RawEvent, WatchEventType};
use crate::process::{after_block, block_succeeds, CancelableProcess, ProcessState, ProcessView};

verus! {

/// What the exclude patterns of a watch stand for.
pub open spec fn exclude_views(exclude: Option<Vec<&str>>) -> Seq<Seq<char>> {
    match exclude {
        Some(v) => str_views(v@),
        None => Seq::empty(),
    }
}

/// How an event counts once the exclude patterns are applied: an event about an excluded
/// path is ignored, whatever its kind.
pub open spec fn filtered_kind(excludes: Seq<Seq<char>>, e: RawEvent) -> WatchEventType {
    match event_path(e) {
        Some(p) => if excluded_by(excludes, p) {
            WatchEventType::Ignore
        } else {
            event_kind(e)
        },
        None => event_kind(e),
    }
}

/// Whether every watched path exists, by the answers in `exists`.
pub open spec fn all_exist(exists: Seq<bool>) -> bool {
    forall|i: int| 0 <= i < exists.len() ==> #[trigger] exists[i]
}

/// `k` is the first watched path that does not exist, by the answers in `exists`.
pub open spec fn first_missing(exists: Seq<bool>, k: int) -> bool {
    &&& 0 <= k < exists.len()
    &&& !exists[k]
    &&& forall|j: int| 0 <= j < k ==> #[trigger] exists[j]
}

/// The message of the error for a watched path that does not exist.
pub open spec fn missing_path_message(path: Seq<char>) -> Seq<char> {
    "No such path! "@ + path
}

/// A trigger that fires when watched files or directories change.
pub struct FileProcess<'a> {
    /// The command line to run and restart.
    pub cmd: &'a str,
    /// Environment settings `name=value` for the command.
    pub env: Option<Vec<String>>,
    /// The paths to watch, recursively.
    pub files: Vec<&'a str>,
    /// Glob patterns of paths whose events are dropped.
    pub exclude: Option<Vec<&'a str>>,
    /// `Touched` to fire on metadata changes too; `Changed` otherwise.
    pub method: WatchEventType,
    /// The debounce window, in milliseconds.
    pub poll: Option<u64>,
}

impl<'a> FileProcess<'a> {
    pub fn new(
        cmd: &'a str,
        env: Option<Vec<String>>,
        file: Vec<&'a str>,
        exclude: Option<Vec<&'a str>>,
        method: WatchEventType,
        poll: Option<u64>,
    ) -> (r: FileProcess<'a>)
        ensures
            r.cmd == cmd,
            r.env == env,
            r.files == file,
            r.exclude == exclude,
            r.method == method,
            r.poll == poll,
    {
        FileProcess { cmd, env, method, poll, exclude, files: file }
    }

    /// Checks the watch before it starts. `exists` tells, for each watched path in order,
    /// whether it exists. A missing path is a path error; failing that, a malformed exclude
    /// pattern is a configuration error.
    pub fn validate(&self, exists: &Vec<bool>) -> (r: Result<(), CommandError>)
        requires
            exists@.len() == self.files@.len(),
        ensures
            r is Ok <==> all_exist(exists@) && all_globs_valid(exclude_views(self.exclude)),
            r matches Err(e) ==> (if all_exist(exists@) {
                e.kind == ErrorKind::Config
            } else {
                e.kind == ErrorKind::Path
            }),
            forall|k: int|
                #[trigger] first_missing(exists@, k) ==> (r matches Err(e) && e.msg@
                    == missing_path_message(self.files@[k]@)),
    {
        let mut i: usize = 0;
        while i < exists.len()
            invariant
                i <= exists@.len(),
                exists@.len() == self.files@.len(),
                forall|k: int| 0 <= k < i ==> #[trigger] exists@[k],
            decreases exists@.len() - i,
        {
            if !exists[i] {
                let mut msg = "No such path! ".to_owned();
                msg.append(self.files[i]);
                proof {
                    assert forall|k: int| #[trigger] first_missing(exists@, k) implies k == i by {
                        if k > i {
                            assert(exists@[i as int]);
                        }
                    }
                }
                return Err(CommandError::new(ErrorKind::Path, msg));
            }
            i = i + 1;
        }
        match &self.exclude {
            Some(patterns) => check_globs(patterns),
            None => Ok(()),
        }
    }

    /// How `evt` counts once the exclude patterns are applied.
    pub fn classify_event(&self, evt: &RawEvent) -> (r: WatchEventType)
        ensures
            r == filtered_kind(exclude_views(self.exclude), *evt),
    {
        match get_file(evt) {
            Some(path) => {
                let excluded = match &self.exclude {
                    Some(patterns) => is_excluded(patterns, path.as_str()),
                    None => false,
                };
                if excluded {
                    WatchEventType::Ignore
                } else {
                    classify(evt)
                }
            },
            None => classify(evt),
        }
    }

    /// Tells whether `evt` is to be passed on as a fireable signal.
    pub fn should_signal(&self, evt: &RawEvent) -> (r: bool)
        ensures
            r == fires(filtered_kind(exclude_views(self.exclude), *evt), self.method),
            event_path(*evt) matches Some(p) && excluded_by(exclude_views(self.exclude), p) ==> !r,
            self.method == WatchEventType::Changed && filtered_kind(
                exclude_views(self.exclude),
                *evt,
            ) == WatchEventType::Touched ==> !r,
    {
        let kind = self.classify_event(evt);
        is_fireable(kind, self.method)
    }
}

/// Whether a timer that has run `runs` times runs again, under the bound `max`.
pub open spec fn timer_fires(max: Option<u32>, runs: u32) -> bool {
    match max {
        Some(n) => runs < n,
        None => true,
    }
}

/// The count of runs once the timer has decided; only a bounded timer counts.
pub open spec fn timer_count_after(max: Option<u32>, runs: u32) -> u32 {
    match max {
        Some(n) => if runs < n {
            (runs + 1) as u32
        } else {
            runs
        },
        None => runs,
    }
}

/// How many of `steps` consecutive decisions of a timer run the command, starting from
/// `runs` runs.
pub open spec fn timer_run_count(max: Option<u32>, runs: u32, steps: nat) -> nat
    decreases steps,
{
    if steps == 0 {
        0
    } else {
        (if timer_fires(max, runs) {
            1nat
        } else {
            0nat
        }) + timer_run_count(max, timer_count_after(max, runs), (steps - 1) as nat)
    }
}

/// A trigger that runs the command to completion at a fixed period, optionally a bounded
/// number of times.
pub struct TimerProcess {
    /// The command to run.
    pub cmd: CancelableProcess,
    /// The period, in milliseconds.
    pub poll_duration: u64,
    /// How many runs to make before finishing; none to run forever.
    pub max_repeat: Option<u32>,
    /// How many runs were made so far (counted only under a bound).
    pub runs: u32,
}

impl TimerProcess {
    pub fn new(cmd: &str, env: Option<Vec<String>>, poll_duration: u64, max_repeat: Option<u32>) -> (r:
        TimerProcess)
        ensures
            r.cmd@.cmd == cmd@,
            r.cmd@.env == (match env {
                Some(v) => Some(views(v@)),
                None => None::<Seq<Seq<char>>>,
            }),
            r.cmd@.state == ProcessState::Idle,
            r.poll_duration == poll_duration,
            r.max_repeat == max_repeat,
            r.runs == 0,
    {
        let cmd = CancelableProcess::new(cmd, env);
        TimerProcess { cmd, poll_duration, max_repeat, runs: 0 }
    }

    /// Decides the next tick: true to run the command once more, false once the bound is
    /// reached and the timer finishes with success.
    pub fn next_run(&mut self) -> (r: bool)
        ensures
            r == timer_fires(old(self).max_repeat, old(self).runs),
            final(self).runs == timer_count_after(old(self).max_repeat, old(self).runs),
            final(self).cmd == old(self).cmd,
            final(self).poll_duration == old(self).poll_duration,
            final(self).max_repeat == old(self).max_repeat,
    {
        match self.max_repeat {
            Some(n) => if self.runs < n {
                self.runs = self.runs + 1;
                true
            } else {
                false
            },
            None => true,
        }
    }
}

proof fn lemma_bounded_timer_from(n: u32, runs: u32, steps: nat)
    requires
        runs <= n,
    ensures
        timer_run_count(Some(n), runs, steps) == if steps <= n - runs {
            steps as int
        } else {
            n - runs
        },
    decreases steps,
{
    if steps > 0 {
        lemma_bounded_timer_from(n, timer_count_after(Some(n), runs), (steps - 1) as nat);
    }
}

/// A timer bounded by `n` runs the command exactly `n` times over any number of ticks past
/// `n`, one per tick until then, and then stops for good.
pub proof fn lemma_bounded_timer_runs_n_times(n: u32, steps: nat)
    ensures
        timer_run_count(Some(n), 0, steps) == if steps <= n {
            steps as int
        } else {
            n as int
        },
        !timer_fires(Some(n), n),
        timer_count_after(Some(n), n) == n,
{
    lemma_bounded_timer_from(n, 0, steps);
}

/// An unbounded timer runs the command on every tick.
pub proof fn lemma_unbounded_timer_always_runs(runs: u32, steps: nat)
    ensures
        timer_run_count(None, runs, steps) == steps,
    decreases steps,
{
    if steps > 0 {
        lemma_unbounded_timer_always_runs(runs, (steps - 1) as nat);
    }
}

/// Whether a poll of the test command, which `outcome` reports, fires the target command.
pub open spec fn poll_fires(test: ProcessView, outcome: Result<Option<i32>, String>, negate: bool) -> bool {
    block_succeeds(test, outcome) != negate
}

/// A trigger that polls a test command and runs the target command once each time the
/// test's success matches the condition.
pub struct ExecProcess {
    /// The test command, run to completion on each poll.
    pub test_cmd: CancelableProcess,
    /// Fire on failure of the test rather than on success.
    pub negate: bool,
    /// The target command, run to completion on each firing.
    pub cmd: CancelableProcess,
    /// The polling period, in milliseconds.
    pub poll: u64,
}

impl ExecProcess {
    pub fn new(test_cmd: &str, cmd: &str, negate: bool, env: Option<Vec<String>>, poll: u64) -> (r:
        ExecProcess)
        ensures
            r.test_cmd@.cmd == test_cmd@,
            r.test_cmd@.env is None,
            r.test_cmd@.state == ProcessState::Idle,
            r.cmd@.cmd == cmd@,
            r.cmd@.env == (match env {
                Some(v) => Some(views(v@)),
                None => None::<Seq<Seq<char>>>,
            }),
            r.cmd@.state == ProcessState::Idle,
            r.negate == negate,
            r.poll == poll,
    {
        let test_cmd = CancelableProcess::new(test_cmd, None);
        let cmd = CancelableProcess::new(cmd, env);
        ExecProcess { test_cmd, negate, cmd, poll }
    }

    /// Records one poll: `test_outcome` is what running the test command once reported.
    /// Returns true where the target command is to be run now.
    pub fn run_loop_step(&mut self, test_outcome: &Result<Option<i32>, String>) -> (fire: bool)
        ensures
            fire == poll_fires(old(self).test_cmd@, *test_outcome, old(self).negate),
            final(self).test_cmd@.same_command(old(self).test_cmd@),
            final(self).test_cmd@.state == after_block(
                old(self).test_cmd@.state,
                test_outcome is Ok,
            ),
            final(self).cmd == old(self).cmd,
            final(self).negate == old(self).negate,
            final(self).poll == old(self).poll,
    {
        let test_result = self.test_cmd.is_success(test_outcome);
        test_result != self.negate
    }
}

/// Under negation, a poll whose test command ran and exited with code `c` fires the target
/// exactly when `c` is non-zero; without negation, exactly when `c` is zero.
pub proof fn lemma_poll_fires_on_exit_code(test: ProcessView, c: i32, negate: bool)
    requires
        test.state is Idle,
        test.has_program(),
    ensures
        poll_fires(test, Ok(Some(c)), negate) == (if negate {
            c != 0
        } else {
            c == 0
        }),
{
}

} // verus!
