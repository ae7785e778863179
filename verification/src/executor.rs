//! Running a plan, one subprocess after the other.
//!
//! The library decides, the caller acts. A [`PlanRun`] says which subprocess
//! to launch next and with which standard input; the caller launches it,
//! waits for it, and hands back what it wrote and how it ended. The run stops
//! after the last task or after the first task that fails, whichever comes
//! first, and what was gathered until then is the [`PlanResult`].

use crate::error::{AgwError, AgwResult, ErrorKind};
use crate::plan::{Plan, Task};
use crate::text::joined;
use std::collections::HashMap;
use vstd::prelude::*;

verus! {

broadcast use vstd::std_specs::hash::group_hash_axioms;

/// What one task left behind.
#[derive(Debug, Clone, PartialEq)]
pub struct TaskResult {
    /// Number of the task in its plan.
    pub task_number: u32,
    /// What the subprocess wrote to its standard output.
    pub stdout: String,
    /// What the subprocess wrote to its standard error.
    pub stderr: String,
    /// The exit code of the subprocess; 0 means success.
    pub exit_code: i32,
    /// Whether the exit code is 0.
    pub success: bool,
}

/// What a run of a plan left behind.
#[derive(Debug, Clone, PartialEq)]
pub struct PlanResult {
    /// The job that was run.
    pub job_id: String,
    /// The plan of the job.
    pub plan_id: String,
    /// One result for each task that ran, in the order in which they ran.
    pub task_results: Vec<TaskResult>,
    /// Whether every task that ran succeeded.
    pub success: bool,
}

/// The exit code recorded for a subprocess that reported none, as one that a
/// signal ended.
pub const NO_EXIT_CODE: i32 = -1;

impl TaskResult {
    /// The result of a task that ended with `exit_code`.
    pub fn new(task_number: u32, stdout: String, stderr: String, exit_code: i32) -> (r: Self)
        ensures
            r.task_number == task_number,
            r.stdout == stdout,
            r.stderr == stderr,
            r.exit_code == exit_code,
            r.success == (exit_code == 0),
    {
        TaskResult { task_number, stdout, stderr, exit_code, success: exit_code == 0 }
    }

    /// The result of a task whose subprocess reported `code` when it ended:
    /// its exit code, or nothing where a signal ended it, as happens when it is
    /// killed for running too long. Nothing counts as -1, which is a failure.
    pub fn from_exit(task_number: u32, stdout: String, stderr: String, code: Option<i32>) -> (r:
        Self)
        ensures
            r.task_number == task_number,
            r.stdout == stdout,
            r.stderr == stderr,
            r.exit_code == match code {
                Some(c) => c,
                None => NO_EXIT_CODE,
            },
            r.success == (code == Some(0i32)),
    {
        let exit_code: i32 = match code {
            Some(c) => c,
            None => NO_EXIT_CODE,
        };
        TaskResult::new(task_number, stdout, stderr, exit_code)
    }
}

/// Whether every one of `results` succeeded.
pub open spec fn all_succeeded(results: Seq<TaskResult>) -> bool {
    forall|i: int| 0 <= i < results.len() ==> (#[trigger] results[i]).success
}

/// What each of `results` wrote to its standard output.
pub open spec fn stdouts(results: Seq<TaskResult>) -> Seq<Seq<char>> {
    results.map_values(|r: TaskResult| r.stdout@)
}

/// What each of `results` wrote to its standard error.
pub open spec fn stderrs(results: Seq<TaskResult>) -> Seq<Seq<char>> {
    results.map_values(|r: TaskResult| r.stderr@)
}

impl PlanResult {
    /// The result of a run in which the tasks left `task_results` behind. It
    /// is a success when every one of them is; with no task at all it is one.
    pub fn new(job_id: String, plan_id: String, task_results: Vec<TaskResult>) -> (r: Self)
        ensures
            r.job_id == job_id,
            r.plan_id == plan_id,
            r.task_results == task_results,
            r.success == all_succeeded(task_results@),
    {
        let mut success = true;
        let mut i: usize = 0;
        while i < task_results.len()
            invariant
                i <= task_results.len(),
                success == all_succeeded(task_results@.take(i as int)),
            decreases task_results.len() - i,
        {
            let ghost after = task_results@.take(i + 1);
            assert(after[i as int] == task_results@[i as int]);
            if !task_results[i].success {
                success = false;
            }
            i += 1;
        }
        assert(task_results@.take(task_results.len() as int) =~= task_results@);
        PlanResult { job_id, plan_id, task_results, success }
    }

    /// What the tasks wrote to standard output, one after the other, with a
    /// line feed between two tasks.
    pub fn combined_stdout(&self) -> (s: String)
        ensures
            s@ == joined(stdouts(self.task_results@), "\n"@),
    {
        let mut s = String::new();
        let mut i: usize = 0;
        while i < self.task_results.len()
            invariant
                i <= self.task_results.len(),
                s@ == joined(stdouts(self.task_results@).take(i as int), "\n"@),
            decreases self.task_results.len() - i,
        {
            let ghost before = stdouts(self.task_results@).take(i as int);
            let ghost after = stdouts(self.task_results@).take(i + 1);
            assert(after.drop_last() =~= before);
            if i > 0 {
                s.append("\n");
            } else {
                assert(s@ + after.last() =~= after.last());
            }
            s.append(self.task_results[i].stdout.as_str());
            i += 1;
        }
        assert(stdouts(self.task_results@).take(self.task_results.len() as int) =~= stdouts(
            self.task_results@,
        ));
        s
    }

    /// What the tasks wrote to standard error, one after the other, with a
    /// line feed between two tasks.
    pub fn combined_stderr(&self) -> (s: String)
        ensures
            s@ == joined(stderrs(self.task_results@), "\n"@),
    {
        let mut s = String::new();
        let mut i: usize = 0;
        while i < self.task_results.len()
            invariant
                i <= self.task_results.len(),
                s@ == joined(stderrs(self.task_results@).take(i as int), "\n"@),
            decreases self.task_results.len() - i,
        {
            let ghost before = stderrs(self.task_results@).take(i as int);
            let ghost after = stderrs(self.task_results@).take(i + 1);
            assert(after.drop_last() =~= before);
            if i > 0 {
                s.append("\n");
            } else {
                assert(s@ + after.last() =~= after.last());
            }
            s.append(self.task_results[i].stderr.as_str());
            i += 1;
        }
        assert(stderrs(self.task_results@).take(self.task_results.len() as int) =~= stderrs(
            self.task_results@,
        ));
        s
    }
}

/// Adds one line that was read from a subprocess to what was read before.
/// Every line ends with a line feed, the last one too.
pub fn push_line(output: &mut String, line: &str)
    ensures
        final(output)@ == old(output)@ + line@ + seq!['\n'],
{
    output.append(line);
    output.push('\n');
}

/// A subprocess to launch.
#[derive(Debug, Clone, PartialEq)]
pub struct Launch {
    /// Number of the task that the subprocess runs for.
    pub task_number: u32,
    /// The program to run.
    pub command: String,
    /// The arguments, handed over as they are, without a shell in between.
    pub args: Vec<String>,
    /// What to write to the standard input before closing it; without it
    /// the standard input is closed from the start.
    pub stdin: Option<String>,
    /// After how many seconds to kill the subprocess.
    pub timeout_secs: Option<u32>,
}

/// The standard output of each task number among `results`; where a number
/// occurs twice, that of the later result.
pub open spec fn outputs_of(results: Seq<TaskResult>) -> Map<u32, Seq<char>>
    decreases results.len(),
{
    if results.len() == 0 {
        Map::empty()
    } else {
        outputs_of(results.drop_last()).insert(results.last().task_number, results.last().stdout@)
    }
}

/// The standard input for `task` once `results` are in: the standard output
/// of the task it names, if it names one and that one has run.
pub open spec fn stdin_for(task: Task, results: Seq<TaskResult>) -> Option<Seq<char>> {
    match task.input_from_task {
        Some(k) => if outputs_of(results).contains_key(k) {
            Some(outputs_of(results)[k])
        } else {
            None
        },
        None => None,
    }
}

/// Whether `launch` is the subprocess for `task` with `stdin` as its input.
pub open spec fn launches(launch: Launch, task: Task, stdin: Option<Seq<char>>) -> bool {
    &&& launch.task_number == task.task_number
    &&& launch.command@ == task.command@
    &&& launch.args@.len() == task.args@.len()
    &&& forall|i: int| 0 <= i < task.args@.len() ==> (#[trigger] launch.args@[i])@ == task.args@[i]@
    &&& launch.timeout_secs == task.timeout_secs
    &&& match stdin {
        Some(text) => launch.stdin is Some && launch.stdin->0@ == text,
        None => launch.stdin is None,
    }
}

/// A run of a plan: the plan, and what its tasks have left behind so far.
pub struct PlanRun {
    job_id: String,
    plan: Plan,
    results: Vec<TaskResult>,
    outputs: HashMap<u32, String>,
}

impl PlanRun {
    /// The job that is run.
    pub closed spec fn job_id(&self) -> Seq<char> {
        self.job_id@
    }

    /// The plan that is run.
    pub closed spec fn plan(&self) -> Plan {
        self.plan
    }

    /// The results of the tasks that have run, in the order in which they ran.
    pub closed spec fn results(&self) -> Seq<TaskResult> {
        self.results@
    }

    /// Whether the remembered outputs are those of the results.
    pub closed spec fn outputs_match(&self) -> bool {
        &&& self.outputs@.dom() == outputs_of(self.results@).dom()
        &&& forall|k: u32| #[trigger]
            self.outputs@.contains_key(k) ==> self.outputs@[k]@ == outputs_of(self.results@)[k]
    }

    /// What holds of every run: the tasks run in the order of the plan, one
    /// result each, and no task runs after one that failed.
    pub open spec fn wf(&self) -> bool {
        &&& self.outputs_match()
        &&& self.results().len() <= self.plan().tasks.len()
        &&& forall|i: int|
            0 <= i < self.results().len() ==> (#[trigger] self.results()[i]).task_number
                == self.plan().tasks[i].task_number
        &&& forall|i: int|
            0 <= i < self.results().len() ==> (#[trigger] self.results()[i]).success == (
            self.results()[i].exit_code == 0)
        &&& forall|i: int| 0 <= i < self.results().len() - 1 ==> (#[trigger] self.results()[i]).success
    }

    /// Whether the run is over: every task has run, or the last one that ran failed.
    pub open spec fn finished(&self) -> bool {
        ||| self.results().len() == self.plan().tasks.len()
        ||| (self.results().len() > 0 && !self.results().last().success)
    }

    /// The task that runs next, where the run is not over.
    pub open spec fn next_task(&self) -> Task {
        self.plan().tasks[self.results().len() as int]
    }

    /// A run of `plan` for the job `job_id` in which no task has run yet.
    pub fn new(job_id: String, plan: Plan) -> (run: Self)
        ensures
            run.wf(),
            run.job_id() == job_id@,
            run.plan() == plan,
            run.results().len() == 0,
    {
        PlanRun { job_id, plan, results: Vec::new(), outputs: HashMap::new() }
    }

    /// Whether the run is over.
    pub fn is_finished(&self) -> (done: bool)
        requires
            self.wf(),
        ensures
            done == self.finished(),
    {
        let n: usize = self.results.len();
        n == self.plan.tasks.len() || (n > 0 && !self.results[n - 1].success)
    }

    /// What to do next: nothing when the run is over, else launch the next
    /// task of the plan, with the standard output of the task it takes its
    /// input from as its standard input.
    ///
    /// A task with an empty command is refused, and the run cannot go on.
    pub fn next_step(&self) -> (r: AgwResult<Option<Launch>>)
        requires
            self.wf(),
        ensures
            self.finished() ==> r == Ok::<Option<Launch>, AgwError>(None),
            !self.finished() && self.next_task().command@.len() == 0 ==> (r matches Err(e) && e.has(
                ErrorKind::Executor,
                "Command cannot be empty"@,
            )),
            !self.finished() && self.next_task().command@.len() > 0 ==> (r matches Ok(Some(launch))
                && launches(launch, self.next_task(), stdin_for(self.next_task(), self.results()))),
    {
        if self.is_finished() {
            return Ok(None);
        }
        let task = &self.plan.tasks[self.results.len()];
        if task.command.as_str().is_empty() {
            return Err(AgwError::Executor(String::from_str("Command cannot be empty")));
        }
        let stdin: Option<String> = match task.input_from_task {
            Some(k) => match self.outputs.get(&k) {
                Some(text) => Some(text.clone()),
                None => None,
            },
            None => None,
        };
        let launch = Launch {
            task_number: task.task_number,
            command: task.command.clone(),
            args: task.args.clone(),
            stdin,
            timeout_secs: task.timeout_secs,
        };
        Ok(Some(launch))
    }

    /// Takes in what the task that was launched last left behind: what it
    /// wrote, and the exit code it reported, if it reported one.
    pub fn record(&mut self, stdout: String, stderr: String, code: Option<i32>)
        requires
            old(self).wf(),
            !old(self).finished(),
        ensures
            final(self).wf(),
            final(self).job_id() == old(self).job_id(),
            final(self).plan() == old(self).plan(),
            final(self).results().len() == old(self).results().len() + 1,
            final(self).results().drop_last() == old(self).results(),
            final(self).results().last().task_number == old(self).next_task().task_number,
            final(self).results().last().stdout == stdout,
            final(self).results().last().stderr == stderr,
            final(self).results().last().exit_code == match code {
                Some(c) => c,
                None => NO_EXIT_CODE,
            },
            final(self).results().last().success == (code == Some(0i32)),
    {
        let task_number: u32 = self.plan.tasks[self.results.len()].task_number;
        let ghost before = self.results@;
        let kept = stdout.clone();
        let result = TaskResult::from_exit(task_number, stdout, stderr, code);
        self.results.push(result);
        self.outputs.insert(task_number, kept);
        proof {
            assert(self.results@.drop_last() =~= before);
        }
    }

    /// Ends the run and hands out what it gathered.
    pub fn finish(self) -> (r: PlanResult)
        requires
            self.wf(),
        ensures
            r.job_id@ == self.job_id(),
            r.plan_id@ == self.plan().plan_id@,
            r.task_results@ == self.results(),
            r.success == all_succeeded(self.results()),
    {
        PlanResult::new(self.job_id, self.plan.plan_id, self.results)
    }
}

/// A run halts at the first failure: whatever has run before the last
/// result has succeeded, so a failed result is always the last one.
pub proof fn lemma_failure_is_last(run: PlanRun, i: int)
    requires
        run.wf(),
        0 <= i < run.results().len(),
        !run.results()[i].success,
    ensures
        i == run.results().len() - 1,
        run.finished(),
{
}

/// Tasks run strictly in the order of the plan: the `i`-th result belongs to
/// the `i`-th task.
pub proof fn lemma_results_follow_plan(run: PlanRun, i: int)
    requires
        run.wf(),
        0 <= i < run.results().len(),
    ensures
        i < run.plan().tasks.len(),
        run.results()[i].task_number == run.plan().tasks[i].task_number,
{
}

/// In a valid plan a task that takes its input from task `k` gets the
/// standard output of the `k`-th result, which is there when the task runs.
pub proof fn lemma_stdin_is_earlier_output(run: PlanRun, k: u32)
    requires
        run.wf(),
        run.plan().valid(),
        !run.finished(),
        run.next_task().input_from_task == Some(k),
    ensures
        1 <= k <= run.results().len(),
        stdin_for(run.next_task(), run.results()) == Some(run.results()[k - 1].stdout@),
{
    let n = run.results().len() as int;
    assert(run.plan().task_ok(n));
    assert forall|i: int| 0 <= i < n implies (#[trigger] run.results()[i]).task_number == i + 1 by {
        assert(run.plan().task_ok(i));
    }
    lemma_outputs_of_numbered(run.results(), k);
}

/// Where results are numbered 1, 2, 3, ... the output kept under `k` is that
/// of the `k`-th result.
proof fn lemma_outputs_of_numbered(results: Seq<TaskResult>, k: u32)
    requires
        forall|i: int| 0 <= i < results.len() ==> (#[trigger] results[i]).task_number == i + 1,
    ensures
        outputs_of(results).contains_key(k) <==> 1 <= k <= results.len(),
        1 <= k <= results.len() ==> outputs_of(results)[k] == results[k - 1].stdout@,
    decreases results.len(),
{
    if results.len() > 0 {
        let rest = results.drop_last();
        assert forall|i: int| 0 <= i < rest.len() implies (#[trigger] rest[i]).task_number == i
            + 1 by {
            assert(rest[i] == results[i]);
        }
        lemma_outputs_of_numbered(rest, k);
        if 1 <= k < results.len() {
            assert(rest[k - 1] == results[k - 1]);
        }
    }
}

} // verus!
