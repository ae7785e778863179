//! Plans, their tasks, and the jobs that run them.
//!
//! A [`Plan`] is a reusable, ordered list of [`Task`]s. A [`Job`] names a plan
//! and carries the input whose fields replace the `{{input.NAME}}`
//! placeholders in the arguments of the plan's tasks.

use crate::error::{AgwError, AgwResult, ErrorKind};
use crate::template::{
    expandable, expanded, expansion_rejected_with, input_values, lemma_expanded_holds_value,
    member_text, spans, substitute_variables, value_at,
};
use crate::text::{decimal, decimal_text};
use crate::validation::{
    check_for_dangerous_patterns, field_ok, field_violation, has_path_traversal, pattern_free,
    pattern_violation,
    shell_metachar, validate_string_field, violation_message, Violation,
};
use vstd::prelude::*;

verus! {

/// Longest job identifier, in bytes.
pub const MAX_JOB_ID_LEN: usize = 128;

/// Longest plan identifier, in bytes.
pub const MAX_PLAN_ID_LEN: usize = 128;

/// Longest plan description, in bytes.
pub const MAX_PLAN_DESCRIPTION_LEN: usize = 1024;

/// Longest command, in bytes.
pub const MAX_COMMAND_LEN: usize = 4096;

/// Largest number of arguments of one task.
pub const MAX_ARGS_COUNT: usize = 256;

/// Longest argument, in bytes.
pub const MAX_ARG_LEN: usize = 4096;

/// Largest number of tasks of one plan.
pub const MAX_TASKS_COUNT: usize = 100;

/// Shortest timeout of a task, in seconds.
pub const MIN_TIMEOUT_SECS: u32 = 1;

/// Longest timeout of a task, in seconds: one day.
pub const MAX_TIMEOUT_SECS: u32 = 86400;

/// One step of a plan: a command run as a subprocess.
#[derive(Debug, Clone, PartialEq)]
pub struct Task {
    /// Position of the task in its plan, counted from 1.
    pub task_number: u32,
    /// The program to run.
    pub command: String,
    /// The arguments handed to the program, without a shell in between.
    pub args: Vec<String>,
    /// The earlier task whose standard output becomes the standard input of the task.
    pub input_from_task: Option<u32>,
    /// How long the task may run, in seconds.
    pub timeout_secs: Option<u32>,
}

/// The first rule that `value` breaks as a command or an argument of at most
/// `max_len` bytes: the rules of a descriptive field, then those on dangerous
/// patterns.
pub open spec fn text_violation(value: Seq<char>, max_len: usize) -> Option<Violation> {
    match field_violation(value, max_len, false) {
        Some(v) => Some(v),
        None => pattern_violation(value),
    }
}

/// Whether `value` is acceptable as a command or an argument of at most
/// `max_len` bytes.
pub open spec fn text_ok(value: Seq<char>, max_len: usize) -> bool {
    field_ok(value, max_len, false) && pattern_free(value)
}

/// The name under which the argument at `index` is reported.
pub open spec fn arg_field_name(index: nat) -> Seq<char> {
    "args["@ + decimal_text(index) + "]"@
}

/// What is reported when task `task_number` has too many arguments.
pub open spec fn too_many_args_message(task_number: u32) -> Seq<char> {
    "Task "@ + decimal_text(task_number as nat) + " exceeds maximum of "@ + decimal_text(
        MAX_ARGS_COUNT as nat,
    ) + " arguments"@
}

/// What is reported when the timeout of task `task_number` is too short.
pub open spec fn timeout_too_short_message(task_number: u32) -> Seq<char> {
    "Task "@ + decimal_text(task_number as nat) + " timeout must be at least "@ + decimal_text(
        MIN_TIMEOUT_SECS as nat,
    ) + " seconds"@
}

/// What is reported when the timeout of task `task_number` is too long.
pub open spec fn timeout_too_long_message(task_number: u32) -> Seq<char> {
    "Task "@ + decimal_text(task_number as nat) + " timeout must not exceed "@ + decimal_text(
        MAX_TIMEOUT_SECS as nat,
    ) + " seconds"@
}

/// Checks one command or argument: the rules of a descriptive field, then
/// those on dangerous patterns.
fn validate_text(value: &str, field_name: &str, max_len: usize) -> (r: AgwResult<()>)
    ensures
        r is Ok <==> text_ok(value@, max_len),
        match text_violation(value@, max_len) {
            None => r is Ok,
            Some(v) => r matches Err(e) && e.has(
                ErrorKind::Worker,
                violation_message(field_name@, v),
            ),
        },
{
    match validate_string_field(value, field_name, max_len, false) {
        Err(e) => Err(e),
        Ok(()) => check_for_dangerous_patterns(value, field_name),
    }
}

/// `"Task N" + middle + limit + tail`, the shape of the errors on a task's limits.
fn task_limit_error(task_number: u32, middle: &str, limit: u64, tail: &str) -> (e: AgwError)
    ensures
        e.has(
            ErrorKind::Worker,
            "Task "@ + decimal_text(task_number as nat) + middle@ + decimal_text(limit as nat)
                + tail@,
        ),
{
    let mut m = String::from_str("Task ");
    let number = decimal(task_number as u64);
    m.append(number.as_str());
    m.append(middle);
    let digits = decimal(limit);
    m.append(digits.as_str());
    m.append(tail);
    AgwError::Worker(m)
}

impl Task {
    /// Whether the task is acceptable: its command and each argument pass the
    /// field rules and hold no dangerous pattern, it has at most 256
    /// arguments, and its timeout, if any, lies between one second and one day.
    pub open spec fn valid(&self) -> bool {
        &&& text_ok(self.command@, MAX_COMMAND_LEN)
        &&& self.args.len() <= MAX_ARGS_COUNT
        &&& forall|i: int|
            0 <= i < self.args.len() ==> text_ok((#[trigger] self.args[i])@, MAX_ARG_LEN)
        &&& self.timeout_secs matches Some(t) ==> MIN_TIMEOUT_SECS <= t <= MAX_TIMEOUT_SECS
    }

    /// Whether `index` is the first argument that breaks a rule.
    pub open spec fn first_bad_arg(&self, index: int) -> bool {
        &&& 0 <= index < self.args.len()
        &&& text_violation(self.args[index]@, MAX_ARG_LEN) is Some
        &&& forall|j: int|
            0 <= j < index ==> text_violation((#[trigger] self.args[j])@, MAX_ARG_LEN) is None
    }

    /// Whether `message` is what is reported for the task: the first broken
    /// rule, going through the command, the number of arguments, the
    /// arguments in order, and the timeout.
    pub open spec fn rejected_with(&self, message: Seq<char>) -> bool {
        if let Some(v) = text_violation(self.command@, MAX_COMMAND_LEN) {
            message == violation_message("command"@, v)
        } else if self.args.len() > MAX_ARGS_COUNT {
            message == too_many_args_message(self.task_number)
        } else if exists|i: int| self.first_bad_arg(i) {
            exists|i: int|
                #![trigger self.first_bad_arg(i)]
                self.first_bad_arg(i) && message == violation_message(
                    arg_field_name(i as nat),
                    text_violation(self.args[i]@, MAX_ARG_LEN)->0,
                )
        } else if let Some(t) = self.timeout_secs {
            if t < MIN_TIMEOUT_SECS {
                message == timeout_too_short_message(self.task_number)
            } else {
                t > MAX_TIMEOUT_SECS && message == timeout_too_long_message(self.task_number)
            }
        } else {
            false
        }
    }

    /// Checks the task against the rules of [`Task::valid`].
    ///
    /// The error names the first broken rule, going through the command, the
    /// number of arguments, the arguments in order, and the timeout.
    pub fn validate(&self) -> (r: AgwResult<()>)
        ensures
            r is Ok <==> self.valid(),
            r matches Err(e) ==> e.kind() == ErrorKind::Worker && self.rejected_with(e.detail()),
    {
        proof {
            crate::validation::lemma_field_violation_none(self.command@, MAX_COMMAND_LEN, false);
            crate::validation::lemma_reported_metachar(self.command@);
        }
        match validate_text(self.command.as_str(), "command", MAX_COMMAND_LEN) {
            Err(e) => {
                return Err(e);
            },
            Ok(()) => {},
        }
        if self.args.len() > MAX_ARGS_COUNT {
            return Err(
                task_limit_error(
                    self.task_number,
                    " exceeds maximum of ",
                    MAX_ARGS_COUNT as u64,
                    " arguments",
                ),
            );
        }
        let mut i: usize = 0;
        while i < self.args.len()
            invariant
                i <= self.args.len(),
                self.args.len() <= MAX_ARGS_COUNT,
                text_violation(self.command@, MAX_COMMAND_LEN) is None,
                forall|j: int|
                    0 <= j < i ==> text_ok((#[trigger] self.args[j])@, MAX_ARG_LEN)
                        && text_violation(self.args[j]@, MAX_ARG_LEN) is None,
            decreases self.args.len() - i,
        {
            let mut name = String::from_str("args[");
            let digits = decimal(i as u64);
            name.append(digits.as_str());
            name.append("]");
            match validate_text(self.args[i].as_str(), name.as_str(), MAX_ARG_LEN) {
                Err(e) => {
                    assert(self.first_bad_arg(i as int));
                    assert forall|k: int| self.first_bad_arg(k) implies k == i by {
                        if k < i {
                            assert(text_violation(self.args[k]@, MAX_ARG_LEN) is None);
                        }
                        if k > i {
                            assert(text_violation(self.args[i as int]@, MAX_ARG_LEN) is None);
                        }
                    }
                    return Err(e);
                },
                Ok(()) => {},
            }
            i += 1;
        }
        if let Some(timeout) = self.timeout_secs {
            if timeout < MIN_TIMEOUT_SECS {
                return Err(
                    task_limit_error(
                        self.task_number,
                        " timeout must be at least ",
                        MIN_TIMEOUT_SECS as u64,
                        " seconds",
                    ),
                );
            }
            if timeout > MAX_TIMEOUT_SECS {
                return Err(
                    task_limit_error(
                        self.task_number,
                        " timeout must not exceed ",
                        MAX_TIMEOUT_SECS as u64,
                        " seconds",
                    ),
                );
            }
        }
        Ok(())
    }
}

impl Task {
    /// Whether every placeholder in every argument has a member in `input`
    /// that can be written into a text.
    pub open spec fn substitutable_with(&self, input: serde_json::Value) -> bool {
        forall|i: int|
            0 <= i < self.args.len() ==> expandable(
                (#[trigger] self.args[i])@,
                input_values(self.args[i]@, input),
            )
    }

    /// Whether `index` is the first argument with a placeholder that `input`
    /// cannot fill.
    pub open spec fn first_unfilled_arg(&self, input: serde_json::Value, index: int) -> bool {
        &&& 0 <= index < self.args.len()
        &&& !expandable(self.args[index]@, input_values(self.args[index]@, input))
        &&& forall|j: int|
            0 <= j < index ==> expandable(
                (#[trigger] self.args[j])@,
                input_values(self.args[j]@, input),
            )
    }

    /// Whether `other` is the task with every placeholder in every argument
    /// replaced by the member of `input` it names, and nothing else changed.
    pub open spec fn substituted_into(&self, input: serde_json::Value, other: Task) -> bool {
        &&& other.task_number == self.task_number
        &&& other.command@ == self.command@
        &&& other.input_from_task == self.input_from_task
        &&& other.timeout_secs == self.timeout_secs
        &&& other.args.len() == self.args.len()
        &&& forall|i: int|
            0 <= i < self.args.len() ==> (#[trigger] other.args[i])@ == expanded(
                self.args[i]@,
                input_values(self.args[i]@, input),
            )
    }

    /// The task with every `{{input.NAME}}` in its arguments replaced by the
    /// member of `input` called NAME. The command is not touched.
    ///
    /// What comes out holds whatever the input held: it has to pass
    /// [`Task::validate`] again before it is run.
    ///
    /// Fails on the first argument with a placeholder that `input` cannot
    /// fill, with the error of [`substitute_variables`] for that argument.
    pub fn substitute_input(&self, input: &serde_json::Value) -> (r: AgwResult<Task>)
        ensures
            r is Ok <==> self.substitutable_with(*input),
            r matches Ok(task) ==> self.substituted_into(*input, task),
            r matches Err(e) ==> e.kind() == ErrorKind::Worker && exists|i: int|
                #![trigger self.first_unfilled_arg(*input, i)]
                self.first_unfilled_arg(*input, i) && expansion_rejected_with(
                    self.args[i]@,
                    input_values(self.args[i]@, *input),
                    e.detail(),
                ),
    {
        let mut args: Vec<String> = Vec::new();
        let mut i: usize = 0;
        while i < self.args.len()
            invariant
                i <= self.args.len(),
                args.len() == i,
                forall|j: int|
                    0 <= j < i ==> expandable(
                        (#[trigger] self.args[j])@,
                        input_values(self.args[j]@, *input),
                    ),
                forall|j: int|
                    0 <= j < i ==> (#[trigger] args[j])@ == expanded(
                        self.args[j]@,
                        input_values(self.args[j]@, *input),
                    ),
            decreases self.args.len() - i,
        {
            match substitute_variables(self.args[i].as_str(), input) {
                Ok(arg) => {
                    args.push(arg);
                },
                Err(e) => {
                    assert(self.first_unfilled_arg(*input, i as int));
                    return Err(e);
                },
            }
            i += 1;
        }
        Ok(
            Task {
                task_number: self.task_number,
                command: self.command.clone(),
                args,
                input_from_task: self.input_from_task,
                timeout_secs: self.timeout_secs,
            },
        )
    }
}

/// Whether `text` is the command or one of the arguments of `task`.
pub open spec fn part_of(task: Task, text: Seq<char>) -> bool {
    text == task.command@ || exists|i: int| 0 <= i < task.args.len() && (#[trigger] task.args[i])@ == text
}

/// A task whose command or one of whose arguments holds a shell
/// metacharacter is not valid.
pub proof fn lemma_task_metachar_rejected(task: Task, text: Seq<char>, at: int)
    requires
        part_of(task, text),
        0 <= at < text.len(),
        shell_metachar(text[at]),
    ensures
        !task.valid(),
{
    crate::validation::lemma_metachar_rejected(text, at);
}

/// A task whose command or one of whose arguments holds `../` or `..\`, or
/// starts with `..`, is not valid.
pub proof fn lemma_task_traversal_rejected(task: Task, text: Seq<char>)
    requires
        part_of(task, text),
        has_path_traversal(text),
    ensures
        !task.valid(),
{
    assert(!text_ok(text, MAX_ARG_LEN));
}

/// A shell metacharacter that an input member carries does not get past
/// validation by way of a placeholder: if the member for placeholder `k` of
/// argument `i` holds one, the substituted task is not valid.
pub proof fn lemma_injection_rejected(
    task: Task,
    input: serde_json::Value,
    substituted: Task,
    i: int,
    k: int,
    c: char,
)
    requires
        task.substituted_into(input, substituted),
        0 <= i < task.args.len(),
        0 <= k < spans(task.args[i]@, 0).len(),
        member_text(value_at(input_values(task.args[i]@, input), k)).contains(c),
        shell_metachar(c),
    ensures
        !substituted.valid(),
{
    let values = input_values(task.args[i]@, input);
    lemma_expanded_holds_value(task.args[i]@, values, k, c);
    let arg = substituted.args[i]@;
    let at = choose|at: int| 0 <= at < arg.len() && arg[at] == c;
    crate::validation::lemma_metachar_rejected(arg, at);
}

/// A reusable, ordered list of tasks.
#[derive(Debug, Clone, PartialEq)]
pub struct Plan {
    /// Stable identifier, shared by every job that runs the plan.
    pub plan_id: String,
    /// What the plan is meant to do.
    pub plan_description: Option<String>,
    /// The tasks, in the order in which they run.
    pub tasks: Vec<Task>,
}

/// What is reported when a plan has no task.
pub open spec fn no_tasks_message() -> Seq<char> {
    "Plan must contain at least one task"@
}

/// What is reported when a plan has too many tasks.
pub open spec fn too_many_tasks_message() -> Seq<char> {
    "Plan exceeds maximum of "@ + decimal_text(MAX_TASKS_COUNT as nat) + " tasks"@
}

/// What is reported when the task at a position that calls for number
/// `expected` has the number `got`.
pub open spec fn not_contiguous_message(expected: nat, got: u32) -> Seq<char> {
    "Task numbers must be contiguous starting at 1: expected "@ + decimal_text(expected)
        + ", got "@ + decimal_text(got as nat)
}

/// What is reported when a task takes its input from task 0.
pub open spec fn zero_reference_message() -> Seq<char> {
    "input_from_task must be >= 1"@
}

/// What is reported when task `task_number` takes its input from `reference`,
/// which is not an earlier task.
pub open spec fn forward_reference_message(task_number: u32, reference: u32) -> Seq<char> {
    "Task "@ + decimal_text(task_number as nat) + " has invalid input_from_task "@ + decimal_text(
        reference as nat,
    ) + ": cannot reference self or future tasks"@
}

impl Plan {
    /// Whether the task at `index` is acceptable where it stands: it has the
    /// number `index + 1`, it is valid, and it takes its input, if from any
    /// task, from an earlier one.
    pub open spec fn task_ok(&self, index: int) -> bool {
        let task = self.tasks[index];
        &&& task.task_number == index + 1
        &&& task.valid()
        &&& task.input_from_task matches Some(k) ==> 1 <= k < task.task_number
    }

    /// Whether the plan is acceptable: its identifier is a valid identifier,
    /// its description a valid descriptive field, it has between 1 and 100
    /// tasks, numbered 1, 2, 3, ... without a gap, each of them valid and
    /// taking its input only from an earlier task.
    pub open spec fn valid(&self) -> bool {
        &&& field_ok(self.plan_id@, MAX_PLAN_ID_LEN, true)
        &&& self.plan_description matches Some(d) ==> field_ok(d@, MAX_PLAN_DESCRIPTION_LEN, false)
        &&& 1 <= self.tasks.len() <= MAX_TASKS_COUNT
        &&& forall|i: int| 0 <= i < self.tasks.len() ==> #[trigger] self.task_ok(i)
    }

    /// Whether `index` is the first task that is not acceptable where it stands.
    pub open spec fn first_bad_task(&self, index: int) -> bool {
        &&& 0 <= index < self.tasks.len()
        &&& !self.task_ok(index)
        &&& forall|j: int| 0 <= j < index ==> #[trigger] self.task_ok(j)
    }

    /// Whether `message` is what is reported for the task at `index`: a wrong
    /// number, then the task's own first broken rule, then a bad reference.
    pub open spec fn task_rejected_with(&self, index: int, message: Seq<char>) -> bool {
        let task = self.tasks[index];
        if task.task_number != index + 1 {
            message == not_contiguous_message((index + 1) as nat, task.task_number)
        } else if !task.valid() {
            task.rejected_with(message)
        } else if let Some(k) = task.input_from_task {
            if k == 0 {
                message == zero_reference_message()
            } else {
                k >= task.task_number && message == forward_reference_message(task.task_number, k)
            }
        } else {
            false
        }
    }

    /// Whether `message` is what is reported for the plan: the first broken
    /// rule, going through the identifier, the description, the number of
    /// tasks, and the tasks in order.
    pub open spec fn rejected_with(&self, message: Seq<char>) -> bool {
        if let Some(v) = field_violation(self.plan_id@, MAX_PLAN_ID_LEN, true) {
            message == violation_message("plan_id"@, v)
        } else if self.plan_description is Some && field_violation(
            self.plan_description->0@,
            MAX_PLAN_DESCRIPTION_LEN,
            false,
        ) is Some {
            message == violation_message(
                "plan_description"@,
                field_violation(self.plan_description->0@, MAX_PLAN_DESCRIPTION_LEN, false)->0,
            )
        } else if self.tasks.len() == 0 {
            message == no_tasks_message()
        } else if self.tasks.len() > MAX_TASKS_COUNT {
            message == too_many_tasks_message()
        } else {
            exists|i: int|
                #![trigger self.first_bad_task(i)]
                self.first_bad_task(i) && self.task_rejected_with(i, message)
        }
    }

    /// Checks the plan against the rules of [`Plan::valid`].
    ///
    /// The error names the first broken rule, going through the identifier,
    /// the description, the number of tasks, and the tasks in order.
    pub fn validate(&self) -> (r: AgwResult<()>)
        ensures
            r is Ok <==> self.valid(),
            r matches Err(e) ==> e.kind() == ErrorKind::Worker && self.rejected_with(e.detail()),
    {
        match validate_string_field(self.plan_id.as_str(), "plan_id", MAX_PLAN_ID_LEN, true) {
            Err(e) => {
                return Err(e);
            },
            Ok(()) => {},
        }
        if let Some(description) = &self.plan_description {
            match validate_string_field(
                description.as_str(),
                "plan_description",
                MAX_PLAN_DESCRIPTION_LEN,
                false,
            ) {
                Err(e) => {
                    return Err(e);
                },
                Ok(()) => {},
            }
        }
        if self.tasks.len() == 0 {
            return Err(AgwError::Worker(String::from_str("Plan must contain at least one task")));
        }
        if self.tasks.len() > MAX_TASKS_COUNT {
            let mut m = String::from_str("Plan exceeds maximum of ");
            let digits = decimal(MAX_TASKS_COUNT as u64);
            m.append(digits.as_str());
            m.append(" tasks");
            return Err(AgwError::Worker(m));
        }
        let mut index: usize = 0;
        while index < self.tasks.len()
            invariant
                index <= self.tasks.len(),
                1 <= self.tasks.len() <= MAX_TASKS_COUNT,
                field_violation(self.plan_id@, MAX_PLAN_ID_LEN, true) is None,
                self.plan_description matches Some(d) ==> field_violation(
                    d@,
                    MAX_PLAN_DESCRIPTION_LEN,
                    false,
                ) is None,
                forall|j: int| 0 <= j < index ==> #[trigger] self.task_ok(j),
            decreases self.tasks.len() - index,
        {
            let task = &self.tasks[index];
            let expected: u32 = (index + 1) as u32;
            let ghost position = index as int;
            if task.task_number != expected {
                let mut m = String::from_str(
                    "Task numbers must be contiguous starting at 1: expected ",
                );
                let digits = decimal(expected as u64);
                m.append(digits.as_str());
                m.append(", got ");
                let number = decimal(task.task_number as u64);
                m.append(number.as_str());
                assert(self.first_bad_task(position));
                return Err(AgwError::Worker(m));
            }
            match task.validate() {
                Err(e) => {
                    assert(self.first_bad_task(position));
                    return Err(e);
                },
                Ok(()) => {},
            }
            if let Some(reference) = task.input_from_task {
                if reference == 0 {
                    let e = AgwError::Worker(String::from_str("input_from_task must be >= 1"));
                    assert(self.first_bad_task(position));
                    return Err(e);
                }
                if reference >= task.task_number {
                    let mut m = String::from_str("Task ");
                    let number = decimal(task.task_number as u64);
                    m.append(number.as_str());
                    m.append(" has invalid input_from_task ");
                    let digits = decimal(reference as u64);
                    m.append(digits.as_str());
                    m.append(": cannot reference self or future tasks");
                    assert(self.first_bad_task(position));
                    return Err(AgwError::Worker(m));
                }
            }
            index += 1;
        }
        proof {
            crate::validation::lemma_field_violation_none(self.plan_id@, MAX_PLAN_ID_LEN, true);
            if self.plan_description is Some {
                crate::validation::lemma_field_violation_none(
                    self.plan_description->0@,
                    MAX_PLAN_DESCRIPTION_LEN,
                    false,
                );
            }
        }
        Ok(())
    }
}

/// One execution of a plan.
#[derive(Debug, Clone, PartialEq)]
pub struct Job {
    /// Identifier of the execution.
    pub job_id: String,
    /// The plan to run.
    pub plan_id: String,
    /// The JSON value whose members replace the placeholders of the plan.
    pub input: serde_json::Value,
    /// `pending`, `running`, `completed` or `failed`.
    pub status: String,
}

/// The status of a job that nothing has touched yet: `pending`.
pub fn default_job_status() -> (status: String)
    ensures
        status@ == "pending"@,
{
    String::from_str("pending")
}

impl Job {
    /// Whether the job is acceptable: both identifiers are valid identifiers
    /// of at most 128 bytes.
    pub open spec fn valid(&self) -> bool {
        &&& field_ok(self.job_id@, MAX_JOB_ID_LEN, true)
        &&& field_ok(self.plan_id@, MAX_PLAN_ID_LEN, true)
    }

    /// Whether `message` is what is reported for the job: the first broken
    /// rule of `job_id`, else the first broken rule of `plan_id`.
    pub open spec fn rejected_with(&self, message: Seq<char>) -> bool {
        if let Some(v) = field_violation(self.job_id@, MAX_JOB_ID_LEN, true) {
            message == violation_message("job_id"@, v)
        } else if let Some(v) = field_violation(self.plan_id@, MAX_PLAN_ID_LEN, true) {
            message == violation_message("plan_id"@, v)
        } else {
            false
        }
    }

    /// Checks the job against the rules of [`Job::valid`].
    pub fn validate(&self) -> (r: AgwResult<()>)
        ensures
            r is Ok <==> self.valid(),
            r matches Err(e) ==> e.kind() == ErrorKind::Worker && self.rejected_with(e.detail()),
    {
        match validate_string_field(self.job_id.as_str(), "job_id", MAX_JOB_ID_LEN, true) {
            Err(e) => Err(e),
            Ok(()) => validate_string_field(
                self.plan_id.as_str(),
                "plan_id",
                MAX_PLAN_ID_LEN,
                true,
            ),
        }
    }
}

} // verus!
