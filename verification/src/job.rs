//! Jobs that are a single step.
//!
//! Where a broker hands out every step of a plan as a job of its own, the
//! job carries the command itself: the tool that runs it, the command, and
//! its arguments. Such a job is checked more strictly than a task of a plan:
//! no field may be empty, and none may hold any control character.

use crate::config::{control_char, is_control_char};
use crate::error::{AgwError, AgwResult, ErrorKind};
use crate::plan::{MAX_ARGS_COUNT, MAX_ARG_LEN, MAX_COMMAND_LEN};
use crate::text::{chars_of, decimal, decimal_text, utf8_len};
use crate::validation::{
    check_for_dangerous_patterns, dangerous_unicode, is_dangerous_unicode, is_label_char,
    label_char, pattern_free, pattern_violation, violation_message,
};
use vstd::prelude::*;

verus! {

/// Longest identifier of a job or of a plan, in bytes.
pub const MAX_ID_LEN: usize = 128;

/// Longest name of a tool, in bytes.
pub const MAX_TOOL_LEN: usize = 64;

/// Shortest timeout, in seconds.
pub const MIN_TIMEOUT_SECS: u64 = 1;

/// Longest timeout, in seconds: one day.
pub const MAX_TIMEOUT_SECS: u64 = 86400;

/// One step to be executed by a worker.
#[derive(Debug, Clone, PartialEq)]
pub struct Job {
    /// Identifier of the job.
    pub id: String,
    /// The plan that the step belongs to.
    pub plan_id: String,
    /// Position of the step in its plan.
    pub step_number: u32,
    /// The tool that executes the command.
    pub tool: String,
    /// The command for the tool.
    pub command: String,
    /// The arguments of the command.
    pub args: Vec<String>,
    /// How long the step may run, in seconds.
    pub timeout: Option<u64>,
}

/// A rule that a field of a step job broke.
#[derive(Debug, Clone, Copy, PartialEq, Eq, Structural)]
pub enum StepViolation {
    /// The field is empty.
    Empty,
    /// The field is longer than `max` bytes.
    TooLong { max: usize },
    /// The field holds a control character.
    ControlCharacter,
    /// The field holds a dangerous Unicode character.
    DangerousUnicode,
    /// The field holds something else than letters, digits, `-` and `_`.
    NotLabel,
}

/// What is reported when the field called `field` breaks the rule `v`.
pub open spec fn step_violation_message(field: Seq<char>, v: StepViolation) -> Seq<char> {
    match v {
        StepViolation::Empty => field + " cannot be empty"@,
        StepViolation::TooLong { max } => field + " exceeds maximum length of "@ + decimal_text(
            max as nat,
        ),
        StepViolation::ControlCharacter => field + " contains invalid control characters"@,
        StepViolation::DangerousUnicode => field + " contains dangerous Unicode character"@,
        StepViolation::NotLabel => field
            + " can only contain alphanumeric characters, hyphens, and underscores"@,
    }
}

/// The error that reports that the field called `field_name` breaks the rule `v`.
fn step_violation_error(field_name: &str, v: StepViolation) -> (e: AgwError)
    ensures
        e.has(ErrorKind::Worker, step_violation_message(field_name@, v)),
{
    let mut m = String::from_str(field_name);
    match v {
        StepViolation::Empty => {
            m.append(" cannot be empty");
        },
        StepViolation::TooLong { max } => {
            m.append(" exceeds maximum length of ");
            let digits = decimal(max as u64);
            m.append(digits.as_str());
        },
        StepViolation::ControlCharacter => {
            m.append(" contains invalid control characters");
        },
        StepViolation::DangerousUnicode => {
            m.append(" contains dangerous Unicode character");
        },
        StepViolation::NotLabel => {
            m.append(" can only contain alphanumeric characters, hyphens, and underscores");
        },
    }
    AgwError::Worker(m)
}

/// Whether no character of `value` is a control character.
pub open spec fn control_free(value: Seq<char>) -> bool {
    forall|i: int| 0 <= i < value.len() ==> !control_char(#[trigger] value[i])
}

/// Whether no character of `value` is a dangerous Unicode character.
pub open spec fn unicode_safe(value: Seq<char>) -> bool {
    forall|i: int| 0 <= i < value.len() ==> !dangerous_unicode(#[trigger] value[i])
}

/// Whether `value` holds nothing but letters and digits of any script, `-` and `_`.
pub open spec fn all_label(value: Seq<char>) -> bool {
    forall|i: int| 0 <= i < value.len() ==> label_char(#[trigger] value[i])
}

/// Whether `value` is acceptable as a field of a step job of at most
/// `max_len` bytes: not empty, without control characters and dangerous
/// Unicode, and, with `alphanumeric_only`, of letters, digits, `-` and `_` alone.
pub open spec fn step_field_ok(value: Seq<char>, max_len: usize, alphanumeric_only: bool) -> bool {
    &&& value.len() > 0
    &&& utf8_len(value) <= max_len
    &&& control_free(value)
    &&& unicode_safe(value)
    &&& alphanumeric_only ==> all_label(value)
}

/// The first rule that `value` breaks as a field of a step job, in the order
/// in which the rules are checked, if it breaks one.
pub open spec fn step_field_violation(
    value: Seq<char>,
    max_len: usize,
    alphanumeric_only: bool,
) -> Option<StepViolation> {
    if value.len() == 0 {
        Some(StepViolation::Empty)
    } else if utf8_len(value) > max_len {
        Some(StepViolation::TooLong { max: max_len })
    } else if !control_free(value) {
        Some(StepViolation::ControlCharacter)
    } else if !unicode_safe(value) {
        Some(StepViolation::DangerousUnicode)
    } else if alphanumeric_only && !all_label(value) {
        Some(StepViolation::NotLabel)
    } else {
        None
    }
}

/// Executable form of [`control_free`].
fn is_control_free(chars: &Vec<char>) -> (ok: bool)
    ensures
        ok == control_free(chars@),
{
    let mut i: usize = 0;
    while i < chars.len()
        invariant
            i <= chars.len(),
            forall|j: int| 0 <= j < i ==> !control_char(#[trigger] chars@[j]),
        decreases chars.len() - i,
    {
        if is_control_char(chars[i]) {
            return false;
        }
        i += 1;
    }
    true
}

/// Executable form of [`unicode_safe`].
fn is_unicode_safe(chars: &Vec<char>) -> (ok: bool)
    ensures
        ok == unicode_safe(chars@),
{
    let mut i: usize = 0;
    while i < chars.len()
        invariant
            i <= chars.len(),
            forall|j: int| 0 <= j < i ==> !dangerous_unicode(#[trigger] chars@[j]),
        decreases chars.len() - i,
    {
        if is_dangerous_unicode(chars[i]) {
            return false;
        }
        i += 1;
    }
    true
}

/// Executable form of [`all_label`].
fn is_all_label(chars: &Vec<char>) -> (ok: bool)
    ensures
        ok == all_label(chars@),
{
    let mut i: usize = 0;
    while i < chars.len()
        invariant
            i <= chars.len(),
            forall|j: int| 0 <= j < i ==> label_char(#[trigger] chars@[j]),
        decreases chars.len() - i,
    {
        if !is_label_char(chars[i]) {
            return false;
        }
        i += 1;
    }
    true
}

/// Checks the length and the characters of one field of a step job.
pub fn validate_step_field(
    value: &str,
    field_name: &str,
    max_len: usize,
    alphanumeric_only: bool,
) -> (r: AgwResult<()>)
    ensures
        r is Ok <==> step_field_ok(value@, max_len, alphanumeric_only),
        match step_field_violation(value@, max_len, alphanumeric_only) {
            None => r is Ok,
            Some(v) => r matches Err(e) && e.has(
                ErrorKind::Worker,
                step_violation_message(field_name@, v),
            ),
        },
{
    let chars = chars_of(value);
    if chars.len() == 0 {
        return Err(step_violation_error(field_name, StepViolation::Empty));
    }
    if value.as_bytes().len() > max_len {
        return Err(step_violation_error(field_name, StepViolation::TooLong { max: max_len }));
    }
    if !is_control_free(&chars) {
        return Err(step_violation_error(field_name, StepViolation::ControlCharacter));
    }
    if !is_unicode_safe(&chars) {
        return Err(step_violation_error(field_name, StepViolation::DangerousUnicode));
    }
    if alphanumeric_only && !is_all_label(&chars) {
        return Err(step_violation_error(field_name, StepViolation::NotLabel));
    }
    Ok(())
}

/// Whether `tool` is acceptable as the name of a tool: between 1 and 64
/// bytes of letters, digits, `-` and `_`.
pub open spec fn tool_ok(tool: Seq<char>) -> bool {
    tool.len() > 0 && utf8_len(tool) <= MAX_TOOL_LEN && all_label(tool)
}

/// The first rule that `tool` breaks as the name of a tool, if it breaks one.
pub open spec fn tool_violation(tool: Seq<char>) -> Option<StepViolation> {
    if tool.len() == 0 {
        Some(StepViolation::Empty)
    } else if utf8_len(tool) > MAX_TOOL_LEN {
        Some(StepViolation::TooLong { max: MAX_TOOL_LEN })
    } else if !all_label(tool) {
        Some(StepViolation::NotLabel)
    } else {
        None
    }
}

/// Checks the name of a tool.
fn validate_tool(tool: &str) -> (r: AgwResult<()>)
    ensures
        r is Ok <==> tool_ok(tool@),
        match tool_violation(tool@) {
            None => r is Ok,
            Some(v) => r matches Err(e) && e.has(
                ErrorKind::Worker,
                step_violation_message("Tool name"@, v),
            ),
        },
{
    let chars = chars_of(tool);
    if chars.len() == 0 {
        return Err(step_violation_error("Tool name", StepViolation::Empty));
    }
    if tool.as_bytes().len() > MAX_TOOL_LEN {
        return Err(step_violation_error("Tool name", StepViolation::TooLong { max: MAX_TOOL_LEN }));
    }
    if !is_all_label(&chars) {
        return Err(step_violation_error("Tool name", StepViolation::NotLabel));
    }
    Ok(())
}

/// Whether `value` is acceptable as the command or an argument of a step
/// job of at most `max_len` bytes: acceptable as a field, and free of shell
/// metacharacters and path traversal.
pub open spec fn step_text_ok(value: Seq<char>, max_len: usize) -> bool {
    step_field_ok(value, max_len, false) && pattern_free(value)
}

/// What is reported for `value` as the command or an argument called
/// `field`, if it is not acceptable: the first broken rule of a field, else
/// the dangerous pattern found.
pub open spec fn step_text_message(field: Seq<char>, value: Seq<char>, max_len: usize) -> Option<
    Seq<char>,
> {
    match step_field_violation(value, max_len, false) {
        Some(v) => Some(step_violation_message(field, v)),
        None => match pattern_violation(value) {
            Some(v) => Some(violation_message(field, v)),
            None => None,
        },
    }
}

/// Checks the command or an argument of a step job.
fn validate_step_text(value: &str, field_name: &str, max_len: usize) -> (r: AgwResult<()>)
    ensures
        r is Ok <==> step_text_ok(value@, max_len),
        match step_text_message(field_name@, value@, max_len) {
            None => r is Ok,
            Some(m) => r matches Err(e) && e.has(ErrorKind::Worker, m),
        },
{
    match validate_step_field(value, field_name, max_len, false) {
        Err(e) => Err(e),
        Ok(()) => check_for_dangerous_patterns(value, field_name),
    }
}

/// The name under which the argument at `index` is reported.
pub open spec fn argument_name(index: nat) -> Seq<char> {
    "argument "@ + decimal_text(index)
}

/// What is reported for a job with too many arguments.
pub open spec fn too_many_arguments_message() -> Seq<char> {
    "Arguments count exceeds maximum of "@ + decimal_text(MAX_ARGS_COUNT as nat)
}

/// What is reported for a timeout that is too short.
pub open spec fn timeout_too_short_message() -> Seq<char> {
    "Timeout must be at least "@ + decimal_text(MIN_TIMEOUT_SECS as nat) + " second(s)"@
}

/// What is reported for a timeout that is too long.
pub open spec fn timeout_too_long_message() -> Seq<char> {
    "Timeout exceeds maximum of "@ + decimal_text(MAX_TIMEOUT_SECS as nat) + " seconds"@
}

/// The error of kind `Worker` whose detail is `head`, then `limit`, then `tail`.
fn limit_error(head: &str, limit: u64, tail: &str) -> (e: AgwError)
    ensures
        e.has(ErrorKind::Worker, head@ + decimal_text(limit as nat) + tail@),
{
    let mut m = String::from_str(head);
    let digits = decimal(limit);
    m.append(digits.as_str());
    m.append(tail);
    AgwError::Worker(m)
}

impl Job {
    /// A job without arguments and without a timeout.
    pub fn new(id: String, plan_id: String, step_number: u32, tool: String, command: String) -> (job:
        Self)
        ensures
            job.id == id,
            job.plan_id == plan_id,
            job.step_number == step_number,
            job.tool == tool,
            job.command == command,
            job.args@.len() == 0,
            job.timeout is None,
    {
        Job { id, plan_id, step_number, tool, command, args: Vec::new(), timeout: None }
    }

    /// Whether the job is acceptable: both identifiers pass the rules of a
    /// field of letters and digits, the tool has a valid name, the command
    /// and each of at most 256 arguments pass the rules of a field and hold
    /// no dangerous pattern, and the timeout, if any, lies between one
    /// second and one day.
    pub open spec fn valid(&self) -> bool {
        &&& step_field_ok(self.id@, MAX_ID_LEN, true)
        &&& step_field_ok(self.plan_id@, MAX_ID_LEN, true)
        &&& tool_ok(self.tool@)
        &&& step_text_ok(self.command@, MAX_COMMAND_LEN)
        &&& self.args.len() <= MAX_ARGS_COUNT
        &&& forall|i: int|
            0 <= i < self.args.len() ==> step_text_ok((#[trigger] self.args[i])@, MAX_ARG_LEN)
        &&& self.timeout matches Some(t) ==> MIN_TIMEOUT_SECS <= t <= MAX_TIMEOUT_SECS
    }

    /// Whether `index` is the first argument that breaks a rule.
    pub open spec fn first_bad_arg(&self, index: int) -> bool {
        &&& 0 <= index < self.args.len()
        &&& !step_text_ok(self.args[index]@, MAX_ARG_LEN)
        &&& forall|j: int|
            0 <= j < index ==> step_text_ok((#[trigger] self.args[j])@, MAX_ARG_LEN)
    }

    /// Whether `message` is what is reported for the job: the first broken
    /// rule, going through the identifiers, the tool, the command, the
    /// number of arguments, the arguments in order, and the timeout.
    pub open spec fn rejected_with(&self, message: Seq<char>) -> bool {
        if let Some(v) = step_field_violation(self.id@, MAX_ID_LEN, true) {
            message == step_violation_message("job ID"@, v)
        } else if let Some(v) = step_field_violation(self.plan_id@, MAX_ID_LEN, true) {
            message == step_violation_message("plan ID"@, v)
        } else if let Some(v) = tool_violation(self.tool@) {
            message == step_violation_message("Tool name"@, v)
        } else if let Some(m) = step_text_message("command"@, self.command@, MAX_COMMAND_LEN) {
            message == m
        } else if self.args.len() > MAX_ARGS_COUNT {
            message == too_many_arguments_message()
        } else if exists|i: int| self.first_bad_arg(i) {
            exists|i: int|
                #![trigger self.first_bad_arg(i)]
                self.first_bad_arg(i) && Some(message) == step_text_message(
                    argument_name(i as nat),
                    self.args[i]@,
                    MAX_ARG_LEN,
                )
        } else if let Some(t) = self.timeout {
            if t < MIN_TIMEOUT_SECS {
                message == timeout_too_short_message()
            } else {
                t > MAX_TIMEOUT_SECS && message == timeout_too_long_message()
            }
        } else {
            false
        }
    }

    /// Checks the job against the rules of [`Job::valid`].
    ///
    /// The error names the first broken rule, going through the identifiers,
    /// the tool, the command, the number of arguments, the arguments in
    /// order, and the timeout.
    pub fn validate(&self) -> (r: AgwResult<()>)
        ensures
            r is Ok <==> self.valid(),
            r matches Err(e) ==> e.kind() == ErrorKind::Worker && self.rejected_with(e.detail()),
    {
        match validate_step_field(self.id.as_str(), "job ID", MAX_ID_LEN, true) {
            Err(e) => {
                return Err(e);
            },
            Ok(()) => {},
        }
        match validate_step_field(self.plan_id.as_str(), "plan ID", MAX_ID_LEN, true) {
            Err(e) => {
                return Err(e);
            },
            Ok(()) => {},
        }
        match validate_tool(self.tool.as_str()) {
            Err(e) => {
                return Err(e);
            },
            Ok(()) => {},
        }
        match validate_step_text(self.command.as_str(), "command", MAX_COMMAND_LEN) {
            Err(e) => {
                return Err(e);
            },
            Ok(()) => {},
        }
        if self.args.len() > MAX_ARGS_COUNT {
            let mut m = String::from_str("Arguments count exceeds maximum of ");
            let digits = decimal(MAX_ARGS_COUNT as u64);
            m.append(digits.as_str());
            return Err(AgwError::Worker(m));
        }
        let mut i: usize = 0;
        while i < self.args.len()
            invariant
                i <= self.args.len(),
                self.args.len() <= MAX_ARGS_COUNT,
                step_field_violation(self.id@, MAX_ID_LEN, true) is None,
                step_field_violation(self.plan_id@, MAX_ID_LEN, true) is None,
                tool_violation(self.tool@) is None,
                step_text_message("command"@, self.command@, MAX_COMMAND_LEN) is None,
                forall|j: int|
                    0 <= j < i ==> step_text_ok((#[trigger] self.args[j])@, MAX_ARG_LEN),
            decreases self.args.len() - i,
        {
            let mut name = String::from_str("argument ");
            let digits = decimal(i as u64);
            name.append(digits.as_str());
            match validate_step_text(self.args[i].as_str(), name.as_str(), MAX_ARG_LEN) {
                Err(e) => {
                    assert(self.first_bad_arg(i as int));
                    return Err(e);
                },
                Ok(()) => {},
            }
            i += 1;
        }
        if let Some(timeout) = self.timeout {
            if timeout < MIN_TIMEOUT_SECS {
                return Err(limit_error("Timeout must be at least ", MIN_TIMEOUT_SECS, " second(s)"));
            }
            if timeout > MAX_TIMEOUT_SECS {
                return Err(limit_error("Timeout exceeds maximum of ", MAX_TIMEOUT_SECS, " seconds"));
            }
        }
        Ok(())
    }
}

} // verus!
