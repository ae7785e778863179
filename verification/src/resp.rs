//! What the worker says to the broker, and what it makes of the replies.
//!
//! The broker speaks RESP. A command is a list of words, the name of the
//! command first. Sending it and reading the reply is left to the caller; the
//! functions here build the commands, judge the replies, and decide what to
//! write when a result is published and when to try again.

use crate::error::{AgwError, AgwResult, ErrorKind};
use crate::text::{
    chars_of, concat3, contains_char, decimal, decimal_text, join, joined, same_text, utf8_len,
    views_of,
};
use crate::validation::{is_label_char, is_shell_metachar, label_char, shell_metachar};
use vstd::prelude::*;

verus! {

/// The list of jobs that wait for a worker.
pub const QUEUE_READY: &'static str = "queue:ready";

/// The list of jobs that a worker has taken and not yet finished.
pub const QUEUE_PROCESSING: &'static str = "queue:processing";

/// Seconds to wait for a job before looking after the heartbeat again.
pub const FETCH_TIMEOUT_SECS: u64 = 5;

/// Largest number of tools a worker may register.
pub const MAX_TOOLS: usize = 100;

/// Longest name of a tool, in bytes.
pub const MAX_TOOL_NAME_LEN: usize = 64;

/// Whether `c` is one of the digits `0` to `9`.
pub open spec fn ascii_digit(c: char) -> bool {
    '0' <= c <= '9'
}

/// The number that the decimal digits `digits` write.
pub open spec fn decimal_value(digits: Seq<char>) -> nat
    decreases digits.len(),
{
    if digits.len() == 0 {
        0
    } else {
        decimal_value(digits.drop_last()) * 10 + (digits.last() as nat - '0' as nat) as nat
    }
}

/// `text` without the `+` that it may start with.
pub open spec fn unsigned_part(text: Seq<char>) -> Seq<char> {
    if text.len() > 0 && text[0] == '+' {
        text.subrange(1, text.len() as int)
    } else {
        text
    }
}

/// Whether `text` writes a port: an optional `+`, then at least one decimal
/// digit, the number being at most 65535.
pub open spec fn port_text(text: Seq<char>) -> bool {
    let digits = unsigned_part(text);
    &&& digits.len() > 0
    &&& forall|i: int| 0 <= i < digits.len() ==> ascii_digit(#[trigger] digits[i])
    &&& decimal_value(digits) <= u16::MAX
}

/// Whether `address` has the form `host:port` with its only colon at
/// position `colon`: a non-empty host without shell metacharacters before it,
/// a port after it.
pub open spec fn address_splits_at(address: Seq<char>, colon: int) -> bool {
    &&& 0 < colon < address.len()
    &&& address[colon] == ':'
    &&& forall|i: int| 0 <= i < address.len() && i != colon ==> #[trigger] address[i] != ':'
    &&& forall|i: int| 0 <= i < colon ==> !shell_metachar(#[trigger] address[i])
    &&& port_text(address.subrange(colon + 1, address.len() as int))
}

/// Whether `address` has the form `host:port`.
pub open spec fn valid_address(address: Seq<char>) -> bool {
    exists|colon: int| address_splits_at(address, colon)
}

/// A number does not get smaller when more digits are written after it.
proof fn lemma_decimal_value_grows(digits: Seq<char>, upto: int)
    requires
        0 <= upto <= digits.len(),
    ensures
        decimal_value(digits.take(upto)) <= decimal_value(digits),
    decreases digits.len() - upto,
{
    if upto < digits.len() {
        lemma_decimal_value_grows(digits, upto + 1);
        assert(digits.take(upto + 1).drop_last() =~= digits.take(upto));
    } else {
        assert(digits.take(upto) =~= digits);
    }
}

/// Whether `chars[from..]` writes a port.
fn is_port_text(chars: &Vec<char>, from: usize) -> (ok: bool)
    requires
        from <= chars.len(),
    ensures
        ok == port_text(chars@.subrange(from as int, chars.len() as int)),
{
    let n: usize = chars.len();
    let ghost text = chars@.subrange(from as int, n as int);
    let start: usize = if from < n && chars[from] == '+' {
        from + 1
    } else {
        from
    };
    let ghost digits = chars@.subrange(start as int, n as int);
    if start == n {
        return false;
    }
    let mut value: u32 = 0;
    let mut i: usize = start;
    while i < n
        invariant
            start <= i <= n,
            start < n,
            n == chars.len(),
            text == chars@.subrange(from as int, n as int),
            digits == chars@.subrange(start as int, n as int),
            digits == unsigned_part(text),
            from <= start,
            forall|j: int| 0 <= j < i - start ==> ascii_digit(#[trigger] digits[j]),
            value == decimal_value(digits.take(i - start)),
            value <= u16::MAX,
        decreases n - i,
    {
        let c = chars[i];
        if !('0' <= c && c <= '9') {
            assert(!ascii_digit(digits[i - start]));
            return false;
        }
        let d: u32 = (c as u32) - ('0' as u32);
        proof {
            assert(digits.take(i - start + 1).drop_last() =~= digits.take(i - start));
        }
        value = value * 10 + d;
        if value > 65535 {
            proof {
                lemma_decimal_value_grows(digits, i - start + 1);
            }
            return false;
        }
        i += 1;
    }
    assert(digits.take(n - start) =~= digits);
    true
}

/// Whether `address` has the form `host:port`: exactly one colon, before it
/// a non-empty host without shell metacharacters, after it a port between 0
/// and 65535.
pub fn is_valid_address(address: &str) -> (ok: bool)
    ensures
        ok == valid_address(address@),
{
    let chars = chars_of(address);
    let n: usize = chars.len();
    let mut colon: usize = 0;
    while colon < n && chars[colon] != ':'
        invariant
            colon <= n,
            n == chars.len(),
            forall|i: int| 0 <= i < colon ==> #[trigger] chars@[i] != ':',
        decreases n - colon,
    {
        colon += 1;
    }
    if colon == n || colon == 0 {
        assert forall|at: int| !address_splits_at(chars@, at) by {
            if address_splits_at(chars@, at) {
                if colon == n {
                    assert(chars@[at] != ':');
                } else {
                    assert(chars@[0] == ':');
                }
            }
        }
        return false;
    }
    let ghost found = colon as int;
    assert forall|at: int| address_splits_at(chars@, at) implies at == found by {
        if at != found {
            assert(chars@[found] != ':');
        }
    }
    let mut i: usize = 0;
    while i < n
        invariant
            i <= n,
            n == chars.len(),
            chars@ == address@,
            0 < colon < n,
            found == colon,
            chars@[found] == ':',
            forall|at: int| address_splits_at(chars@, at) ==> at == found,
            forall|j: int| 0 <= j < i && j != colon ==> #[trigger] chars@[j] != ':',
            forall|j: int| 0 <= j < i && j < colon ==> !shell_metachar(#[trigger] chars@[j]),
        decreases n - i,
    {
        let c = chars[i];
        if i != colon && c == ':' {
            return false;
        }
        if i < colon && is_shell_metachar(c) {
            return false;
        }
        i += 1;
    }
    let port_ok = is_port_text(&chars, colon + 1);
    if port_ok {
        assert(address_splits_at(chars@, found));
    } else {
        assert(!address_splits_at(chars@, found));
    }
    port_ok
}

/// The address as the URL under which the broker is reached.
pub fn broker_url(address: &str) -> (url: String)
    ensures
        url@ == "redis://"@ + address@,
{
    let mut url = String::from_str("redis://");
    url.append(address);
    url
}

/// What is reported for an address that has not the form `host:port`.
pub fn invalid_address_error() -> (e: AgwError)
    ensures
        e.has(ErrorKind::InvalidConfig, "Invalid AGQ address format"@),
{
    AgwError::InvalidConfig(String::from_str("Invalid AGQ address format"))
}

/// The command made of `name` and one argument.
fn command1(name: &str, first: &str) -> (words: Vec<String>)
    ensures
        views_of(words@) == seq![name@, first@],
{
    let mut words: Vec<String> = Vec::new();
    words.push(String::from_str(name));
    words.push(String::from_str(first));
    words
}

/// The command made of `name` and two arguments.
fn command2(name: &str, first: &str, second: &str) -> (words: Vec<String>)
    ensures
        views_of(words@) == seq![name@, first@, second@],
{
    let mut words: Vec<String> = Vec::new();
    words.push(String::from_str(name));
    words.push(String::from_str(first));
    words.push(String::from_str(second));
    words
}

/// The command made of `name` and three arguments.
fn command3(name: &str, first: &str, second: &str, third: &str) -> (words: Vec<String>)
    ensures
        views_of(words@) == seq![name@, first@, second@, third@],
{
    let mut words: Vec<String> = Vec::new();
    words.push(String::from_str(name));
    words.push(String::from_str(first));
    words.push(String::from_str(second));
    words.push(String::from_str(third));
    words
}

/// `AUTH key`: presents the session key.
pub fn auth_command(session_key: &str) -> (words: Vec<String>)
    ensures
        views_of(words@) == seq!["AUTH"@, session_key@],
{
    command1("AUTH", session_key)
}

/// `PING worker`: the heartbeat of a worker.
pub fn heartbeat_command(worker_id: &str) -> (words: Vec<String>)
    ensures
        views_of(words@) == seq!["PING"@, worker_id@],
{
    command1("PING", worker_id)
}

/// `SET key value`.
pub fn set_command(key: &str, value: &str) -> (words: Vec<String>)
    ensures
        views_of(words@) == seq!["SET"@, key@, value@],
{
    command2("SET", key, value)
}

/// `BRPOP queue timeout`: takes the last entry of a list, waiting for one
/// for at most `timeout` seconds.
pub fn brpop_command(queue: &str, timeout: u64) -> (words: Vec<String>)
    ensures
        views_of(words@) == seq!["BRPOP"@, queue@, decimal_text(timeout as nat)],
{
    let seconds = decimal(timeout);
    command2("BRPOP", queue, seconds.as_str())
}

/// `BRPOPLPUSH source destination timeout`: moves the last entry of
/// `source` to the front of `destination` in one step, waiting for one for
/// at most `timeout` seconds.
pub fn brpoplpush_command(source: &str, destination: &str, timeout: u64) -> (words: Vec<String>)
    ensures
        views_of(words@) == seq![
            "BRPOPLPUSH"@,
            source@,
            destination@,
            decimal_text(timeout as nat),
        ],
{
    let seconds = decimal(timeout);
    command3("BRPOPLPUSH", source, destination, seconds.as_str())
}

/// `LREM key count value`: removes the first `count` entries equal to `value`.
pub fn lrem_command(key: &str, count: u64, value: &str) -> (words: Vec<String>)
    ensures
        views_of(words@) == seq!["LREM"@, key@, decimal_text(count as nat), value@],
{
    let number = decimal(count);
    command3("LREM", key, number.as_str(), value)
}

/// `JOB.GET job`: asks for the JSON text of a job.
pub fn job_get_command(job_id: &str) -> (words: Vec<String>)
    ensures
        views_of(words@) == seq!["JOB.GET"@, job_id@],
{
    command1("JOB.GET", job_id)
}

/// `PLAN.GET plan`: asks for the JSON text of a plan.
pub fn plan_get_command(plan_id: &str) -> (words: Vec<String>)
    ensures
        views_of(words@) == seq!["PLAN.GET"@, plan_id@],
{
    command1("PLAN.GET", plan_id)
}

/// The error of kind `RespProtocol` whose detail is `prefix` followed by `detail`.
fn protocol_error(prefix: &str, detail: &str) -> (e: AgwError)
    ensures
        e.has(ErrorKind::RespProtocol, prefix@ + detail@),
{
    let mut m = String::from_str(prefix);
    m.append(detail);
    AgwError::RespProtocol(m)
}

/// Judges what came back for `AUTH`: only the reply `OK` lets the worker in.
/// `Err` holds what the transport reported when no reply came.
pub fn check_auth_reply(reply: Result<String, String>) -> (r: AgwResult<()>)
    ensures
        match reply {
            Ok(text) => if text@ == "OK"@ {
                r is Ok
            } else {
                r matches Err(e) && e.has(
                    ErrorKind::Authentication,
                    "Unexpected AUTH response: "@ + text@,
                )
            },
            Err(failure) => r matches Err(e) && e.has(
                ErrorKind::Authentication,
                "AUTH failed: "@ + failure@,
            ),
        },
{
    match reply {
        Ok(text) => {
            if same_text(text.as_str(), "OK") {
                Ok(())
            } else {
                let mut m = String::from_str("Unexpected AUTH response: ");
                m.append(text.as_str());
                Err(AgwError::Authentication(m))
            }
        },
        Err(failure) => {
            let mut m = String::from_str("AUTH failed: ");
            m.append(failure.as_str());
            Err(AgwError::Authentication(m))
        },
    }
}

/// Judges what came back for `PING`: any reply will do.
pub fn check_heartbeat_reply(reply: Result<String, String>) -> (r: AgwResult<()>)
    ensures
        match reply {
            Ok(_) => r is Ok,
            Err(failure) => r matches Err(e) && e.has(
                ErrorKind::RespProtocol,
                "PING failed: "@ + failure@,
            ),
        },
{
    match reply {
        Ok(_) => Ok(()),
        Err(failure) => Err(protocol_error("PING failed: ", failure.as_str())),
    }
}

/// Judges what came back for `SET`: only the reply `OK` counts as written.
pub fn check_set_reply(reply: Result<String, String>) -> (r: AgwResult<()>)
    ensures
        match reply {
            Ok(text) => if text@ == "OK"@ {
                r is Ok
            } else {
                r matches Err(e) && e.has(
                    ErrorKind::RespProtocol,
                    "Unexpected SET response: "@ + text@,
                )
            },
            Err(failure) => r matches Err(e) && e.has(
                ErrorKind::RespProtocol,
                "SET failed: "@ + failure@,
            ),
        },
{
    match reply {
        Ok(text) => {
            if same_text(text.as_str(), "OK") {
                Ok(())
            } else {
                Err(protocol_error("Unexpected SET response: ", text.as_str()))
            }
        },
        Err(failure) => Err(protocol_error("SET failed: ", failure.as_str())),
    }
}

/// What is reported when an entry came from another list than the one asked.
pub open spec fn wrong_queue_message(expected: Seq<char>, got: Seq<char>) -> Seq<char> {
    "Job received from unexpected queue: expected '"@ + expected + "', got '"@ + got + "'"@
}

/// Judges what came back for `BRPOP queue`: nothing when the wait ran out,
/// else the list the entry came from and the entry. An entry from another
/// list than `queue` is refused.
pub fn check_brpop_reply(queue: &str, reply: Result<Option<(String, String)>, String>) -> (r:
    AgwResult<Option<String>>)
    ensures
        match reply {
            Ok(None) => r == Ok::<Option<String>, AgwError>(None),
            Ok(Some(pair)) => if pair.0@ == queue@ {
                r == Ok::<Option<String>, AgwError>(Some(pair.1))
            } else {
                r matches Err(e) && e.has(
                    ErrorKind::RespProtocol,
                    wrong_queue_message(queue@, pair.0@),
                )
            },
            Err(failure) => r matches Err(e) && e.has(
                ErrorKind::RespProtocol,
                "BRPOP failed: "@ + failure@,
            ),
        },
{
    match reply {
        Ok(None) => Ok(None),
        Ok(Some(pair)) => {
            let (from, value) = pair;
            if same_text(from.as_str(), queue) {
                Ok(Some(value))
            } else {
                let mut m = String::from_str("Job received from unexpected queue: expected '");
                m.append(queue);
                m.append("', got '");
                m.append(from.as_str());
                m.append("'");
                Err(AgwError::RespProtocol(m))
            }
        },
        Err(failure) => Err(protocol_error("BRPOP failed: ", failure.as_str())),
    }
}

/// Judges what came back for `BRPOPLPUSH`: the entry that was moved, or
/// nothing when the wait ran out.
pub fn check_brpoplpush_reply(reply: Result<Option<String>, String>) -> (r: AgwResult<
    Option<String>,
>)
    ensures
        match reply {
            Ok(moved) => r == Ok::<Option<String>, AgwError>(moved),
            Err(failure) => r matches Err(e) && e.has(
                ErrorKind::RespProtocol,
                "BRPOPLPUSH failed: "@ + failure@,
            ),
        },
{
    match reply {
        Ok(moved) => Ok(moved),
        Err(failure) => Err(protocol_error("BRPOPLPUSH failed: ", failure.as_str())),
    }
}

/// Judges what came back for `JOB.GET` or `PLAN.GET`, whichever `command`
/// names: the JSON text, which has to be there.
pub fn check_get_reply(command: &str, id: &str, reply: Result<Option<String>, String>) -> (r:
    AgwResult<String>)
    ensures
        match reply {
            Ok(Some(body)) => r == Ok::<String, AgwError>(body),
            Ok(None) => r matches Err(e) && e.has(
                ErrorKind::RespProtocol,
                command@ + " found nothing for '"@ + id@ + "'"@,
            ),
            Err(failure) => r matches Err(e) && e.has(
                ErrorKind::RespProtocol,
                command@ + " failed: "@ + failure@,
            ),
        },
{
    match reply {
        Ok(Some(body)) => Ok(body),
        Ok(None) => {
            let mut m = String::from_str(command);
            m.append(" found nothing for '");
            m.append(id);
            m.append("'");
            Err(AgwError::RespProtocol(m))
        },
        Err(failure) => {
            let mut m = String::from_str(command);
            m.append(" failed: ");
            m.append(failure.as_str());
            Err(AgwError::RespProtocol(m))
        },
    }
}

/// Judges what came back for `LREM`: the number of entries removed.
pub fn check_lrem_reply(reply: Result<u64, String>) -> (r: AgwResult<u64>)
    ensures
        match reply {
            Ok(removed) => r == Ok::<u64, AgwError>(removed),
            Err(failure) => r matches Err(e) && e.has(
                ErrorKind::RespProtocol,
                "LREM failed: "@ + failure@,
            ),
        },
{
    match reply {
        Ok(removed) => Ok(removed),
        Err(failure) => Err(protocol_error("LREM failed: ", failure.as_str())),
    }
}

/// A value to store under a key with `SET`.
#[derive(Debug, Clone, PartialEq, Eq)]
pub struct KeyValue {
    pub key: String,
    pub value: String,
}

/// Whether `name` is acceptable as the name of a tool: between 1 and 64
/// bytes, and nothing but letters and digits of any script, `-` and `_`.
pub open spec fn valid_tool_name(name: Seq<char>) -> bool {
    &&& name.len() > 0
    &&& utf8_len(name) <= MAX_TOOL_NAME_LEN
    &&& forall|i: int| 0 <= i < name.len() ==> label_char(#[trigger] name[i])
}

/// Whether the list of tools can be registered: at most 100 names, each of
/// them acceptable.
pub open spec fn valid_tools(tools: Seq<String>) -> bool {
    &&& tools.len() <= MAX_TOOLS
    &&& forall|i: int| 0 <= i < tools.len() ==> valid_tool_name((#[trigger] tools[i])@)
}

/// What is reported for a list of `count` tools, which is too many.
pub open spec fn too_many_tools_message(count: nat) -> Seq<char> {
    "Too many tools: "@ + decimal_text(count) + " (maximum 100)"@
}

/// What is reported for `name`, if it is no acceptable name of a tool.
pub open spec fn tool_name_message(name: Seq<char>) -> Option<Seq<char>> {
    if name.len() == 0 {
        Some("Tool name cannot be empty"@)
    } else if utf8_len(name) > MAX_TOOL_NAME_LEN {
        Some(
            "Tool name too long: '"@ + name + "' ("@ + decimal_text(utf8_len(name))
                + " chars, maximum 64)"@,
        )
    } else if !valid_tool_name(name) {
        Some(
            "Invalid tool name '"@ + name
                + "': only alphanumeric, hyphens, and underscores allowed"@,
        )
    } else {
        None
    }
}

/// Whether `index` is the first tool whose name is not acceptable.
pub open spec fn first_bad_tool(tools: Seq<String>, index: int) -> bool {
    &&& 0 <= index < tools.len()
    &&& !valid_tool_name(tools[index]@)
    &&& forall|j: int| 0 <= j < index ==> valid_tool_name((#[trigger] tools[j])@)
}

/// Whether `message` is what is reported for a list of tools that cannot be
/// registered: too many of them, or else the first name that is not acceptable.
pub open spec fn tools_rejected_with(tools: Seq<String>, message: Seq<char>) -> bool {
    if tools.len() > MAX_TOOLS {
        message == too_many_tools_message(tools.len())
    } else {
        exists|i: int|
            #![trigger first_bad_tool(tools, i)]
            first_bad_tool(tools, i) && Some(message) == tool_name_message(tools[i]@)
    }
}

/// The key under which the tools of the worker `worker_id` are stored.
pub open spec fn tools_key(worker_id: Seq<char>) -> Seq<char> {
    "worker:"@ + worker_id + ":tools"@
}

/// Checks the name of one tool.
fn validate_tool_name(name: &str) -> (r: AgwResult<()>)
    ensures
        r is Ok <==> valid_tool_name(name@),
        match tool_name_message(name@) {
            None => r is Ok,
            Some(m) => r matches Err(e) && e.has(ErrorKind::RespProtocol, m),
        },
{
    let chars = chars_of(name);
    if chars.len() == 0 {
        return Err(AgwError::RespProtocol(String::from_str("Tool name cannot be empty")));
    }
    let bytes: usize = name.as_bytes().len();
    if bytes > MAX_TOOL_NAME_LEN {
        let mut m = String::from_str("Tool name too long: '");
        m.append(name);
        m.append("' (");
        let digits = decimal(bytes as u64);
        m.append(digits.as_str());
        m.append(" chars, maximum 64)");
        return Err(AgwError::RespProtocol(m));
    }
    let mut i: usize = 0;
    while i < chars.len()
        invariant
            i <= chars.len(),
            chars@ == name@,
            name@.len() > 0,
            utf8_len(name@) <= MAX_TOOL_NAME_LEN,
            forall|j: int| 0 <= j < i ==> label_char(#[trigger] chars@[j]),
        decreases chars.len() - i,
    {
        if !is_label_char(chars[i]) {
            let m = concat3(
                "Invalid tool name '",
                name,
                "': only alphanumeric, hyphens, and underscores allowed",
            );
            return Err(AgwError::RespProtocol(m));
        }
        i += 1;
    }
    Ok(())
}

/// What to store for a worker that offers `tools`.
///
/// Nothing for an empty list. Else the names, joined by commas, under the key
/// `worker:<worker_id>:tools`, provided that there are at most 100 names and
/// each is between 1 and 64 bytes of letters, digits, `-` and `_`.
pub fn register_tools(worker_id: &str, tools: &Vec<String>) -> (r: AgwResult<Option<KeyValue>>)
    ensures
        r is Ok <==> valid_tools(tools@),
        r matches Ok(entry) ==> (tools.len() == 0 ==> entry is None) && (tools.len() > 0 ==> (
        entry matches Some(kv) && kv.key@ == tools_key(worker_id@) && kv.value@ == joined(
            views_of(tools@),
            ","@,
        ))),
        r matches Err(e) ==> e.kind() == ErrorKind::RespProtocol && tools_rejected_with(
            tools@,
            e.detail(),
        ),
{
    if tools.len() == 0 {
        return Ok(None);
    }
    if tools.len() > MAX_TOOLS {
        let mut m = String::from_str("Too many tools: ");
        let digits = decimal(tools.len() as u64);
        m.append(digits.as_str());
        m.append(" (maximum 100)");
        return Err(AgwError::RespProtocol(m));
    }
    let mut i: usize = 0;
    while i < tools.len()
        invariant
            i <= tools.len(),
            tools.len() <= MAX_TOOLS,
            forall|j: int| 0 <= j < i ==> valid_tool_name((#[trigger] tools@[j])@),
        decreases tools.len() - i,
    {
        match validate_tool_name(tools[i].as_str()) {
            Err(e) => {
                assert(first_bad_tool(tools@, i as int));
                return Err(e);
            },
            Ok(()) => {},
        }
        i += 1;
    }
    let key = concat3("worker:", worker_id, ":tools");
    let value = join(tools, ",");
    Ok(Some(KeyValue { key, value }))
}

/// Whether `status` is one a job can have: `completed`, `failed`, `pending`
/// or `running`.
pub open spec fn valid_status(status: Seq<char>) -> bool {
    status == "completed"@ || status == "failed"@ || status == "pending"@ || status == "running"@
}

/// Executable form of [`valid_status`].
pub fn is_valid_status(status: &str) -> (ok: bool)
    ensures
        ok == valid_status(status@),
{
    same_text(status, "completed") || same_text(status, "failed") || same_text(status, "pending")
        || same_text(status, "running")
}

/// Whether the result of the job `job_id` can be published with `status`: the
/// identifier is not empty and holds no colon, and the status is one a job
/// can have.
pub open spec fn publishable(job_id: Seq<char>, status: Seq<char>) -> bool {
    job_id.len() > 0 && !job_id.contains(':') && valid_status(status)
}

/// What is reported for a result that cannot be published.
pub open spec fn unpublishable_message(job_id: Seq<char>, status: Seq<char>) -> Option<Seq<char>> {
    if job_id.len() == 0 {
        Some("Job ID cannot be empty"@)
    } else if job_id.contains(':') {
        Some("Job ID cannot contain colons: "@ + job_id)
    } else if !valid_status(status) {
        Some("Invalid job status: "@ + status)
    } else {
        None
    }
}

/// The key under which the part of the result of job `job_id` that is
/// called `part` is stored.
pub open spec fn result_key(job_id: Seq<char>, part: Seq<char>) -> Seq<char> {
    "job:"@ + job_id + ":"@ + part
}

/// Whether `writes` is what publishes the result of job `job_id`: its
/// standard output, then its standard error, then its status. The status
/// comes last, so that whoever sees it finds the outputs already there.
pub open spec fn result_writes(
    writes: Seq<KeyValue>,
    job_id: Seq<char>,
    stdout: Seq<char>,
    stderr: Seq<char>,
    status: Seq<char>,
) -> bool {
    &&& writes.len() == 3
    &&& writes[0].key@ == result_key(job_id, "stdout"@)
    &&& writes[0].value@ == stdout
    &&& writes[1].key@ == result_key(job_id, "stderr"@)
    &&& writes[1].value@ == stderr
    &&& writes[2].key@ == result_key(job_id, "status"@)
    &&& writes[2].value@ == status
}

/// The key under which `part` of the result of `job_id` is stored.
fn make_result_key(job_id: &str, part: &str) -> (key: String)
    ensures
        key@ == result_key(job_id@, part@),
{
    let mut key = String::from_str("job:");
    key.append(job_id);
    key.append(":");
    key.append(part);
    key
}

/// What to store, and in which order, to publish the result of a job.
///
/// An empty identifier, one that holds a colon, and a status other than
/// `completed`, `failed`, `pending` and `running` are refused before anything
/// is stored.
pub fn post_job_result_once(job_id: &str, stdout: &str, stderr: &str, status: &str) -> (r:
    AgwResult<Vec<KeyValue>>)
    ensures
        r is Ok <==> publishable(job_id@, status@),
        r matches Ok(writes) ==> result_writes(writes@, job_id@, stdout@, stderr@, status@),
        match unpublishable_message(job_id@, status@) {
            None => r is Ok,
            Some(m) => r matches Err(e) && e.has(ErrorKind::RespProtocol, m),
        },
{
    let id = chars_of(job_id);
    if id.len() == 0 {
        return Err(AgwError::RespProtocol(String::from_str("Job ID cannot be empty")));
    }
    if contains_char(&id, ':') {
        return Err(protocol_error("Job ID cannot contain colons: ", job_id));
    }
    if !is_valid_status(status) {
        return Err(protocol_error("Invalid job status: ", status));
    }
    let mut writes: Vec<KeyValue> = Vec::new();
    writes.push(
        KeyValue { key: make_result_key(job_id, "stdout"), value: String::from_str(stdout) },
    );
    writes.push(
        KeyValue { key: make_result_key(job_id, "stderr"), value: String::from_str(stderr) },
    );
    writes.push(
        KeyValue { key: make_result_key(job_id, "status"), value: String::from_str(status) },
    );
    Ok(writes)
}

/// How often the publication of a result is tried.
pub const MAX_RETRIES: u32 = 3;

/// Milliseconds to wait after the first failed try.
pub const INITIAL_BACKOFF_MS: u64 = 100;

/// Milliseconds to wait after the try number `attempt`, counted from 0, has
/// failed: 100, 200, 400, and so on, doubling each time.
pub open spec fn backoff_after(attempt: nat) -> nat
    decreases attempt,
{
    if attempt == 0 {
        INITIAL_BACKOFF_MS as nat
    } else {
        2 * backoff_after((attempt - 1) as nat)
    }
}

/// What to do after a try to publish a result has failed.
#[derive(Debug, Clone, Copy, PartialEq, Eq, Structural)]
pub enum RetryDecision {
    /// Wait for `millis` milliseconds, then try again from the first write.
    RetryAfter { millis: u64 },
    /// Give up, and report the failure of the last try.
    GiveUp,
}

/// What to do after the try number `attempt`, counted from 0, has failed:
/// wait and try again as long as fewer than three tries were made.
pub open spec fn retry_decision(attempt: u32) -> RetryDecision {
    if attempt + 1 < MAX_RETRIES {
        RetryDecision::RetryAfter { millis: backoff_after(attempt as nat) as u64 }
    } else {
        RetryDecision::GiveUp
    }
}

/// What to do after the try number `attempt`, counted from 0, has failed.
pub fn after_failed_attempt(attempt: u32) -> (decision: RetryDecision)
    ensures
        decision == retry_decision(attempt),
        attempt == 0 ==> decision == (RetryDecision::RetryAfter { millis: 100 }),
        attempt == 1 ==> decision == (RetryDecision::RetryAfter { millis: 200 }),
        attempt >= 2 ==> decision == RetryDecision::GiveUp,
{
    proof {
        reveal_with_fuel(backoff_after, 3);
    }
    if attempt == 0 {
        RetryDecision::RetryAfter { millis: INITIAL_BACKOFF_MS }
    } else if attempt == 1 {
        RetryDecision::RetryAfter { millis: 2 * INITIAL_BACKOFF_MS }
    } else {
        RetryDecision::GiveUp
    }
}

} // verus!
