//! The configuration of a worker and the rules its values obey.

use crate::error::{AgwError, AgwResult, ErrorKind};
use crate::text::{chars_of, contains_char, utf8_len};
use crate::validation::{
    has_path_traversal, is_label_char, label_char, shell_metachar, starts_with_dot_dot,
    traversal_at,
};
use core::time::Duration;
use vstd::prelude::*;

verus! {

/// Fewest bytes of a session key.
pub const MIN_SESSION_KEY_LEN: usize = 8;

/// Most bytes of a worker identifier or a worker name.
pub const MAX_WORKER_ID_LEN: usize = 64;

/// The span of time that lasts `secs` whole seconds.
pub uninterp spec fn duration_of_secs(secs: u64) -> Duration;

/// `Duration::from_secs` makes the span of time that lasts the given number
/// of whole seconds.
pub assume_specification[ Duration::from_secs ](secs: u64) -> (d: Duration)
    ensures
        d == duration_of_secs(secs),
;

/// What a worker is started with. Nothing changes it afterwards.
#[derive(Debug, Clone)]
pub struct Config {
    /// Where the broker listens, as `host:port`.
    pub agq_address: String,
    /// The secret that authenticates the worker to the broker.
    pub session_key: String,
    /// The identity of the worker; made up at startup where absent.
    pub worker_id: Option<String>,
    /// A name for people to read; derived from the identity where absent.
    pub name: Option<String>,
    /// Seconds between two heartbeats.
    pub heartbeat_interval: u64,
    /// Seconds to wait for a connection.
    pub connection_timeout: u64,
    /// The tools the worker offers.
    pub tools: Option<Vec<String>>,
    /// Seconds to wait at shutdown for a running job; without it, as long as it takes.
    pub shutdown_timeout: Option<u64>,
}

/// A control character: U+0000 to U+001F and U+007F to U+009F.
pub open spec fn control_char(c: char) -> bool {
    c as u32 <= 0x1f || 0x7f <= c as u32 <= 0x9f
}

/// Executable form of [`control_char`].
pub fn is_control_char(c: char) -> (b: bool)
    ensures
        b == control_char(c),
{
    c <= '\u{1f}' || ('\u{7f}' <= c && c <= '\u{9f}')
}

/// Whether `c` may stand in a session key: no control character, no path
/// separator, and none of `;`, `|`, `&`, `$` and the backtick.
pub open spec fn session_key_char(c: char) -> bool {
    &&& !control_char(c)
    &&& c != '/'
    &&& c != '\\'
    &&& c != ';'
    &&& c != '|'
    &&& c != '&'
    &&& c != '$'
    &&& c != '`'
}

/// Whether two dots stand side by side in `value` at position `at`.
pub open spec fn dot_dot_at(value: Seq<char>, at: int) -> bool {
    0 <= at && at + 1 < value.len() && value[at] == '.' && value[at + 1] == '.'
}

/// Whether every character of `key` may stand in a session key and no two
/// dots stand side by side.
pub open spec fn session_key_chars_ok(key: Seq<char>) -> bool {
    &&& forall|i: int| 0 <= i < key.len() ==> session_key_char(#[trigger] key[i])
    &&& forall|at: int| !dot_dot_at(key, at)
}

/// Whether `key` is acceptable as a session key: at least 8 bytes, no
/// control character, no `..`, `/` or `\`, and none of `;`, `|`, `&`, `$` and
/// the backtick.
pub open spec fn valid_session_key(key: Seq<char>) -> bool {
    utf8_len(key) >= MIN_SESSION_KEY_LEN && session_key_chars_ok(key)
}

/// What is reported for `key`, if it is no acceptable session key.
pub open spec fn session_key_message(key: Seq<char>) -> Option<Seq<char>> {
    if key.len() == 0 {
        Some("Session key cannot be empty"@)
    } else if utf8_len(key) < MIN_SESSION_KEY_LEN {
        Some("Session key must be at least 8 characters"@)
    } else if !session_key_chars_ok(key) {
        Some("Session key contains invalid characters"@)
    } else {
        None
    }
}

/// Executable form of [`session_key_chars_ok`].
fn check_session_key_chars(chars: &Vec<char>) -> (ok: bool)
    ensures
        ok == session_key_chars_ok(chars@),
{
    let n: usize = chars.len();
    let mut i: usize = 0;
    while i < n
        invariant
            i <= n,
            n == chars.len(),
            forall|j: int| 0 <= j < i ==> session_key_char(#[trigger] chars@[j]),
            forall|at: int| at < i ==> !dot_dot_at(chars@, at),
        decreases n - i,
    {
        let c = chars[i];
        if is_control_char(c) || c == '/' || c == '\\' || c == ';' || c == '|' || c == '&' || c
            == '$' || c == '`' {
            return false;
        }
        if c == '.' && n - i > 1 && chars[i + 1] == '.' {
            assert(dot_dot_at(chars@, i as int));
            return false;
        }
        i += 1;
    }
    true
}

/// Checks a session key against the rules of [`valid_session_key`].
pub fn validate_session_key(key: &str) -> (r: AgwResult<()>)
    ensures
        r is Ok <==> valid_session_key(key@),
        match session_key_message(key@) {
            None => r is Ok,
            Some(m) => r matches Err(e) && e.has(ErrorKind::InvalidConfig, m),
        },
{
    let chars = chars_of(key);
    if chars.len() == 0 {
        proof {
            lemma_empty_has_no_bytes(key@);
        }
        return Err(AgwError::InvalidConfig(String::from_str("Session key cannot be empty")));
    }
    if key.as_bytes().len() < MIN_SESSION_KEY_LEN {
        return Err(
            AgwError::InvalidConfig(String::from_str("Session key must be at least 8 characters")),
        );
    }
    if !check_session_key_chars(&chars) {
        return Err(
            AgwError::InvalidConfig(String::from_str("Session key contains invalid characters")),
        );
    }
    Ok(())
}

/// The empty text has no bytes.
proof fn lemma_empty_has_no_bytes(value: Seq<char>)
    requires
        value.len() == 0,
    ensures
        utf8_len(value) == 0,
{
    reveal_with_fuel(vstd::utf8::encode_utf8, 1);
}

/// A session key that holds one of `&`, `|`, `;`, `$`, a backtick, a line
/// feed or a carriage return is not valid.
pub proof fn lemma_session_key_metachar_rejected(key: Seq<char>, at: int)
    requires
        0 <= at < key.len(),
        shell_metachar(key[at]),
    ensures
        !valid_session_key(key),
{
    assert(!session_key_char(key[at]));
}

/// A session key that holds `../` or `..\`, or starts with `..`, is not valid.
pub proof fn lemma_session_key_traversal_rejected(key: Seq<char>)
    requires
        has_path_traversal(key),
    ensures
        !valid_session_key(key),
{
    if starts_with_dot_dot(key) {
        assert(dot_dot_at(key, 0));
    } else {
        let at = choose|at: int| traversal_at(key, at);
        assert(dot_dot_at(key, at));
    }
}

/// Whether `id` is acceptable as a worker identifier or a worker name:
/// between 1 and 64 bytes, no control character, and nothing but letters and
/// digits of any script, `-` and `_`.
pub open spec fn valid_worker_label(id: Seq<char>) -> bool {
    &&& id.len() > 0
    &&& utf8_len(id) <= MAX_WORKER_ID_LEN
    &&& forall|i: int| 0 <= i < id.len() ==> !control_char(#[trigger] id[i])
    &&& forall|i: int| 0 <= i < id.len() ==> label_char(#[trigger] id[i])
}

/// Whether some character of `value` is a control character.
pub open spec fn has_control_char(value: Seq<char>) -> bool {
    exists|i: int| 0 <= i < value.len() && control_char(#[trigger] value[i])
}

/// What is reported for `id`, if it is no acceptable worker identifier or
/// name; `subject` says which of the two it is.
pub open spec fn worker_label_message(subject: Seq<char>, id: Seq<char>) -> Option<Seq<char>> {
    if id.len() == 0 {
        Some(subject + " cannot be empty"@)
    } else if utf8_len(id) > MAX_WORKER_ID_LEN {
        Some(subject + " cannot exceed 64 characters"@)
    } else if has_control_char(id) {
        Some(subject + " contains invalid characters"@)
    } else if !valid_worker_label(id) {
        Some(subject + " can only contain alphanumeric characters, hyphens, and underscores"@)
    } else {
        None
    }
}

/// Checks a worker identifier or name; `subject` says which of the two it is.
fn validate_worker_label(subject: &str, id: &str) -> (r: AgwResult<()>)
    ensures
        r is Ok <==> valid_worker_label(id@),
        match worker_label_message(subject@, id@) {
            None => r is Ok,
            Some(m) => r matches Err(e) && e.has(ErrorKind::InvalidConfig, m),
        },
{
    let chars = chars_of(id);
    let mut m = String::from_str(subject);
    if chars.len() == 0 {
        m.append(" cannot be empty");
        return Err(AgwError::InvalidConfig(m));
    }
    if id.as_bytes().len() > MAX_WORKER_ID_LEN {
        m.append(" cannot exceed 64 characters");
        return Err(AgwError::InvalidConfig(m));
    }
    let mut all_label = true;
    let mut i: usize = 0;
    while i < chars.len()
        invariant
            i <= chars.len(),
            chars@ == id@,
            m@ == subject@,
            id@.len() > 0,
            utf8_len(id@) <= MAX_WORKER_ID_LEN,
            forall|j: int| 0 <= j < i ==> !control_char(#[trigger] chars@[j]),
            all_label == forall|j: int| 0 <= j < i ==> label_char(#[trigger] chars@[j]),
        decreases chars.len() - i,
    {
        let c = chars[i];
        if is_control_char(c) {
            m.append(" contains invalid characters");
            return Err(AgwError::InvalidConfig(m));
        }
        if !is_label_char(c) {
            all_label = false;
        }
        i += 1;
    }
    if !all_label {
        m.append(" can only contain alphanumeric characters, hyphens, and underscores");
        return Err(AgwError::InvalidConfig(m));
    }
    Ok(())
}

/// Checks a worker identifier against the rules of [`valid_worker_label`].
pub fn validate_worker_id(id: &str) -> (r: AgwResult<()>)
    ensures
        r is Ok <==> valid_worker_label(id@),
        match worker_label_message("Worker ID"@, id@) {
            None => r is Ok,
            Some(m) => r matches Err(e) && e.has(ErrorKind::InvalidConfig, m),
        },
{
    validate_worker_label("Worker ID", id)
}

/// Checks a worker name against the rules of [`valid_worker_label`]: a name
/// follows the rules of an identifier.
pub fn validate_worker_name(name: &str) -> (r: AgwResult<()>)
    ensures
        r is Ok <==> valid_worker_label(name@),
        match worker_label_message("Worker name"@, name@) {
            None => r is Ok,
            Some(m) => r matches Err(e) && e.has(ErrorKind::InvalidConfig, m),
        },
{
    validate_worker_label("Worker name", name)
}

impl Config {
    /// Whether the configuration is acceptable: the address holds a colon,
    /// the session key, the identifier and the name are valid where given,
    /// and both intervals are positive.
    pub open spec fn valid(&self) -> bool {
        &&& self.agq_address@.contains(':')
        &&& valid_session_key(self.session_key@)
        &&& self.worker_id matches Some(id) ==> valid_worker_label(id@)
        &&& self.name matches Some(name) ==> valid_worker_label(name@)
        &&& self.heartbeat_interval > 0
        &&& self.connection_timeout > 0
    }

    /// What is reported for the configuration, if it is not acceptable: the
    /// first broken rule, going through the address, the session key, the
    /// identifier, the name, and the two intervals.
    pub open spec fn message(&self) -> Option<Seq<char>> {
        if !self.agq_address@.contains(':') {
            Some("AGQ address must be in format host:port"@)
        } else if session_key_message(self.session_key@) is Some {
            session_key_message(self.session_key@)
        } else if self.worker_id is Some && worker_label_message(
            "Worker ID"@,
            self.worker_id->0@,
        ) is Some {
            worker_label_message("Worker ID"@, self.worker_id->0@)
        } else if self.name is Some && worker_label_message("Worker name"@, self.name->0@) is Some {
            worker_label_message("Worker name"@, self.name->0@)
        } else if self.heartbeat_interval == 0 {
            Some("Heartbeat interval must be greater than 0"@)
        } else if self.connection_timeout == 0 {
            Some("Connection timeout must be greater than 0"@)
        } else {
            None
        }
    }

    /// Checks the configuration against the rules of [`Config::valid`].
    pub fn validate(&self) -> (r: AgwResult<()>)
        ensures
            r is Ok <==> self.valid(),
            match self.message() {
                None => r is Ok,
                Some(m) => r matches Err(e) && e.has(ErrorKind::InvalidConfig, m),
            },
    {
        let address = chars_of(self.agq_address.as_str());
        if !contains_char(&address, ':') {
            return Err(
                AgwError::InvalidConfig(String::from_str("AGQ address must be in format host:port")),
            );
        }
        match validate_session_key(self.session_key.as_str()) {
            Err(e) => {
                return Err(e);
            },
            Ok(()) => {},
        }
        if let Some(id) = &self.worker_id {
            match validate_worker_id(id.as_str()) {
                Err(e) => {
                    return Err(e);
                },
                Ok(()) => {},
            }
        }
        if let Some(name) = &self.name {
            match validate_worker_name(name.as_str()) {
                Err(e) => {
                    return Err(e);
                },
                Ok(()) => {},
            }
        }
        if self.heartbeat_interval == 0 {
            return Err(
                AgwError::InvalidConfig(
                    String::from_str("Heartbeat interval must be greater than 0"),
                ),
            );
        }
        if self.connection_timeout == 0 {
            return Err(
                AgwError::InvalidConfig(
                    String::from_str("Connection timeout must be greater than 0"),
                ),
            );
        }
        Ok(())
    }

    /// The time between two heartbeats.
    pub fn heartbeat_duration(&self) -> (d: Duration)
        ensures
            d == duration_of_secs(self.heartbeat_interval),
    {
        Duration::from_secs(self.heartbeat_interval)
    }

    /// The time to wait for a connection.
    pub fn connection_timeout_duration(&self) -> (d: Duration)
        ensures
            d == duration_of_secs(self.connection_timeout),
    {
        Duration::from_secs(self.connection_timeout)
    }

    /// The time to wait at shutdown for a running job, where one is set.
    pub fn shutdown_timeout_duration(&self) -> (d: Option<Duration>)
        ensures
            d == match self.shutdown_timeout {
                Some(secs) => Some(duration_of_secs(secs)),
                None => None,
            },
    {
        match self.shutdown_timeout {
            Some(secs) => Some(Duration::from_secs(secs)),
            None => None,
        }
    }
}

} // verus!
