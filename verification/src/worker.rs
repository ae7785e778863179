//! The worker: who it is, what its main loop does next, and how it takes a
//! job from the queue to its published result.
//!
//! Waiting, sending and launching are left to the caller. The functions here
//! take what happened and say what follows from it.

use crate::config::{control_char, valid_worker_label, Config, MAX_WORKER_ID_LEN};
use crate::error::{kind_prefix, AgwError, AgwResult, ErrorKind};
use crate::executor::{stderrs, stdouts, PlanResult};
use crate::plan::{Job, Plan, Task};
use crate::resp::{
    auth_command, broker_url, brpoplpush_command, heartbeat_command, invalid_address_error,
    is_valid_address, lrem_command, plan_get_command, publishable, register_tools, tools_key,
    tools_rejected_with, valid_address, valid_tools, KeyValue, FETCH_TIMEOUT_SECS,
    QUEUE_PROCESSING, QUEUE_READY,
};
use crate::template::{expansion_rejected_with, input_values};
use crate::text::{chars_of, decimal, decimal_text, joined, utf8_len, views_of};
use crate::validation::{field_char_ok, identifier_char, label_char};
use vstd::prelude::*;

verus! {

/// Whether `c` is one of the digits `0` to `9` and `a` to `f`.
pub open spec fn lower_hex_digit(c: char) -> bool {
    '0' <= c <= '9' || 'a' <= c <= 'f'
}

/// Whether `text` is a UUID in its hyphenated form: 36 characters, hyphens
/// after the 8th, 12th, 16th and 20th digit, lower-case hexadecimal digits
/// everywhere else.
pub open spec fn hyphenated_uuid(text: Seq<char>) -> bool {
    &&& text.len() == 36
    &&& forall|i: int|
        0 <= i < 36 ==> if i == 8 || i == 13 || i == 18 || i == 23 {
            #[trigger] text[i] == '-'
        } else {
            lower_hex_digit(text[i])
        }
}

/// `uuid::Uuid::new_v4` draws a random UUID, and a UUID displays in its
/// hyphenated lower-case form. Which UUID comes out is left open.
#[verifier::external_body]
fn fresh_uuid() -> (text: String)
    ensures
        hyphenated_uuid(text@),
{
    uuid::Uuid::new_v4().to_string()
}

/// What every made-up identifier starts with.
pub const ID_PREFIX: &'static str = "agw-";

/// How many characters of a UUID go into a derived name.
pub const NAME_UUID_LEN: usize = 12;

/// How many characters of the identifier go into a derived name: the four
/// of `agw-` and twelve of the UUID behind it.
pub const NAME_SOURCE_LEN: usize = 16;

/// Whether `agw-` stands in `text` at position `at`.
pub open spec fn prefix_at(text: Seq<char>, at: int) -> bool {
    &&& 0 <= at
    &&& at + 4 <= text.len()
    &&& text[at] == 'a'
    &&& text[at + 1] == 'g'
    &&& text[at + 2] == 'w'
    &&& text[at + 3] == '-'
}

/// `text` from position `from` on, without any `agw-`.
pub open spec fn without_prefix(text: Seq<char>, from: int) -> Seq<char>
    decreases text.len() - from,
{
    if from < 0 || from >= text.len() {
        Seq::empty()
    } else if prefix_at(text, from) {
        without_prefix(text, from + 4)
    } else {
        seq![text[from]] + without_prefix(text, from + 1)
    }
}

/// The first 16 characters of `id`, or all of it where it is shorter.
pub open spec fn name_source(id: Seq<char>) -> Seq<char> {
    if id.len() > NAME_SOURCE_LEN {
        id.take(NAME_SOURCE_LEN as int)
    } else {
        id
    }
}

/// The name of a worker that was given none: `worker-`, then the first 16
/// characters of its identifier without any `agw-`. For a made-up identifier
/// that leaves the first 12 characters of the UUID, 19 characters in all.
pub open spec fn derived_name(id: Seq<char>) -> Seq<char> {
    "worker-"@ + without_prefix(name_source(id), 0)
}

/// The identifier of a worker that was given none: `agw-`, then a UUID.
pub open spec fn derived_id(uuid: Seq<char>) -> Seq<char> {
    "agw-"@ + uuid
}

/// The identifier made up from `uuid`.
pub fn derive_id(uuid: &str) -> (id: String)
    ensures
        id@ == derived_id(uuid@),
{
    let mut id = String::from_str(ID_PREFIX);
    id.append(uuid);
    id
}

/// The name derived from the identifier `id`.
pub fn derive_name(id: &str) -> (name: String)
    ensures
        name@ == derived_name(id@),
{
    let chars = chars_of(id);
    let n: usize = if chars.len() > NAME_SOURCE_LEN {
        NAME_SOURCE_LEN
    } else {
        chars.len()
    };
    let ghost source = name_source(id@);
    let mut name = String::from_str("worker-");
    let mut at: usize = 0;
    while at < n
        invariant
            at <= n <= chars.len(),
            source == chars@.take(n as int),
            name@ + without_prefix(source, at as int) == derived_name_of(source),
        decreases n - at,
    {
        if n - at >= 4 && chars[at] == 'a' && chars[at + 1] == 'g' && chars[at + 2] == 'w'
            && chars[at + 3] == '-' {
            at += 4;
        } else {
            name.push(chars[at]);
            at += 1;
        }
    }
    name
}

/// `worker-`, then `source` without any `agw-`.
pub open spec fn derived_name_of(source: Seq<char>) -> Seq<char> {
    "worker-"@ + without_prefix(source, 0)
}

/// Removing `agw-` from a text leaves only characters of the text, and no
/// more of them than it had.
proof fn lemma_without_prefix(text: Seq<char>, from: int)
    requires
        0 <= from,
    ensures
        without_prefix(text, from).len() <= if from <= text.len() {
            text.len() - from
        } else {
            0
        },
        forall|i: int|
            0 <= i < without_prefix(text, from).len() ==> text.contains(
                #[trigger] without_prefix(text, from)[i],
            ),
    decreases text.len() - from,
{
    if from >= text.len() {
    } else if prefix_at(text, from) {
        lemma_without_prefix(text, from + 4);
    } else {
        lemma_without_prefix(text, from + 1);
        let rest = without_prefix(text, from + 1);
        let all = without_prefix(text, from);
        assert forall|i: int| 0 <= i < all.len() implies text.contains(#[trigger] all[i]) by {
            if i == 0 {
                assert(text[from] == all[0]);
            } else {
                assert(all[i] == rest[i - 1]);
            }
        }
    }
}

/// Whether `text` holds nothing but ASCII letters and digits, `-` and `_`.
pub open spec fn ascii_label(text: Seq<char>) -> bool {
    forall|i: int| 0 <= i < text.len() ==> identifier_char(#[trigger] text[i])
}

/// A text of ASCII letters, digits, `-` and `_` has as many bytes as
/// characters, and is a valid label when it holds between 1 and 64 of them.
pub proof fn lemma_ascii_label(text: Seq<char>)
    requires
        ascii_label(text),
    ensures
        utf8_len(text) == text.len(),
        0 < text.len() <= MAX_WORKER_ID_LEN ==> valid_worker_label(text),
{
    vstd::utf8::is_ascii_chars_encode_utf8(text);
    assert forall|i: int| 0 <= i < text.len() implies !control_char(#[trigger] text[i])
        && label_char(text[i]) by {
        assert(identifier_char(text[i]));
    }
}

/// An identifier made up from a UUID is a valid identifier.
pub proof fn lemma_derived_id_valid(uuid: Seq<char>)
    requires
        hyphenated_uuid(uuid),
    ensures
        ascii_label(derived_id(uuid)),
        valid_worker_label(derived_id(uuid)),
{
    reveal_strlit("agw-");
    let id = derived_id(uuid);
    assert forall|i: int| 0 <= i < id.len() implies identifier_char(#[trigger] id[i]) by {
        if i >= 4 {
            assert(id[i] == uuid[i - 4]);
        }
    }
    lemma_ascii_label(id);
}

/// A text without the letter `g` holds no `agw-`: it stays as it is.
proof fn lemma_without_prefix_keeps(text: Seq<char>, from: int)
    requires
        0 <= from <= text.len(),
        forall|i: int| from <= i < text.len() ==> #[trigger] text[i] != 'g',
    ensures
        without_prefix(text, from) == text.subrange(from, text.len() as int),
    decreases text.len() - from,
{
    if from < text.len() {
        if from + 1 < text.len() {
            assert(text[from + 1] != 'g');
        }
        lemma_without_prefix_keeps(text, from + 1);
        assert(seq![text[from]] + text.subrange(from + 1, text.len() as int) =~= text.subrange(
            from,
            text.len() as int,
        ));
    } else {
        assert(text.subrange(from, text.len() as int) =~= Seq::<char>::empty());
    }
}

/// The name derived from a made-up identifier is `worker-` and the first 12
/// characters of the UUID, 19 characters in all.
pub proof fn lemma_derived_name_of_uuid(uuid: Seq<char>)
    requires
        hyphenated_uuid(uuid),
    ensures
        derived_name(derived_id(uuid)) == "worker-"@ + uuid.take(NAME_UUID_LEN as int),
        derived_name(derived_id(uuid)).len() == 19,
{
    reveal_strlit("agw-");
    reveal_strlit("worker-");
    let id = derived_id(uuid);
    let source = name_source(id);
    assert(source.len() == 16);
    assert forall|i: int| 4 <= i < source.len() implies #[trigger] source[i] != 'g' by {
        assert(source[i] == uuid[i - 4]);
    }
    assert(prefix_at(source, 0));
    lemma_without_prefix_keeps(source, 4);
    assert(source.subrange(4, 16) =~= uuid.take(NAME_UUID_LEN as int));
}

/// A name derived from a valid identifier of ASCII letters, digits, `-` and
/// `_` is a valid name. An identifier of other letters may be too long in
/// bytes for that: 16 letters of four bytes each make a name of 71 bytes.
pub proof fn lemma_derived_name_valid(id: Seq<char>)
    requires
        ascii_label(id),
    ensures
        ascii_label(derived_name(id)),
        valid_worker_label(derived_name(id)),
{
    reveal_strlit("worker-");
    let source = name_source(id);
    let tail = without_prefix(source, 0);
    let name = derived_name(id);
    lemma_without_prefix(source, 0);
    assert forall|i: int| 0 <= i < name.len() implies identifier_char(#[trigger] name[i]) by {
        if i >= 7 {
            let j = choose|j: int| 0 <= j < source.len() && source[j] == tail[i - 7];
            assert(source[j] == id[j]);
        }
    }
    lemma_ascii_label(name);
}

/// A worker: its configuration and who it is.
#[derive(Debug, Clone)]
pub struct Worker {
    config: Config,
    id: String,
    name: String,
}

impl Worker {
    /// The configuration the worker was started with.
    pub closed spec fn config_spec(&self) -> Config {
        self.config
    }

    /// The identifier of the worker.
    pub closed spec fn id_spec(&self) -> Seq<char> {
        self.id@
    }

    /// The name of the worker.
    pub closed spec fn name_spec(&self) -> Seq<char> {
        self.name@
    }

    /// Whether this is the worker for `config`, with `uuid` at hand for an
    /// identifier: the identifier is the configured one, or else made up
    /// from `uuid`; the name is the configured one, or else derived from the
    /// identifier.
    pub open spec fn identified_by(&self, config: Config, uuid: Seq<char>) -> bool {
        &&& self.config_spec() == config
        &&& self.id_spec() == match config.worker_id {
            Some(id) => id@,
            None => derived_id(uuid),
        }
        &&& self.name_spec() == match config.name {
            Some(name) => name@,
            None => derived_name(self.id_spec()),
        }
    }

    /// What holds of a worker that was made with the UUID `uuid` at hand.
    /// Its identifier is valid. Its name is valid too, unless it was derived
    /// from a configured identifier that holds other than ASCII letters,
    /// digits, `-` and `_`. Where the configuration gives neither, the
    /// identifier is `agw-` and the UUID, and the name is `worker-` and the
    /// first 12 characters of the UUID.
    pub open spec fn well_named(&self, uuid: Seq<char>) -> bool {
        let config = self.config_spec();
        &&& valid_worker_label(self.id_spec())
        &&& config.name is Some || ascii_label(self.id_spec()) ==> valid_worker_label(
            self.name_spec(),
        )
        &&& config.worker_id is None ==> self.id_spec() == "agw-"@ + uuid
        &&& config.worker_id is None && config.name is None ==> self.name_spec() == "worker-"@
            + uuid.take(NAME_UUID_LEN as int) && self.name_spec().len() == 19
    }

    /// The worker for `config`, with `uuid` at hand for an identifier where
    /// the configuration gives none. The configuration is checked first.
    pub fn with_uuid(config: Config, uuid: &str) -> (r: AgwResult<Worker>)
        ensures
            r is Ok <==> config.valid(),
            r matches Ok(worker) ==> worker.identified_by(config, uuid@),
            r matches Ok(worker) ==> hyphenated_uuid(uuid@) ==> worker.well_named(uuid@),
            r matches Err(e) ==> config.message() matches Some(m) && e.has(
                ErrorKind::InvalidConfig,
                m,
            ),
    {
        match config.validate() {
            Err(e) => {
                return Err(e);
            },
            Ok(()) => {},
        }
        let id = match &config.worker_id {
            Some(id) => id.clone(),
            None => derive_id(uuid),
        };
        let name = match &config.name {
            Some(name) => name.clone(),
            None => derive_name(id.as_str()),
        };
        proof {
            if hyphenated_uuid(uuid@) {
                lemma_derived_id_valid(uuid@);
                lemma_derived_name_of_uuid(uuid@);
                if ascii_label(id@) {
                    lemma_derived_name_valid(id@);
                }
            }
        }
        Ok(Worker { config, id, name })
    }

    /// The worker for `config`. Where the configuration gives no identifier,
    /// a random UUID makes one: `agw-` and the UUID. Where it gives no name,
    /// the identifier makes one: for a made-up identifier `worker-` and the
    /// first 12 characters of the UUID.
    pub fn new(config: Config) -> (r: AgwResult<Worker>)
        ensures
            r is Ok <==> config.valid(),
            r matches Ok(worker) ==> exists|uuid: Seq<char>|
                hyphenated_uuid(uuid) && #[trigger] worker.identified_by(config, uuid)
                    && worker.well_named(uuid),
            r matches Err(e) ==> config.message() matches Some(m) && e.has(
                ErrorKind::InvalidConfig,
                m,
            ),
    {
        let uuid = fresh_uuid();
        Worker::with_uuid(config, uuid.as_str())
    }

    /// The configuration the worker was started with.
    pub fn config(&self) -> (config: &Config)
        ensures
            *config == self.config_spec(),
    {
        &self.config
    }

    /// The identifier of the worker.
    pub fn id(&self) -> (id: &str)
        ensures
            id@ == self.id_spec(),
    {
        self.id.as_str()
    }

    /// The name of the worker.
    pub fn name(&self) -> (name: &str)
        ensures
            name@ == self.name_spec(),
    {
        self.name.as_str()
    }

    /// Where to connect to: the broker's address as a URL. An address that
    /// has not the form `host:port` is refused before anything is opened.
    pub fn connect_url(&self) -> (r: AgwResult<String>)
        ensures
            r is Ok <==> valid_address(self.config_spec().agq_address@),
            r matches Ok(url) ==> url@ == "redis://"@ + self.config_spec().agq_address@,
            r matches Err(e) ==> e.has(ErrorKind::InvalidConfig, "Invalid AGQ address format"@),
    {
        if is_valid_address(self.config.agq_address.as_str()) {
            Ok(broker_url(self.config.agq_address.as_str()))
        } else {
            Err(invalid_address_error())
        }
    }

    /// What authenticates the worker once it is connected: `AUTH` with the
    /// session key of the configuration.
    pub fn auth_request(&self) -> (words: Vec<String>)
        ensures
            views_of(words@) == seq!["AUTH"@, self.config_spec().session_key@],
    {
        auth_command(self.config.session_key.as_str())
    }

    /// What registers the tools of the worker once it is authenticated: the
    /// tools of the configuration under the identifier of the worker, and
    /// nothing where the configuration names no tools.
    pub fn tools_request(&self) -> (r: AgwResult<Option<KeyValue>>)
        ensures
            self.config_spec().tools is None ==> r matches Ok(None),
            self.config_spec().tools matches Some(tools) ==> {
                &&& r is Ok <==> valid_tools(tools@)
                &&& r matches Ok(entry) ==> (tools.len() == 0 ==> entry is None) && (tools.len()
                    > 0 ==> (entry matches Some(kv) && kv.key@ == tools_key(self.id_spec())
                    && kv.value@ == joined(views_of(tools@), ","@)))
                &&& r matches Err(e) ==> e.kind() == ErrorKind::RespProtocol
                    && tools_rejected_with(tools@, e.detail())
            },
    {
        match &self.config.tools {
            Some(tools) => register_tools(self.id.as_str(), tools),
            None => Ok(None),
        }
    }

    /// The heartbeat of the worker: `PING` with its identifier.
    pub fn heartbeat_request(&self) -> (words: Vec<String>)
        ensures
            views_of(words@) == seq!["PING"@, self.id_spec()],
    {
        heartbeat_command(self.id.as_str())
    }
}

/// Where the main loop stands.
#[derive(Debug, Clone, Copy, PartialEq, Eq, Structural)]
pub struct LoopState {
    /// Whether a job is being executed. There is never more than one.
    pub in_flight: bool,
    /// Whether a signal has asked the worker to stop.
    pub shutdown_requested: bool,
}

/// What the main loop can wake up for, in the order in which it is looked at.
#[derive(Debug, Clone, Copy, PartialEq, Eq, Structural)]
pub enum Branch {
    /// SIGTERM has arrived.
    Terminate,
    /// SIGINT has arrived.
    Interrupt,
    /// It is time for a heartbeat.
    Heartbeat,
    /// A job, or the end of the wait for one, has come in.
    Fetch,
}

/// Which of the things the main loop waits for are ready.
#[derive(Debug, Clone, Copy, PartialEq, Eq, Structural)]
pub struct Ready {
    pub terminate: bool,
    pub interrupt: bool,
    pub heartbeat: bool,
    pub fetch: bool,
}

/// What to do at shutdown about a job that is still being executed.
#[derive(Debug, Clone, Copy, PartialEq, Eq, Structural)]
pub enum Drain {
    /// No job is being executed.
    Nothing,
    /// Wait for the job, however long it takes.
    Wait,
    /// Wait for the job for at most `secs` seconds, then leave it behind
    /// without killing it.
    WaitAtMost { secs: u64 },
}

impl LoopState {
    /// The state in which the loop starts: no job, no shutdown.
    pub fn new() -> (state: Self)
        ensures
            !state.in_flight,
            !state.shutdown_requested,
    {
        LoopState { in_flight: false, shutdown_requested: false }
    }

    /// Whether a new job may be taken: none is being executed and no
    /// shutdown was requested.
    pub open spec fn can_fetch(&self) -> bool {
        !self.in_flight && !self.shutdown_requested
    }

    /// Whether the loop ends: a shutdown was requested and no job is being executed.
    pub open spec fn exits(&self) -> bool {
        self.shutdown_requested && !self.in_flight
    }

    /// The branch the loop takes when `ready` are ready: the first in the
    /// order SIGTERM, SIGINT, heartbeat, job, where the job only counts while
    /// a new job may be taken.
    pub open spec fn selected(&self, ready: Ready) -> Option<Branch> {
        if ready.terminate {
            Some(Branch::Terminate)
        } else if ready.interrupt {
            Some(Branch::Interrupt)
        } else if ready.heartbeat {
            Some(Branch::Heartbeat)
        } else if ready.fetch && self.can_fetch() {
            Some(Branch::Fetch)
        } else {
            None
        }
    }

    /// The state once it is known whether the execution in flight has
    /// `finished`: a finished one leaves the slot.
    pub open spec fn harvested(self, finished: bool) -> LoopState {
        LoopState {
            in_flight: self.in_flight && !finished,
            shutdown_requested: self.shutdown_requested,
        }
    }

    /// The state after SIGTERM or SIGINT: a shutdown is requested. A job in
    /// flight stays in flight.
    pub open spec fn stopping(self) -> LoopState {
        LoopState { in_flight: self.in_flight, shutdown_requested: true }
    }

    /// The state once it is known whether the execution in flight has
    /// `finished`: a finished one leaves the slot.
    pub fn harvest(self, finished: bool) -> (state: Self)
        ensures
            state == self.harvested(finished),
    {
        LoopState {
            in_flight: self.in_flight && !finished,
            shutdown_requested: self.shutdown_requested,
        }
    }

    /// Whether the loop ends here.
    pub fn should_exit(&self) -> (exit: bool)
        ensures
            exit == self.exits(),
    {
        self.shutdown_requested && !self.in_flight
    }

    /// Whether the loop waits for a job at all.
    pub fn fetch_enabled(&self) -> (enabled: bool)
        ensures
            enabled == self.can_fetch(),
    {
        !self.in_flight && !self.shutdown_requested
    }

    /// The branch to take when `ready` are ready, if any.
    pub fn select(&self, ready: Ready) -> (branch: Option<Branch>)
        ensures
            branch == self.selected(ready),
    {
        if ready.terminate {
            Some(Branch::Terminate)
        } else if ready.interrupt {
            Some(Branch::Interrupt)
        } else if ready.heartbeat {
            Some(Branch::Heartbeat)
        } else if ready.fetch && self.fetch_enabled() {
            Some(Branch::Fetch)
        } else {
            None
        }
    }

    /// The state after SIGTERM or SIGINT: a shutdown is requested. A job in
    /// flight stays in flight.
    pub fn request_shutdown(self) -> (state: Self)
        ensures
            state == self.stopping(),
    {
        LoopState { in_flight: self.in_flight, shutdown_requested: true }
    }

    /// The state after a heartbeat was sent with `outcome`. A heartbeat that
    /// failed ends the loop with its error.
    pub fn after_heartbeat(self, outcome: AgwResult<()>) -> (r: AgwResult<Self>)
        ensures
            match outcome {
                Ok(_) => r == Ok::<LoopState, AgwError>(self),
                Err(e) => r == Err::<LoopState, AgwError>(e),
            },
    {
        match outcome {
            Ok(_) => Ok(self),
            Err(e) => Err(e),
        }
    }

    /// The state after the wait for a job ended with `outcome`: `true` when a
    /// job was taken and its execution started, `false` when the wait ran
    /// out. A failure ends the loop with its error.
    pub fn after_fetch(self, outcome: AgwResult<bool>) -> (r: AgwResult<Self>)
        requires
            self.can_fetch(),
        ensures
            match outcome {
                Ok(started) => r == Ok::<LoopState, AgwError>(
                    LoopState { in_flight: started, shutdown_requested: false },
                ),
                Err(e) => r == Err::<LoopState, AgwError>(e),
            },
    {
        match outcome {
            Ok(started) => Ok(LoopState { in_flight: started, shutdown_requested: false }),
            Err(e) => Err(e),
        }
    }

    /// What to do about a job in flight once the loop is left.
    pub fn drain(&self, shutdown_timeout: Option<u64>) -> (d: Drain)
        ensures
            d == if !self.in_flight {
                Drain::Nothing
            } else {
                match shutdown_timeout {
                    Some(secs) => Drain::WaitAtMost { secs },
                    None => Drain::Wait,
                }
            },
    {
        if !self.in_flight {
            Drain::Nothing
        } else {
            match shutdown_timeout {
                Some(secs) => Drain::WaitAtMost { secs },
                None => Drain::Wait,
            }
        }
    }
}

/// Signals come first: while one is ready, nothing else is looked at.
pub proof fn lemma_signals_first(state: LoopState, ready: Ready)
    requires
        ready.terminate || ready.interrupt,
    ensures
        state.selected(ready) == Some(Branch::Terminate) || state.selected(ready) == Some(
            Branch::Interrupt,
        ),
{
}

/// A heartbeat that is due is never put off for a job: as long as no signal
/// is ready, it is taken whether or not a job waits.
pub proof fn lemma_heartbeat_before_fetch(state: LoopState, ready: Ready)
    requires
        ready.heartbeat,
        !ready.terminate,
        !ready.interrupt,
    ensures
        state.selected(ready) == Some(Branch::Heartbeat),
{
}

/// At most one job is in flight: while one is, and once a shutdown was
/// requested, no other is taken.
pub proof fn lemma_one_in_flight(state: LoopState, ready: Ready)
    requires
        state.in_flight || state.shutdown_requested,
    ensures
        state.selected(ready) != Some(Branch::Fetch),
{
}

/// A shutdown does not cancel a job in flight: the loop goes on until the
/// execution has finished, and ends at once when it has.
pub proof fn lemma_shutdown_waits(state: LoopState, finished: bool)
    requires
        state.in_flight,
    ensures
        !state.stopping().exits(),
        state.stopping().harvested(finished).exits() == finished,
{
}

/// What an error looks like when it is displayed.
pub open spec fn shown(e: AgwError) -> Seq<char> {
    kind_prefix(e.kind_spec()) + e.detail()
}

/// A job and its plan, ready to be executed.
#[derive(Debug, Clone, PartialEq)]
pub struct PreparedJob {
    /// The identifier of the job.
    pub job_id: String,
    /// The plan of the job, with the input of the job written into its tasks.
    pub plan: Plan,
    /// The entry of the queue that the job came from.
    pub job_id_raw: String,
}

/// The error of kind `Worker` whose detail is `context` followed by `cause` as displayed.
fn with_context(context: String, cause: &AgwError) -> (e: AgwError)
    ensures
        e.has(ErrorKind::Worker, context@ + shown(*cause)),
{
    let mut m = context;
    let text = cause.to_string();
    m.append(text.as_str());
    AgwError::Worker(m)
}

/// What introduces the report that the job `job_id` is not valid.
pub open spec fn job_invalid_context(job_id: Seq<char>) -> Seq<char> {
    "Job validation failed for '"@ + job_id + "': "@
}

/// What introduces the report that the plan `plan_id` is not valid.
pub open spec fn plan_invalid_context(plan_id: Seq<char>) -> Seq<char> {
    "Plan validation failed for '"@ + plan_id + "': "@
}

/// What introduces the report that the input of job `job_id` does not fill
/// the placeholders of task `task_number`.
pub open spec fn substitution_context(task_number: u32, job_id: Seq<char>) -> Seq<char> {
    "Failed to substitute input variables for task "@ + decimal_text(task_number as nat)
        + " in job '"@ + job_id + "': "@
}

/// What introduces the report that task `task_number` of job `job_id` is not
/// valid once the input is written into it.
pub open spec fn revalidation_context(task_number: u32, job_id: Seq<char>) -> Seq<char> {
    "Task "@ + decimal_text(task_number as nat) + " is not valid after substitution in job '"@
        + job_id + "': "@
}

/// Whether `task` can be prepared with `input`: every placeholder can be
/// filled, and the task is valid once they are.
pub open spec fn task_preparable(task: Task, input: serde_json::Value) -> bool {
    &&& task.substitutable_with(input)
    &&& forall|filled: Task| #[trigger] task.substituted_into(input, filled) ==> filled.valid()
}

/// Whether the job can be prepared with the plan: both are valid, and every
/// task of the plan can be prepared with the input of the job.
pub open spec fn preparable(job: Job, plan: Plan) -> bool {
    &&& job.valid()
    &&& plan.valid()
    &&& forall|i: int|
        0 <= i < plan.tasks.len() ==> task_preparable(#[trigger] plan.tasks[i], job.input)
}

/// Whether `prepared` is the job ready to be executed: the plan with the
/// input written into every task, which is a valid plan again.
pub open spec fn prepared_from(prepared: PreparedJob, job: Job, plan: Plan, job_id_raw: Seq<char>) -> bool {
    &&& prepared.job_id@ == job.job_id@
    &&& prepared.job_id_raw@ == job_id_raw
    &&& prepared.plan.plan_id@ == plan.plan_id@
    &&& prepared.plan.plan_description is Some == plan.plan_description is Some
    &&& plan.plan_description is Some ==> prepared.plan.plan_description->0@
        == plan.plan_description->0@
    &&& prepared.plan.tasks.len() == plan.tasks.len()
    &&& forall|i: int|
        0 <= i < plan.tasks.len() ==> (#[trigger] plan.tasks[i]).substituted_into(
            job.input,
            prepared.plan.tasks[i],
        )
    &&& prepared.plan.valid()
}

/// Whether `index` is the first task of `plan` that cannot be prepared with `input`.
pub open spec fn first_unpreparable(plan: Plan, input: serde_json::Value, index: int) -> bool {
    &&& 0 <= index < plan.tasks.len()
    &&& !task_preparable(plan.tasks[index], input)
    &&& forall|j: int| 0 <= j < index ==> task_preparable(#[trigger] plan.tasks[j], input)
}

/// Whether `cause` is what keeps `input` from filling the placeholders of
/// `task`: what is reported for its first argument that cannot be filled.
pub open spec fn unfilled_with(task: Task, input: serde_json::Value, cause: Seq<char>) -> bool {
    exists|k: int|
        #![trigger task.first_unfilled_arg(input, k)]
        task.first_unfilled_arg(input, k) && expansion_rejected_with(
            task.args[k]@,
            input_values(task.args[k]@, input),
            cause,
        )
}

/// Whether `cause` is what makes `task` invalid once `input` is written into it.
pub open spec fn invalid_when_filled_with(task: Task, input: serde_json::Value, cause: Seq<char>) -> bool {
    exists|filled: Task|
        #![trigger task.substituted_into(input, filled)]
        task.substituted_into(input, filled) && filled.rejected_with(cause)
}

/// Whether `message` is what is reported for a task that cannot be prepared
/// for the job `job_id`: placeholders that cannot be filled, or else what
/// makes the task invalid once they are.
pub open spec fn task_unprepared_with(
    task: Task,
    input: serde_json::Value,
    job_id: Seq<char>,
    message: Seq<char>,
) -> bool {
    if !task.substitutable_with(input) {
        exists|cause: Seq<char>|
            #![trigger unfilled_with(task, input, cause)]
            unfilled_with(task, input, cause) && message == substitution_context(
                task.task_number,
                job_id,
            ) + kind_prefix(ErrorKind::Worker) + cause
    } else {
        exists|cause: Seq<char>|
            #![trigger invalid_when_filled_with(task, input, cause)]
            invalid_when_filled_with(task, input, cause) && message == revalidation_context(
                task.task_number,
                job_id,
            ) + kind_prefix(ErrorKind::Worker) + cause
    }
}

/// Two tasks that come out of the same substitution are valid together.
proof fn lemma_substitution_determined(task: Task, input: serde_json::Value, a: Task, b: Task)
    requires
        task.substituted_into(input, a),
        task.substituted_into(input, b),
    ensures
        a.valid() == b.valid(),
{
    assert forall|i: int| 0 <= i < a.args.len() implies a.args[i]@ == b.args[i]@ by {}
}

/// Makes a job ready to be executed: checks the job and its plan, writes the
/// input of the job into every task, and checks every task again.
///
/// The second check is what keeps shell metacharacters, path traversal,
/// dangerous Unicode and NUL out of the arguments when they come in through
/// the input. What is handed out is a valid plan.
pub fn prepare_job(job: &Job, plan: &Plan, job_id_raw: &str) -> (r: AgwResult<PreparedJob>)
    ensures
        r is Ok <==> preparable(*job, *plan),
        r matches Ok(prepared) ==> prepared_from(prepared, *job, *plan, job_id_raw@),
        r matches Err(e) ==> e.kind() == ErrorKind::Worker,
        r matches Err(e) ==> !job.valid() ==> exists|cause: Seq<char>|
            #![trigger job.rejected_with(cause)]
            job.rejected_with(cause) && e.detail() == job_invalid_context(job.job_id@)
                + kind_prefix(ErrorKind::Worker) + cause,
        r matches Err(e) ==> job.valid() && !plan.valid() ==> exists|cause: Seq<char>|
            #![trigger plan.rejected_with(cause)]
            plan.rejected_with(cause) && e.detail() == plan_invalid_context(plan.plan_id@)
                + kind_prefix(ErrorKind::Worker) + cause,
        r matches Err(e) ==> job.valid() && plan.valid() ==> exists|i: int|
            #![trigger first_unpreparable(*plan, job.input, i)]
            first_unpreparable(*plan, job.input, i) && task_unprepared_with(
                plan.tasks[i],
                job.input,
                job.job_id@,
                e.detail(),
            ),
{
    match job.validate() {
        Err(e) => {
            let mut context = String::from_str("Job validation failed for '");
            context.append(job.job_id.as_str());
            context.append("': ");
            let wrapped = with_context(context, &e);
            return Err(wrapped);
        },
        Ok(()) => {},
    }
    match plan.validate() {
        Err(e) => {
            let mut context = String::from_str("Plan validation failed for '");
            context.append(plan.plan_id.as_str());
            context.append("': ");
            let wrapped = with_context(context, &e);
            return Err(wrapped);
        },
        Ok(()) => {},
    }
    let mut tasks: Vec<Task> = Vec::new();
    let mut i: usize = 0;
    while i < plan.tasks.len()
        invariant
            i <= plan.tasks.len(),
            tasks.len() == i,
            job.valid(),
            plan.valid(),
            forall|j: int| 0 <= j < i ==> task_preparable(#[trigger] plan.tasks[j], job.input),
            forall|j: int|
                0 <= j < i ==> (#[trigger] plan.tasks[j]).substituted_into(job.input, tasks[j]),
            forall|j: int| 0 <= j < i ==> (#[trigger] tasks[j]).valid(),
        decreases plan.tasks.len() - i,
    {
        let task = &plan.tasks[i];
        let filled = match task.substitute_input(&job.input) {
            Err(e) => {
                let mut context = String::from_str(
                    "Failed to substitute input variables for task ",
                );
                let number = decimal(task.task_number as u64);
                context.append(number.as_str());
                context.append(" in job '");
                context.append(job.job_id.as_str());
                context.append("': ");
                let ghost cause = e.detail();
                let wrapped = with_context(context, &e);
                proof {
                    assert(first_unpreparable(*plan, job.input, i as int));
                    assert(unfilled_with(*task, job.input, cause));
                    assert(wrapped.detail() =~= substitution_context(
                        task.task_number,
                        job.job_id@,
                    ) + kind_prefix(ErrorKind::Worker) + cause);
                }
                return Err(wrapped);
            },
            Ok(filled) => filled,
        };
        match filled.validate() {
            Err(e) => {
                let mut context = String::from_str("Task ");
                let number = decimal(task.task_number as u64);
                context.append(number.as_str());
                context.append(" is not valid after substitution in job '");
                context.append(job.job_id.as_str());
                context.append("': ");
                let ghost cause = e.detail();
                let wrapped = with_context(context, &e);
                proof {
                    assert(first_unpreparable(*plan, job.input, i as int));
                    assert(invalid_when_filled_with(*task, job.input, cause));
                    assert(wrapped.detail() =~= revalidation_context(
                        task.task_number,
                        job.job_id@,
                    ) + kind_prefix(ErrorKind::Worker) + cause);
                }
                return Err(wrapped);
            },
            Ok(()) => {},
        }
        proof {
            assert forall|other: Task| #[trigger]
                task.substituted_into(job.input, other) implies other.valid() by {
                lemma_substitution_determined(*task, job.input, filled, other);
            }
        }
        tasks.push(filled);
        i += 1;
    }
    let prepared_plan = Plan {
        plan_id: plan.plan_id.clone(),
        plan_description: plan.plan_description.clone(),
        tasks,
    };
    proof {
        assert forall|j: int| 0 <= j < prepared_plan.tasks.len() implies #[trigger]
            prepared_plan.task_ok(j) by {
            assert(plan.task_ok(j));
        }
    }
    Ok(
        PreparedJob {
            job_id: job.job_id.clone(),
            plan: prepared_plan,
            job_id_raw: String::from_str(job_id_raw),
        },
    )
}

/// The command that takes the next job: it moves the last entry of the
/// list of waiting jobs to the list of jobs in progress in one step, so that
/// the entry is never in neither, and waits five seconds for one at most, so
/// that a worker without work still sends its heartbeats.
pub fn entry_request() -> (words: Vec<String>)
    ensures
        views_of(words@) == seq![
            "BRPOPLPUSH"@,
            QUEUE_READY@,
            QUEUE_PROCESSING@,
            decimal_text(FETCH_TIMEOUT_SECS as nat),
        ],
{
    brpoplpush_command(QUEUE_READY, QUEUE_PROCESSING, FETCH_TIMEOUT_SECS)
}

/// The command that asks for the plan of `job`. The job is checked first:
/// no identifier goes to the broker that is not a valid one.
pub fn plan_request(job: &Job) -> (r: AgwResult<Vec<String>>)
    ensures
        r is Ok <==> job.valid(),
        r matches Ok(words) ==> views_of(words@) == seq!["PLAN.GET"@, job.plan_id@],
        r matches Err(e) ==> e.kind() == ErrorKind::Worker && exists|cause: Seq<char>|
            #![trigger job.rejected_with(cause)]
            job.rejected_with(cause) && e.detail() == job_invalid_context(job.job_id@)
                + kind_prefix(ErrorKind::Worker) + cause,
{
    match job.validate() {
        Err(e) => {
            let mut context = String::from_str("Job validation failed for '");
            context.append(job.job_id.as_str());
            context.append("': ");
            let wrapped = with_context(context, &e);
            Err(wrapped)
        },
        Ok(()) => Ok(plan_get_command(job.plan_id.as_str())),
    }
}

/// The command that takes the entry `job_id_raw` off the list of jobs in
/// progress: the first one that equals it, and no other.
pub fn cleanup_request(job_id_raw: &str) -> (words: Vec<String>)
    ensures
        views_of(words@) == seq!["LREM"@, QUEUE_PROCESSING@, decimal_text(1), job_id_raw@],
{
    lrem_command(QUEUE_PROCESSING, 1, job_id_raw)
}

/// What is reported when the broker could not hand out the job `job_id_raw`.
pub fn job_fetch_error(job_id_raw: &str, cause: &AgwError) -> (e: AgwError)
    ensures
        e.has(
            ErrorKind::Worker,
            "Failed to fetch job metadata for '"@ + job_id_raw@ + "': "@ + shown(*cause),
        ),
{
    let mut context = String::from_str("Failed to fetch job metadata for '");
    context.append(job_id_raw);
    context.append("': ");
    with_context(context, cause)
}

/// What is reported when the broker could not hand out the plan `plan_id`
/// of the job `job_id`.
pub fn plan_fetch_error(plan_id: &str, job_id: &str, cause: &AgwError) -> (e: AgwError)
    ensures
        e.has(
            ErrorKind::Worker,
            "Failed to fetch plan '"@ + plan_id@ + "' for job '"@ + job_id@ + "': "@ + shown(
                *cause,
            ),
        ),
{
    let mut context = String::from_str("Failed to fetch plan '");
    context.append(plan_id);
    context.append("' for job '");
    context.append(job_id);
    context.append("': ");
    with_context(context, cause)
}

/// What is reported when the text of the job `job_id_raw` is no JSON of a
/// job. Nothing of the text is repeated.
pub fn job_parse_error(job_id_raw: &str) -> (e: AgwError)
    ensures
        e.has(
            ErrorKind::Worker,
            "Failed to parse job JSON for '"@ + job_id_raw@ + "': Invalid job JSON format"@,
        ),
{
    let mut m = String::from_str("Failed to parse job JSON for '");
    m.append(job_id_raw);
    m.append("': Invalid job JSON format");
    AgwError::Worker(m)
}

/// What is reported when the text of the plan `plan_id` is no JSON of a
/// plan. Nothing of the text is repeated.
pub fn plan_parse_error(plan_id: &str) -> (e: AgwError)
    ensures
        e.has(
            ErrorKind::Worker,
            "Failed to parse plan JSON for '"@ + plan_id@ + "': Invalid plan JSON format"@,
        ),
{
    let mut m = String::from_str("Failed to parse plan JSON for '");
    m.append(plan_id);
    m.append("': Invalid plan JSON format");
    AgwError::Worker(m)
}

/// What is published about a job once its execution is over.
#[derive(Debug, Clone, PartialEq, Eq)]
pub struct JobReport {
    pub job_id: String,
    pub stdout: String,
    pub stderr: String,
    /// `completed` or `failed`.
    pub status: String,
}

/// What is published about a job whose plan was run: the outputs of the
/// tasks that ran, and `completed` if every one of them succeeded, else
/// `failed`. The outputs of a run that halted at a failure are published too.
pub fn report_result(result: &PlanResult) -> (report: JobReport)
    ensures
        report.job_id@ == result.job_id@,
        report.stdout@ == joined(stdouts(result.task_results@), "\n"@),
        report.stderr@ == joined(stderrs(result.task_results@), "\n"@),
        report.status@ == if result.success {
            "completed"@
        } else {
            "failed"@
        },
{
    let status = if result.success {
        String::from_str("completed")
    } else {
        String::from_str("failed")
    };
    JobReport {
        job_id: result.job_id.clone(),
        stdout: result.combined_stdout(),
        stderr: result.combined_stderr(),
        status,
    }
}

/// What is published about a job whose plan could not be run: no output,
/// the error, and `failed`.
pub fn report_failure(job_id: &str, error: &AgwError) -> (report: JobReport)
    ensures
        report.job_id@ == job_id@,
        report.stdout@.len() == 0,
        report.stderr@ == "Execution error: "@ + shown(*error),
        report.status@ == "failed"@,
{
    let mut stderr = String::from_str("Execution error: ");
    let text = error.to_string();
    stderr.append(text.as_str());
    JobReport {
        job_id: String::from_str(job_id),
        stdout: String::new(),
        stderr,
        status: String::from_str("failed"),
    }
}

/// What is reported about a valid job can always be published: its
/// identifier is not empty and holds no colon, and `completed` and `failed`
/// are statuses a job can have.
pub proof fn lemma_report_publishable(job: Job, status: Seq<char>)
    requires
        job.valid(),
        status == "completed"@ || status == "failed"@,
    ensures
        publishable(job.job_id@, status),
{
    let id = job.job_id@;
    if id.contains(':') {
        let i = choose|i: int| 0 <= i < id.len() && id[i] == ':';
        assert(!field_char_ok(id[i], true));
    }
}

/// Whether the entry of a job leaves the list of jobs in progress: only
/// when its plan was run and the result was published. Otherwise it stays,
/// for whoever watches that list to look into or to queue again.
pub fn leaves_processing(executed: bool, published: bool) -> (leaves: bool)
    ensures
        leaves == (executed && published),
{
    executed && published
}

} // verus!
