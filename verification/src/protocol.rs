//! The client core: request-id allocation, outgoing request construction,
//! the wait/cancel/timeout state machine a request handle runs, and the
//! bounded retry policy for side-channel state updates.
//!
//! Everything here is a decision from plain values to plain values; the
//! surrounding I/O layer performs the sends, receives and sleeps these
//! decisions call for.

use vstd::prelude::*;
use vstd::string::StringExecFns;
use crate::error::{spec_error_from_payload, error_from_payload, Error, ErrorModel};
use crate::json::{
    json_get, json_text, str_eq, JsonModel, JsonValue, dec_string, dec_text,
};
use crate::state_writes::{parse_state_write_event, spec_state_write, views_of, StateWrite};
use crate::text::trimmed;

verus! {

/// How long the state-update retry loop sleeps between attempts.
pub const STATE_UPDATE_RETRY_INTERVAL_MS: u64 = 25;

/// The default deadline for the state-update retry loop.
pub const STATE_UPDATE_DEFAULT_DEADLINE_MS: u64 = 2000;

/// The default timeout a new client applies to every operation.
pub const DEFAULT_TIMEOUT_MS: u64 = 30000;

// ---------------------------------------------------------------------------
// Building outgoing lines.
// ---------------------------------------------------------------------------

proof fn lemma_view_fields_push(s: Seq<(String, JsonValue)>, p: (String, JsonValue))
    ensures
        JsonValue::view_fields(s.push(p)) == JsonValue::view_fields(s).push((p.0@, p.1@)),
{
    assert(s.push(p).drop_last() =~= s);
    assert(s.push(p).last() == p);
}

/// The envelope of an outgoing request: method, client-assigned id, params.
pub open spec fn request_model(method: Seq<char>, id: u64, params: JsonModel) -> JsonModel {
    JsonModel::Obj(
        seq![
            ("method"@, JsonModel::Str(method)),
            ("id"@, JsonModel::UInt(id)),
            ("params"@, params),
        ],
    )
}

/// Builds the one-line wire text of a request.
pub fn request_line(method: &str, id: u64, params: JsonValue) -> (r: String)
    ensures
        r@ == json_text(request_model(method@, id, params@)),
{
    let ghost pm = params@;
    let mut fields: Vec<(String, JsonValue)> = Vec::new();
    let ghost f0 = fields@;
    fields.push((String::from_str("method"), JsonValue::Str(String::from_str(method))));
    let ghost f1 = fields@;
    fields.push((String::from_str("id"), JsonValue::UInt(id)));
    let ghost f2 = fields@;
    fields.push((String::from_str("params"), params));
    proof {
        lemma_view_fields_push(f0, f1.last());
        lemma_view_fields_push(f1, f2.last());
        lemma_view_fields_push(f2, fields@.last());
        assert(f0 =~= Seq::<(String, JsonValue)>::empty());
        assert(f1 =~= f0.push(f1.last()));
        assert(f2 =~= f1.push(f2.last()));
        assert(fields@ =~= f2.push(fields@.last()));
        assert(JsonValue::view_fields(fields@) =~= seq![
            ("method"@, JsonModel::Str(method@)),
            ("id"@, JsonModel::UInt(id)),
            ("params"@, pm),
        ]);
    }
    let v = JsonValue::Obj(fields);
    crate::json::to_json_text(&v)
}

/// The envelope of a fire-and-forget cancel message.
pub open spec fn cancel_model(id: u64) -> JsonModel {
    JsonModel::Obj(seq![("method"@, JsonModel::Str("cancel"@)), ("id"@, JsonModel::UInt(id))])
}

/// Builds the one-line wire text of a cancel message.
pub fn cancel_line(id: u64) -> (r: String)
    ensures
        r@ == json_text(cancel_model(id)),
{
    let mut fields: Vec<(String, JsonValue)> = Vec::new();
    let ghost f0 = fields@;
    fields.push((String::from_str("method"), JsonValue::Str(String::from_str("cancel"))));
    let ghost f1 = fields@;
    fields.push((String::from_str("id"), JsonValue::UInt(id)));
    proof {
        lemma_view_fields_push(f0, f1.last());
        lemma_view_fields_push(f1, fields@.last());
        assert(f0 =~= Seq::<(String, JsonValue)>::empty());
        assert(f1 =~= f0.push(f1.last()));
        assert(fields@ =~= f1.push(fields@.last()));
        assert(JsonValue::view_fields(fields@) =~= seq![
            ("method"@, JsonModel::Str("cancel"@)),
            ("id"@, JsonModel::UInt(id)),
        ]);
    }
    let v = JsonValue::Obj(fields);
    crate::json::to_json_text(&v)
}

/// The params of a `state:update` request.
pub open spec fn state_update_params_model(
    request_id: u64,
    path: Seq<char>,
    value: JsonModel,
) -> JsonModel {
    JsonModel::Obj(
        seq![
            ("requestId"@, JsonModel::UInt(request_id)),
            ("path"@, JsonModel::Str(path)),
            ("value"@, value),
        ],
    )
}

/// Builds the params of a `state:update` request.
pub fn state_update_params(request_id: u64, path: &str, value: JsonValue) -> (r: JsonValue)
    ensures
        r@ == state_update_params_model(request_id, path@, value@),
{
    let ghost vm = value@;
    let mut fields: Vec<(String, JsonValue)> = Vec::new();
    let ghost f0 = fields@;
    fields.push((String::from_str("requestId"), JsonValue::UInt(request_id)));
    let ghost f1 = fields@;
    fields.push((String::from_str("path"), JsonValue::Str(String::from_str(path))));
    let ghost f2 = fields@;
    fields.push((String::from_str("value"), value));
    proof {
        lemma_view_fields_push(f0, f1.last());
        lemma_view_fields_push(f1, f2.last());
        lemma_view_fields_push(f2, fields@.last());
        assert(f0 =~= Seq::<(String, JsonValue)>::empty());
        assert(f1 =~= f0.push(f1.last()));
        assert(f2 =~= f1.push(f2.last()));
        assert(fields@ =~= f2.push(fields@.last()));
        assert(JsonValue::view_fields(fields@) =~= seq![
            ("requestId"@, JsonModel::UInt(request_id)),
            ("path"@, JsonModel::Str(path@)),
            ("value"@, vm),
        ]);
    }
    JsonValue::Obj(fields)
}

// ---------------------------------------------------------------------------
// Per-call options and their params objects.
// ---------------------------------------------------------------------------

/// Options for process().  The timeout override is in milliseconds.
pub struct ProcessOptions {
    pub file_path: Option<String>,
    pub payload: Option<JsonValue>,
    pub state: Option<JsonValue>,
    pub dynamic_modules: Option<Vec<(String, JsonValue)>>,
    pub dynamic_module_source: Option<String>,
    pub mode: Option<String>,
    pub allow_absolute_paths: Option<bool>,
    pub timeout: Option<u64>,
}

/// Ghost mirror of `ProcessOptions`.
pub struct ProcessOptionsModel {
    pub file_path: Option<Seq<char>>,
    pub payload: Option<JsonModel>,
    pub state: Option<JsonModel>,
    pub dynamic_modules: Option<Seq<(Seq<char>, JsonModel)>>,
    pub dynamic_module_source: Option<Seq<char>>,
    pub mode: Option<Seq<char>>,
    pub allow_absolute_paths: Option<bool>,
    pub timeout: Option<u64>,
}

impl ProcessOptions {
    pub open spec fn view(&self) -> ProcessOptionsModel {
        ProcessOptionsModel {
            file_path: match &self.file_path {
                Some(p) => Some(p@),
                None => None,
            },
            payload: match &self.payload {
                Some(v) => Some(v@),
                None => None,
            },
            state: match &self.state {
                Some(v) => Some(v@),
                None => None,
            },
            dynamic_modules: match &self.dynamic_modules {
                Some(v) => Some(JsonValue::view_fields(v@)),
                None => None,
            },
            dynamic_module_source: match &self.dynamic_module_source {
                Some(p) => Some(p@),
                None => None,
            },
            mode: match &self.mode {
                Some(p) => Some(p@),
                None => None,
            },
            allow_absolute_paths: self.allow_absolute_paths,
            timeout: self.timeout,
        }
    }
}

impl Default for ProcessOptions {
    /// Every option absent.
    fn default() -> (r: Self)
        ensures
            r@ == (ProcessOptionsModel {
                file_path: None,
                payload: None,
                state: None,
                dynamic_modules: None,
                dynamic_module_source: None,
                mode: None,
                allow_absolute_paths: None,
                timeout: None,
            }),
    {
        ProcessOptions {
            file_path: None,
            payload: None,
            state: None,
            dynamic_modules: None,
            dynamic_module_source: None,
            mode: None,
            allow_absolute_paths: None,
            timeout: None,
        }
    }
}

/// Options for execute().  The timeout override is in milliseconds.
pub struct ExecuteOptions {
    pub state: Option<JsonValue>,
    pub dynamic_modules: Option<Vec<(String, JsonValue)>>,
    pub dynamic_module_source: Option<String>,
    pub mode: Option<String>,
    pub allow_absolute_paths: Option<bool>,
    pub timeout: Option<u64>,
}

/// Ghost mirror of `ExecuteOptions`.
pub struct ExecuteOptionsModel {
    pub state: Option<JsonModel>,
    pub dynamic_modules: Option<Seq<(Seq<char>, JsonModel)>>,
    pub dynamic_module_source: Option<Seq<char>>,
    pub mode: Option<Seq<char>>,
    pub allow_absolute_paths: Option<bool>,
    pub timeout: Option<u64>,
}

impl ExecuteOptions {
    pub open spec fn view(&self) -> ExecuteOptionsModel {
        ExecuteOptionsModel {
            state: match &self.state {
                Some(v) => Some(v@),
                None => None,
            },
            dynamic_modules: match &self.dynamic_modules {
                Some(v) => Some(JsonValue::view_fields(v@)),
                None => None,
            },
            dynamic_module_source: match &self.dynamic_module_source {
                Some(p) => Some(p@),
                None => None,
            },
            mode: match &self.mode {
                Some(p) => Some(p@),
                None => None,
            },
            allow_absolute_paths: self.allow_absolute_paths,
            timeout: self.timeout,
        }
    }
}

impl Default for ExecuteOptions {
    /// Every option absent.
    fn default() -> (r: Self)
        ensures
            r@ == (ExecuteOptionsModel {
                state: None,
                dynamic_modules: None,
                dynamic_module_source: None,
                mode: None,
                allow_absolute_paths: None,
                timeout: None,
            }),
    {
        ExecuteOptions {
            state: None,
            dynamic_modules: None,
            dynamic_module_source: None,
            mode: None,
            allow_absolute_paths: None,
            timeout: None,
        }
    }
}

/// Appends one member if the option is set; absent options are omitted from
/// the outgoing request, never sent as null.
pub open spec fn opt_push(
    fields: Seq<(Seq<char>, JsonModel)>,
    key: Seq<char>,
    v: Option<JsonModel>,
) -> Seq<(Seq<char>, JsonModel)> {
    match v {
        Some(x) => fields.push((key, x)),
        None => fields,
    }
}

pub open spec fn opt_str(v: Option<Seq<char>>) -> Option<JsonModel> {
    match v {
        Some(s) => Some(JsonModel::Str(s)),
        None => None,
    }
}

pub open spec fn opt_obj(v: Option<Seq<(Seq<char>, JsonModel)>>) -> Option<JsonModel> {
    match v {
        Some(f) => Some(JsonModel::Obj(f)),
        None => None,
    }
}

pub open spec fn opt_bool(v: Option<bool>) -> Option<JsonModel> {
    match v {
        Some(b) => Some(JsonModel::Bool(b)),
        None => None,
    }
}

/// The params object of a `process` request: the script, then every present
/// option, in a fixed order.
pub open spec fn process_params_model(script: Seq<char>, o: ProcessOptionsModel) -> JsonModel {
    JsonModel::Obj(
        opt_push(
            opt_push(
                opt_push(
                    opt_push(
                        opt_push(
                            opt_push(
                                opt_push(
                                    seq![("script"@, JsonModel::Str(script))],
                                    "filePath"@,
                                    opt_str(o.file_path),
                                ),
                                "payload"@,
                                o.payload,
                            ),
                            "state"@,
                            o.state,
                        ),
                        "dynamicModules"@,
                        opt_obj(o.dynamic_modules),
                    ),
                    "dynamicModuleSource"@,
                    opt_str(o.dynamic_module_source),
                ),
                "mode"@,
                opt_str(o.mode),
            ),
            "allowAbsolutePaths"@,
            opt_bool(o.allow_absolute_paths),
        ),
    )
}

/// Builds the params object of a `process` request.
pub fn process_params(script: &str, opts: ProcessOptions) -> (r: JsonValue)
    ensures
        r@ == process_params_model(script@, opts@),
{
    let ghost om = opts@;
    let ProcessOptions {
        file_path,
        payload,
        state,
        dynamic_modules,
        dynamic_module_source,
        mode,
        allow_absolute_paths,
        timeout: _,
    } = opts;
    let mut fields: Vec<(String, JsonValue)> = Vec::new();
    let ghost f0 = fields@;
    fields.push((String::from_str("script"), JsonValue::Str(String::from_str(script))));
    proof {
        lemma_view_fields_push(f0, fields@.last());
        assert(f0 =~= Seq::<(String, JsonValue)>::empty());
        assert(fields@ =~= f0.push(fields@.last()));
        assert(JsonValue::view_fields(fields@) =~= seq![("script"@, JsonModel::Str(script@))]);
    }
    if let Some(p) = file_path {
        let ghost fp = fields@;
        fields.push((String::from_str("filePath"), JsonValue::Str(p)));
        proof {
            lemma_view_fields_push(fp, fields@.last());
            assert(fields@ =~= fp.push(fields@.last()));
        }
    }
    if let Some(v) = payload {
        let ghost fp = fields@;
        fields.push((String::from_str("payload"), v));
        proof {
            lemma_view_fields_push(fp, fields@.last());
            assert(fields@ =~= fp.push(fields@.last()));
        }
    }
    if let Some(v) = state {
        let ghost fp = fields@;
        fields.push((String::from_str("state"), v));
        proof {
            lemma_view_fields_push(fp, fields@.last());
            assert(fields@ =~= fp.push(fields@.last()));
        }
    }
    if let Some(v) = dynamic_modules {
        let ghost fp = fields@;
        fields.push((String::from_str("dynamicModules"), JsonValue::Obj(v)));
        proof {
            lemma_view_fields_push(fp, fields@.last());
            assert(fields@ =~= fp.push(fields@.last()));
        }
    }
    if let Some(p) = dynamic_module_source {
        let ghost fp = fields@;
        fields.push((String::from_str("dynamicModuleSource"), JsonValue::Str(p)));
        proof {
            lemma_view_fields_push(fp, fields@.last());
            assert(fields@ =~= fp.push(fields@.last()));
        }
    }
    if let Some(p) = mode {
        let ghost fp = fields@;
        fields.push((String::from_str("mode"), JsonValue::Str(p)));
        proof {
            lemma_view_fields_push(fp, fields@.last());
            assert(fields@ =~= fp.push(fields@.last()));
        }
    }
    if let Some(b) = allow_absolute_paths {
        let ghost fp = fields@;
        fields.push((String::from_str("allowAbsolutePaths"), JsonValue::Bool(b)));
        proof {
            lemma_view_fields_push(fp, fields@.last());
            assert(fields@ =~= fp.push(fields@.last()));
        }
    }
    JsonValue::Obj(fields)
}

/// The params object of an `execute` request: the file path, the payload if
/// any, then every present option, in a fixed order.
pub open spec fn execute_params_model(
    filepath: Seq<char>,
    payload: Option<JsonModel>,
    o: ExecuteOptionsModel,
) -> JsonModel {
    JsonModel::Obj(
        opt_push(
            opt_push(
                opt_push(
                    opt_push(
                        opt_push(
                            opt_push(
                                seq![("filepath"@, JsonModel::Str(filepath))],
                                "payload"@,
                                payload,
                            ),
                            "state"@,
                            o.state,
                        ),
                        "dynamicModules"@,
                        opt_obj(o.dynamic_modules),
                    ),
                    "dynamicModuleSource"@,
                    opt_str(o.dynamic_module_source),
                ),
                "allowAbsolutePaths"@,
                opt_bool(o.allow_absolute_paths),
            ),
            "mode"@,
            opt_str(o.mode),
        ),
    )
}

/// Builds the params object of an `execute` request.
pub fn execute_params(filepath: &str, payload: Option<JsonValue>, opts: ExecuteOptions) -> (r:
    JsonValue)
    ensures
        r@ == execute_params_model(
            filepath@,
            match payload {
                Some(v) => Some(v@),
                None => None,
            },
            opts@,
        ),
{
    let ExecuteOptions {
        state,
        dynamic_modules,
        dynamic_module_source,
        mode,
        allow_absolute_paths,
        timeout: _,
    } = opts;
    let mut fields: Vec<(String, JsonValue)> = Vec::new();
    let ghost f0 = fields@;
    fields.push((String::from_str("filepath"), JsonValue::Str(String::from_str(filepath))));
    proof {
        lemma_view_fields_push(f0, fields@.last());
        assert(f0 =~= Seq::<(String, JsonValue)>::empty());
        assert(fields@ =~= f0.push(fields@.last()));
        assert(JsonValue::view_fields(fields@) =~= seq![("filepath"@, JsonModel::Str(filepath@))]);
    }
    if let Some(v) = payload {
        let ghost fp = fields@;
        fields.push((String::from_str("payload"), v));
        proof {
            lemma_view_fields_push(fp, fields@.last());
            assert(fields@ =~= fp.push(fields@.last()));
        }
    }
    if let Some(v) = state {
        let ghost fp = fields@;
        fields.push((String::from_str("state"), v));
        proof {
            lemma_view_fields_push(fp, fields@.last());
            assert(fields@ =~= fp.push(fields@.last()));
        }
    }
    if let Some(v) = dynamic_modules {
        let ghost fp = fields@;
        fields.push((String::from_str("dynamicModules"), JsonValue::Obj(v)));
        proof {
            lemma_view_fields_push(fp, fields@.last());
            assert(fields@ =~= fp.push(fields@.last()));
        }
    }
    if let Some(p) = dynamic_module_source {
        let ghost fp = fields@;
        fields.push((String::from_str("dynamicModuleSource"), JsonValue::Str(p)));
        proof {
            lemma_view_fields_push(fp, fields@.last());
            assert(fields@ =~= fp.push(fields@.last()));
        }
    }
    if let Some(b) = allow_absolute_paths {
        let ghost fp = fields@;
        fields.push((String::from_str("allowAbsolutePaths"), JsonValue::Bool(b)));
        proof {
            lemma_view_fields_push(fp, fields@.last());
            assert(fields@ =~= fp.push(fields@.last()));
        }
    }
    if let Some(p) = mode {
        let ghost fp = fields@;
        fields.push((String::from_str("mode"), JsonValue::Str(p)));
        proof {
            lemma_view_fields_push(fp, fields@.last());
            assert(fields@ =~= fp.push(fields@.last()));
        }
    }
    JsonValue::Obj(fields)
}

// ---------------------------------------------------------------------------
// The client core.
// ---------------------------------------------------------------------------

/// Client configuration and the request-id counter.  The counter starts at 1
/// and only ever moves forward; nothing — not even a session restart —
/// resets it, so ids are never reused.
pub struct Client {
    /// The worker command to invoke.
    pub command: String,
    /// Extra command args placed before the fixed transport-mode args.
    pub command_args: Vec<String>,
    /// Default timeout for operations, in milliseconds.
    pub timeout: Option<u64>,
    /// Working directory for script execution.
    pub working_dir: Option<String>,
    /// The next request id to hand out.
    pub next_request_id: u64,
}

impl Client {
    /// Create a new client with default settings.
    pub fn new() -> (c: Client)
        ensures
            c.command@ == "mlld"@,
            c.command_args@.len() == 0,
            c.timeout == Some(DEFAULT_TIMEOUT_MS),
            c.working_dir is None,
            c.next_request_id == 1,
    {
        Client {
            command: String::from_str("mlld"),
            command_args: Vec::new(),
            timeout: Some(DEFAULT_TIMEOUT_MS),
            working_dir: None,
            next_request_id: 1,
        }
    }

    /// Use a custom worker command.
    pub fn with_command(self, command: &str) -> (c: Client)
        ensures
            c.command@ == command@,
            c.command_args == self.command_args,
            c.timeout == self.timeout,
            c.working_dir == self.working_dir,
            c.next_request_id == self.next_request_id,
    {
        Client { command: String::from_str(command), ..self }
    }

    /// Use extra command args placed before the transport-mode args.
    pub fn with_command_args(self, args: Vec<String>) -> (c: Client)
        ensures
            c.command == self.command,
            c.command_args == args,
            c.timeout == self.timeout,
            c.working_dir == self.working_dir,
            c.next_request_id == self.next_request_id,
    {
        Client { command_args: args, ..self }
    }

    /// Set the default timeout, in milliseconds.
    pub fn with_timeout(self, timeout_ms: u64) -> (c: Client)
        ensures
            c.command == self.command,
            c.command_args == self.command_args,
            c.timeout == Some(timeout_ms),
            c.working_dir == self.working_dir,
            c.next_request_id == self.next_request_id,
    {
        Client { timeout: Some(timeout_ms), ..self }
    }

    /// Set the working directory.
    pub fn with_working_dir(self, dir: &str) -> (c: Client)
        ensures
            c.command == self.command,
            c.command_args == self.command_args,
            c.timeout == self.timeout,
            c.working_dir matches Some(d) && d@ == dir@,
            c.next_request_id == self.next_request_id,
    {
        Client { working_dir: Some(String::from_str(dir)), ..self }
    }

    /// Allocates the next request id and builds the request line to send:
    /// the only place ids are handed out, before any I/O happens.
    pub fn start_request(&mut self, method: &str, params: JsonValue) -> (r: (u64, String))
        requires
            old(self).next_request_id < u64::MAX,
        ensures
            r.0 == old(self).next_request_id,
            final(self).next_request_id == old(self).next_request_id + 1,
            final(self).command == old(self).command,
            final(self).command_args == old(self).command_args,
            final(self).timeout == old(self).timeout,
            final(self).working_dir == old(self).working_dir,
            r.1@ == json_text(request_model(method@, r.0, params@)),
    {
        let id = self.next_request_id;
        self.next_request_id = self.next_request_id + 1;
        let line = request_line(method, id, params);
        (id, line)
    }
}

impl Default for Client {
    /// Same as `Client::new`.
    fn default() -> (c: Client)
        ensures
            c.command@ == "mlld"@,
            c.command_args@.len() == 0,
            c.timeout == Some(DEFAULT_TIMEOUT_MS),
            c.working_dir is None,
            c.next_request_id == 1,
    {
        Client::new()
    }
}

/// Whether the session slot must spawn a fresh worker before sending: there
/// is no session, or the worker process is no longer running.
pub fn needs_respawn(has_session: bool, running: bool) -> (r: bool)
    ensures
        r == (!has_session || !running),
{
    !has_session || !running
}

// ---------------------------------------------------------------------------
// The wait state machine.
// ---------------------------------------------------------------------------

/// One message delivered on a request's channel.
pub enum TransportMessage {
    Event(JsonValue),
    Result(JsonValue),
    Closed(String),
}

/// What one blocking receive produced.
pub enum RecvOutcome {
    Message(TransportMessage),
    TimedOut,
    Disconnected,
}

/// What the waiting caller must do next.
pub enum AwaitStep {
    /// Keep receiving.
    Continue,
    /// The request succeeded; the accumulated writes are in the state.
    Done { payload: JsonValue },
    /// The worker reported a structured failure.
    FailWorker { error: Error },
    /// The deadline passed: send a best-effort cancel, drop the registry
    /// entry, and fail with a timeout carrying the limit.
    FailTimeout { limit_ms: u64 },
    /// The channel's sender vanished: invalidate the session and fail.
    FailDisconnected,
    /// The session closed underneath the request: invalidate and fail.
    FailClosed { reason: String },
}

/// The wait loop's accumulator: the state-write events seen so far.
pub struct AwaitState {
    pub state_writes: Vec<StateWrite>,
}

impl AwaitState {
    pub fn new() -> (r: AwaitState)
        ensures
            r.state_writes@.len() == 0,
    {
        AwaitState { state_writes: Vec::new() }
    }

    /// One step of the wait loop: events that decode as state writes
    /// accumulate; other events are ignored; a result either fails with the
    /// worker's structured error or completes; a closed or disconnected
    /// channel fails the wait; a timeout fails it with the configured limit.
    pub fn step(&mut self, outcome: RecvOutcome, timeout_ms: Option<u64>) -> (r: AwaitStep)
        requires
            outcome is TimedOut ==> timeout_ms is Some,
        ensures
            outcome matches RecvOutcome::Message(TransportMessage::Event(e)) ==> (r is Continue
                && (match spec_state_write(e@) {
                Some(w) => views_of(final(self).state_writes@) == views_of(
                    old(self).state_writes@,
                ).push(w),
                None => *final(self) == *old(self),
            })),
            outcome matches RecvOutcome::Message(TransportMessage::Result(res)) ==> (*final(self)
                == *old(self) && (match json_get(res@, "error"@) {
                Some(err) => r matches AwaitStep::FailWorker { error } && error@
                    == spec_error_from_payload(err),
                None => r matches AwaitStep::Done { payload } && payload@ == res@,
            })),
            outcome matches RecvOutcome::Message(TransportMessage::Closed(reason)) ==> (r matches
                AwaitStep::FailClosed { reason: rr } && rr@ == reason@ && *final(self) == *old(self)),
            outcome is TimedOut ==> (r matches AwaitStep::FailTimeout { limit_ms } && Some(limit_ms)
                == timeout_ms && *final(self) == *old(self)),
            outcome is Disconnected ==> *final(self) == *old(self) && r is FailDisconnected,
    {
        match outcome {
            RecvOutcome::Message(TransportMessage::Event(e)) => {
                match parse_state_write_event(&e) {
                    Some(w) => {
                        let ghost before = self.state_writes@;
                        self.state_writes.push(w);
                        proof {
                            assert(views_of(self.state_writes@) =~= views_of(before).push(w@));
                        }
                    },
                    None => {},
                }
                AwaitStep::Continue
            },
            RecvOutcome::Message(TransportMessage::Result(res)) => {
                let has_error = match res.get("error") {
                    Some(err) => Some(error_from_payload(err)),
                    None => None,
                };
                match has_error {
                    Some(error) => AwaitStep::FailWorker { error },
                    None => AwaitStep::Done { payload: res },
                }
            },
            RecvOutcome::Message(TransportMessage::Closed(reason)) => {
                AwaitStep::FailClosed { reason }
            },
            RecvOutcome::TimedOut => {
                let limit_ms = match timeout_ms {
                    Some(l) => l,
                    None => 0,
                };
                AwaitStep::FailTimeout { limit_ms }
            },
            RecvOutcome::Disconnected => AwaitStep::FailDisconnected,
        }
    }
}

/// Whether a configured deadline has passed after `elapsed_ms`.
pub fn deadline_passed(elapsed_ms: u64, timeout_ms: Option<u64>) -> (r: bool)
    ensures
        r == (timeout_ms matches Some(l) && elapsed_ms >= l),
{
    match timeout_ms {
        Some(l) => elapsed_ms >= l,
        None => false,
    }
}

/// The error a vanished channel produces.
pub fn disconnected_error() -> (e: Error)
    ensures
        e@ == ErrorModel::Transport("live transport disconnected"@),
{
    Error::Transport(String::from_str("live transport disconnected"))
}

/// The error an exhausted wait produces.
pub fn timeout_error(limit_ms: u64) -> (e: Error)
    ensures
        e@ == ErrorModel::Timeout(limit_ms),
{
    Error::Timeout(limit_ms)
}

/// The error a taken receiver produces: waiting twice concurrently on one
/// handle is a caller mistake, distinct from a transport failure in text.
pub fn already_awaited_error() -> (e: Error)
    ensures
        e@ == ErrorModel::Transport("request handle already awaited"@),
{
    Error::Transport(String::from_str("request handle already awaited"))
}

// ---------------------------------------------------------------------------
// The request handle core.
// ---------------------------------------------------------------------------

/// What a wait on a handle must do: return the cache, fail because the
/// receiver is already taken, or actually receive.
pub enum WaitStart {
    Cached { payload: JsonValue, state_writes: Vec<StateWrite> },
    AlreadyAwaited,
    Receive,
}

/// The pure state of one in-flight request handle: its id, its effective
/// timeout, whether its receiver has been consumed, and the cached terminal
/// result once one arrived.
pub struct RequestHandle {
    pub request_id: u64,
    pub timeout: Option<u64>,
    pub receiver_taken: bool,
    pub cached_result: Option<(JsonValue, Vec<StateWrite>)>,
}

impl RequestHandle {
    /// The cached terminal result, as models.
    pub open spec fn spec_cached(&self) -> Option<(JsonModel, Seq<crate::state_writes::StateWriteModel>)> {
        match self.cached_result {
            Some(c) => Some((c.0@, views_of(c.1@))),
            None => None,
        }
    }

    pub fn new(request_id: u64, timeout: Option<u64>) -> (r: RequestHandle)
        ensures
            r.request_id == request_id,
            r.timeout == timeout,
            !r.receiver_taken,
            r.cached_result is None,
    {
        RequestHandle { request_id, timeout, receiver_taken: false, cached_result: None }
    }

    /// Begins a wait: the cache is consulted before the receiver is
    /// taken, so repeated waits return the identical result; taking an
    /// already-taken receiver is reported as a distinct mistake; otherwise
    /// the receiver is consumed exactly once.
    pub fn begin_wait(&mut self) -> (r: WaitStart)
        ensures
            old(self).cached_result is Some ==> (r matches WaitStart::Cached {
                payload,
                state_writes,
            } && Some((payload@, views_of(state_writes@))) == old(self).spec_cached() && *final(self)
                == *old(self)),
            old(self).cached_result is None && old(self).receiver_taken ==> (*final(self)
                == *old(self) && r is AlreadyAwaited),
            old(self).cached_result is None && !old(self).receiver_taken ==> (r is Receive
                && *final(self) == (RequestHandle { receiver_taken: true, ..*old(self) })),
    {
        match &self.cached_result {
            Some(c) => {
                let payload = crate::json::duplicate(&c.0);
                let state_writes = crate::state_writes::duplicate_writes(&c.1);
                WaitStart::Cached { payload, state_writes }
            },
            None => {
                if self.receiver_taken {
                    WaitStart::AlreadyAwaited
                } else {
                    self.receiver_taken = true;
                    WaitStart::Receive
                }
            },
        }
    }

    /// Caches the terminal result so later waits return it unchanged.
    pub fn store_result(&mut self, payload: &JsonValue, state_writes: &Vec<StateWrite>)
        ensures
            final(self).request_id == old(self).request_id,
            final(self).timeout == old(self).timeout,
            final(self).receiver_taken == old(self).receiver_taken,
            final(self).spec_cached() == Some((payload@, views_of(state_writes@))),
    {
        let p = crate::json::duplicate(payload);
        let w = crate::state_writes::duplicate_writes(state_writes);
        self.cached_result = Some((p, w));
    }
}

// ---------------------------------------------------------------------------
// The state-update retry policy.
// ---------------------------------------------------------------------------

/// What the state-update loop does after one attempt.
pub enum RetryStep {
    /// The update was acknowledged.
    Done,
    /// The worker does not know the id yet: sleep briefly and try again.
    Sleep,
    /// Give up with this error.
    Fail(Error),
}

/// Ghost mirror of `RetryStep`.
pub enum RetryStepModel {
    Done,
    Sleep,
    Fail(ErrorModel),
}

impl RetryStep {
    pub open spec fn view(&self) -> RetryStepModel {
        match self {
            RetryStep::Done => RetryStepModel::Done,
            RetryStep::Sleep => RetryStepModel::Sleep,
            RetryStep::Fail(e) => RetryStepModel::Fail(e@),
        }
    }
}

/// Whether an error is the worker's "request not found" report.
pub open spec fn spec_is_not_found(e: ErrorModel) -> bool {
    e matches ErrorModel::Mlld { code: Some(c), .. } && c == "REQUEST_NOT_FOUND"@
}

/// The deterministic not-found failure the loop ends with at its deadline.
pub open spec fn spec_not_found_failure(request_id: u64) -> ErrorModel {
    ErrorModel::Mlld {
        message: "No active request for id "@ + dec_text(request_id as nat),
        code: Some("REQUEST_NOT_FOUND"@),
    }
}

/// The whole retry policy as one function of an attempt's outcome: a
/// success completes; a not-found before the deadline is absorbed by a
/// sleep-and-retry; a not-found at or past the deadline fails
/// deterministically, naming the target id; any other error fails at once.
pub open spec fn spec_retry_step(
    attempt: Result<JsonModel, ErrorModel>,
    request_id: u64,
    now_ms: u64,
    deadline_ms: u64,
) -> RetryStepModel {
    match attempt {
        Ok(_) => RetryStepModel::Done,
        Err(e) => {
            if !spec_is_not_found(e) {
                RetryStepModel::Fail(e)
            } else if now_ms < deadline_ms {
                RetryStepModel::Sleep
            } else {
                RetryStepModel::Fail(spec_not_found_failure(request_id))
            }
        },
    }
}

/// Decides what the state-update loop does after one attempt.
pub fn update_retry_step(
    attempt: Result<JsonValue, Error>,
    request_id: u64,
    now_ms: u64,
    deadline_ms: u64,
) -> (r: RetryStep)
    ensures
        r@ == spec_retry_step(
            match attempt {
                Ok(v) => Ok(v@),
                Err(e) => Err(e@),
            },
            request_id,
            now_ms,
            deadline_ms,
        ),
{
    match attempt {
        Ok(_) => RetryStep::Done,
        Err(e) => {
            let not_found = match &e {
                Error::Mlld { code: Some(c), .. } => str_eq(c.as_str(), "REQUEST_NOT_FOUND"),
                _ => false,
            };
            if !not_found {
                RetryStep::Fail(e)
            } else if now_ms < deadline_ms {
                RetryStep::Sleep
            } else {
                let mut message = String::from_str("No active request for id ");
                let d = dec_string(request_id);
                message.append(d.as_str());
                RetryStep::Fail(
                    Error::Mlld { message, code: Some(String::from_str("REQUEST_NOT_FOUND")) },
                )
            }
        },
    }
}

/// Rejects a blank state-update path before any round trip is attempted.
pub fn update_state_precheck(path: &str) -> (r: Option<Error>)
    ensures
        r is Some <==> trimmed(path@).len() == 0,
        r matches Some(e) ==> e@ == ErrorModel::Transport("state update path is required"@),
{
    if crate::text::is_blank(path) {
        Some(Error::Transport(String::from_str("state update path is required")))
    } else {
        None
    }
}

} // verus!
