//! Structured results: extracting a process request's textual output,
//! decoding an execute request's structured payload, and decoding a static
//! analysis report.

use vstd::prelude::*;
use vstd::string::StringExecFns;
use crate::error::{Error, ErrorModel};
use crate::json::{
    duplicate, json_get, json_text, str_eq, to_json_text, JsonModel, JsonValue,
};
use crate::state_writes::{views_of, StateWrite, StateWriteModel};

verus! {

// ---------------------------------------------------------------------------
// Generic decoding of JSON member lists.
// ---------------------------------------------------------------------------

/// Decodes a whole list with `f`; one bad element fails the whole list.
pub open spec fn decode_list<T>(items: Seq<JsonModel>, f: spec_fn(JsonModel) -> Option<T>) -> Option<
    Seq<T>,
>
    decreases items,
{
    if items.len() == 0 {
        Some(Seq::empty())
    } else {
        match (decode_list(items.drop_last(), f), f(items.last())) {
            (Some(s), Some(e)) => Some(s.push(e)),
            _ => None,
        }
    }
}

proof fn lemma_decode_list_snoc<T>(items: Seq<JsonModel>, f: spec_fn(JsonModel) -> Option<T>, i: int)
    requires
        0 <= i < items.len(),
    ensures
        decode_list(items.take(i + 1), f) == (match (decode_list(items.take(i), f), f(items[i])) {
            (Some(s), Some(e)) => Some(s.push(e)),
            _ => None::<Seq<T>>,
        }),
{
    assert(items.take(i + 1).drop_last() =~= items.take(i));
    assert(items.take(i + 1).last() == items[i]);
}

proof fn lemma_decode_list_none<T>(items: Seq<JsonModel>, f: spec_fn(JsonModel) -> Option<T>, j: int)
    requires
        0 <= j <= items.len(),
        decode_list(items.take(j), f) is None,
    ensures
        decode_list(items, f) is None,
    decreases items.len() - j,
{
    if j == items.len() {
        assert(items.take(j) =~= items);
    } else {
        lemma_decode_list_snoc(items, f, j);
        lemma_decode_list_none(items, f, j + 1);
    }
}

/// A string member list: every element must be a string.
pub open spec fn spec_decode_string(m: JsonModel) -> Option<Seq<char>> {
    match m {
        JsonModel::Str(s) => Some(s),
        _ => None,
    }
}

fn decode_string_list(items: &Vec<JsonValue>) -> (r: Option<Vec<String>>)
    ensures
        r is Some <==> decode_list(JsonValue::view_items(items@), |m: JsonModel| spec_decode_string(m)) is Some,
        r matches Some(out) ==> Some(out@.map_values(|s: String| s@)) == decode_list(
            JsonValue::view_items(items@),
            |m: JsonModel| spec_decode_string(m),
        ),
{
    let ghost f = |m: JsonModel| spec_decode_string(m);
    let ghost iv = JsonValue::view_items(items@);
    let n = items.len();
    let mut out: Vec<String> = Vec::new();
    let mut i: usize = 0;
    proof {
        crate::json::lemma_view_items_index(items@);
        assert(iv.take(0) =~= Seq::<JsonModel>::empty());
        assert(out@.map_values(|s: String| s@) =~= Seq::<Seq<char>>::empty());
    }
    while i < n
        invariant
            n == items@.len(),
            iv == JsonValue::view_items(items@),
            iv.len() == n,
            forall|k: int| 0 <= k < n ==> iv[k] == items@[k]@,
            i <= n,
            f == (|m: JsonModel| spec_decode_string(m)),
            decode_list(iv.take(i as int), f) == Some(out@.map_values(|s: String| s@)),
        decreases n - i,
    {
        proof {
            lemma_decode_list_snoc(iv, f, i as int);
        }
        match &items[i] {
            JsonValue::Str(s) => {
                let ghost prev = out@;
                out.push(s.clone());
                proof {
                    assert(out@.drop_last() =~= prev);
                    assert(out@.map_values(|s: String| s@) =~= prev.map_values(
                        |s: String| s@,
                    ).push(out@.last()@));
                }
            },
            _ => {
                proof {
                    lemma_decode_list_none(iv, f, i + 1);
                }
                return None;
            },
        }
        i = i + 1;
    }
    proof {
        assert(iv.take(n as int) =~= iv);
    }
    Some(out)
}

// ---------------------------------------------------------------------------
// Output extraction for process results.
// ---------------------------------------------------------------------------

/// The textual output carried by a success payload: its `output` member,
/// else its `value` member; a string stays itself, any other value is
/// rendered as its wire text; nothing at all gives the empty string.
pub open spec fn spec_extract_output(m: JsonModel) -> Seq<char> {
    match json_get(m, "output"@) {
        Some(v) => match v {
            JsonModel::Str(s) => s,
            _ => json_text(v),
        },
        None => match json_get(m, "value"@) {
            Some(v) => match v {
                JsonModel::Str(s) => s,
                _ => json_text(v),
            },
            None => Seq::empty(),
        },
    }
}

/// Extracts the textual output of a process result.
pub fn extract_output(result: &JsonValue) -> (r: String)
    ensures
        r@ == spec_extract_output(result@),
{
    let picked = match result.get("output") {
        Some(v) => Some(v),
        None => result.get("value"),
    };
    match picked {
        Some(v) => match v {
            JsonValue::Str(s) => s.clone(),
            other => to_json_text(other),
        },
        None => String::new(),
    }
}

// ---------------------------------------------------------------------------
// Stripping the envelope id.
// ---------------------------------------------------------------------------

/// The members of an object except those named `key`.
pub open spec fn fields_without(
    fields: Seq<(Seq<char>, JsonModel)>,
    key: Seq<char>,
) -> Seq<(Seq<char>, JsonModel)>
    decreases fields,
{
    if fields.len() == 0 {
        Seq::empty()
    } else if fields.last().0 == key {
        fields_without(fields.drop_last(), key)
    } else {
        fields_without(fields.drop_last(), key).push(fields.last())
    }
}

/// An object without its `key` members; any other value is untouched.
pub open spec fn spec_strip_member(m: JsonModel, key: Seq<char>) -> JsonModel {
    match m {
        JsonModel::Obj(fields) => JsonModel::Obj(fields_without(fields, key)),
        _ => m,
    }
}

/// Removes the `key` members of an object, as decoding strips the envelope's
/// `id` before structural interpretation.
pub fn strip_member(v: JsonValue, key: &str) -> (r: JsonValue)
    ensures
        r@ == spec_strip_member(v@, key@),
{
    match v {
        JsonValue::Obj(fields) => {
            let ghost fv = JsonValue::view_fields(fields@);
            proof {
                crate::json::lemma_view_fields_index(fields@);
                assert(fields_without(fv.take(0), key@) =~= Seq::<(Seq<char>, JsonModel)>::empty());
            }
            let n = fields.len();
            let mut out: Vec<(String, JsonValue)> = Vec::new();
            let mut i: usize = 0;
            while i < n
                invariant
                    n == fields@.len(),
                    fv == JsonValue::view_fields(fields@),
                    fv.len() == n,
                    forall|k: int| 0 <= k < n ==> fv[k] == (fields@[k].0@, fields@[k].1@),
                    i <= n,
                    JsonValue::view_fields(out@) == fields_without(fv.take(i as int), key@),
                decreases n - i,
            {
                proof {
                    assert(fv.take(i + 1).drop_last() =~= fv.take(i as int));
                    assert(fv.take(i + 1).last() == fv[i as int]);
                }
                if !str_eq(fields[i].0.as_str(), key) {
                    let ghost prev = out@;
                    let k = fields[i].0.clone();
                    let d = duplicate(&fields[i].1);
                    out.push((k, d));
                    proof {
                        assert(out@.drop_last() =~= prev);
                        assert(JsonValue::view_fields(out@) =~= JsonValue::view_fields(prev).push(
                            (out@.last().0@, out@.last().1@),
                        ));
                    }
                }
                i = i + 1;
            }
            proof {
                assert(fv.take(n as int) =~= fv);
            }
            JsonValue::Obj(out)
        },
        other => other,
    }
}

// ---------------------------------------------------------------------------
// Execute results.
// ---------------------------------------------------------------------------

/// An output effect from execution.
pub struct Effect {
    pub effect_type: String,
    pub content: Option<String>,
    pub security: Option<JsonValue>,
}

/// Ghost mirror of `Effect`.
pub struct EffectModel {
    pub effect_type: Seq<char>,
    pub content: Option<Seq<char>>,
    pub security: Option<JsonModel>,
}

impl Effect {
    pub open spec fn view(&self) -> EffectModel {
        EffectModel {
            effect_type: self.effect_type@,
            content: match &self.content {
                Some(c) => Some(c@),
                None => None,
            },
            security: match &self.security {
                Some(v) => Some(v@),
                None => None,
            },
        }
    }
}

/// An effect object: a required `type` string; `content` an optional
/// string; `security` an optional value, null counting as absent.
pub open spec fn spec_decode_effect(m: JsonModel) -> Option<EffectModel> {
    match json_get(m, "type"@) {
        Some(JsonModel::Str(t)) => {
            let content = match json_get(m, "content"@) {
                Some(JsonModel::Str(c)) => Some(Some(c)),
                Some(JsonModel::Null) => Some(None),
                Some(_) => None,
                None => Some(None),
            };
            match content {
                Some(c) => Some(
                    EffectModel {
                        effect_type: t,
                        content: c,
                        security: match json_get(m, "security"@) {
                            Some(JsonModel::Null) => None,
                            Some(v) => Some(v),
                            None => None,
                        },
                    },
                ),
                None => None,
            }
        },
        _ => None,
    }
}

fn decode_effect(m: &JsonValue) -> (r: Option<Effect>)
    ensures
        r is Some <==> spec_decode_effect(m@) is Some,
        r matches Some(e) ==> Some(e@) == spec_decode_effect(m@),
{
    let effect_type = match m.get("type") {
        Some(JsonValue::Str(t)) => t.clone(),
        _ => {
            return None;
        },
    };
    let content = match m.get("content") {
        Some(JsonValue::Str(c)) => Some(c.clone()),
        Some(JsonValue::Null) => None,
        Some(_) => {
            return None;
        },
        None => None,
    };
    let security = match m.get("security") {
        Some(JsonValue::Null) => None,
        Some(v) => Some(duplicate(v)),
        None => None,
    };
    Some(Effect { effect_type, content, security })
}

/// A state write as an execute result's `stateWrites` list carries it: a
/// required string `path`, a required `value`, an optional string
/// `timestamp`, null counting as absent.
pub open spec fn spec_decode_state_write(m: JsonModel) -> Option<StateWriteModel> {
    match (json_get(m, "path"@), json_get(m, "value"@)) {
        (Some(JsonModel::Str(p)), Some(v)) => {
            match json_get(m, "timestamp"@) {
                Some(JsonModel::Str(t)) => Some(
                    StateWriteModel { path: p, value: v, timestamp: Some(t) },
                ),
                Some(JsonModel::Null) => Some(StateWriteModel { path: p, value: v, timestamp: None }),
                Some(_) => None,
                None => Some(StateWriteModel { path: p, value: v, timestamp: None }),
            }
        },
        _ => None,
    }
}

fn decode_state_write(m: &JsonValue) -> (r: Option<StateWrite>)
    ensures
        r is Some <==> spec_decode_state_write(m@) is Some,
        r matches Some(w) ==> Some(w@) == spec_decode_state_write(m@),
{
    let path = match m.get("path") {
        Some(JsonValue::Str(p)) => p.clone(),
        _ => {
            return None;
        },
    };
    let value = match m.get("value") {
        Some(v) => duplicate(v),
        None => {
            return None;
        },
    };
    let timestamp = match m.get("timestamp") {
        Some(JsonValue::Str(t)) => Some(t.clone()),
        Some(JsonValue::Null) => None,
        Some(_) => {
            return None;
        },
        None => None,
    };
    Some(StateWrite { path, value, timestamp })
}

/// Structured output from execute().  Raw execution metrics, when present,
/// are kept as the JSON value the worker sent.
pub struct ExecuteResult {
    pub output: String,
    pub state_writes: Vec<StateWrite>,
    pub exports: JsonValue,
    pub effects: Vec<Effect>,
    pub metrics: Option<JsonValue>,
}

/// Ghost mirror of `ExecuteResult`.
pub struct ExecuteResultModel {
    pub output: Seq<char>,
    pub state_writes: Seq<StateWriteModel>,
    pub exports: JsonModel,
    pub effects: Seq<EffectModel>,
    pub metrics: Option<JsonModel>,
}

impl ExecuteResult {
    pub open spec fn view(&self) -> ExecuteResultModel {
        ExecuteResultModel {
            output: self.output@,
            state_writes: views_of(self.state_writes@),
            exports: self.exports@,
            effects: self.effects@.map_values(|e: Effect| e@),
            metrics: match &self.metrics {
                Some(v) => Some(v@),
                None => None,
            },
        }
    }
}

/// The structural reading of an execute success payload: a required string
/// `output`; `stateWrites` and `effects` lists that default to empty;
/// `exports` defaulting to null; `metrics` kept raw, null counting as
/// absent.  Any shape violation fails the whole reading.
pub open spec fn spec_decode_execute(m: JsonModel) -> Option<ExecuteResultModel> {
    match json_get(m, "output"@) {
        Some(JsonModel::Str(out)) => {
            let writes = match json_get(m, "stateWrites"@) {
                Some(JsonModel::Arr(items)) => decode_list(
                    items,
                    |w: JsonModel| spec_decode_state_write(w),
                ),
                Some(_) => None,
                None => Some(Seq::empty()),
            };
            let effects = match json_get(m, "effects"@) {
                Some(JsonModel::Arr(items)) => decode_list(
                    items,
                    |w: JsonModel| spec_decode_effect(w),
                ),
                Some(_) => None,
                None => Some(Seq::empty()),
            };
            match (writes, effects) {
                (Some(ws), Some(es)) => Some(
                    ExecuteResultModel {
                        output: out,
                        state_writes: ws,
                        exports: match json_get(m, "exports"@) {
                            Some(v) => v,
                            None => JsonModel::Null,
                        },
                        effects: es,
                        metrics: match json_get(m, "metrics"@) {
                            Some(JsonModel::Null) => None,
                            Some(v) => Some(v),
                            None => None,
                        },
                    },
                ),
                _ => None,
            }
        },
        _ => None,
    }
}

fn decode_state_write_list(items: &Vec<JsonValue>) -> (r: Option<Vec<StateWrite>>)
    ensures
        r is Some <==> decode_list(
            JsonValue::view_items(items@),
            |w: JsonModel| spec_decode_state_write(w),
        ) is Some,
        r matches Some(out) ==> Some(views_of(out@)) == decode_list(
            JsonValue::view_items(items@),
            |w: JsonModel| spec_decode_state_write(w),
        ),
{
    let ghost f = |w: JsonModel| spec_decode_state_write(w);
    let ghost iv = JsonValue::view_items(items@);
    let n = items.len();
    let mut out: Vec<StateWrite> = Vec::new();
    let mut i: usize = 0;
    proof {
        crate::json::lemma_view_items_index(items@);
        assert(iv.take(0) =~= Seq::<JsonModel>::empty());
        assert(views_of(out@) =~= Seq::<StateWriteModel>::empty());
    }
    while i < n
        invariant
            n == items@.len(),
            iv == JsonValue::view_items(items@),
            iv.len() == n,
            forall|k: int| 0 <= k < n ==> iv[k] == items@[k]@,
            i <= n,
            f == (|w: JsonModel| spec_decode_state_write(w)),
            decode_list(iv.take(i as int), f) == Some(views_of(out@)),
        decreases n - i,
    {
        proof {
            lemma_decode_list_snoc(iv, f, i as int);
        }
        match decode_state_write(&items[i]) {
            Some(w) => {
                let ghost prev = out@;
                out.push(w);
                proof {
                    assert(views_of(out@) =~= views_of(prev).push(out@.last()@));
                }
            },
            None => {
                proof {
                    lemma_decode_list_none(iv, f, i + 1);
                }
                return None;
            },
        }
        i = i + 1;
    }
    proof {
        assert(iv.take(n as int) =~= iv);
    }
    Some(out)
}

fn decode_effect_list(items: &Vec<JsonValue>) -> (r: Option<Vec<Effect>>)
    ensures
        r is Some <==> decode_list(
            JsonValue::view_items(items@),
            |w: JsonModel| spec_decode_effect(w),
        ) is Some,
        r matches Some(out) ==> Some(out@.map_values(|e: Effect| e@)) == decode_list(
            JsonValue::view_items(items@),
            |w: JsonModel| spec_decode_effect(w),
        ),
{
    let ghost f = |w: JsonModel| spec_decode_effect(w);
    let ghost iv = JsonValue::view_items(items@);
    let n = items.len();
    let mut out: Vec<Effect> = Vec::new();
    let mut i: usize = 0;
    proof {
        crate::json::lemma_view_items_index(items@);
        assert(iv.take(0) =~= Seq::<JsonModel>::empty());
        assert(out@.map_values(|e: Effect| e@) =~= Seq::<EffectModel>::empty());
    }
    while i < n
        invariant
            n == items@.len(),
            iv == JsonValue::view_items(items@),
            iv.len() == n,
            forall|k: int| 0 <= k < n ==> iv[k] == items@[k]@,
            i <= n,
            f == (|w: JsonModel| spec_decode_effect(w)),
            decode_list(iv.take(i as int), f) == Some(out@.map_values(|e: Effect| e@)),
        decreases n - i,
    {
        proof {
            lemma_decode_list_snoc(iv, f, i as int);
        }
        match decode_effect(&items[i]) {
            Some(e) => {
                let ghost prev = out@;
                out.push(e);
                proof {
                    assert(out@.map_values(|e: Effect| e@) =~= prev.map_values(
                        |e: Effect| e@,
                    ).push(out@.last()@));
                }
            },
            None => {
                proof {
                    lemma_decode_list_none(iv, f, i + 1);
                }
                return None;
            },
        }
        i = i + 1;
    }
    proof {
        assert(iv.take(n as int) =~= iv);
    }
    Some(out)
}

/// Decodes an execute success payload structurally, if it has the expected
/// shape.
pub fn decode_execute_result(payload: &JsonValue) -> (r: Option<ExecuteResult>)
    ensures
        r is Some <==> spec_decode_execute(payload@) is Some,
        r matches Some(er) ==> Some(er@) == spec_decode_execute(payload@),
{
    let output = match payload.get("output") {
        Some(JsonValue::Str(s)) => s.clone(),
        _ => {
            return None;
        },
    };
    let state_writes = match payload.get("stateWrites") {
        Some(JsonValue::Arr(items)) => {
            match decode_state_write_list(items) {
                Some(ws) => ws,
                None => {
                    return None;
                },
            }
        },
        Some(_) => {
            return None;
        },
        None => Vec::new(),
    };
    let effects = match payload.get("effects") {
        Some(JsonValue::Arr(items)) => {
            match decode_effect_list(items) {
                Some(es) => es,
                None => {
                    return None;
                },
            }
        },
        Some(_) => {
            return None;
        },
        None => Vec::new(),
    };
    let exports = match payload.get("exports") {
        Some(v) => duplicate(v),
        None => JsonValue::Null,
    };
    let metrics = match payload.get("metrics") {
        Some(JsonValue::Null) => None,
        Some(v) => Some(duplicate(v)),
        None => None,
    };
    proof {
        assert(views_of(Seq::<StateWrite>::empty()) =~= Seq::<StateWriteModel>::empty());
        assert(Seq::<Effect>::empty().map_values(|e: Effect| e@) =~= Seq::<EffectModel>::empty());
    }
    Some(ExecuteResult { output, state_writes, exports, effects, metrics })
}

/// What `ExecuteHandle::result` returns for a success payload and the writes
/// collected from events: the payload, its `id` stripped, read structurally
/// when it has the expected shape and wrapped as plain text otherwise; the
/// payload's own writes and the event writes merged first-seen-wins.
pub open spec fn spec_execute_result(
    payload: JsonModel,
    event_writes: Seq<StateWriteModel>,
) -> ExecuteResultModel {
    let m = spec_strip_member(payload, "id"@);
    match spec_decode_execute(m) {
        Some(d) => ExecuteResultModel {
            state_writes: crate::state_writes::spec_merge_views(d.state_writes, event_writes),
            ..d
        },
        None => ExecuteResultModel {
            output: json_text(m),
            state_writes: crate::state_writes::spec_merge_views(Seq::empty(), event_writes),
            exports: JsonModel::Null,
            effects: Seq::empty(),
            metrics: None,
        },
    }
}

/// Builds the structured result of an execute request.
pub fn execute_result_from_payload(payload: JsonValue, event_writes: Vec<StateWrite>) -> (r:
    ExecuteResult)
    ensures
        r@ == spec_execute_result(payload@, views_of(event_writes@)),
{
    let stripped = strip_member(payload, "id");
    match decode_execute_result(&stripped) {
        Some(er) => {
            let ExecuteResult { output, state_writes, exports, effects, metrics } = er;
            let merged = crate::state_writes::merge_state_writes(state_writes, event_writes);
            ExecuteResult { output, state_writes: merged, exports, effects, metrics }
        },
        None => {
            let output = to_json_text(&stripped);
            let empty_primary: Vec<StateWrite> = Vec::new();
            proof {
                assert(views_of(empty_primary@) =~= Seq::<StateWriteModel>::empty());
            }
            let merged = crate::state_writes::merge_state_writes(empty_primary, event_writes);
            let no_effects: Vec<Effect> = Vec::new();
            proof {
                assert(no_effects@.map_values(|e: Effect| e@) =~= Seq::<EffectModel>::empty());
            }
            ExecuteResult {
                output,
                state_writes: merged,
                exports: JsonValue::Null,
                effects: no_effects,
                metrics: None,
            }
        },
    }
}

// ---------------------------------------------------------------------------
// Static analysis reports.
// ---------------------------------------------------------------------------

/// A parse or analysis error.
pub struct AnalysisError {
    pub message: String,
    pub line: Option<u32>,
    pub column: Option<u32>,
}

/// Ghost mirror of `AnalysisError`.
pub struct AnalysisErrorModel {
    pub message: Seq<char>,
    pub line: Option<u32>,
    pub column: Option<u32>,
}

impl AnalysisError {
    pub open spec fn view(&self) -> AnalysisErrorModel {
        AnalysisErrorModel { message: self.message@, line: self.line, column: self.column }
    }
}

/// An executable defined in a module.
pub struct Executable {
    pub name: String,
    pub params: Vec<String>,
    pub labels: Vec<String>,
}

/// Ghost mirror of `Executable`.
pub struct ExecutableModel {
    pub name: Seq<char>,
    pub params: Seq<Seq<char>>,
    pub labels: Seq<Seq<char>>,
}

impl Executable {
    pub open spec fn view(&self) -> ExecutableModel {
        ExecutableModel {
            name: self.name@,
            params: self.params@.map_values(|s: String| s@),
            labels: self.labels@.map_values(|s: String| s@),
        }
    }
}

/// An import statement in a module.
pub struct Import {
    pub from: String,
    pub names: Vec<String>,
}

/// Ghost mirror of `Import`.
pub struct ImportModel {
    pub from: Seq<char>,
    pub names: Seq<Seq<char>>,
}

impl Import {
    pub open spec fn view(&self) -> ImportModel {
        ImportModel { from: self.from@, names: self.names@.map_values(|s: String| s@) }
    }
}

/// A guard defined in a module.
pub struct Guard {
    pub name: String,
    pub timing: String,
    pub label: Option<String>,
}

/// Ghost mirror of `Guard`.
pub struct GuardModel {
    pub name: Seq<char>,
    pub timing: Seq<char>,
    pub label: Option<Seq<char>>,
}

impl Guard {
    pub open spec fn view(&self) -> GuardModel {
        GuardModel {
            name: self.name@,
            timing: self.timing@,
            label: match &self.label {
                Some(l) => Some(l@),
                None => None,
            },
        }
    }
}

/// Capability requirements for a module.
pub struct Needs {
    pub cmd: Vec<String>,
    pub node: Vec<String>,
    pub py: Vec<String>,
}

/// Ghost mirror of `Needs`.
pub struct NeedsModel {
    pub cmd: Seq<Seq<char>>,
    pub node: Seq<Seq<char>>,
    pub py: Seq<Seq<char>>,
}

impl Needs {
    pub open spec fn view(&self) -> NeedsModel {
        NeedsModel {
            cmd: self.cmd@.map_values(|s: String| s@),
            node: self.node@.map_values(|s: String| s@),
            py: self.py@.map_values(|s: String| s@),
        }
    }
}

/// Static analysis of a module.
pub struct AnalyzeResult {
    pub filepath: String,
    pub valid: bool,
    pub errors: Vec<AnalysisError>,
    pub executables: Vec<Executable>,
    pub exports: Vec<String>,
    pub imports: Vec<Import>,
    pub guards: Vec<Guard>,
    pub needs: Option<Needs>,
}

/// Ghost mirror of `AnalyzeResult`.
pub struct AnalyzeResultModel {
    pub filepath: Seq<char>,
    pub valid: bool,
    pub errors: Seq<AnalysisErrorModel>,
    pub executables: Seq<ExecutableModel>,
    pub exports: Seq<Seq<char>>,
    pub imports: Seq<ImportModel>,
    pub guards: Seq<GuardModel>,
    pub needs: Option<NeedsModel>,
}

impl AnalyzeResult {
    pub open spec fn view(&self) -> AnalyzeResultModel {
        AnalyzeResultModel {
            filepath: self.filepath@,
            valid: self.valid,
            errors: self.errors@.map_values(|e: AnalysisError| e@),
            executables: self.executables@.map_values(|e: Executable| e@),
            exports: self.exports@.map_values(|s: String| s@),
            imports: self.imports@.map_values(|e: Import| e@),
            guards: self.guards@.map_values(|e: Guard| e@),
            needs: match &self.needs {
                Some(n) => Some(n@),
                None => None,
            },
        }
    }
}

/// An optional unsigned position member: absent or null counts as nothing;
/// a number must fit.
pub open spec fn spec_decode_opt_u32(v: Option<JsonModel>) -> Option<Option<u32>> {
    match v {
        None => Some(None),
        Some(JsonModel::Null) => Some(None),
        Some(JsonModel::UInt(n)) => if n <= u32::MAX { Some(Some(n as u32)) } else { None },
        Some(_) => None,
    }
}

/// An optional string-list member: absent counts as the empty list.
pub open spec fn spec_decode_opt_strlist(v: Option<JsonModel>) -> Option<Seq<Seq<char>>> {
    match v {
        None => Some(Seq::empty()),
        Some(JsonModel::Arr(items)) => decode_list(items, |m: JsonModel| spec_decode_string(m)),
        Some(_) => None,
    }
}

pub open spec fn spec_decode_analysis_error(m: JsonModel) -> Option<AnalysisErrorModel> {
    match json_get(m, "message"@) {
        Some(JsonModel::Str(msg)) => {
            match (
                spec_decode_opt_u32(json_get(m, "line"@)),
                spec_decode_opt_u32(json_get(m, "column"@)),
            ) {
                (Some(line), Some(column)) => Some(AnalysisErrorModel { message: msg, line, column }),
                _ => None,
            }
        },
        _ => None,
    }
}

pub open spec fn spec_decode_executable(m: JsonModel) -> Option<ExecutableModel> {
    match json_get(m, "name"@) {
        Some(JsonModel::Str(name)) => {
            match (
                spec_decode_opt_strlist(json_get(m, "params"@)),
                spec_decode_opt_strlist(json_get(m, "labels"@)),
            ) {
                (Some(params), Some(labels)) => Some(ExecutableModel { name, params, labels }),
                _ => None,
            }
        },
        _ => None,
    }
}

pub open spec fn spec_decode_import(m: JsonModel) -> Option<ImportModel> {
    match json_get(m, "from"@) {
        Some(JsonModel::Str(from)) => {
            match spec_decode_opt_strlist(json_get(m, "names"@)) {
                Some(names) => Some(ImportModel { from, names }),
                None => None,
            }
        },
        _ => None,
    }
}

pub open spec fn spec_decode_guard(m: JsonModel) -> Option<GuardModel> {
    match (json_get(m, "name"@), json_get(m, "timing"@)) {
        (Some(JsonModel::Str(name)), Some(JsonModel::Str(timing))) => {
            match json_get(m, "label"@) {
                Some(JsonModel::Str(l)) => Some(GuardModel { name, timing, label: Some(l) }),
                Some(JsonModel::Null) => Some(GuardModel { name, timing, label: None }),
                Some(_) => None,
                None => Some(GuardModel { name, timing, label: None }),
            }
        },
        _ => None,
    }
}

pub open spec fn spec_decode_needs(m: JsonModel) -> Option<NeedsModel> {
    match (
        spec_decode_opt_strlist(json_get(m, "cmd"@)),
        spec_decode_opt_strlist(json_get(m, "node"@)),
        spec_decode_opt_strlist(json_get(m, "py"@)),
    ) {
        (Some(cmd), Some(node), Some(py)) => Some(NeedsModel { cmd, node, py }),
        _ => None,
    }
}

/// The structural reading of an analyze result, its envelope id already
/// stripped: a required string `filepath` and boolean `valid`; the error,
/// executable, export, import and guard lists defaulting to empty; `needs`
/// optional, null counting as absent.
pub open spec fn spec_decode_analyze(m: JsonModel) -> Option<AnalyzeResultModel> {
    match (json_get(m, "filepath"@), json_get(m, "valid"@)) {
        (Some(JsonModel::Str(filepath)), Some(JsonModel::Bool(valid))) => {
            let errors = match json_get(m, "errors"@) {
                None => Some(Seq::empty()),
                Some(JsonModel::Arr(items)) => decode_list(
                    items,
                    |w: JsonModel| spec_decode_analysis_error(w),
                ),
                Some(_) => None,
            };
            let executables = match json_get(m, "executables"@) {
                None => Some(Seq::empty()),
                Some(JsonModel::Arr(items)) => decode_list(
                    items,
                    |w: JsonModel| spec_decode_executable(w),
                ),
                Some(_) => None,
            };
            let exports = spec_decode_opt_strlist(json_get(m, "exports"@));
            let imports = match json_get(m, "imports"@) {
                None => Some(Seq::empty()),
                Some(JsonModel::Arr(items)) => decode_list(
                    items,
                    |w: JsonModel| spec_decode_import(w),
                ),
                Some(_) => None,
            };
            let guards = match json_get(m, "guards"@) {
                None => Some(Seq::empty()),
                Some(JsonModel::Arr(items)) => decode_list(
                    items,
                    |w: JsonModel| spec_decode_guard(w),
                ),
                Some(_) => None,
            };
            let needs = match json_get(m, "needs"@) {
                None => Some(None),
                Some(JsonModel::Null) => Some(None),
                Some(v) => match spec_decode_needs(v) {
                    Some(n) => Some(Some(n)),
                    None => None,
                },
            };
            match (errors, executables, exports, imports, guards, needs) {
                (Some(a), Some(b), Some(c), Some(d), Some(e), Some(f)) => Some(
                    AnalyzeResultModel {
                        filepath,
                        valid,
                        errors: a,
                        executables: b,
                        exports: c,
                        imports: d,
                        guards: e,
                        needs: f,
                    },
                ),
                _ => None,
            }
        },
        _ => None,
    }
}

fn decode_opt_u32(v: Option<&JsonValue>) -> (r: Option<Option<u32>>)
    ensures
        r == spec_decode_opt_u32(
            match v {
                Some(x) => Some(x@),
                None => None,
            },
        ),
{
    match v {
        None => Some(None),
        Some(JsonValue::Null) => Some(None),
        Some(JsonValue::UInt(n)) => {
            if *n <= u32::MAX as u64 {
                Some(Some(*n as u32))
            } else {
                None
            }
        },
        Some(_) => None,
    }
}

fn decode_opt_string_list(v: Option<&JsonValue>) -> (r: Option<Vec<String>>)
    ensures
        r is Some <==> spec_decode_opt_strlist(
            match v {
                Some(x) => Some(x@),
                None => None,
            },
        ) is Some,
        r matches Some(out) ==> Some(out@.map_values(|s: String| s@)) == spec_decode_opt_strlist(
            match v {
                Some(x) => Some(x@),
                None => None,
            },
        ),
{
    match v {
        None => {
            let out: Vec<String> = Vec::new();
            proof {
                assert(out@.map_values(|s: String| s@) =~= Seq::<Seq<char>>::empty());
            }
            Some(out)
        },
        Some(JsonValue::Arr(items)) => decode_string_list(items),
        Some(_) => None,
    }
}

fn decode_analysis_error(m: &JsonValue) -> (r: Option<AnalysisError>)
    ensures
        r is Some <==> spec_decode_analysis_error(m@) is Some,
        r matches Some(e) ==> Some(e@) == spec_decode_analysis_error(m@),
{
    let message = match m.get("message") {
        Some(JsonValue::Str(msg)) => msg.clone(),
        _ => {
            return None;
        },
    };
    let line = match decode_opt_u32(m.get("line")) {
        Some(l) => l,
        None => {
            return None;
        },
    };
    let column = match decode_opt_u32(m.get("column")) {
        Some(c) => c,
        None => {
            return None;
        },
    };
    Some(AnalysisError { message, line, column })
}

fn decode_executable(m: &JsonValue) -> (r: Option<Executable>)
    ensures
        r is Some <==> spec_decode_executable(m@) is Some,
        r matches Some(e) ==> Some(e@) == spec_decode_executable(m@),
{
    let name = match m.get("name") {
        Some(JsonValue::Str(s)) => s.clone(),
        _ => {
            return None;
        },
    };
    let params = match decode_opt_string_list(m.get("params")) {
        Some(p) => p,
        None => {
            return None;
        },
    };
    let labels = match decode_opt_string_list(m.get("labels")) {
        Some(l) => l,
        None => {
            return None;
        },
    };
    Some(Executable { name, params, labels })
}

fn decode_import(m: &JsonValue) -> (r: Option<Import>)
    ensures
        r is Some <==> spec_decode_import(m@) is Some,
        r matches Some(e) ==> Some(e@) == spec_decode_import(m@),
{
    let from = match m.get("from") {
        Some(JsonValue::Str(s)) => s.clone(),
        _ => {
            return None;
        },
    };
    let names = match decode_opt_string_list(m.get("names")) {
        Some(p) => p,
        None => {
            return None;
        },
    };
    Some(Import { from, names })
}

fn decode_guard(m: &JsonValue) -> (r: Option<Guard>)
    ensures
        r is Some <==> spec_decode_guard(m@) is Some,
        r matches Some(e) ==> Some(e@) == spec_decode_guard(m@),
{
    let name = match m.get("name") {
        Some(JsonValue::Str(s)) => s.clone(),
        _ => {
            return None;
        },
    };
    let timing = match m.get("timing") {
        Some(JsonValue::Str(s)) => s.clone(),
        _ => {
            return None;
        },
    };
    let label = match m.get("label") {
        Some(JsonValue::Str(s)) => Some(s.clone()),
        Some(JsonValue::Null) => None,
        Some(_) => {
            return None;
        },
        None => None,
    };
    Some(Guard { name, timing, label })
}

fn decode_needs(m: &JsonValue) -> (r: Option<Needs>)
    ensures
        r is Some <==> spec_decode_needs(m@) is Some,
        r matches Some(e) ==> Some(e@) == spec_decode_needs(m@),
{
    let cmd = match decode_opt_string_list(m.get("cmd")) {
        Some(p) => p,
        None => {
            return None;
        },
    };
    let node = match decode_opt_string_list(m.get("node")) {
        Some(p) => p,
        None => {
            return None;
        },
    };
    let py = match decode_opt_string_list(m.get("py")) {
        Some(p) => p,
        None => {
            return None;
        },
    };
    Some(Needs { cmd, node, py })
}

fn decode_analysis_error_list(items: &Vec<JsonValue>) -> (r: Option<Vec<AnalysisError>>)
    ensures
        r is Some <==> decode_list(
            JsonValue::view_items(items@),
            |w: JsonModel| spec_decode_analysis_error(w),
        ) is Some,
        r matches Some(out) ==> Some(out@.map_values(|e: AnalysisError| e@)) == decode_list(
            JsonValue::view_items(items@),
            |w: JsonModel| spec_decode_analysis_error(w),
        ),
{
    let ghost f = |w: JsonModel| spec_decode_analysis_error(w);
    let ghost iv = JsonValue::view_items(items@);
    let n = items.len();
    let mut out: Vec<AnalysisError> = Vec::new();
    let mut i: usize = 0;
    proof {
        crate::json::lemma_view_items_index(items@);
        assert(iv.take(0) =~= Seq::<JsonModel>::empty());
        assert(out@.map_values(|e: AnalysisError| e@) =~= Seq::<AnalysisErrorModel>::empty());
    }
    while i < n
        invariant
            n == items@.len(),
            iv == JsonValue::view_items(items@),
            iv.len() == n,
            forall|k: int| 0 <= k < n ==> iv[k] == items@[k]@,
            i <= n,
            f == (|w: JsonModel| spec_decode_analysis_error(w)),
            decode_list(iv.take(i as int), f) == Some(out@.map_values(|e: AnalysisError| e@)),
        decreases n - i,
    {
        proof {
            lemma_decode_list_snoc(iv, f, i as int);
        }
        match decode_analysis_error(&items[i]) {
            Some(e) => {
                let ghost prev = out@;
                out.push(e);
                proof {
                    assert(out@.map_values(|e: AnalysisError| e@) =~= prev.map_values(
                        |e: AnalysisError| e@,
                    ).push(out@.last()@));
                }
            },
            None => {
                proof {
                    lemma_decode_list_none(iv, f, i + 1);
                }
                return None;
            },
        }
        i = i + 1;
    }
    proof {
        assert(iv.take(n as int) =~= iv);
    }
    Some(out)
}

fn decode_executable_list(items: &Vec<JsonValue>) -> (r: Option<Vec<Executable>>)
    ensures
        r is Some <==> decode_list(
            JsonValue::view_items(items@),
            |w: JsonModel| spec_decode_executable(w),
        ) is Some,
        r matches Some(out) ==> Some(out@.map_values(|e: Executable| e@)) == decode_list(
            JsonValue::view_items(items@),
            |w: JsonModel| spec_decode_executable(w),
        ),
{
    let ghost f = |w: JsonModel| spec_decode_executable(w);
    let ghost iv = JsonValue::view_items(items@);
    let n = items.len();
    let mut out: Vec<Executable> = Vec::new();
    let mut i: usize = 0;
    proof {
        crate::json::lemma_view_items_index(items@);
        assert(iv.take(0) =~= Seq::<JsonModel>::empty());
        assert(out@.map_values(|e: Executable| e@) =~= Seq::<ExecutableModel>::empty());
    }
    while i < n
        invariant
            n == items@.len(),
            iv == JsonValue::view_items(items@),
            iv.len() == n,
            forall|k: int| 0 <= k < n ==> iv[k] == items@[k]@,
            i <= n,
            f == (|w: JsonModel| spec_decode_executable(w)),
            decode_list(iv.take(i as int), f) == Some(out@.map_values(|e: Executable| e@)),
        decreases n - i,
    {
        proof {
            lemma_decode_list_snoc(iv, f, i as int);
        }
        match decode_executable(&items[i]) {
            Some(e) => {
                let ghost prev = out@;
                out.push(e);
                proof {
                    assert(out@.map_values(|e: Executable| e@) =~= prev.map_values(
                        |e: Executable| e@,
                    ).push(out@.last()@));
                }
            },
            None => {
                proof {
                    lemma_decode_list_none(iv, f, i + 1);
                }
                return None;
            },
        }
        i = i + 1;
    }
    proof {
        assert(iv.take(n as int) =~= iv);
    }
    Some(out)
}

fn decode_import_list(items: &Vec<JsonValue>) -> (r: Option<Vec<Import>>)
    ensures
        r is Some <==> decode_list(
            JsonValue::view_items(items@),
            |w: JsonModel| spec_decode_import(w),
        ) is Some,
        r matches Some(out) ==> Some(out@.map_values(|e: Import| e@)) == decode_list(
            JsonValue::view_items(items@),
            |w: JsonModel| spec_decode_import(w),
        ),
{
    let ghost f = |w: JsonModel| spec_decode_import(w);
    let ghost iv = JsonValue::view_items(items@);
    let n = items.len();
    let mut out: Vec<Import> = Vec::new();
    let mut i: usize = 0;
    proof {
        crate::json::lemma_view_items_index(items@);
        assert(iv.take(0) =~= Seq::<JsonModel>::empty());
        assert(out@.map_values(|e: Import| e@) =~= Seq::<ImportModel>::empty());
    }
    while i < n
        invariant
            n == items@.len(),
            iv == JsonValue::view_items(items@),
            iv.len() == n,
            forall|k: int| 0 <= k < n ==> iv[k] == items@[k]@,
            i <= n,
            f == (|w: JsonModel| spec_decode_import(w)),
            decode_list(iv.take(i as int), f) == Some(out@.map_values(|e: Import| e@)),
        decreases n - i,
    {
        proof {
            lemma_decode_list_snoc(iv, f, i as int);
        }
        match decode_import(&items[i]) {
            Some(e) => {
                let ghost prev = out@;
                out.push(e);
                proof {
                    assert(out@.map_values(|e: Import| e@) =~= prev.map_values(
                        |e: Import| e@,
                    ).push(out@.last()@));
                }
            },
            None => {
                proof {
                    lemma_decode_list_none(iv, f, i + 1);
                }
                return None;
            },
        }
        i = i + 1;
    }
    proof {
        assert(iv.take(n as int) =~= iv);
    }
    Some(out)
}

fn decode_guard_list(items: &Vec<JsonValue>) -> (r: Option<Vec<Guard>>)
    ensures
        r is Some <==> decode_list(
            JsonValue::view_items(items@),
            |w: JsonModel| spec_decode_guard(w),
        ) is Some,
        r matches Some(out) ==> Some(out@.map_values(|e: Guard| e@)) == decode_list(
            JsonValue::view_items(items@),
            |w: JsonModel| spec_decode_guard(w),
        ),
{
    let ghost f = |w: JsonModel| spec_decode_guard(w);
    let ghost iv = JsonValue::view_items(items@);
    let n = items.len();
    let mut out: Vec<Guard> = Vec::new();
    let mut i: usize = 0;
    proof {
        crate::json::lemma_view_items_index(items@);
        assert(iv.take(0) =~= Seq::<JsonModel>::empty());
        assert(out@.map_values(|e: Guard| e@) =~= Seq::<GuardModel>::empty());
    }
    while i < n
        invariant
            n == items@.len(),
            iv == JsonValue::view_items(items@),
            iv.len() == n,
            forall|k: int| 0 <= k < n ==> iv[k] == items@[k]@,
            i <= n,
            f == (|w: JsonModel| spec_decode_guard(w)),
            decode_list(iv.take(i as int), f) == Some(out@.map_values(|e: Guard| e@)),
        decreases n - i,
    {
        proof {
            lemma_decode_list_snoc(iv, f, i as int);
        }
        match decode_guard(&items[i]) {
            Some(e) => {
                let ghost prev = out@;
                out.push(e);
                proof {
                    assert(out@.map_values(|e: Guard| e@) =~= prev.map_values(
                        |e: Guard| e@,
                    ).push(out@.last()@));
                }
            },
            None => {
                proof {
                    lemma_decode_list_none(iv, f, i + 1);
                }
                return None;
            },
        }
        i = i + 1;
    }
    proof {
        assert(iv.take(n as int) =~= iv);
    }
    Some(out)
}

/// Decodes an analyze report structurally, if it has the expected shape.
pub fn decode_analyze_result(payload: &JsonValue) -> (r: Option<AnalyzeResult>)
    ensures
        r is Some <==> spec_decode_analyze(payload@) is Some,
        r matches Some(a) ==> Some(a@) == spec_decode_analyze(payload@),
{
    let filepath = match payload.get("filepath") {
        Some(JsonValue::Str(s)) => s.clone(),
        _ => {
            return None;
        },
    };
    let valid = match payload.get("valid") {
        Some(JsonValue::Bool(b)) => *b,
        _ => {
            return None;
        },
    };
    let errors = match payload.get("errors") {
        None => Vec::new(),
        Some(JsonValue::Arr(items)) => {
            match decode_analysis_error_list(items) {
                Some(v) => v,
                None => {
                    return None;
                },
            }
        },
        Some(_) => {
            return None;
        },
    };
    let executables = match payload.get("executables") {
        None => Vec::new(),
        Some(JsonValue::Arr(items)) => {
            match decode_executable_list(items) {
                Some(v) => v,
                None => {
                    return None;
                },
            }
        },
        Some(_) => {
            return None;
        },
    };
    let exports = match decode_opt_string_list(payload.get("exports")) {
        Some(v) => v,
        None => {
            return None;
        },
    };
    let imports = match payload.get("imports") {
        None => Vec::new(),
        Some(JsonValue::Arr(items)) => {
            match decode_import_list(items) {
                Some(v) => v,
                None => {
                    return None;
                },
            }
        },
        Some(_) => {
            return None;
        },
    };
    let guards = match payload.get("guards") {
        None => Vec::new(),
        Some(JsonValue::Arr(items)) => {
            match decode_guard_list(items) {
                Some(v) => v,
                None => {
                    return None;
                },
            }
        },
        Some(_) => {
            return None;
        },
    };
    let needs = match payload.get("needs") {
        None => None,
        Some(JsonValue::Null) => None,
        Some(v) => {
            match decode_needs(v) {
                Some(n) => Some(n),
                None => {
                    return None;
                },
            }
        },
    };
    proof {
        assert(Seq::<AnalysisError>::empty().map_values(|e: AnalysisError| e@)
            =~= Seq::<AnalysisErrorModel>::empty());
        assert(Seq::<Executable>::empty().map_values(|e: Executable| e@)
            =~= Seq::<ExecutableModel>::empty());
        assert(Seq::<Import>::empty().map_values(|e: Import| e@) =~= Seq::<ImportModel>::empty());
        assert(Seq::<Guard>::empty().map_values(|e: Guard| e@) =~= Seq::<GuardModel>::empty());
    }
    Some(AnalyzeResult { filepath, valid, errors, executables, exports, imports, guards, needs })
}

/// Interprets an analyze response payload: strips the envelope id, then
/// reads the report; a payload without the expected shape is a JSON error.
pub fn analyze(result: &JsonValue) -> (r: Result<AnalyzeResult, Error>)
    ensures
        r is Ok <==> spec_decode_analyze(spec_strip_member(result@, "id"@)) is Some,
        r matches Ok(a) ==> Some(a@) == spec_decode_analyze(spec_strip_member(result@, "id"@)),
        r matches Err(e) ==> e@ == ErrorModel::Json("analyze result has an unexpected shape"@),
{
    let own = duplicate(result);
    let stripped = strip_member(own, "id");
    match decode_analyze_result(&stripped) {
        Some(a) => Ok(a),
        None => Err(Error::Json(String::from_str("analyze result has an unexpected shape"))),
    }
}

} // verus!
