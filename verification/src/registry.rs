//! The pending-request registry and the router that correlates each incoming
//! line to the request it belongs to.
//!
//! An id is registered before its request line is sent and stays registered
//! until exactly one terminal message is delivered for it: a `Result` routed
//! by the reader, a `Closed` fan-out on stream failure, or an explicit
//! removal by timeout or cancel cleanup.

use vstd::prelude::*;
use vstd::string::StringExecFns;
use crate::json::{
    duplicate, json_get, json_parsed, parse_json_line, parse_u64, parse_u64_text, JsonModel,
    JsonValue,
};
use crate::text::{trim_text, trimmed};

verus! {

/// What the router tells the surrounding I/O layer to deliver.
pub enum Delivery {
    Event { id: u64, payload: JsonValue },
    Result { id: u64, payload: JsonValue },
    Closed { id: u64, reason: String },
}

/// Ghost mirror of `Delivery`.
pub enum DeliveryModel {
    Event { id: u64, payload: JsonModel },
    Result { id: u64, payload: JsonModel },
    Closed { id: u64, reason: Seq<char> },
}

impl Delivery {
    pub open spec fn view(&self) -> DeliveryModel {
        match self {
            Delivery::Event { id, payload } => DeliveryModel::Event {
                id: *id,
                payload: payload@,
            },
            Delivery::Result { id, payload } => DeliveryModel::Result {
                id: *id,
                payload: payload@,
            },
            Delivery::Closed { id, reason } => DeliveryModel::Closed {
                id: *id,
                reason: reason@,
            },
        }
    }
}

/// The models of a vector of deliveries.
pub open spec fn del_views(s: Seq<Delivery>) -> Seq<DeliveryModel> {
    s.map_values(|d: Delivery| d@)
}

/// Every delivery is a `Closed` with the same reason, one per id, in order.
pub open spec fn closed_all_with(dels: Seq<DeliveryModel>, ids: Seq<u64>, rsn: Seq<char>) -> bool {
    dels.len() == ids.len() && forall|i: int|
        0 <= i < ids.len() ==> #[trigger] dels[i] == (DeliveryModel::Closed {
            id: ids[i],
            reason: rsn,
        })
}

/// `s` with every occurrence of `id` removed, order kept.
pub open spec fn without(s: Seq<u64>, id: u64) -> Seq<u64>
    decreases s,
{
    if s.len() == 0 {
        Seq::empty()
    } else if s.last() == id {
        without(s.drop_last(), id)
    } else {
        without(s.drop_last(), id).push(s.last())
    }
}

pub proof fn lemma_without_contains(s: Seq<u64>, id: u64, b: u64)
    ensures
        b != id ==> without(s, id).contains(b) == s.contains(b),
        !without(s, id).contains(id),
    decreases s,
{
    if s.len() == 0 {
    } else {
        let dl = s.drop_last();
        lemma_without_contains(dl, id, b);
        lemma_without_contains(dl, id, id);
        assert(s.contains(b) == (dl.contains(b) || s.last() == b)) by {
            if dl.contains(b) {
                let j = choose|j: int| 0 <= j < dl.len() && dl[j] == b;
                assert(s[j] == b);
            }
            if s.last() == b {
                assert(s[s.len() - 1] == b);
            }
            if s.contains(b) {
                let j = choose|j: int| 0 <= j < s.len() && s[j] == b;
                if j < s.len() - 1 {
                    assert(dl[j] == b);
                }
            }
        }
        if s.last() != id {
            let w0 = without(dl, id);
            let w = without(s, id);
            assert(w == w0.push(s.last()));
            assert(w.contains(b) == (w0.contains(b) || s.last() == b)) by {
                if w0.contains(b) {
                    let j = choose|j: int| 0 <= j < w0.len() && w0[j] == b;
                    assert(w[j] == b);
                }
                if s.last() == b {
                    assert(w[w.len() - 1] == b);
                }
                if w.contains(b) {
                    let j = choose|j: int| 0 <= j < w.len() && w[j] == b;
                    if j < w.len() - 1 {
                        assert(w0[j] == b);
                    }
                }
            }
            assert(!w.contains(id)) by {
                if w.contains(id) {
                    let j = choose|j: int| 0 <= j < w.len() && w[j] == id;
                    if j < w.len() - 1 {
                        assert(w0[j] == id);
                    }
                }
            }
        }
    }
}

pub proof fn lemma_without_no_dup(s: Seq<u64>, id: u64)
    requires
        s.no_duplicates(),
    ensures
        without(s, id).no_duplicates(),
        without(s, id).len() <= s.len(),
    decreases s,
{
    if s.len() > 0 {
        let dl = s.drop_last();
        assert(dl.no_duplicates()) by {
            assert forall|x: int, y: int| 0 <= x < y < dl.len() implies dl[x] != dl[y] by {
                assert(s[x] == dl[x]);
                assert(s[y] == dl[y]);
            }
        }
        lemma_without_no_dup(dl, id);
        if s.last() != id {
            let w0 = without(dl, id);
            let w = without(s, id);
            assert(!w0.contains(s.last())) by {
                if w0.contains(s.last()) {
                    let j = choose|j: int| 0 <= j < w0.len() && w0[j] == s.last();
                    lemma_without_contains(dl, id, s.last());
                    let k = choose|k: int| 0 <= k < dl.len() && dl[k] == s.last();
                    assert(s[k] == s[s.len() - 1]);
                }
            }
            assert(w.no_duplicates()) by {
                assert forall|x: int, y: int| 0 <= x < y < w.len() implies w[x] != w[y] by {
                    if y < w.len() - 1 {
                        assert(w[x] == w0[x]);
                        assert(w[y] == w0[y]);
                    } else {
                        assert(w[x] == w0[x]);
                        assert(w0.contains(w0[x]));
                    }
                }
            }
        }
    }
}

/// Removing one id's entry never disturbs another id's entry.
pub proof fn lemma_without_preserves_others(s: Seq<u64>, id: u64)
    ensures
        forall|b: u64| b != id ==> #[trigger] without(s, id).contains(b) == s.contains(b),
        !without(s, id).contains(id),
{
    assert forall|b: u64| b != id implies #[trigger] without(s, id).contains(b) == s.contains(
        b,
    ) by {
        lemma_without_contains(s, id, b);
    }
    lemma_without_contains(s, id, id);
}

// ---------------------------------------------------------------------------
// Envelope classification.
// ---------------------------------------------------------------------------

/// The request id a routed envelope section names under `id`: a non-negative
/// integer, or a numeric string.
pub open spec fn spec_target_id(section: JsonModel) -> Option<u64> {
    match json_get(section, "id"@) {
        Some(JsonModel::UInt(n)) => Some(n),
        Some(JsonModel::Str(s)) => parse_u64_text(s),
        _ => None,
    }
}

/// Reads the request id an envelope section names.
pub fn target_id(section: &JsonValue) -> (r: Option<u64>)
    ensures
        r == spec_target_id(section@),
{
    match section.get("id") {
        Some(JsonValue::UInt(n)) => Some(*n),
        Some(JsonValue::Str(s)) => parse_u64(s.as_str()),
        _ => None,
    }
}

/// The deliveries an `event` member causes: one `Event` to its target, if
/// the target is pending; the registry entry stays.
pub open spec fn event_deliveries(pending: Seq<u64>, m: JsonModel) -> Seq<DeliveryModel> {
    match json_get(m, "event"@) {
        Some(e) => match spec_target_id(e) {
            Some(id) => if pending.contains(id) {
                seq![DeliveryModel::Event { id, payload: e }]
            } else {
                Seq::empty()
            },
            None => Seq::empty(),
        },
        None => Seq::empty(),
    }
}

/// The deliveries a `result` member causes: one terminal `Result` to its
/// target, if the target is pending.
pub open spec fn result_deliveries(pending: Seq<u64>, m: JsonModel) -> Seq<DeliveryModel> {
    match json_get(m, "result"@) {
        Some(res) => match spec_target_id(res) {
            Some(id) => if pending.contains(id) {
                seq![DeliveryModel::Result { id, payload: res }]
            } else {
                Seq::empty()
            },
            None => Seq::empty(),
        },
        None => Seq::empty(),
    }
}

/// Everything one well-formed envelope delivers, events before the result.
pub open spec fn route_deliveries(pending: Seq<u64>, m: JsonModel) -> Seq<DeliveryModel> {
    event_deliveries(pending, m) + result_deliveries(pending, m)
}

/// The pending ids after one well-formed envelope: delivering a result
/// removes its target; events remove nothing.
pub open spec fn route_pending_after(pending: Seq<u64>, m: JsonModel) -> Seq<u64> {
    match json_get(m, "result"@) {
        Some(res) => match spec_target_id(res) {
            Some(id) => without(pending, id),
            None => pending,
        },
        None => pending,
    }
}

/// The prefix of every malformed-line closing reason.
pub open spec fn invalid_prefix() -> Seq<char> {
    "invalid live response: "@
}

/// The reason attached to a stream-end fan-out: the worker's trimmed stderr
/// text if there is any, a fixed notice otherwise.
pub open spec fn spec_close_reason(stderr: Seq<char>) -> Seq<char> {
    if trimmed(stderr).len() > 0 {
        trimmed(stderr)
    } else {
        "live transport closed"@
    }
}

// ---------------------------------------------------------------------------
// The registry itself.
// ---------------------------------------------------------------------------

/// The set of request ids with a live delivery channel, in registration
/// order.
pub struct Registry {
    pub ids: Vec<u64>,
}

impl Registry {
    pub open spec fn view(&self) -> Seq<u64> {
        self.ids@
    }

    /// No id is registered twice.
    pub open spec fn well_formed(&self) -> bool {
        self.ids@.no_duplicates()
    }

    pub fn new() -> (r: Registry)
        ensures
            r@ == Seq::<u64>::empty(),
            r.well_formed(),
    {
        Registry { ids: Vec::new() }
    }

    /// Whether `id` still has a delivery channel.
    pub fn contains(&self, id: u64) -> (r: bool)
        ensures
            r == self@.contains(id),
    {
        let n = self.ids.len();
        let mut i: usize = 0;
        while i < n
            invariant
                n == self.ids@.len(),
                i <= n,
                forall|k: int| 0 <= k < i ==> self.ids@[k] != id,
            decreases n - i,
        {
            if self.ids[i] == id {
                return true;
            }
            i = i + 1;
        }
        false
    }

    /// Registers a fresh delivery channel for `id`.  Registering an id twice
    /// leaves the registry unchanged.
    pub fn register(&mut self, id: u64) -> (fresh: bool)
        requires
            old(self).well_formed(),
        ensures
            final(self).well_formed(),
            fresh == !old(self)@.contains(id),
            fresh ==> final(self)@ == old(self)@.push(id),
            !fresh ==> final(self)@ == old(self)@,
    {
        if self.contains(id) {
            return false;
        }
        self.ids.push(id);
        proof {
            assert forall|x: int, y: int|
                0 <= x < y < self.ids@.len() implies self.ids@[x] != self.ids@[y] by {
                if y < self.ids@.len() - 1 {
                    assert(old(self).ids@[x] == self.ids@[x]);
                    assert(old(self).ids@[y] == self.ids@[y]);
                } else {
                    assert(old(self).ids@.contains(old(self).ids@[x]));
                }
            }
        }
        true
    }

    /// Drops the registry entry for `id`, if any: used by timeout and cancel
    /// cleanup so that a late result for `id` is simply undeliverable.
    pub fn remove(&mut self, id: u64)
        requires
            old(self).well_formed(),
        ensures
            final(self).well_formed(),
            final(self)@ == without(old(self)@, id),
    {
        let n = self.ids.len();
        let mut out: Vec<u64> = Vec::new();
        let mut i: usize = 0;
        proof {
            assert(without(self.ids@.take(0), id) =~= Seq::<u64>::empty());
        }
        while i < n
            invariant
                n == self.ids@.len(),
                i <= n,
                out@ == without(self.ids@.take(i as int), id),
            decreases n - i,
        {
            proof {
                assert(self.ids@.take(i + 1).drop_last() =~= self.ids@.take(i as int));
                assert(self.ids@.take(i + 1).last() == self.ids@[i as int]);
            }
            if self.ids[i] != id {
                out.push(self.ids[i]);
            }
            i = i + 1;
        }
        proof {
            assert(self.ids@.take(n as int) =~= self.ids@);
            lemma_without_no_dup(self.ids@, id);
        }
        self.ids = out;
    }

    /// Delivers a terminal `Closed` with one shared reason to every pending
    /// id, in registration order, and empties the registry.
    pub fn close_all(&mut self, reason: &str) -> (dels: Vec<Delivery>)
        ensures
            final(self)@ == Seq::<u64>::empty(),
            closed_all_with(del_views(dels@), old(self)@, reason@),
    {
        let mut dels: Vec<Delivery> = Vec::new();
        let n = self.ids.len();
        let mut i: usize = 0;
        while i < n
            invariant
                n == self.ids@.len(),
                self.ids@ == old(self).ids@,
                i <= n,
                dels@.len() == i,
                forall|k: int|
                    0 <= k < i ==> (#[trigger] dels@[k])@ == (DeliveryModel::Closed {
                        id: self.ids@[k],
                        reason: reason@,
                    }),
            decreases n - i,
        {
            let r = String::from_str(reason);
            dels.push(Delivery::Closed { id: self.ids[i], reason: r });
            i = i + 1;
        }
        self.ids = Vec::new();
        dels
    }

    /// Fan-out on end of stream or a read error: every remaining id gets one
    /// terminal `Closed` carrying the stderr-derived reason.
    pub fn on_stream_end(&mut self, stderr_text: &str) -> (dels: Vec<Delivery>)
        ensures
            final(self)@ == Seq::<u64>::empty(),
            closed_all_with(del_views(dels@), old(self)@, spec_close_reason(stderr_text@)),
    {
        let reason = close_reason(stderr_text);
        self.close_all(reason.as_str())
    }

    /// Routes one line read from the worker's stdout.  A blank line is
    /// skipped; a malformed line notifies every pending requester and clears
    /// the registry, but the reader goes on; a well-formed envelope delivers
    /// its event and result to their pending targets, removing the result's
    /// target.
    pub fn route_line(&mut self, line: &str) -> (dels: Vec<Delivery>)
        requires
            old(self).well_formed(),
        ensures
            final(self).well_formed(),
            trimmed(line@).len() == 0 ==> final(self)@ == old(self)@ && dels@.len() == 0,
            trimmed(line@).len() != 0 && json_parsed(trimmed(line@)) is None ==> final(self)@
                == Seq::<u64>::empty() && (exists|rsn: Seq<char>|
                #[trigger] closed_all_with(del_views(dels@), old(self)@, rsn) && rsn.take(
                    invalid_prefix().len() as int,
                ) == invalid_prefix()),
            trimmed(line@).len() != 0 ==> match json_parsed(trimmed(line@)) {
                Some(m) => del_views(dels@) == route_deliveries(old(self)@, m) && final(self)@
                    == route_pending_after(old(self)@, m),
                None => true,
            },
    {
        let t = trim_text(line);
        if t.as_str().is_empty() {
            return Vec::new();
        }
        match parse_json_line(t.as_str()) {
            Err(e) => {
                let mut reason = String::from_str("invalid live response: ");
                reason.append(e.as_str());
                let dels = self.close_all(reason.as_str());
                proof {
                    assert(reason@.take(invalid_prefix().len() as int) =~= invalid_prefix());
                    assert(closed_all_with(del_views(dels@), old(self)@, reason@) && reason@.take(
                        invalid_prefix().len() as int,
                    ) == invalid_prefix());
                }
                dels
            },
            Ok(v) => {
                let ghost m = v@;
                let ghost pending0 = self@;
                let mut dels: Vec<Delivery> = Vec::new();
                match v.get("event") {
                    Some(e) => {
                        match target_id(e) {
                            Some(id) => {
                                if self.contains(id) {
                                    let payload = duplicate(e);
                                    dels.push(Delivery::Event { id, payload });
                                }
                            },
                            None => {},
                        }
                    },
                    None => {},
                }
                proof {
                    assert(del_views(dels@) =~= event_deliveries(pending0, m));
                    assert(self@ == pending0);
                }
                match v.get("result") {
                    Some(res) => {
                        match target_id(res) {
                            Some(id) => {
                                if self.contains(id) {
                                    let payload = duplicate(res);
                                    dels.push(Delivery::Result { id, payload });
                                }
                                self.remove(id);
                            },
                            None => {},
                        }
                    },
                    None => {},
                }
                proof {
                    assert(del_views(dels@) =~= route_deliveries(pending0, m));
                    assert(self@ == route_pending_after(pending0, m));
                }
                dels
            },
        }
    }
}

/// The closing reason derived from accumulated stderr text.
pub fn close_reason(stderr_text: &str) -> (r: String)
    ensures
        r@ == spec_close_reason(stderr_text@),
{
    let t = trim_text(stderr_text);
    if t.as_str().is_empty() {
        String::from_str("live transport closed")
    } else {
        t
    }
}

/// Accumulates one diagnostic line into the shared stderr buffer,
/// newline-joined.
pub fn append_stderr_line(buffer: &mut String, line: &str)
    ensures
        old(buffer)@.len() == 0 ==> final(buffer)@ == line@,
        old(buffer)@.len() != 0 ==> final(buffer)@ == old(buffer)@ + seq!['\n'] + line@,
{
    if !buffer.as_str().is_empty() {
        buffer.append("\n");
        proof {
            reveal_strlit("\n");
            assert(old(buffer)@ + "\n"@ =~= old(buffer)@ + seq!['\n']);
        }
    }
    buffer.append(line);
}

} // verus!
