//! Side-channel state writes: parsing `state:write` events and merging two
//! collections of writes with first-seen-wins deduplication.

use vstd::prelude::*;
use crate::json::{json_eq, json_get, duplicate, str_eq, JsonModel, JsonValue};

verus! {

/// A write to a named piece of worker-visible state.
pub struct StateWrite {
    pub path: String,
    pub value: JsonValue,
    pub timestamp: Option<String>,
}

/// Ghost mirror of `StateWrite`.
pub struct StateWriteModel {
    pub path: Seq<char>,
    pub value: JsonModel,
    pub timestamp: Option<Seq<char>>,
}

impl StateWrite {
    pub open spec fn view(&self) -> StateWriteModel {
        StateWriteModel {
            path: self.path@,
            value: self.value@,
            timestamp: match self.timestamp {
                Some(t) => Some(t@),
                None => None,
            },
        }
    }

    /// A copy whose model is identical.
    pub fn duplicate(&self) -> (r: StateWrite)
        ensures
            r@ == self@,
    {
        StateWrite {
            path: self.path.clone(),
            value: duplicate(&self.value),
            timestamp: match &self.timestamp {
                Some(t) => Some(t.clone()),
                None => None,
            },
        }
    }
}

/// The models of a vector of writes.
pub open spec fn views_of(s: Seq<StateWrite>) -> Seq<StateWriteModel> {
    s.map_values(|w: StateWrite| w@)
}

/// Duplicates of every element, models preserved.
pub fn duplicate_writes(ws: &Vec<StateWrite>) -> (r: Vec<StateWrite>)
    ensures
        views_of(r@) == views_of(ws@),
{
    let mut out: Vec<StateWrite> = Vec::new();
    let n = ws.len();
    let mut i: usize = 0;
    while i < n
        invariant
            n == ws@.len(),
            i <= n,
            out@.len() == i,
            forall|k: int| 0 <= k < i ==> (#[trigger] out@[k])@ == ws@[k]@,
        decreases n - i,
    {
        let d = ws[i].duplicate();
        out.push(d);
        i = i + 1;
    }
    proof {
        assert(views_of(out@) =~= views_of(ws@));
    }
    out
}

/// The state write a `state:write` event denotes, if it is one: the event's
/// `type` must be the string `state:write` and its `write` member must carry
/// a string `path`; the value defaults to null, the timestamp to nothing.
pub open spec fn spec_state_write(event: JsonModel) -> Option<StateWriteModel> {
    if json_get(event, "type"@) != Some(JsonModel::Str("state:write"@)) {
        None
    } else {
        match json_get(event, "write"@) {
            Some(w) => match json_get(w, "path"@) {
                Some(JsonModel::Str(p)) => Some(
                    StateWriteModel {
                        path: p,
                        value: match json_get(w, "value"@) {
                            Some(v) => v,
                            None => JsonModel::Null,
                        },
                        timestamp: match json_get(w, "timestamp"@) {
                            Some(JsonModel::Str(t)) => Some(t),
                            _ => None,
                        },
                    },
                ),
                _ => None,
            },
            None => None,
        }
    }
}

/// Decodes a `state:write` event notification, if the event is one.
pub fn parse_state_write_event(event: &JsonValue) -> (r: Option<StateWrite>)
    ensures
        r is Some <==> spec_state_write(event@) is Some,
        r matches Some(w) ==> Some(w@) == spec_state_write(event@),
{
    let is_state_write = match event.get("type") {
        Some(JsonValue::Str(t)) => str_eq(t.as_str(), "state:write"),
        _ => false,
    };
    if !is_state_write {
        return None;
    }
    let write = match event.get("write") {
        Some(w) => w,
        None => {
            return None;
        },
    };
    let path = match write.get("path") {
        Some(JsonValue::Str(p)) => p.clone(),
        _ => {
            return None;
        },
    };
    let value = match write.get("value") {
        Some(v) => duplicate(v),
        None => JsonValue::Null,
    };
    let timestamp = match write.get("timestamp") {
        Some(JsonValue::Str(t)) => Some(t.clone()),
        _ => None,
    };
    Some(StateWrite { path, value, timestamp })
}

// ---------------------------------------------------------------------------
// Merging with first-seen-wins deduplication by (path, value).
// ---------------------------------------------------------------------------

/// The deduplication key of a write.
pub open spec fn sw_key(w: StateWriteModel) -> (Seq<char>, JsonModel) {
    (w.path, w.value)
}

/// Whether some element before index `i` shares `all[i]`'s key.
pub open spec fn key_seen_before(all: Seq<StateWriteModel>, i: int) -> bool {
    exists|j: int| 0 <= j < i && sw_key(#[trigger] all[j]) == sw_key(all[i])
}

/// `all` with every element dropped whose key already appeared earlier.
pub open spec fn spec_dedup(all: Seq<StateWriteModel>) -> Seq<StateWriteModel>
    decreases all,
{
    if all.len() == 0 {
        Seq::empty()
    } else if key_seen_before(all, all.len() - 1) {
        spec_dedup(all.drop_last())
    } else {
        spec_dedup(all.drop_last()).push(all.last())
    }
}

proof fn lemma_dedup_take_snoc(all: Seq<StateWriteModel>, i: int)
    requires
        0 <= i < all.len(),
    ensures
        key_seen_before(all.take(i + 1), i) == key_seen_before(all, i),
        key_seen_before(all, i) ==> spec_dedup(all.take(i + 1)) == spec_dedup(all.take(i)),
        !key_seen_before(all, i) ==> spec_dedup(all.take(i + 1)) == spec_dedup(all.take(i)).push(
            all[i],
        ),
{
    assert(all.take(i + 1).drop_last() =~= all.take(i));
    assert(all.take(i + 1).last() == all[i]);
    assert forall|j: int| 0 <= j < i implies all.take(i + 1)[j] == all[j] by {}
    assert(key_seen_before(all.take(i + 1), i) == key_seen_before(all, i)) by {
        if key_seen_before(all, i) {
            let j = choose|j: int| 0 <= j < i && sw_key(#[trigger] all[j]) == sw_key(all[i]);
            assert(sw_key(all.take(i + 1)[j]) == sw_key(all.take(i + 1)[i]));
        }
        if key_seen_before(all.take(i + 1), i) {
            let j = choose|j: int|
                0 <= j < i && sw_key(#[trigger] all.take(i + 1)[j]) == sw_key(all.take(i + 1)[i]);
            assert(sw_key(all[j]) == sw_key(all[i]));
        }
    }
}

/// Every key of `spec_dedup(s)` occurs in `s` and conversely.
proof fn lemma_dedup_keys(s: Seq<StateWriteModel>, key: (Seq<char>, JsonModel))
    ensures
        (exists|k: int| 0 <= k < spec_dedup(s).len() && sw_key(#[trigger] spec_dedup(s)[k]) == key)
            <==> (exists|j: int| 0 <= j < s.len() && sw_key(#[trigger] s[j]) == key),
    decreases s,
{
    if s.len() > 0 {
        let d = spec_dedup(s);
        let dl = s.drop_last();
        lemma_dedup_keys(dl, key);
        assert forall|j: int| 0 <= j < s.len() - 1 implies dl[j] == s[j] by {}
        if exists|j: int| 0 <= j < s.len() && sw_key(#[trigger] s[j]) == key {
            let j = choose|j: int| 0 <= j < s.len() && sw_key(#[trigger] s[j]) == key;
            if j < s.len() - 1 {
                assert(sw_key(dl[j]) == key);
                let k = choose|k: int|
                    0 <= k < spec_dedup(dl).len() && sw_key(#[trigger] spec_dedup(dl)[k]) == key;
                assert(sw_key(d[k]) == key);
            } else if key_seen_before(s, s.len() - 1) {
                let t = choose|t: int|
                    0 <= t < s.len() - 1 && sw_key(#[trigger] s[t]) == sw_key(s[s.len() - 1]);
                assert(sw_key(dl[t]) == key);
                let k = choose|k: int|
                    0 <= k < spec_dedup(dl).len() && sw_key(#[trigger] spec_dedup(dl)[k]) == key;
                assert(sw_key(d[k]) == key);
            } else {
                assert(d[d.len() - 1] == s.last());
                assert(sw_key(d[d.len() - 1]) == key);
            }
        }
        if exists|k: int| 0 <= k < d.len() && sw_key(#[trigger] d[k]) == key {
            let k = choose|k: int| 0 <= k < d.len() && sw_key(#[trigger] d[k]) == key;
            if key_seen_before(s, s.len() - 1) {
                let j = choose|j: int|
                    0 <= j < dl.len() && sw_key(#[trigger] dl[j]) == key;
                assert(sw_key(s[j]) == key);
            } else if k < d.len() - 1 {
                assert(d[k] == spec_dedup(dl)[k]);
                let j = choose|j: int|
                    0 <= j < dl.len() && sw_key(#[trigger] dl[j]) == key;
                assert(sw_key(s[j]) == key);
            } else {
                assert(d[k] == s.last());
                assert(sw_key(s[s.len() - 1]) == key);
            }
        }
    }
}

/// What merging yields: an empty side leaves the other untouched; otherwise
/// the primary writes come first and any later write whose (path, value)
/// pair already appeared is dropped.
pub open spec fn spec_merge_views(
    primary: Seq<StateWriteModel>,
    secondary: Seq<StateWriteModel>,
) -> Seq<StateWriteModel> {
    if secondary.len() == 0 {
        primary
    } else if primary.len() == 0 {
        secondary
    } else {
        spec_dedup(primary + secondary)
    }
}

/// Merges two collections of writes, first-seen-wins by (path, value).
pub fn merge_state_writes(primary: Vec<StateWrite>, secondary: Vec<StateWrite>) -> (r: Vec<
    StateWrite,
>)
    ensures
        views_of(r@) == spec_merge_views(views_of(primary@), views_of(secondary@)),
{
    if secondary.len() == 0 {
        return primary;
    }
    if primary.len() == 0 {
        return secondary;
    }
    let mut all = primary;
    let mut rest = secondary;
    all.append(&mut rest);
    let ghost av = views_of(all@);
    let n = all.len();
    let mut merged: Vec<StateWrite> = Vec::new();
    proof {
        assert(spec_dedup(av.take(0)) =~= Seq::empty());
    }
    let mut idx: usize = 0;
    while idx < n
        invariant
            n == all@.len(),
            av == views_of(all@),
            idx <= n,
            views_of(merged@) == spec_dedup(av.take(idx as int)),
        decreases n - idx,
    {
        // Does merged already hold this key?
        let mut seen = false;
        let m = merged.len();
        let mut k: usize = 0;
        while k < m
            invariant
                n == all@.len(),
                av == views_of(all@),
                idx < n,
                m == merged@.len(),
                k <= m,
                seen == (exists|t: int|
                    0 <= t < k && sw_key(#[trigger] views_of(merged@)[t]) == sw_key(
                        av[idx as int],
                    )),
            decreases m - k,
        {
            if str_eq(merged[k].path.as_str(), all[idx].path.as_str()) && json_eq(
                &merged[k].value,
                &all[idx].value,
            ) {
                proof {
                    assert(sw_key(views_of(merged@)[k as int]) == sw_key(av[idx as int]));
                }
                seen = true;
            }
            k = k + 1;
        }
        proof {
            lemma_dedup_keys(av.take(idx as int), sw_key(av[idx as int]));
            assert forall|j: int| 0 <= j < idx implies av.take(idx as int)[j] == av[j] by {}
            lemma_dedup_take_snoc(av, idx as int);
            assert(seen == key_seen_before(av, idx as int));
        }
        if !seen {
            let d = all[idx].duplicate();
            merged.push(d);
            proof {
                assert(views_of(merged@) =~= spec_dedup(av.take(idx as int)).push(av[idx as int]));
            }
        }
        idx = idx + 1;
    }
    proof {
        assert(av.take(n as int) =~= av);
        assert(av =~= views_of(primary@) + views_of(secondary@));
        assert(views_of(primary@).len() > 0 && views_of(secondary@).len() > 0);
    }
    merged
}

} // verus!
