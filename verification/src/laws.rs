//! The laws the client keeps, proved over the models its contracts use.

use vstd::prelude::*;
use crate::error::ErrorModel;
use crate::json::{json_get, JsonModel};
use crate::protocol::{
    spec_is_not_found, spec_not_found_failure, spec_retry_step, Client, RequestHandle,
    RetryStepModel,
};
use crate::registry::{
    closed_all_with, event_deliveries, lemma_without_preserves_others, result_deliveries,
    route_deliveries, route_pending_after, spec_target_id, without, DeliveryModel,
};
use crate::state_writes::StateWriteModel;

verus! {

// ---------------------------------------------------------------------------
// Request ids never repeat.
// ---------------------------------------------------------------------------

/// One id allocation: `Client::start_request` hands out the counter's value
/// and moves the counter one past it.
pub open spec fn allocates(pre: Client, post: Client, id: u64) -> bool {
    id == pre.next_request_id && post.next_request_id == pre.next_request_id + 1
}

/// Every client operation — including invalidating or respawning a session,
/// which touch no field of the client core — leaves the counter where it is
/// or moves it forward.
pub open spec fn counter_monotone(pre: Client, post: Client) -> bool {
    post.next_request_id >= pre.next_request_id
}

/// Law: ids allocated by one client are strictly increasing and never
/// repeat, whatever happens between two allocations — session restarts
/// included, since nothing resets the counter.
pub proof fn lemma_request_ids_strictly_increase(
    a0: Client,
    a1: Client,
    b0: Client,
    b1: Client,
    id_a: u64,
    id_b: u64,
)
    requires
        allocates(a0, a1, id_a),
        counter_monotone(a1, b0),
        allocates(b0, b1, id_b),
    ensures
        id_b > id_a,
{
}

// ---------------------------------------------------------------------------
// Requests are independent.
// ---------------------------------------------------------------------------

/// Law: canceling or timing out request `a` — which removes only `a`'s
/// registry entry — neither disturbs request `b`'s entry nor changes what an
/// envelope addressed to `b` delivers.
pub proof fn lemma_cancel_independent(pending: Seq<u64>, a: u64, b: u64, m: JsonModel)
    requires
        a != b,
    ensures
        without(pending, a).contains(b) == pending.contains(b),
        (match json_get(m, "event"@) {
            Some(e) => spec_target_id(e) == Some(b),
            None => false,
        }) ==> event_deliveries(without(pending, a), m) == event_deliveries(pending, m),
        (match json_get(m, "result"@) {
            Some(res) => spec_target_id(res) == Some(b),
            None => false,
        }) ==> result_deliveries(without(pending, a), m) == result_deliveries(pending, m),
        route_pending_after(without(pending, a), m).contains(b) == route_pending_after(
            pending,
            m,
        ).contains(b),
{
    lemma_without_preserves_others(pending, a);
    match json_get(m, "result"@) {
        Some(res) => {
            match spec_target_id(res) {
                Some(rid) => {
                    lemma_without_preserves_others(without(pending, a), rid);
                    lemma_without_preserves_others(pending, rid);
                },
                None => {},
            }
        },
        None => {},
    }
}

// ---------------------------------------------------------------------------
// Waiting twice returns the identical result.
// ---------------------------------------------------------------------------

/// What a wait on a resolved handle does, as `RequestHandle::begin_wait`
/// promises it: it returns exactly the cached payload and write list and
/// leaves the handle untouched.
pub open spec fn wait_returns(
    pre: RequestHandle,
    post: RequestHandle,
    payload: JsonModel,
    writes: Seq<StateWriteModel>,
) -> bool {
    pre.spec_cached() == Some((payload, writes)) && post == pre
}

/// Law: two waits on a handle that has resolved yield the identical payload
/// and the identical state-write list, and the handle ends as it began.
pub proof fn lemma_wait_idempotent(
    h0: RequestHandle,
    h1: RequestHandle,
    p1: JsonModel,
    w1: Seq<StateWriteModel>,
    h2: RequestHandle,
    p2: JsonModel,
    w2: Seq<StateWriteModel>,
)
    requires
        wait_returns(h0, h1, p1, w1),
        wait_returns(h1, h2, p2, w2),
    ensures
        p1 == p2,
        w1 == w2,
        h2 == h0,
{
}

// ---------------------------------------------------------------------------
// A dying worker fails every pending request exactly once.
// ---------------------------------------------------------------------------

/// How many terminal `Closed` deliveries a fan-out hands to `id`.
pub open spec fn closed_count(dels: Seq<DeliveryModel>, id: u64) -> nat
    decreases dels,
{
    if dels.len() == 0 {
        0
    } else {
        closed_count(dels.drop_last(), id) + (if dels.last() is Closed && dels.last()->Closed_id
            == id {
            1nat
        } else {
            0nat
        })
    }
}

/// Law: when the worker dies or its stream fails, the fan-out delivers
/// exactly one terminal `Closed` to every id that was pending and none to
/// any other id.  A request that completed earlier was already removed, so
/// it is unaffected; the registry is left empty, and the session decision
/// for the next request is to spawn afresh.
pub proof fn lemma_disconnect_closes_each_pending_once(
    dels: Seq<DeliveryModel>,
    ids: Seq<u64>,
    rsn: Seq<char>,
    id: u64,
)
    requires
        closed_all_with(dels, ids, rsn),
        ids.no_duplicates(),
    ensures
        ids.contains(id) ==> closed_count(dels, id) == 1,
        !ids.contains(id) ==> closed_count(dels, id) == 0,
    decreases dels,
{
    if dels.len() > 0 {
        let dl = dels.drop_last();
        let il = ids.drop_last();
        assert forall|i: int| 0 <= i < il.len() implies dl[i] == dels[i] && il[i] == ids[i] by {}
        assert(closed_all_with(dl, il, rsn));
        assert(il.no_duplicates()) by {
            assert forall|x: int, y: int| 0 <= x < y < il.len() implies il[x] != il[y] by {
                assert(ids[x] == il[x]);
                assert(ids[y] == il[y]);
            }
        }
        lemma_disconnect_closes_each_pending_once(dl, il, rsn, id);
        assert(dels.last() == (DeliveryModel::Closed { id: ids.last(), reason: rsn }));
        assert(ids.contains(id) == (il.contains(id) || ids.last() == id)) by {
            if il.contains(id) {
                let j = choose|j: int| 0 <= j < il.len() && il[j] == id;
                assert(ids[j] == id);
            }
            if ids.last() == id {
                assert(ids[ids.len() - 1] == id);
            }
            if ids.contains(id) {
                let j = choose|j: int| 0 <= j < ids.len() && ids[j] == id;
                if j < ids.len() - 1 {
                    assert(il[j] == id);
                }
            }
        }
        if ids.last() == id {
            assert(!il.contains(id)) by {
                if il.contains(id) {
                    let j = choose|j: int| 0 <= j < il.len() && il[j] == id;
                    assert(ids[j] == ids[ids.len() - 1]);
                }
            }
        }
    }
}

// ---------------------------------------------------------------------------
// The state-update retry policy is deterministic.
// ---------------------------------------------------------------------------

/// Law: a state update racing ahead of the worker is absorbed — before the
/// deadline a not-found outcome only sleeps and retries, and a success at
/// any attempt completes the call; at or past the deadline a not-found
/// outcome fails deterministically with the not-found error naming the
/// target id; any other error is returned at once.
pub proof fn lemma_update_state_retry(
    e: ErrorModel,
    ok: JsonModel,
    request_id: u64,
    now_ms: u64,
    deadline_ms: u64,
)
    ensures
        spec_retry_step(Ok(ok), request_id, now_ms, deadline_ms) == RetryStepModel::Done,
        spec_is_not_found(e) && now_ms < deadline_ms ==> spec_retry_step(
            Err(e),
            request_id,
            now_ms,
            deadline_ms,
        ) == RetryStepModel::Sleep,
        spec_is_not_found(e) && now_ms >= deadline_ms ==> spec_retry_step(
            Err(e),
            request_id,
            now_ms,
            deadline_ms,
        ) == RetryStepModel::Fail(spec_not_found_failure(request_id)),
        !spec_is_not_found(e) ==> spec_retry_step(Err(e), request_id, now_ms, deadline_ms)
            == RetryStepModel::Fail(e),
{
}

// ---------------------------------------------------------------------------
// A malformed line does not kill the reader.
// ---------------------------------------------------------------------------

/// Law: a malformed line fails the then-pending requests and clears the
/// registry, but the reader goes on: a request registered afterwards is
/// still correlated correctly — a well-formed result envelope for the fresh
/// id delivers exactly one terminal `Result` to it and removes it.
pub proof fn lemma_reader_survives_malformed(id: u64, m: JsonModel)
    requires
        json_get(m, "event"@) is None,
        (match json_get(m, "result"@) {
            Some(res) => spec_target_id(res) == Some(id),
            None => false,
        }),
    ensures
        (match json_get(m, "result"@) {
            Some(res) => route_deliveries(seq![id], m) == seq![
                DeliveryModel::Result { id, payload: res },
            ],
            None => false,
        }),
        route_pending_after(seq![id], m) == Seq::<u64>::empty(),
{
    let pending = seq![id];
    assert(pending[0] == id);
    assert(pending.contains(id));
    match json_get(m, "result"@) {
        Some(res) => {
            assert(event_deliveries(pending, m) =~= Seq::<DeliveryModel>::empty());
            assert(route_deliveries(pending, m) =~= seq![
                DeliveryModel::Result { id, payload: res },
            ]);
            assert(pending.drop_last() =~= Seq::<u64>::empty());
            assert(pending.last() == id);
            assert(without(Seq::<u64>::empty(), id) =~= Seq::<u64>::empty());
            assert(without(pending, id) =~= Seq::<u64>::empty());
        },
        None => {},
    }
}

} // verus!
