//! The decisions of `wait_code`.
//!
//! Concurrent `wait_code` calls share one poller that fetches the state of
//! **all** active numbers (`getState` without `tzid`) and hands each waiter
//! the code of its own operation. [`WaitPoller`] holds the waiters and
//! decides each step; the caller performs the sleeps and requests it asks
//! for and hands back what came of them. [`SingleWait`] decides the steps of
//! a wait that polls one operation on its own.
use vstd::prelude::*;

use crate::api::{finish_request, is_call, ApiRequest, HttpMethod};
use crate::error::{known_display, Error};
use crate::mock::ji;
use crate::json::{Json, JsonV};
use crate::text::{cat, str_eq};
use crate::types::numbers::WaitCodeOptions;
use crate::util::{code_text, msg_to_code};

verus! {

/// One registered `wait_code` call.
pub struct Waiter {
    /// The caller's handle for this wait.
    pub ticket: u64,
    /// Operation id.
    pub tzid: i64,
    /// Options of the wait.
    pub options: WaitCodeOptions,
    /// Polls made so far.
    pub attempts: u32,
    /// The code seen last (empty at first).
    pub last_code: String,
}

/// What the poller reads of a `getState` row.
pub struct StateEntry {
    /// Operation id.
    pub tzid: i64,
    /// The message member (`msg`), when present.
    pub msg: Option<Json>,
}

/// A code ready for a waiter.
pub struct Delivery {
    /// The waiter's handle.
    pub ticket: u64,
    /// Operation id.
    pub tzid: i64,
    /// The code.
    pub code: String,
    /// Whether to request the next SMS (`true`) rather than close.
    pub not_end: bool,
}

// ---------------------------------------------------------------------------
// Poll parameters
// ---------------------------------------------------------------------------

/// The shortest poll interval among the waiters (`3` when there are none).
pub open spec fn min_interval(ws: Seq<Waiter>) -> u64
    decreases ws.len(),
{
    if ws.len() == 0 {
        3
    } else if ws.len() == 1 {
        ws[0].options.interval_secs
    } else {
        let m = min_interval(ws.drop_last());
        let x = ws.last().options.interval_secs;
        if x < m {
            x
        } else {
            m
        }
    }
}

/// Whether some waiter asks for the full message text.
pub open spec fn any_full_message(ws: Seq<Waiter>) -> bool {
    exists|i: int| 0 <= i < ws.len() && (#[trigger] ws[i]).options.full_message
}

/// The shortest interval is one of the waiters' intervals, and no waiter's
/// interval is shorter.
pub proof fn lemma_min_interval(ws: Seq<Waiter>)
    requires
        ws.len() > 0,
    ensures
        exists|i: int| 0 <= i < ws.len() && (#[trigger] ws[i]).options.interval_secs == min_interval(ws),
        forall|i: int| 0 <= i < ws.len() ==> min_interval(ws) <= (#[trigger] ws[i]).options.interval_secs,
    decreases ws.len(),
{
    if ws.len() == 1 {
        assert(ws[0].options.interval_secs == min_interval(ws));
    } else {
        let d = ws.drop_last();
        lemma_min_interval(d);
        assert forall|i: int| 0 <= i < d.len() implies #[trigger] d[i] == ws[i] by {}
        let j = choose|i: int| 0 <= i < d.len() && (#[trigger] d[i]).options.interval_secs == min_interval(d);
        if ws.last().options.interval_secs < min_interval(d) {
            assert(ws[ws.len() - 1].options.interval_secs == min_interval(ws));
        } else {
            assert(ws[j].options.interval_secs == min_interval(ws));
        }
        assert forall|i: int| 0 <= i < ws.len() implies min_interval(ws) <= (#[trigger] ws[i]).options.interval_secs by {
            if i < d.len() {
                assert(ws[i] == d[i]);
            }
        }
    }
}

/// The poll interval and the `message_to_code` flag for the next batch
/// poll: the shortest interval among the waiters (`3` when there are none),
/// and `0` (full messages) when any waiter asks for full messages, else `1`.
pub fn poll_params(waiters: &Vec<Waiter>) -> (r: (u64, i64))
    ensures
        r.0 == min_interval(waiters@),
        r.1 == (if any_full_message(waiters@) {
            0i64
        } else {
            1i64
        }),
{
    let mut interval: u64 = 3;
    let mut full = false;
    let mut i: usize = 0;
    while i < waiters.len()
        invariant
            i <= waiters.len(),
            interval == min_interval(waiters@.take(i as int)),
            full == any_full_message(waiters@.take(i as int)),
        decreases waiters.len() - i,
    {
        let ghost pre = waiters@.take(i as int);
        let ghost next = waiters@.take(i + 1);
        assert(next.drop_last() == pre);
        assert(next.last() == waiters@[i as int]);
        let x = waiters[i].options.interval_secs;
        if i == 0 || x < interval {
            interval = x;
        }
        if waiters[i].options.full_message {
            full = true;
            assert(next[i as int] == waiters@[i as int]);
        }
        proof {
            if !full {
                assert forall|j: int| 0 <= j < next.len() implies !(#[trigger] next[j]).options.full_message by {
                    if j < pre.len() {
                        assert(next[j] == pre[j]);
                    }
                }
            } else if !waiters@[i as int].options.full_message {
                let k = choose|k: int| 0 <= k < pre.len() && (#[trigger] pre[k]).options.full_message;
                assert(next[k] == pre[k]);
            }
        }
        i = i + 1;
    }
    assert(waiters@.take(i as int) == waiters@);
    (interval, if full {
        0
    } else {
        1
    })
}

// ---------------------------------------------------------------------------
// Matching states to waiters
// ---------------------------------------------------------------------------

/// Index of the last row for `tzid` (a later row for the same operation
/// replaces an earlier one).
pub open spec fn last_state_index(states: Seq<StateEntry>, tzid: i64) -> Option<int>
    decreases states.len(),
{
    if states.len() == 0 {
        None
    } else if states.last().tzid == tzid {
        Some(states.len() - 1)
    } else {
        last_state_index(states.drop_last(), tzid)
    }
}

/// The code the states hold for operation `tzid`, if any.
pub open spec fn code_for(states: Seq<StateEntry>, tzid: i64) -> Option<Seq<char>> {
    match last_state_index(states, tzid) {
        Some(i) => match states[i].msg {
            Some(m) => Some(code_text(m@)),
            None => None,
        },
        None => None,
    }
}

/// Whether a waiter gets a code from these states: there is a code for its
/// operation and it differs from the last code it saw.
pub open spec fn fires(states: Seq<StateEntry>, w: Waiter) -> bool {
    match code_for(states, w.tzid) {
        Some(c) => c != w.last_code@,
        None => false,
    }
}

/// The waiters that keep waiting, in order.
pub open spec fn kept(states: Seq<StateEntry>, ws: Seq<Waiter>) -> Seq<Waiter>
    decreases ws.len(),
{
    if ws.len() == 0 {
        seq![]
    } else if fires(states, ws.last()) {
        kept(states, ws.drop_last())
    } else {
        kept(states, ws.drop_last()).push(ws.last())
    }
}

/// The abstract content of a [`Delivery`]: ticket, operation, code,
/// next-or-close.
pub open spec fn delivery_view(d: Delivery) -> (u64, i64, Seq<char>, bool) {
    (d.ticket, d.tzid, d.code@, d.not_end)
}

/// The codes handed out, in the order of the waiters.
pub open spec fn delivered(states: Seq<StateEntry>, ws: Seq<Waiter>) -> Seq<(u64, i64, Seq<char>, bool)>
    decreases ws.len(),
{
    if ws.len() == 0 {
        seq![]
    } else if fires(states, ws.last()) {
        let w = ws.last();
        delivered(states, ws.drop_last()).push(
            (w.ticket, w.tzid, code_for(states, w.tzid).unwrap(), w.options.not_end),
        )
    } else {
        delivered(states, ws.drop_last())
    }
}

/// The views of deliveries.
pub open spec fn deliveries_view(ds: Seq<Delivery>) -> Seq<(u64, i64, Seq<char>, bool)> {
    ds.map_values(|d: Delivery| delivery_view(d))
}

proof fn lemma_last_state_index(states: Seq<StateEntry>, tzid: i64)
    ensures
        last_state_index(states, tzid) matches Some(i) ==> 0 <= i < states.len() && states[i].tzid
            == tzid,
    decreases states.len(),
{
    if states.len() > 0 {
        lemma_last_state_index(states.drop_last(), tzid);
        if let Some(i) = last_state_index(states.drop_last(), tzid) {
            assert(states.drop_last()[i] == states[i]);
        }
    }
}

/// Index of the last row for `tzid`.
fn find_state(states: &Vec<StateEntry>, tzid: i64) -> (r: Option<usize>)
    ensures
        r matches Some(i) ==> last_state_index(states@, tzid) == Some(i as int),
        r is None ==> last_state_index(states@, tzid) is None,
{
    let mut found: Option<usize> = None;
    let mut i: usize = 0;
    assert(states@.take(0) =~= Seq::<StateEntry>::empty());
    while i < states.len()
        invariant
            i <= states.len(),
            found matches Some(k) ==> last_state_index(states@.take(i as int), tzid) == Some(
                k as int,
            ) && k < i,
            found is None ==> last_state_index(states@.take(i as int), tzid) is None,
        decreases states.len() - i,
    {
        let ghost next = states@.take(i + 1);
        assert(next.drop_last() == states@.take(i as int));
        assert(next.last() == states@[i as int]);
        if states[i].tzid == tzid {
            found = Some(i);
        }
        i = i + 1;
    }
    assert(states@.take(i as int) == states@);
    found
}

/// The code the states hold for `tzid`.
fn state_code(states: &Vec<StateEntry>, tzid: i64) -> (r: Option<String>)
    ensures
        match r {
            Some(c) => code_for(states@, tzid) == Some(c@),
            None => code_for(states@, tzid) is None,
        },
{
    proof {
        lemma_last_state_index(states@, tzid);
    }
    match find_state(states, tzid) {
        Some(i) => match &states[i].msg {
            Some(m) => Some(msg_to_code(m)),
            None => None,
        },
        None => None,
    }
}

proof fn lemma_deliveries_push(ds: Seq<Delivery>, d: Delivery)
    ensures
        deliveries_view(ds.push(d)) == deliveries_view(ds).push(delivery_view(d)),
{
    assert(deliveries_view(ds.push(d)) =~= deliveries_view(ds).push(delivery_view(d)));
}

/// Hand out the codes that arrived: every waiter whose operation has a new
/// code (different from the last one it saw) leaves the list and gets a
/// delivery; the others stay, in order.
pub fn match_states(waiters: &mut Vec<Waiter>, states: &Vec<StateEntry>) -> (r: Vec<Delivery>)
    ensures
        final(waiters)@ == kept(states@, old(waiters)@),
        deliveries_view(r@) == delivered(states@, old(waiters)@),
{
    let ghost orig = waiters@;
    let mut rest: Vec<Waiter> = Vec::new();
    std::mem::swap(&mut rest, waiters);
    let mut deliveries: Vec<Delivery> = Vec::new();
    let n = rest.len();
    let mut i: usize = 0;
    assert(orig.take(0) =~= Seq::<Waiter>::empty());
    assert(deliveries_view(deliveries@) =~= Seq::<(u64, i64, Seq<char>, bool)>::empty());
    assert(orig.subrange(0, n as int) == orig);
    while i < n
        invariant
            i <= n,
            n == orig.len(),
            rest@ == orig.subrange(i as int, n as int),
            waiters@ == kept(states@, orig.take(i as int)),
            deliveries_view(deliveries@) == delivered(states@, orig.take(i as int)),
        decreases n - i,
    {
        let ghost next = orig.take(i + 1);
        assert(next.drop_last() == orig.take(i as int));
        assert(next.last() == orig[i as int]);
        let w = rest.remove(0);
        assert(w == orig[i as int]);
        assert(rest@ == orig.subrange(i + 1, n as int));
        let code = state_code(states, w.tzid);
        match code {
            Some(c) => {
                if !str_eq(c.as_str(), w.last_code.as_str()) {
                    let d = Delivery { ticket: w.ticket, tzid: w.tzid, code: c, not_end: w.options.not_end };
                    let ghost before = deliveries@;
                    deliveries.push(d);
                    proof {
                        lemma_deliveries_push(before, d);
                    }
                } else {
                    waiters.push(w);
                }
            },
            None => {
                waiters.push(w);
            },
        }
        i = i + 1;
    }
    assert(orig.take(n as int) == orig);
    deliveries
}

/// Each waiter either keeps waiting or gets exactly one delivery.
pub proof fn lemma_match_conserves(states: Seq<StateEntry>, ws: Seq<Waiter>)
    ensures
        kept(states, ws).len() + delivered(states, ws).len() == ws.len(),
        forall|i: int| 0 <= i < kept(states, ws).len() ==> !fires(states, #[trigger] kept(states, ws)[i]),
    decreases ws.len(),
{
    if ws.len() > 0 {
        lemma_match_conserves(states, ws.drop_last());
        let k0 = kept(states, ws.drop_last());
        if !fires(states, ws.last()) {
            assert forall|i: int| 0 <= i < kept(states, ws).len() implies !fires(states, #[trigger] kept(states, ws)[i]) by {
                if i < k0.len() {
                    assert(kept(states, ws)[i] == k0[i]);
                }
            }
        }
    }
}

/// Every waiter either keeps waiting or receives a delivery under its
/// ticket: no wait is lost when the states arrive.
pub proof fn lemma_match_partition(states: Seq<StateEntry>, ws: Seq<Waiter>, i: int)
    requires
        0 <= i < ws.len(),
    ensures
        (exists|k: int| 0 <= k < kept(states, ws).len() && #[trigger] kept(states, ws)[k] == ws[i])
            || (exists|k: int|
            0 <= k < delivered(states, ws).len() && (#[trigger] delivered(states, ws)[k]).0
                == ws[i].ticket),
    decreases ws.len(),
{
    let d = ws.drop_last();
    if i == ws.len() - 1 {
        if fires(states, ws.last()) {
            let n = delivered(states, d).len();
            assert(delivered(states, ws)[n as int].0 == ws[i].ticket);
        } else {
            let n = kept(states, d).len();
            assert(kept(states, ws)[n as int] == ws[i]);
        }
    } else {
        lemma_match_partition(states, d, i);
        assert(d[i] == ws[i]);
        if exists|k: int| 0 <= k < kept(states, d).len() && #[trigger] kept(states, d)[k] == d[i] {
            let k = choose|k: int| 0 <= k < kept(states, d).len() && #[trigger] kept(states, d)[k] == d[i];
            assert(kept(states, ws)[k] == kept(states, d)[k]);
        } else {
            let k = choose|k: int|
                0 <= k < delivered(states, d).len() && (#[trigger] delivered(states, d)[k]).0
                    == d[i].ticket;
            assert(delivered(states, ws)[k] == delivered(states, d)[k]);
        }
    }
}

// ---------------------------------------------------------------------------
// Attempts
// ---------------------------------------------------------------------------

/// A waiter after one more attempt.
pub open spec fn bumped(w: Waiter) -> Waiter {
    Waiter {
        attempts: if w.attempts == u32::MAX {
            u32::MAX
        } else {
            (w.attempts + 1) as u32
        },
        ..w
    }
}

/// Whether a waiter has used up its attempts once it makes one more.
pub open spec fn exhausted(w: Waiter) -> bool {
    bumped(w).attempts > w.options.max_attempts
}

/// The waiters that stay after one more attempt each.
pub open spec fn still_waiting(ws: Seq<Waiter>) -> Seq<Waiter>
    decreases ws.len(),
{
    if ws.len() == 0 {
        seq![]
    } else if exhausted(ws.last()) {
        still_waiting(ws.drop_last())
    } else {
        still_waiting(ws.drop_last()).push(bumped(ws.last()))
    }
}

/// The tickets of the waiters that time out, in order.
pub open spec fn timed_out(ws: Seq<Waiter>) -> Seq<u64>
    decreases ws.len(),
{
    if ws.len() == 0 {
        seq![]
    } else if exhausted(ws.last()) {
        timed_out(ws.drop_last()).push(ws.last().ticket)
    } else {
        timed_out(ws.drop_last())
    }
}

/// After a sleep every waiter either stays, with one more attempt, or times
/// out under its ticket; their numbers add up.
pub proof fn lemma_attempts_partition(ws: Seq<Waiter>, i: int)
    requires
        0 <= i < ws.len(),
    ensures
        still_waiting(ws).len() + timed_out(ws).len() == ws.len(),
        (exists|k: int| 0 <= k < still_waiting(ws).len() && #[trigger] still_waiting(ws)[k] == bumped(ws[i]))
            || (exists|k: int| 0 <= k < timed_out(ws).len() && #[trigger] timed_out(ws)[k] == ws[i].ticket),
    decreases ws.len(),
{
    let d = ws.drop_last();
    if i == ws.len() - 1 {
        if d.len() > 0 {
            lemma_attempts_partition(d, 0);
        }
        if exhausted(ws.last()) {
            let n = timed_out(d).len();
            assert(timed_out(ws)[n as int] == ws[i].ticket);
        } else {
            let n = still_waiting(d).len();
            assert(still_waiting(ws)[n as int] == bumped(ws[i]));
        }
    } else {
        lemma_attempts_partition(d, i);
        assert(d[i] == ws[i]);
        if exists|k: int| 0 <= k < still_waiting(d).len() && #[trigger] still_waiting(d)[k] == bumped(d[i]) {
            let k = choose|k: int| 0 <= k < still_waiting(d).len() && #[trigger] still_waiting(d)[k] == bumped(d[i]);
            assert(still_waiting(ws)[k] == still_waiting(d)[k]);
        } else {
            let k = choose|k: int| 0 <= k < timed_out(d).len() && #[trigger] timed_out(d)[k] == d[i].ticket;
            assert(timed_out(ws)[k] == timed_out(d)[k]);
        }
    }
}

/// Count one more attempt for every waiter; those past their maximum leave
/// the list and their tickets are returned (they time out).
pub fn bump_attempts(waiters: &mut Vec<Waiter>) -> (r: Vec<u64>)
    ensures
        final(waiters)@ == still_waiting(old(waiters)@),
        r@ == timed_out(old(waiters)@),
{
    let ghost orig = waiters@;
    let mut rest: Vec<Waiter> = Vec::new();
    std::mem::swap(&mut rest, waiters);
    let mut timeouts: Vec<u64> = Vec::new();
    let n = rest.len();
    let mut i: usize = 0;
    assert(orig.take(0) =~= Seq::<Waiter>::empty());
    assert(orig.subrange(0, n as int) == orig);
    while i < n
        invariant
            i <= n,
            n == orig.len(),
            rest@ == orig.subrange(i as int, n as int),
            waiters@ == still_waiting(orig.take(i as int)),
            timeouts@ == timed_out(orig.take(i as int)),
        decreases n - i,
    {
        let ghost next = orig.take(i + 1);
        assert(next.drop_last() == orig.take(i as int));
        assert(next.last() == orig[i as int]);
        let mut w = rest.remove(0);
        assert(w == orig[i as int]);
        assert(rest@ == orig.subrange(i + 1, n as int));
        w.attempts = w.attempts.saturating_add(1);
        if w.attempts > w.options.max_attempts {
            timeouts.push(w.ticket);
        } else {
            waiters.push(w);
        }
        i = i + 1;
    }
    assert(orig.take(n as int) == orig);
    timeouts
}

// ---------------------------------------------------------------------------
// Finishing operations
// ---------------------------------------------------------------------------

/// Whether operation `tzid` occurs among the first deliveries.
pub open spec fn seen_tzid(ds: Seq<(u64, i64, Seq<char>, bool)>, tzid: i64) -> bool {
    exists|i: int| 0 <= i < ds.len() && (#[trigger] ds[i]).1 == tzid
}

/// The operations to finish after a batch of deliveries: each operation
/// once, in the order of its first delivery, with that delivery's
/// next-or-close choice.
pub open spec fn finish_plan_spec(ds: Seq<(u64, i64, Seq<char>, bool)>) -> Seq<(i64, bool)>
    decreases ds.len(),
{
    if ds.len() == 0 {
        seq![]
    } else if seen_tzid(ds.drop_last(), ds.last().1) {
        finish_plan_spec(ds.drop_last())
    } else {
        finish_plan_spec(ds.drop_last()).push((ds.last().1, ds.last().3))
    }
}

/// Which operations to finish (`next` when `true`, `close` otherwise), each
/// operation once, in the order of the deliveries.
pub fn finish_plan(deliveries: &Vec<Delivery>) -> (r: Vec<(i64, bool)>)
    ensures
        r@ == finish_plan_spec(deliveries_view(deliveries@)),
{
    let ghost dv = deliveries_view(deliveries@);
    let mut plan: Vec<(i64, bool)> = Vec::new();
    let mut i: usize = 0;
    assert(dv.take(0) =~= Seq::<(u64, i64, Seq<char>, bool)>::empty());
    while i < deliveries.len()
        invariant
            i <= deliveries.len(),
            dv == deliveries_view(deliveries@),
            dv.len() == deliveries.len(),
            plan@ == finish_plan_spec(dv.take(i as int)),
            forall|k: int| 0 <= k < plan@.len() ==> seen_tzid(dv.take(i as int), #[trigger] plan@[k].0),
            forall|t: i64| seen_tzid(dv.take(i as int), t) ==> exists|k: int| 0 <= k < plan@.len() && (#[trigger] plan@[k]).0 == t,
        decreases deliveries.len() - i,
    {
        let ghost pre = dv.take(i as int);
        let ghost next = dv.take(i + 1);
        assert(next.drop_last() == pre);
        assert(next.last() == dv[i as int]);
        assert(dv[i as int] == delivery_view(deliveries@[i as int]));
        let tzid = deliveries[i].tzid;
        let mut seen = false;
        let mut k: usize = 0;
        while k < plan.len()
            invariant
                k <= plan.len(),
                seen == exists|m: int| 0 <= m < k && (#[trigger] plan@[m]).0 == tzid,
            decreases plan.len() - k,
        {
            if plan[k].0 == tzid {
                seen = true;
            }
            k = k + 1;
        }
        proof {
            assert forall|j: int| 0 <= j < pre.len() implies #[trigger] next[j] == pre[j] by {}
            if seen {
                let m = choose|m: int| 0 <= m < k && (#[trigger] plan@[m]).0 == tzid;
                assert(seen_tzid(pre, plan@[m].0));
            } else {
                if seen_tzid(pre, tzid) {
                    let m = choose|m: int| 0 <= m < plan@.len() && (#[trigger] plan@[m]).0 == tzid;
                    assert(false);
                }
            }
        }
        let ghost old_plan = plan@;
        if !seen {
            plan.push((tzid, deliveries[i].not_end));
        }
        assert forall|q: int| 0 <= q < old_plan.len() implies #[trigger] plan@[q] == old_plan[q] by {}
        proof {
            assert forall|q: int| 0 <= q < plan@.len() implies seen_tzid(next, #[trigger] plan@[q].0) by {
                if q < plan@.len() - 1 || seen {
                    let j = choose|j: int| 0 <= j < pre.len() && (#[trigger] pre[j]).1 == plan@[q].0;
                    assert(next[j] == pre[j]);
                } else {
                    assert(next[i as int].1 == tzid);
                }
            }
            assert forall|t: i64| seen_tzid(next, t) implies exists|q: int| 0 <= q < plan@.len() && (#[trigger] plan@[q]).0 == t by {
                let j = choose|j: int| 0 <= j < next.len() && (#[trigger] next[j]).1 == t;
                if j < pre.len() {
                    assert(pre[j] == next[j]);
                    assert(seen_tzid(pre, t));
                    let q = choose|q: int| 0 <= q < old_plan.len() && (#[trigger] old_plan[q]).0 == t;
                    assert(plan@[q] == old_plan[q]);
                } else if !seen {
                    assert(plan@[plan@.len() - 1].0 == t);
                } else {
                    let m = choose|m: int| 0 <= m < k && (#[trigger] plan@[m]).0 == tzid;
                    assert(plan@[m].0 == t);
                }
            }
        }
        i = i + 1;
    }
    assert(dv.take(i as int) == dv);
    plan
}

/// What a waiter receives once its operation was finished: the code, or
/// `Unexpected("wait_code finish failed: ...")` when finishing failed.
pub open spec fn finish_outcome_ok(failure: Option<Option<Seq<char>>>) -> bool {
    match failure {
        Some(Some(_)) => false,
        _ => true,
    }
}

/// The failure recorded for operation `tzid` (`None` when it was not
/// finished, `Some(None)` when finishing succeeded).
pub open spec fn failure_for(results: Seq<(i64, Option<String>)>, tzid: i64) -> Option<Option<Seq<char>>>
    decreases results.len(),
{
    if results.len() == 0 {
        None
    } else {
        match failure_for(results.drop_last(), tzid) {
            Some(x) => Some(x),
            None => if results.last().0 == tzid {
                Some(
                    match results.last().1 {
                        Some(e) => Some(e@),
                        None => None,
                    },
                )
            } else {
                None
            },
        }
    }
}

/// The failure recorded for `tzid`.
fn find_failure(results: &Vec<(i64, Option<String>)>, tzid: i64) -> (r: Option<Option<String>>)
    ensures
        match (r, failure_for(results@, tzid)) {
            (None, None) => true,
            (Some(None), Some(None)) => true,
            (Some(Some(e)), Some(Some(f))) => e@ == f,
            _ => false,
        },
{
    let mut i: usize = 0;
    assert(results@.take(0) =~= Seq::<(i64, Option<String>)>::empty());
    while i < results.len()
        invariant
            i <= results.len(),
            failure_for(results@.take(i as int), tzid) is None,
        decreases results.len() - i,
    {
        let ghost next = results@.take(i + 1);
        assert(next.drop_last() == results@.take(i as int));
        assert(next.last() == results@[i as int]);
        if results[i].0 == tzid {
            let r = match &results[i].1 {
                Some(e) => Some(Some(e.clone())),
                None => Some(None),
            };
            proof {
                lemma_failure_prefix(results@, tzid, i + 1);
            }
            return r;
        }
        i = i + 1;
    }
    assert(results@.take(i as int) == results@);
    None
}

proof fn lemma_failure_prefix(results: Seq<(i64, Option<String>)>, tzid: i64, n: int)
    requires
        0 <= n <= results.len(),
        failure_for(results.take(n), tzid) is Some,
    ensures
        failure_for(results, tzid) == failure_for(results.take(n), tzid),
    decreases results.len() - n,
{
    if n < results.len() {
        assert(results.drop_last().take(n) == results.take(n));
        lemma_failure_prefix(results.drop_last(), tzid, n);
    } else {
        assert(results.take(n) == results);
    }
}

/// The answer for one delivery, given how finishing its operation went.
pub fn finish_result(d: Delivery, results: &Vec<(i64, Option<String>)>) -> (r: (u64, Result<String, Error>))
    ensures
        r.0 == d.ticket,
        finish_outcome_ok(failure_for(results@, d.tzid)) ==> (r.1 matches Ok(c) && c@ == d.code@),
        failure_for(results@, d.tzid) matches Some(Some(e)) ==> (r.1 matches Err(Error::Unexpected(m))
            && m@ == "wait_code finish failed: "@ + e),
{
    match find_failure(results, d.tzid) {
        Some(Some(e)) => (d.ticket, Err(Error::Unexpected(cat("wait_code finish failed: ", e.as_str())))),
        _ => (d.ticket, Ok(d.code)),
    }
}

/// The error every waiter receives when a batch poll fails.
pub fn poll_failure(e: &Error) -> (r: Error)
    ensures
        r matches Error::Unexpected(m) && m@.len() >= "wait_code poll failed: "@.len() && m@.subrange(
            0,
            "wait_code poll failed: "@.len() as int,
        ) == "wait_code poll failed: "@,
        known_display(*e) matches Some(t) ==> (r matches Error::Unexpected(m) && m@
            == "wait_code poll failed: "@ + t),
{
    let t = e.to_display_string();
    let m = cat("wait_code poll failed: ", t.as_str());
    assert(m@.subrange(0, "wait_code poll failed: "@.len() as int) =~= "wait_code poll failed: "@);
    Error::Unexpected(m)
}


// ---------------------------------------------------------------------------
// The shared poller
// ---------------------------------------------------------------------------

/// The waiters after `n` sleeps in which no code arrives.
pub open spec fn rounds_without_codes(ws: Seq<Waiter>, n: nat) -> Seq<Waiter>
    decreases n,
{
    if n == 0 {
        ws
    } else {
        still_waiting(rounds_without_codes(ws, (n - 1) as nat))
    }
}

proof fn lemma_one_waiter_sleep(x: Waiter)
    ensures
        !exhausted(x) ==> still_waiting(seq![x]) == seq![bumped(x)] && timed_out(seq![x])
            == Seq::<u64>::empty(),
        exhausted(x) ==> still_waiting(seq![x]) == Seq::<Waiter>::empty() && timed_out(seq![x])
            == seq![x.ticket],
{
    let s = seq![x];
    assert(s.drop_last() =~= Seq::<Waiter>::empty());
    assert(s.last() == x);
    assert(still_waiting(Seq::<Waiter>::empty()) == Seq::<Waiter>::empty());
    assert(timed_out(Seq::<Waiter>::empty()) == Seq::<u64>::empty());
    assert(Seq::<Waiter>::empty().push(bumped(x)) =~= seq![bumped(x)]);
    assert(Seq::<u64>::empty().push(x.ticket) =~= seq![x.ticket]);
}

/// A wait gets exactly `max_attempts` polls: starting from no attempt and
/// with no code arriving, it is still waiting after each of the first
/// `max_attempts` sleeps (with that many attempts counted and no time-out
/// reported), and the sleep after those times it out under its ticket.
pub proof fn law_max_attempts(w: Waiter, n: nat)
    requires
        w.attempts == 0,
        w.options.max_attempts < u32::MAX,
        n <= w.options.max_attempts,
    ensures
        rounds_without_codes(seq![w], n) == seq![Waiter { attempts: n as u32, ..w }],
        n < w.options.max_attempts ==> timed_out(rounds_without_codes(seq![w], n)) == Seq::<
            u64,
        >::empty(),
        n == w.options.max_attempts ==> timed_out(rounds_without_codes(seq![w], n)) == seq![
            w.ticket,
        ] && rounds_without_codes(seq![w], n + 1) == Seq::<Waiter>::empty(),
    decreases n,
{
    if n > 0 {
        law_max_attempts(w, (n - 1) as nat);
        let x = Waiter { attempts: (n - 1) as u32, ..w };
        lemma_one_waiter_sleep(x);
        assert(bumped(x) == Waiter { attempts: n as u32, ..w });
    } else {
        assert(Waiter { attempts: 0u32, ..w } == w);
    }
    let y = Waiter { attempts: n as u32, ..w };
    lemma_one_waiter_sleep(y);
}

/// One round of the shared poller: after the sleep (one more attempt, the
/// exhausted waiters leave) the states arrive and the waiters with a new
/// code leave.
pub open spec fn after_round(ws: Seq<Waiter>, states: Seq<StateEntry>) -> Seq<Waiter> {
    kept(states, still_waiting(ws))
}

/// The tickets answered in a round: the time-outs, then the deliveries.
pub open spec fn round_answers(ws: Seq<Waiter>, states: Seq<StateEntry>) -> Seq<u64> {
    timed_out(ws) + delivered(states, still_waiting(ws)).map_values(
        |d: (u64, i64, Seq<char>, bool)| d.0,
    )
}

/// The waiters left after one round per batch of states.
pub open spec fn run_rounds(ws: Seq<Waiter>, ss: Seq<Seq<StateEntry>>) -> Seq<Waiter>
    decreases ss.len(),
{
    if ss.len() == 0 {
        ws
    } else {
        run_rounds(after_round(ws, ss[0]), ss.drop_first())
    }
}

/// The tickets answered over those rounds, in order.
pub open spec fn all_answers(ws: Seq<Waiter>, ss: Seq<Seq<StateEntry>>) -> Seq<u64>
    decreases ss.len(),
{
    if ss.len() == 0 {
        seq![]
    } else {
        round_answers(ws, ss[0]) + all_answers(after_round(ws, ss[0]), ss.drop_first())
    }
}

/// Every waiter is within its attempts, its maximum is below `u32::MAX`,
/// and `n` more attempts exceed that maximum.
pub open spec fn ends_within(ws: Seq<Waiter>, n: int) -> bool {
    forall|i: int|
        0 <= i < ws.len() ==> {
            &&& (#[trigger] ws[i]).attempts <= ws[i].options.max_attempts
            &&& ws[i].options.max_attempts < u32::MAX
            &&& ws[i].attempts + n > ws[i].options.max_attempts
        }
}

proof fn lemma_still_waiting_elems(ws: Seq<Waiter>)
    ensures
        forall|k: int|
            0 <= k < still_waiting(ws).len() ==> exists|j: int|
                0 <= j < ws.len() && #[trigger] still_waiting(ws)[k] == bumped(ws[j])
                    && !exhausted(ws[j]),
    decreases ws.len(),
{
    if ws.len() > 0 {
        let d = ws.drop_last();
        lemma_still_waiting_elems(d);
        assert forall|k: int| 0 <= k < still_waiting(ws).len() implies exists|j: int|
            0 <= j < ws.len() && #[trigger] still_waiting(ws)[k] == bumped(ws[j]) && !exhausted(
                ws[j],
            ) by {
            if k < still_waiting(d).len() {
                let j = choose|j: int|
                    0 <= j < d.len() && #[trigger] still_waiting(d)[k] == bumped(d[j])
                        && !exhausted(d[j]);
                assert(d[j] == ws[j]);
                assert(still_waiting(ws)[k] == still_waiting(d)[k]);
            } else {
                assert(still_waiting(ws)[k] == bumped(ws[ws.len() - 1]));
            }
        }
    }
}

proof fn lemma_kept_elems(states: Seq<StateEntry>, ws: Seq<Waiter>)
    ensures
        forall|k: int|
            0 <= k < kept(states, ws).len() ==> exists|j: int|
                0 <= j < ws.len() && #[trigger] kept(states, ws)[k] == ws[j],
    decreases ws.len(),
{
    if ws.len() > 0 {
        let d = ws.drop_last();
        lemma_kept_elems(states, d);
        assert forall|k: int| 0 <= k < kept(states, ws).len() implies exists|j: int|
            0 <= j < ws.len() && #[trigger] kept(states, ws)[k] == ws[j] by {
            if k < kept(states, d).len() {
                let j = choose|j: int| 0 <= j < d.len() && #[trigger] kept(states, d)[k] == d[j];
                assert(d[j] == ws[j]);
                assert(kept(states, ws)[k] == kept(states, d)[k]);
            } else {
                assert(kept(states, ws)[k] == ws[ws.len() - 1]);
            }
        }
    }
}

proof fn lemma_sleep_lengths(ws: Seq<Waiter>)
    ensures
        still_waiting(ws).len() + timed_out(ws).len() == ws.len(),
{
    if ws.len() > 0 {
        lemma_attempts_partition(ws, 0);
    }
}

/// The shared poller always ends: when every waiter is within its
/// attempts and that many more rounds exceed each maximum, then after those
/// rounds (whatever states arrive in them) no waiter is left, as many
/// answers were given as there were waiters, and every waiter's ticket is
/// among them (a time-out or a code).
pub proof fn law_poller_ends(ws: Seq<Waiter>, ss: Seq<Seq<StateEntry>>)
    requires
        ends_within(ws, ss.len() as int),
    ensures
        run_rounds(ws, ss).len() == 0,
        all_answers(ws, ss).len() == ws.len(),
        forall|i: int|
            0 <= i < ws.len() ==> exists|k: int|
                0 <= k < all_answers(ws, ss).len() && all_answers(ws, ss)[k] == (
                #[trigger] ws[i]).ticket,
    decreases ss.len(),
{
    if ss.len() == 0 {
        if ws.len() > 0 {
            assert(ws[0].attempts <= ws[0].options.max_attempts);
        }
    } else {
        let s0 = ss[0];
        let rest = ss.drop_first();
        let st = still_waiting(ws);
        let after = after_round(ws, s0);
        lemma_still_waiting_elems(ws);
        lemma_kept_elems(s0, st);
        assert forall|k: int| 0 <= k < after.len() implies {
            &&& (#[trigger] after[k]).attempts <= after[k].options.max_attempts
            &&& after[k].options.max_attempts < u32::MAX
            &&& after[k].attempts + rest.len() > after[k].options.max_attempts
        } by {
            let j1 = choose|j: int| 0 <= j < st.len() && #[trigger] kept(s0, st)[k] == st[j];
            let j = choose|j: int|
                0 <= j < ws.len() && #[trigger] still_waiting(ws)[j1] == bumped(ws[j]) && !exhausted(ws[j]);
            assert(ws[j].attempts <= ws[j].options.max_attempts);
        }
        law_poller_ends(after, rest);
        lemma_sleep_lengths(ws);
        lemma_match_conserves(s0, st);
        let ra = round_answers(ws, s0);
        let later = all_answers(after, rest);
        assert(all_answers(ws, ss) == ra + later);
        assert forall|i: int| 0 <= i < ws.len() implies exists|k: int|
            0 <= k < all_answers(ws, ss).len() && all_answers(ws, ss)[k] == (
            #[trigger] ws[i]).ticket by {
            let all = all_answers(ws, ss);
            lemma_attempts_partition(ws, i);
            if exists|k: int| 0 <= k < st.len() && #[trigger] st[k] == bumped(ws[i]) {
                let k = choose|k: int| 0 <= k < st.len() && #[trigger] st[k] == bumped(ws[i]);
                lemma_match_partition(s0, st, k);
                if exists|k2: int| 0 <= k2 < kept(s0, st).len() && #[trigger] kept(s0, st)[k2] == st[k] {
                    let k2 = choose|k2: int| 0 <= k2 < kept(s0, st).len() && #[trigger] kept(s0, st)[k2] == st[k];
                    assert(after[k2].ticket == ws[i].ticket);
                    let m = choose|m: int| 0 <= m < later.len() && later[m] == (#[trigger] after[k2]).ticket;
                    assert(all[ra.len() + m] == later[m]);
                } else {
                    let k3 = choose|k3: int|
                        0 <= k3 < delivered(s0, st).len() && (#[trigger] delivered(s0, st)[k3]).0 == st[k].ticket;
                    assert(ra[timed_out(ws).len() + k3] == delivered(s0, st)[k3].0);
                    assert(all[timed_out(ws).len() + k3] == ra[timed_out(ws).len() + k3]);
                }
            } else {
                let k = choose|k: int| 0 <= k < timed_out(ws).len() && #[trigger] timed_out(ws)[k] == ws[i].ticket;
                assert(ra[k] == timed_out(ws)[k]);
                assert(all[k] == ra[k]);
            }
        }
    }
}

/// With distinct tickets, the poller answers each waiter exactly once: in
/// the rounds of `law_poller_ends` no ticket is answered twice, so (as
/// there are as many answers as waiters and every waiter's ticket is among
/// them) each ticket is answered once.
pub proof fn law_poller_answers_once(ws: Seq<Waiter>, ss: Seq<Seq<StateEntry>>, bound: u64)
    requires
        tickets_ok(ws, bound),
        ends_within(ws, ss.len() as int),
    ensures
        all_answers(ws, ss).no_duplicates(),
{
    law_poller_ends(ws, ss);
    let a = all_answers(ws, ss);
    vstd::seq_lib::seq_to_set_is_finite(a);
    let tk = ws.map_values(|w: Waiter| w.ticket);
    assert(tk.no_duplicates()) by {
        assert forall|i: int, j: int| 0 <= i < tk.len() && 0 <= j < tk.len() && i != j implies tk[i]
            != tk[j] by {
            if i < j {
                assert(ws[i].ticket < ws[j].ticket);
            } else {
                assert(ws[j].ticket < ws[i].ticket);
            }
        }
    }
    tk.unique_seq_to_set();
    assert(tk.to_set().subset_of(a.to_set())) by {
        assert forall|x: u64| tk.to_set().contains(x) implies a.to_set().contains(x) by {
            assert(tk.contains(x));
            let i = choose|i: int| 0 <= i < tk.len() && tk[i] == x;
            assert(tk[i] == ws[i].ticket);
            let k = choose|k: int| 0 <= k < a.len() && a[k] == (#[trigger] ws[i]).ticket;
            assert(a.contains(x));
        }
    }
    vstd::set_lib::lemma_len_subset(tk.to_set(), a.to_set());
    a.lemma_cardinality_of_set();
    a.lemma_no_dup_set_cardinality();
}

/// Whether the tickets are strictly increasing and all below `bound`.
pub open spec fn tickets_ok(ws: Seq<Waiter>, bound: u64) -> bool {
    &&& forall|i: int| 0 <= i < ws.len() ==> (#[trigger] ws[i]).ticket < bound
    &&& forall|i: int, j: int| 0 <= i < j < ws.len() ==> (#[trigger] ws[i]).ticket < (#[trigger] ws[j]).ticket
}

/// Removing waiters that received codes keeps the tickets in order.
pub proof fn lemma_kept_tickets(states: Seq<StateEntry>, ws: Seq<Waiter>, bound: u64)
    requires
        tickets_ok(ws, bound),
    ensures
        tickets_ok(kept(states, ws), bound),
    decreases ws.len(),
{
    if ws.len() > 0 {
        let d = ws.drop_last();
        assert forall|i: int| 0 <= i < d.len() implies #[trigger] d[i] == ws[i] by {}
        lemma_kept_tickets(states, d, ws.last().ticket);
        lemma_kept_tickets(states, d, bound);
    }
}

/// Removing timed-out waiters keeps the tickets in order.
pub proof fn lemma_still_waiting_tickets(ws: Seq<Waiter>, bound: u64)
    requires
        tickets_ok(ws, bound),
    ensures
        tickets_ok(still_waiting(ws), bound),
    decreases ws.len(),
{
    if ws.len() > 0 {
        let d = ws.drop_last();
        assert forall|i: int| 0 <= i < d.len() implies #[trigger] d[i] == ws[i] by {}
        lemma_still_waiting_tickets(d, ws.last().ticket);
        lemma_still_waiting_tickets(d, bound);
    }
}

/// The state of the shared `wait_code` poller: the waiters, whether its
/// loop runs, and the next ticket to hand out.
pub struct WaitPoller {
    /// Registered waits, oldest first.
    pub waiters: Vec<Waiter>,
    /// Whether the polling loop runs.
    pub running: bool,
    /// The ticket the next registration receives.
    pub next_ticket: u64,
}

impl WaitPoller {
    /// Tickets are unique: increasing in the order of the waiters, and all
    /// below the next ticket.
    pub open spec fn wf(&self) -> bool {
        tickets_ok(self.waiters@, self.next_ticket)
    }

    /// A poller with no waiters that does not run.
    pub fn new() -> (r: WaitPoller)
        ensures
            r.wf(),
            r.waiters@.len() == 0,
            !r.running,
            r.next_ticket == 0,
    {
        WaitPoller { waiters: Vec::new(), running: false, next_ticket: 0 }
    }

    /// Register a wait for operation `tzid`. Returns its ticket, and whether
    /// the caller must start the polling loop (it was not running).
    pub fn register(&mut self, tzid: i64, options: WaitCodeOptions) -> (r: (u64, bool))
        requires
            old(self).wf(),
            old(self).next_ticket < u64::MAX,
        ensures
            final(self).wf(),
            r.0 == old(self).next_ticket,
            r.1 == !old(self).running,
            final(self).running,
            final(self).next_ticket == old(self).next_ticket + 1,
            final(self).waiters@.len() == old(self).waiters@.len() + 1,
            final(self).waiters@.drop_last() == old(self).waiters@,
            final(self).waiters@.last().ticket == r.0,
            final(self).waiters@.last().tzid == tzid,
            final(self).waiters@.last().options == options,
            final(self).waiters@.last().attempts == 0,
            final(self).waiters@.last().last_code@.len() == 0,
    {
        let ticket = self.next_ticket;
        self.waiters.push(Waiter { ticket, tzid, options, attempts: 0, last_code: String::new() });
        self.next_ticket = ticket + 1;
        let start = !self.running;
        self.running = true;
        assert(self.waiters@.drop_last() == old(self).waiters@);
        (ticket, start)
    }

    /// The start of a loop round: `None` (and the loop stops) when no
    /// waiter remains, else the interval to sleep and the `message_to_code`
    /// flag of the batch poll.
    pub fn begin_round(&mut self) -> (r: Option<(u64, i64)>)
        ensures
            final(self).waiters@ == old(self).waiters@,
            final(self).next_ticket == old(self).next_ticket,
            old(self).waiters@.len() == 0 ==> r is None && !final(self).running,
            old(self).waiters@.len() > 0 ==> r == Some((
                min_interval(old(self).waiters@),
                if any_full_message(old(self).waiters@) {
                    0i64
                } else {
                    1i64
                },
            )) && final(self).running == old(self).running,
    {
        if self.waiters.len() == 0 {
            self.running = false;
            return None;
        }
        Some(poll_params(&self.waiters))
    }

    /// After the sleep: one more attempt for every waiter. Returns the
    /// tickets that timed out, and whether the round goes on (some waiter
    /// remains; otherwise the loop stops).
    pub fn after_sleep(&mut self) -> (r: (Vec<u64>, bool))
        requires
            old(self).wf(),
        ensures
            final(self).wf(),
            final(self).waiters@ == still_waiting(old(self).waiters@),
            r.0@ == timed_out(old(self).waiters@),
            r.1 == (final(self).waiters@.len() > 0),
            !r.1 ==> !final(self).running,
            r.1 ==> final(self).running == old(self).running,
            final(self).next_ticket == old(self).next_ticket,
    {
        let timeouts = bump_attempts(&mut self.waiters);
        proof {
            lemma_still_waiting_tickets(old(self).waiters@, old(self).next_ticket);
        }
        if self.waiters.len() == 0 {
            self.running = false;
            return (timeouts, false);
        }
        (timeouts, true)
    }

    /// The states of all active operations arrived: hand out new codes.
    pub fn on_states(&mut self, states: &Vec<StateEntry>) -> (r: Vec<Delivery>)
        requires
            old(self).wf(),
        ensures
            final(self).wf(),
            final(self).waiters@ == kept(states@, old(self).waiters@),
            deliveries_view(r@) == delivered(states@, old(self).waiters@),
            final(self).running == old(self).running,
            final(self).next_ticket == old(self).next_ticket,
    {
        let r = match_states(&mut self.waiters, states);
        proof {
            lemma_kept_tickets(states@, old(self).waiters@, old(self).next_ticket);
        }
        r
    }

    /// The batch poll failed: every waiter leaves (their tickets are
    /// returned, in order) and the loop stops.
    pub fn fail_all(&mut self) -> (r: Vec<u64>)
        requires
            old(self).wf(),
        ensures
            final(self).wf(),
            final(self).waiters@.len() == 0,
            !final(self).running,
            r@.len() == old(self).waiters@.len(),
            forall|i: int| 0 <= i < r@.len() ==> r@[i] == #[trigger] old(self).waiters@[i].ticket,
            final(self).next_ticket == old(self).next_ticket,
    {
        let mut tickets: Vec<u64> = Vec::new();
        let mut i: usize = 0;
        while i < self.waiters.len()
            invariant
                i <= self.waiters.len(),
                self.waiters@ == old(self).waiters@,
                tickets@.len() == i,
                forall|k: int| 0 <= k < i ==> tickets@[k] == #[trigger] old(self).waiters@[k].ticket,
            decreases self.waiters.len() - i,
        {
            tickets.push(self.waiters[i].ticket);
            i = i + 1;
        }
        self.waiters = Vec::new();
        self.running = false;
        tickets
    }
}

// ---------------------------------------------------------------------------
// A wait that polls one operation on its own
// ---------------------------------------------------------------------------

/// The state of a wait that polls one operation (`getState` with `tzid`).
pub struct SingleWait {
    /// Options of the wait.
    pub options: WaitCodeOptions,
    /// Polls made so far.
    pub attempts: u32,
    /// The code seen last (empty at first).
    pub last_code: String,
}

impl SingleWait {
    /// A wait that has made no poll yet.
    pub fn new(options: WaitCodeOptions) -> (r: SingleWait)
        ensures
            r.options == options,
            r.attempts == 0,
            r.last_code@.len() == 0,
    {
        SingleWait { options, attempts: 0, last_code: String::new() }
    }

    /// The `message_to_code` flag of the polls: `0` for full messages,
    /// else `1`.
    pub fn message_to_code(&self) -> (r: i64)
        ensures
            r == (if self.options.full_message {
                0i64
            } else {
                1i64
            }),
    {
        if self.options.full_message {
            0
        } else {
            1
        }
    }

    /// After the sleep: count the attempt. `false` means the attempts are
    /// used up (the wait times out).
    pub fn start_attempt(&mut self) -> (r: bool)
        requires
            old(self).attempts < u32::MAX,
        ensures
            final(self).attempts == old(self).attempts + 1,
            final(self).options == old(self).options,
            final(self).last_code == old(self).last_code,
            r == (final(self).attempts <= final(self).options.max_attempts),
    {
        self.attempts = self.attempts + 1;
        self.attempts <= self.options.max_attempts
    }

    /// The call that ends this wait on operation `tzid` once its code
    /// arrived: `setOperationRevise` when the options ask for the next SMS,
    /// else `setOperationOk`.
    pub fn finish_request(&self, tzid: i64) -> (r: ApiRequest)
        ensures
            is_call(
                r,
                HttpMethod::Get,
                if self.options.not_end {
                    "setOperationRevise"@
                } else {
                    "setOperationOk"@
                },
                seq![("tzid"@, ji(tzid as int))],
                true,
            ),
    {
        finish_request(tzid, self.options.not_end)
    }

    /// The operation's state arrived with message `msg`: the code to hand
    /// out when it differs from the last one seen (the wait then ends after
    /// `next` or `close`), else `None` (keep polling).
    pub fn on_state(&mut self, msg: Option<&Json>) -> (r: Option<String>)
        ensures
            final(self).options == old(self).options,
            final(self).attempts == old(self).attempts,
            match msg {
                Some(m) => if code_text(m@) != old(self).last_code@ {
                    r matches Some(c) && c@ == code_text(m@) && final(self).last_code@ == c@
                } else {
                    r is None && final(self).last_code == old(self).last_code
                },
                None => r is None && final(self).last_code == old(self).last_code,
            },
    {
        match msg {
            Some(m) => {
                let code = msg_to_code(m);
                if !str_eq(code.as_str(), self.last_code.as_str()) {
                    self.last_code = code.clone();
                    Some(code)
                } else {
                    None
                }
            },
            None => None,
        }
    }
}

/// Every delivery goes to a waiter whose operation's state carries a new
/// code, and carries that waiter's ticket, operation and its own
/// next-or-close choice (`options.not_end`).
pub proof fn law_delivery_follows_waiter(states: Seq<StateEntry>, ws: Seq<Waiter>)
    ensures
        forall|k: int|
            0 <= k < delivered(states, ws).len() ==> exists|j: int|
                0 <= j < ws.len() && (#[trigger] delivered(states, ws)[k]).0 == ws[j].ticket
                    && delivered(states, ws)[k].1 == ws[j].tzid && delivered(states, ws)[k].3
                    == ws[j].options.not_end && fires(states, ws[j]),
    decreases ws.len(),
{
    if ws.len() > 0 {
        let d = ws.drop_last();
        law_delivery_follows_waiter(states, d);
        let dd = delivered(states, d);
        let dw = delivered(states, ws);
        assert forall|k: int| 0 <= k < dw.len() implies exists|j: int|
            0 <= j < ws.len() && (#[trigger] dw[k]).0 == ws[j].ticket && dw[k].1 == ws[j].tzid
                && dw[k].3 == ws[j].options.not_end && fires(states, ws[j]) by {
            if k < dd.len() {
                assert(dw[k] == dd[k]);
                let j = choose|j: int|
                    0 <= j < d.len() && (#[trigger] dd[k]).0 == d[j].ticket && dd[k].1 == d[j].tzid
                        && dd[k].3 == d[j].options.not_end && fires(states, d[j]);
                assert(d[j] == ws[j]);
            } else {
                assert(ws.last() == ws[ws.len() - 1]);
            }
        }
    }
}

} // verus!
