//! Properties of deployment plans: every running container is replaced once, and
//! a rollback stops at its first failing call.
use vstd::prelude::*;
use crate::deployment::{positions, min_int, ceil_div, rolling_batch, rolling_batch_count, rollback_batch, rollback_run};
use crate::text::decimal;

verus! {

/// The positions of batch `b` of size `bs` over `current` running containers.
pub open spec fn batch_positions(bs: int, current: int, b: int) -> Seq<u32> {
    positions(b * bs, min_int((b + 1) * bs, current))
}

/// Position `p` lies in batch `p / bs` and in no other batch.
pub proof fn lemma_batch_partition(bs: int, current: int, p: int, b: int)
    requires
        bs > 0,
        0 <= p < current <= u32::MAX,
        0 <= b,
    ensures
        0 <= p / bs < ceil_div(current, bs),
        batch_positions(bs, current, b).contains(p as u32) <==> b == p / bs,
{
    let q = p / bs;
    assert(q * bs <= p < (q + 1) * bs && 0 <= q) by (nonlinear_arith)
        requires bs > 0, p >= 0, q == p / bs;
    assert(q < ceil_div(current, bs)) by (nonlinear_arith)
        requires bs > 0, 0 <= p < current, q == p / bs, q * bs <= p;
    let s = batch_positions(bs, current, b);
    if b == q {
        let k = p - b * bs;
        assert(0 <= k < s.len());
        assert(s[k] == p as u32);
    }
    if s.contains(p as u32) {
        let k = choose|k: int| 0 <= k < s.len() && s[k] == p as u32;
        assert(s[k] == (b * bs + k) as u32);
        assert(b * bs + k < current);
        assert(b * bs + k == p);
        assert(b * bs <= p < (b + 1) * bs);
        assert(b == q) by (nonlinear_arith)
            requires bs > 0, b * bs <= p, p < (b + 1) * bs, q * bs <= p, p < (q + 1) * bs, b >= 0, q >= 0;
    }
}

/// A rolling update with containers running removes each running position in
/// exactly one batch: batch `p / bs`.
pub proof fn law_rolling_replaces_each_once(app: Seq<char>, bs: int, current: u32, target: u32, delay: u64,
    zero_downtime: bool, p: int, b: int)
    requires
        bs > 0,
        0 <= p < current,
        0 <= b < rolling_batch_count(current, bs),
    ensures
        0 <= p / bs < rolling_batch_count(current, bs),
        rolling_batch(app, bs, rolling_batch_count(current, bs), current, target, delay, zero_downtime, b).0.contains(p as u32)
            <==> b == p / bs,
{
    lemma_batch_partition(bs, current as int, p, b);
}

/// A rollback whose batches cover the running containers (as many batches as
/// the running count over the batch size, rounded up) removes each running
/// position in exactly one batch.
pub proof fn law_rollback_replaces_each_once(app: Seq<char>, bs: int, current: u32, delay: u64, p: int, b: int)
    requires
        bs > 0,
        0 <= p < current,
        0 <= b < ceil_div(current as int, bs),
    ensures
        0 <= p / bs < ceil_div(current as int, bs),
        rollback_batch(app, bs, ceil_div(current as int, bs), current, delay, b).0.contains(p as u32) <==> b == p / bs,
{
    lemma_batch_partition(bs, current as int, p, b);
}

/// A rollback stops at its first failing call: when call `k` is the first that
/// fails, exactly `k + 1` calls are made and the rollback fails with its error.
pub proof fn law_rollback_stops_at_first_error(n: nat, results: Seq<Result<(), Seq<char>>>, k: int)
    requires
        0 <= k < n,
        results.len() >= n,
        results[k] is Err,
        forall|j: int| 0 <= j < k ==> #[trigger] results[j] is Ok,
    ensures
        rollback_run(n, results, 0, Ok(())) == ((k + 1) as nat, results[k]),
{
    lemma_run_until_error(n, results, k, 0);
}

/// From call `done` on, with every call before `k` succeeding, the run ends right
/// after call `k` with its error.
proof fn lemma_run_until_error(n: nat, results: Seq<Result<(), Seq<char>>>, k: int, done: nat)
    requires
        done <= k < n,
        results.len() >= n,
        results[k] is Err,
        forall|j: int| 0 <= j < k ==> #[trigger] results[j] is Ok,
    ensures
        rollback_run(n, results, done, Ok(())) == ((k + 1) as nat, results[k]),
    decreases k - done,
{
    if done < k {
        assert(results[done as int] is Ok);
        lemma_run_until_error(n, results, k, done + 1);
        assert(rollback_run(n, results, done, Ok(())) == rollback_run(n, results, done + 1, results[done as int]));
    } else {
        assert(rollback_run(n, results, done + 1, results[k]) == ((k + 1) as nat, results[k]));
    }
}

/// A rollback whose calls all succeed makes every call and succeeds.
pub proof fn law_rollback_all_succeed(n: nat, results: Seq<Result<(), Seq<char>>>)
    requires
        results.len() >= n,
        forall|j: int| 0 <= j < n ==> #[trigger] results[j] is Ok,
    ensures
        rollback_run(n, results, 0, Ok(())) == (n, Ok::<(), Seq<char>>(())),
{
    lemma_run_all(n, results, 0);
}

/// From call `done` on, with every remaining call succeeding, all calls are made.
proof fn lemma_run_all(n: nat, results: Seq<Result<(), Seq<char>>>, done: nat)
    requires
        done <= n,
        results.len() >= n,
        forall|j: int| 0 <= j < n ==> #[trigger] results[j] is Ok,
    ensures
        rollback_run(n, results, done, Ok(())) == (n, Ok::<(), Seq<char>>(())),
    decreases n - done,
{
    if done < n {
        assert(results[done as int] is Ok);
        lemma_run_all(n, results, done + 1);
        assert(rollback_run(n, results, done, Ok(())) == rollback_run(n, results, done + 1, results[done as int]));
    }
}

/// In a rolling update every batch starts a replacement for exactly those of its
/// removed positions that lie below the target count, each under the index of the
/// position it replaces (with `-new` without downtime); the pause follows every
/// batch but the last, which has none.
pub proof fn law_rolling_batch_replacements(app: Seq<char>, bs: int, current: u32, target: u32, delay: u64,
    zero_downtime: bool, b: int)
    requires
        bs > 0,
        0 <= b < rolling_batch_count(current, bs),
    ensures
        ({
            let count = rolling_batch_count(current, bs);
            let (removed, created, pause) = rolling_batch(app, bs, count, current, target, delay, zero_downtime, b);
            let suffix = if zero_downtime { "-new"@ } else { Seq::<char>::empty() };
            &&& created.len() <= removed.len()
            &&& forall|k: int| 0 <= k < created.len() ==> (#[trigger] removed[k]) < target
                && created[k] == app + "-"@ + decimal(removed[k] as nat) + suffix
            &&& forall|k: int| created.len() <= k < removed.len() ==> (#[trigger] removed[k]) >= target
            &&& b == count - 1 ==> pause == 0
            &&& b < count - 1 ==> pause == delay
        }),
{
    let count = rolling_batch_count(current, bs);
    let start = b * bs;
    let end = min_int((b + 1) * bs, current as int);
    assert(start >= 0) by (nonlinear_arith)
        requires b >= 0, bs > 0, start == b * bs;
    let (removed, created, pause) = rolling_batch(app, bs, count, current, target, delay, zero_downtime, b);
    assert forall|k: int| 0 <= k < removed.len() implies (#[trigger] removed[k]) as int == start + k by {
        assert(start + k < current);
    }
}

} // verus!
