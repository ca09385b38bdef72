//! The decisions of the enrich drain.
//!
//! The drain claims one queue row at a time (or, for re-embed, a batch per
//! cycle), checks the claim, calls the provider and records the outcome,
//! until the queue is empty, a shutdown is requested, the budget is spent or
//! a worker's circuit breaker opens. A parallel worker takes the same steps,
//! with no cooperative yields. Everything that touches the queue, the
//! provider or the clock is the caller's; this module is the step from the
//! drain's state and what just happened to its next state and what to do.
use crate::backoff::{next_backoff, rate_limit_retry};
use crate::errors::AppError;
use crate::text::to_owned;
use crate::operations::DEFAULT_RATE_LIMIT_WAIT;
use vstd::prelude::*;

verus! {

/// The tally and clocks the drain carries from item to item.
#[derive(Debug, Clone, Copy, PartialEq, Eq, Structural)]
pub struct DrainState {
    /// Items completed (a retype counts too).
    pub completed: usize,
    /// Items that failed.
    pub failed: usize,
    /// Items skipped, by the claim check or by the handler.
    pub skipped: usize,
    /// Items whose entity type was changed.
    pub retyped: usize,
    /// Whether a subscription (OAuth) reply was seen: costs are then not
    /// reported.
    pub oauth_detected: bool,
    /// The current rate-limit backoff, in seconds.
    pub backoff_secs: u64,
    /// Completions since the last cooperative yield.
    pub items_since_yield: usize,
    /// Cooperative yields so far.
    pub yield_count: u64,
    /// Whether the drain stopped to let hot entity descriptions run first.
    pub preempted_for_gate: bool,
}

/// What stays fixed for one drain.
#[derive(Debug, Clone, Copy, PartialEq, Eq, Structural)]
pub struct DrainConfig {
    /// Yield after this many completions; 0 never yields.
    pub yield_every: usize,
    /// Whether this operation gives way to hot entity descriptions
    /// (entity-connect and cross-domain bridges do).
    pub preemptible: bool,
    /// The highest backoff, in seconds.
    pub backoff_ceiling_secs: u64,
    /// Whether the operation is served in batches (re-embed): each cycle
    /// claims and serves a whole batch with one remote call instead of one
    /// row per call.
    pub batched_reembed: bool,
}

/// How one batched re-embed cycle ended.
#[derive(Debug, Clone, Copy, PartialEq, Eq, Structural)]
pub enum ReembedOutcome {
    /// It served a batch; claim the next.
    Progressed,
    /// Nothing was left to claim.
    Empty,
    /// The circuit breaker opened.
    BreakerOpen,
    /// The claim stayed busy past the bounded retries.
    DbBusy,
}

/// What the caller observed since the last step.
#[derive(Debug, Clone, Copy, PartialEq, Eq, Structural)]
pub enum DrainEvent {
    /// A shutdown was requested.
    ShutdownRequested,
    /// Neither a shutdown nor a spent budget stops the drain.
    Proceed,
    /// A batched re-embed cycle ended with `outcome`, leaving these tallies.
    ReembedCycled { outcome: ReembedOutcome, completed: usize, failed: usize, skipped: usize },
    /// The worker's circuit breaker opened after a failure.
    BreakerOpened,
    /// The cost budget is spent.
    BudgetExhausted,
    /// No pending row could be claimed (the queue is empty, or the claim
    /// failed for a reason other than a busy database).
    QueueEmpty,
    /// The claim kept finding the database busy after its bounded retries.
    DequeueBusy,
    /// The claimed row belongs to another operation.
    ClaimedWrongOperation,
    /// The claimed row has an item type this operation does not serve.
    ClaimedWrongType,
    /// The claimed row passed the check.
    Claimed,
    /// The handler finished the item.
    Done { is_oauth: bool },
    /// The handler changed the entity's type.
    Retyped,
    /// The handler skipped the item.
    Skipped,
    /// The rewrite diverged too far from the original body.
    PreservationFailed,
    /// The handler failed; `rate_limited` when the provider throttled.
    Failed { rate_limited: bool, retries_disabled: bool, deadline_passed: bool },
    /// After a cooperative yield: whether hot entity descriptions are
    /// pending.
    YieldChecked { hot_descriptions_pending: bool },
}

/// What the caller does next.
#[derive(Debug, Clone, Copy, PartialEq, Eq, Structural)]
pub enum DrainAction {
    /// Leave the loop.
    Stop,
    /// Leave the loop with the busy-database error.
    AbortBusy,
    /// Claim the next pending row and check it.
    ClaimNext,
    /// Run one batched re-embed cycle.
    RunReembedCycle,
    /// Put the row back for its own operation and claim again.
    RequeueWrongOperation,
    /// Mark the row skipped for its item type and claim again.
    SkipWrongType,
    /// Refresh the claim and call the handler.
    CallHandler,
    /// Mark the row done; when `yield_now`, yield and report whether hot
    /// descriptions are pending.
    MarkDone { yield_now: bool },
    /// Mark the row skipped with the handler's reason.
    MarkSkipped,
    /// Put the row back, wait `wait_secs`, and claim again.
    RequeueRateLimited { wait_secs: u64 },
    /// Record the failure on the row.
    RecordFailure,
    /// Claim the next row.
    Continue,
}

/// The state in which every step may be taken: the backoff can be doubled
/// without overflow.
pub open spec fn drain_wf(cfg: DrainConfig, s: DrainState) -> bool {
    &&& cfg.backoff_ceiling_secs <= u64::MAX / 2
    &&& DEFAULT_RATE_LIMIT_WAIT <= cfg.backoff_ceiling_secs
    &&& s.backoff_secs <= cfg.backoff_ceiling_secs
}

/// The counters are below their machine limit, so one more item fits.
pub open spec fn counters_have_room(s: DrainState) -> bool {
    &&& s.completed < usize::MAX
    &&& s.failed < usize::MAX
    &&& s.skipped < usize::MAX
    &&& s.retyped < usize::MAX
}

/// `n + 1`, held at `usize::MAX`.
pub open spec fn bump_usize(n: usize) -> usize {
    if n < usize::MAX {
        (n + 1) as usize
    } else {
        n
    }
}

/// `n + 1`, held at `u64::MAX`.
pub open spec fn bump_u64(n: u64) -> u64 {
    if n < u64::MAX {
        (n + 1) as u64
    } else {
        n
    }
}

/// Whether a completion brings the drain to a cooperative yield.
pub open spec fn yield_due(cfg: DrainConfig, s: DrainState) -> bool {
    cfg.yield_every > 0 && bump_usize(s.items_since_yield) >= cfg.yield_every
}

/// Whether a failure goes back to the queue after a backoff.
pub open spec fn retries_rate_limit(rate_limited: bool, retries_disabled: bool, deadline_passed: bool) -> bool {
    rate_limited && !retries_disabled && !deadline_passed
}

/// The state after a step.
pub open spec fn drain_next(cfg: DrainConfig, s: DrainState, e: DrainEvent) -> DrainState {
    match e {
        DrainEvent::ClaimedWrongType => DrainState { skipped: (s.skipped + 1) as usize, ..s },
        DrainEvent::ReembedCycled { completed, failed, skipped, .. } => DrainState {
            completed,
            failed,
            skipped,
            ..s
        },
        DrainEvent::Done { is_oauth } => {
            let since = bump_usize(s.items_since_yield);
            let due = yield_due(cfg, s);
            DrainState {
                completed: (s.completed + 1) as usize,
                oauth_detected: s.oauth_detected || is_oauth,
                backoff_secs: DEFAULT_RATE_LIMIT_WAIT,
                items_since_yield: if due {
                    0
                } else {
                    since
                },
                yield_count: if due {
                    bump_u64(s.yield_count)
                } else {
                    s.yield_count
                },
                ..s
            }
        },
        DrainEvent::Retyped => DrainState {
            completed: (s.completed + 1) as usize,
            retyped: (s.retyped + 1) as usize,
            ..s
        },
        DrainEvent::Skipped => DrainState { skipped: (s.skipped + 1) as usize, ..s },
        DrainEvent::PreservationFailed => DrainState { skipped: (s.skipped + 1) as usize, ..s },
        DrainEvent::Failed { rate_limited, retries_disabled, deadline_passed } => {
            if retries_rate_limit(rate_limited, retries_disabled, deadline_passed) {
                DrainState {
                    backoff_secs: next_backoff(s.backoff_secs, cfg.backoff_ceiling_secs) as u64,
                    ..s
                }
            } else {
                DrainState { failed: (s.failed + 1) as usize, ..s }
            }
        },
        DrainEvent::YieldChecked { hot_descriptions_pending } => {
            if hot_descriptions_pending && cfg.preemptible {
                DrainState { preempted_for_gate: true, ..s }
            } else {
                s
            }
        },
        _ => s,
    }
}

/// The action of a step, but for the wait of a rate-limit retry, which is
/// drawn at random (see [`drain_action_fits`]).
pub open spec fn drain_action(cfg: DrainConfig, s: DrainState, e: DrainEvent) -> DrainAction {
    match e {
        DrainEvent::ShutdownRequested => DrainAction::Stop,
        DrainEvent::BudgetExhausted => DrainAction::Stop,
        DrainEvent::Proceed => if cfg.batched_reembed {
            DrainAction::RunReembedCycle
        } else {
            DrainAction::ClaimNext
        },
        DrainEvent::ReembedCycled { outcome, .. } => match outcome {
            ReembedOutcome::Progressed => DrainAction::Continue,
            ReembedOutcome::Empty => DrainAction::Stop,
            ReembedOutcome::BreakerOpen => DrainAction::Stop,
            ReembedOutcome::DbBusy => DrainAction::AbortBusy,
        },
        DrainEvent::BreakerOpened => DrainAction::Stop,
        DrainEvent::QueueEmpty => DrainAction::Stop,
        DrainEvent::DequeueBusy => DrainAction::AbortBusy,
        DrainEvent::ClaimedWrongOperation => DrainAction::RequeueWrongOperation,
        DrainEvent::ClaimedWrongType => DrainAction::SkipWrongType,
        DrainEvent::Claimed => DrainAction::CallHandler,
        DrainEvent::Done { .. } => DrainAction::MarkDone { yield_now: yield_due(cfg, s) },
        DrainEvent::Retyped => DrainAction::MarkDone { yield_now: false },
        DrainEvent::Skipped => DrainAction::MarkSkipped,
        DrainEvent::PreservationFailed => DrainAction::MarkSkipped,
        DrainEvent::Failed { .. } => DrainAction::RecordFailure,
        DrainEvent::YieldChecked { hot_descriptions_pending } => {
            if hot_descriptions_pending && cfg.preemptible {
                DrainAction::Stop
            } else {
                DrainAction::Continue
            }
        },
    }
}

/// `a` is the step's action: a retried rate limit waits half the backoff
/// plus a jitter below that half; every other event has exactly
/// [`drain_action`].
pub open spec fn drain_action_fits(cfg: DrainConfig, s: DrainState, e: DrainEvent, a: DrainAction) -> bool {
    match e {
        DrainEvent::Failed { rate_limited, retries_disabled, deadline_passed } => {
            if retries_rate_limit(rate_limited, retries_disabled, deadline_passed) {
                let half = s.backoff_secs / 2;
                &&& a matches DrainAction::RequeueRateLimited { wait_secs }
                &&& half == 0 ==> wait_secs == 0
                &&& half > 0 ==> half <= wait_secs < 2 * half
            } else {
                a == drain_action(cfg, s, e)
            }
        },
        _ => a == drain_action(cfg, s, e),
    }
}

/// One step of the drain.
pub fn drain_step(cfg: DrainConfig, s: DrainState, e: DrainEvent) -> (r: (DrainState, DrainAction))
    requires
        drain_wf(cfg, s),
        counters_have_room(s),
    ensures
        r.0 == drain_next(cfg, s, e),
        drain_action_fits(cfg, s, e, r.1),
{
    match e {
        DrainEvent::ShutdownRequested => (s, DrainAction::Stop),
        DrainEvent::BudgetExhausted => (s, DrainAction::Stop),
        DrainEvent::Proceed => if cfg.batched_reembed {
            (s, DrainAction::RunReembedCycle)
        } else {
            (s, DrainAction::ClaimNext)
        },
        DrainEvent::ReembedCycled { outcome, completed, failed, skipped } => {
            let next = DrainState { completed, failed, skipped, ..s };
            let action = match outcome {
                ReembedOutcome::Progressed => DrainAction::Continue,
                ReembedOutcome::Empty => DrainAction::Stop,
                ReembedOutcome::BreakerOpen => DrainAction::Stop,
                ReembedOutcome::DbBusy => DrainAction::AbortBusy,
            };
            (next, action)
        },
        DrainEvent::BreakerOpened => (s, DrainAction::Stop),
        DrainEvent::QueueEmpty => (s, DrainAction::Stop),
        DrainEvent::DequeueBusy => (s, DrainAction::AbortBusy),
        DrainEvent::ClaimedWrongOperation => (s, DrainAction::RequeueWrongOperation),
        DrainEvent::ClaimedWrongType => (
            DrainState { skipped: s.skipped + 1, ..s },
            DrainAction::SkipWrongType,
        ),
        DrainEvent::Claimed => (s, DrainAction::CallHandler),
        DrainEvent::Done { is_oauth } => {
            let since = if s.items_since_yield < usize::MAX {
                s.items_since_yield + 1
            } else {
                s.items_since_yield
            };
            let due = cfg.yield_every > 0 && since >= cfg.yield_every;
            let yields = if due {
                if s.yield_count < u64::MAX {
                    s.yield_count + 1
                } else {
                    s.yield_count
                }
            } else {
                s.yield_count
            };
            let next = DrainState {
                completed: s.completed + 1,
                oauth_detected: s.oauth_detected || is_oauth,
                backoff_secs: DEFAULT_RATE_LIMIT_WAIT,
                items_since_yield: if due {
                    0
                } else {
                    since
                },
                yield_count: yields,
                ..s
            };
            (next, DrainAction::MarkDone { yield_now: due })
        },
        DrainEvent::Retyped => (
            DrainState { completed: s.completed + 1, retyped: s.retyped + 1, ..s },
            DrainAction::MarkDone { yield_now: false },
        ),
        DrainEvent::Skipped => (
            DrainState { skipped: s.skipped + 1, ..s },
            DrainAction::MarkSkipped,
        ),
        DrainEvent::PreservationFailed => (
            DrainState { skipped: s.skipped + 1, ..s },
            DrainAction::MarkSkipped,
        ),
        DrainEvent::Failed { rate_limited, retries_disabled, deadline_passed } => {
            if rate_limited {
                match rate_limit_retry(
                    retries_disabled,
                    deadline_passed,
                    s.backoff_secs,
                    cfg.backoff_ceiling_secs,
                ) {
                    Some((wait_secs, next_secs)) => {
                        return (
                            DrainState { backoff_secs: next_secs, ..s },
                            DrainAction::RequeueRateLimited { wait_secs },
                        );
                    },
                    None => {},
                }
            }
            (DrainState { failed: s.failed + 1, ..s }, DrainAction::RecordFailure)
        },
        DrainEvent::YieldChecked { hot_descriptions_pending } => {
            if hot_descriptions_pending && cfg.preemptible {
                (DrainState { preempted_for_gate: true, ..s }, DrainAction::Stop)
            } else {
                (s, DrainAction::Continue)
            }
        },
    }
}

/// Every step keeps the drain's state well formed: the backoff stays within
/// the ceiling, so it can always be doubled again.
pub proof fn lemma_drain_step_keeps_wf(cfg: DrainConfig, s: DrainState, e: DrainEvent)
    requires
        drain_wf(cfg, s),
    ensures
        drain_wf(cfg, drain_next(cfg, s, e)),
{
}

/// Counters only grow: no step lowers `completed`, `failed`, `skipped` or
/// `retyped` (a re-embed cycle only ever adds to the tallies it was handed),
/// and each step but a re-embed cycle adds at most one item to
/// `completed + failed + skipped`.
pub proof fn lemma_drain_counters_grow(cfg: DrainConfig, s: DrainState, e: DrainEvent)
    requires
        counters_have_room(s),
        e matches DrainEvent::ReembedCycled { completed, failed, skipped, .. } ==> s.completed
            <= completed && s.failed <= failed && s.skipped <= skipped,
    ensures
        ({
            let n = drain_next(cfg, s, e);
            &&& s.completed <= n.completed
            &&& s.failed <= n.failed
            &&& s.skipped <= n.skipped
            &&& s.retyped <= n.retyped
            &&& !(e is ReembedCycled) ==> n.completed + n.failed + n.skipped <= s.completed
                + s.failed + s.skipped + 1
        }),
{
}

/// A completed item resets the backoff to the default wait, and a rate-limit
/// retry never counts the item as failed.
pub proof fn lemma_drain_success_resets_backoff(cfg: DrainConfig, s: DrainState, is_oauth: bool)
    ensures
        drain_next(cfg, s, DrainEvent::Done { is_oauth }).backoff_secs == DEFAULT_RATE_LIMIT_WAIT,
        drain_next(
            cfg,
            s,
            DrainEvent::Failed { rate_limited: true, retries_disabled: false, deadline_passed: false },
        ).failed == s.failed,
{
}

/// The drain stops only on a shutdown, a spent budget, an empty queue (or
/// an empty re-embed cycle), an open circuit breaker, or a preemption by hot
/// descriptions; it is preempted only when the operation gives way to them;
/// and a re-embed operation never claims rows one at a time.
pub proof fn lemma_drain_stops_only_for_cause(cfg: DrainConfig, s: DrainState, e: DrainEvent)
    ensures
        drain_action(cfg, s, e) == DrainAction::Stop ==> (e == DrainEvent::ShutdownRequested || e
            == DrainEvent::BudgetExhausted || e == DrainEvent::QueueEmpty || e
            == DrainEvent::BreakerOpened || (e matches DrainEvent::ReembedCycled { outcome, .. } && (
        outcome == ReembedOutcome::Empty || outcome == ReembedOutcome::BreakerOpen)) || (e matches DrainEvent::YieldChecked {
            hot_descriptions_pending,
        } && hot_descriptions_pending && cfg.preemptible)),
        cfg.batched_reembed ==> drain_action(cfg, s, e) != DrainAction::ClaimNext,
        !cfg.batched_reembed ==> drain_action(cfg, s, e) != DrainAction::RunReembedCycle,
        drain_next(cfg, s, e).preempted_for_gate && !s.preempted_for_gate ==> cfg.preemptible,
{
}

/// What one parallel worker reports when it stops.
#[derive(Debug, Clone, Copy, PartialEq, Eq, Structural)]
pub struct WorkerTally {
    /// Items it completed.
    pub completed: usize,
    /// Items that failed.
    pub failed: usize,
    /// Items it skipped.
    pub skipped: usize,
    /// Whether it saw a subscription (OAuth) reply.
    pub oauth: bool,
    /// Whether it stopped because the claim stayed busy.
    pub db_busy: bool,
    /// Whether a done or skipped mark it wrote back was lost.
    pub writeback_lost: bool,
}

/// Items completed over all workers.
pub open spec fn total_completed(ws: Seq<WorkerTally>) -> nat
    decreases ws.len(),
{
    if ws.len() == 0 {
        0
    } else {
        total_completed(ws.drop_last()) + ws.last().completed as nat
    }
}

/// Items failed over all workers.
pub open spec fn total_failed(ws: Seq<WorkerTally>) -> nat
    decreases ws.len(),
{
    if ws.len() == 0 {
        0
    } else {
        total_failed(ws.drop_last()) + ws.last().failed as nat
    }
}

/// Items skipped over all workers.
pub open spec fn total_skipped(ws: Seq<WorkerTally>) -> nat
    decreases ws.len(),
{
    if ws.len() == 0 {
        0
    } else {
        total_skipped(ws.drop_last()) + ws.last().skipped as nat
    }
}

/// Some worker's claim stayed busy.
pub open spec fn any_busy(ws: Seq<WorkerTally>) -> bool {
    exists|i: int| 0 <= i < ws.len() && (#[trigger] ws[i]).db_busy
}

/// Some worker lost a write-back.
pub open spec fn any_writeback_lost(ws: Seq<WorkerTally>) -> bool {
    exists|i: int| 0 <= i < ws.len() && (#[trigger] ws[i]).writeback_lost
}

/// Some worker saw a subscription reply.
pub open spec fn any_oauth(ws: Seq<WorkerTally>) -> bool {
    exists|i: int| 0 <= i < ws.len() && (#[trigger] ws[i]).oauth
}

/// The refusal when a worker's claim stayed busy.
pub open spec fn busy_claim_text() -> Seq<char> {
    "SQLITE_BUSY exhausted bounded retries while dequeuing (parallel worker)"@
}

/// The refusal when a worker lost a write-back.
pub open spec fn lost_writeback_text() -> Seq<char> {
    "SQLITE_BUSY exhausted bounded retries while writing back a completed item (parallel worker); the item stays claimed and will be reprocessed"@
}

/// Folds the workers' tallies into the drain's counters. A worker whose
/// claim stayed busy fails the whole drain, and so does, after it, a lost
/// write-back: the item was processed but the queue does not know it.
/// Otherwise the counts are added and a subscription reply seen by any
/// worker is remembered.
pub fn merge_worker_tallies(s: DrainState, workers: &Vec<WorkerTally>) -> (r: Result<DrainState, AppError>)
    requires
        s.completed + total_completed(workers@) <= usize::MAX,
        s.failed + total_failed(workers@) <= usize::MAX,
        s.skipped + total_skipped(workers@) <= usize::MAX,
    ensures
        any_busy(workers@) ==> (r matches Err(AppError::DbBusy(m)) && m@ == busy_claim_text()),
        !any_busy(workers@) && any_writeback_lost(workers@) ==> (r matches Err(AppError::DbBusy(m))
            && m@ == lost_writeback_text()),
        !any_busy(workers@) && !any_writeback_lost(workers@) ==> r == Ok::<DrainState, AppError>(
            DrainState {
                completed: (s.completed + total_completed(workers@)) as usize,
                failed: (s.failed + total_failed(workers@)) as usize,
                skipped: (s.skipped + total_skipped(workers@)) as usize,
                oauth_detected: s.oauth_detected || any_oauth(workers@),
                ..s
            },
        ),
{
    let mut i: usize = 0;
    while i < workers.len()
        invariant
            i <= workers@.len(),
            forall|j: int| 0 <= j < i ==> !(#[trigger] workers@[j]).db_busy,
        decreases workers@.len() - i,
    {
        if workers[i].db_busy {
            assert(workers@[i as int].db_busy);
            return Err(
                AppError::DbBusy(
                    to_owned("SQLITE_BUSY exhausted bounded retries while dequeuing (parallel worker)"),
                ),
            );
        }
        i = i + 1;
    }
    let mut k: usize = 0;
    while k < workers.len()
        invariant
            k <= workers@.len(),
            forall|j: int| 0 <= j < workers@.len() ==> !(#[trigger] workers@[j]).db_busy,
            forall|j: int| 0 <= j < k ==> !(#[trigger] workers@[j]).writeback_lost,
        decreases workers@.len() - k,
    {
        if workers[k].writeback_lost {
            assert(workers@[k as int].writeback_lost);
            return Err(
                AppError::DbBusy(
                    to_owned(
                        "SQLITE_BUSY exhausted bounded retries while writing back a completed item (parallel worker); the item stays claimed and will be reprocessed",
                    ),
                ),
            );
        }
        k = k + 1;
    }
    let mut out = s;
    let mut n: usize = 0;
    while n < workers.len()
        invariant
            n <= workers@.len(),
            forall|j: int| 0 <= j < workers@.len() ==> !(#[trigger] workers@[j]).db_busy,
            forall|j: int| 0 <= j < workers@.len() ==> !(#[trigger] workers@[j]).writeback_lost,
            s.completed + total_completed(workers@) <= usize::MAX,
            s.failed + total_failed(workers@) <= usize::MAX,
            s.skipped + total_skipped(workers@) <= usize::MAX,
            out == (DrainState {
                completed: (s.completed + total_completed(workers@.subrange(0, n as int))) as usize,
                failed: (s.failed + total_failed(workers@.subrange(0, n as int))) as usize,
                skipped: (s.skipped + total_skipped(workers@.subrange(0, n as int))) as usize,
                oauth_detected: s.oauth_detected || any_oauth(workers@.subrange(0, n as int)),
                ..s
            }),
        decreases workers@.len() - n,
    {
        let ghost pre = workers@.subrange(0, n as int);
        let ghost next = workers@.subrange(0, (n + 1) as int);
        proof {
            assert(next.drop_last() =~= pre);
            lemma_totals_prefix(workers@, (n + 1) as int);
            if any_oauth(next) {
                let j = choose|j: int| 0 <= j < next.len() && (#[trigger] next[j]).oauth;
                if j < n {
                    assert(pre[j] == next[j]);
                }
            }
            if any_oauth(pre) {
                let j = choose|j: int| 0 <= j < pre.len() && (#[trigger] pre[j]).oauth;
                assert(next[j] == pre[j]);
            }
            if workers@[n as int].oauth {
                assert(next[n as int] == workers@[n as int]);
            }
        }
        let w = workers[n];
        out = DrainState {
            completed: out.completed + w.completed,
            failed: out.failed + w.failed,
            skipped: out.skipped + w.skipped,
            oauth_detected: out.oauth_detected || w.oauth,
            ..out
        };
        n = n + 1;
    }
    proof {
        assert(workers@.subrange(0, workers@.len() as int) =~= workers@);
    }
    Ok(out)
}

proof fn lemma_totals_prefix(ws: Seq<WorkerTally>, n: int)
    requires
        0 <= n <= ws.len(),
    ensures
        total_completed(ws.subrange(0, n)) <= total_completed(ws),
        total_failed(ws.subrange(0, n)) <= total_failed(ws),
        total_skipped(ws.subrange(0, n)) <= total_skipped(ws),
    decreases ws.len() - n,
{
    if n < ws.len() {
        lemma_totals_prefix(ws, n + 1);
        assert(ws.subrange(0, n + 1).drop_last() =~= ws.subrange(0, n));
    } else {
        assert(ws.subrange(0, n) =~= ws);
    }
}

} // verus!
