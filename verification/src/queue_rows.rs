//! What the queue's maintenance statements do to its rows: the stale-claim
//! reset, the heartbeat, the dead-letter prunes and the count of hot pending
//! rows that preemption reads.
//!
//! A row is given by the facts those statements read; whether a row's
//! operation or namespace is the one at hand, and whether a dead memory row's
//! memory still exists, are read from the databases by the caller.
use crate::queue::QueueStatus;
use vstd::prelude::*;

verus! {

/// The `item_type` of a queue row.
#[derive(Debug, Clone, Copy, PartialEq, Eq, Structural)]
pub enum QueueItemType {
    Memory,
    Entity,
    EntityPair,
    Chunk,
}

/// How a row's `operation` compares with the operation at hand.
#[derive(Debug, Clone, Copy, PartialEq, Eq, Structural)]
pub enum RowOperation {
    /// The same operation.
    Same,
    /// Another operation.
    Other,
    /// No operation recorded (a row from before the column existed).
    Absent,
}

/// What the maintenance statements read of one queue row.
#[derive(Debug, Clone, Copy, PartialEq, Eq, Structural)]
pub struct QueueRowFacts {
    /// The row id.
    pub id: i64,
    /// Its status.
    pub status: QueueStatus,
    /// Its item type.
    pub item_type: QueueItemType,
    /// Its operation, against the one at hand.
    pub operation: RowOperation,
    /// Whether its namespace is the one at hand.
    pub in_namespace: bool,
    /// Its priority; absent reads as zero.
    pub priority: Option<i64>,
    /// When it was claimed, in Unix seconds.
    pub claimed_at: Option<i64>,
}

/// A claim is stale when the row is processing and was claimed more than
/// `max_age` seconds before `now`.
pub open spec fn claim_is_stale(r: QueueRowFacts, now: i64, max_age: i64) -> bool {
    &&& r.status == QueueStatus::Processing
    &&& r.claimed_at matches Some(c) && now - c > max_age
}

/// The row after the stale-claim reset: a stale claim goes back to pending
/// with no claim time; any other row is unchanged.
pub open spec fn stale_reset_row(r: QueueRowFacts, now: i64, max_age: i64) -> QueueRowFacts {
    if claim_is_stale(r, now, max_age) {
        QueueRowFacts { status: QueueStatus::Pending, claimed_at: None, ..r }
    } else {
        r
    }
}

/// How many rows of `rows` satisfy `p`.
pub open spec fn count_where(rows: Seq<QueueRowFacts>, p: spec_fn(QueueRowFacts) -> bool) -> nat
    decreases rows.len(),
{
    if rows.len() == 0 {
        0
    } else {
        count_where(rows.drop_last(), p) + if p(rows.last()) {
            1nat
        } else {
            0nat
        }
    }
}

/// The rows of `rows` that do not satisfy `p`, in order.
pub open spec fn rows_except(rows: Seq<QueueRowFacts>, p: spec_fn(QueueRowFacts) -> bool) -> Seq<
    QueueRowFacts,
>
    decreases rows.len(),
{
    if rows.len() == 0 {
        Seq::empty()
    } else if p(rows.last()) {
        rows_except(rows.drop_last(), p)
    } else {
        rows_except(rows.drop_last(), p).push(rows.last())
    }
}

/// Resets the stale claims, as `UPDATE queue SET status='pending',
/// claimed_at=NULL WHERE status='processing' AND claimed_at IS NOT NULL AND
/// now - claimed_at > max_age_secs` does; returns the rows and how many were
/// reset. `max_age_secs` is bound as a signed 64-bit integer.
pub fn reset_stale_claims(rows: &Vec<QueueRowFacts>, now: i64, max_age_secs: u64) -> (r: (
    Vec<QueueRowFacts>,
    usize,
))
    ensures
        r.0@ == rows@.map_values(|x: QueueRowFacts| stale_reset_row(x, now, max_age_secs as i64)),
        r.1 == count_where(rows@, |x: QueueRowFacts| claim_is_stale(x, now, max_age_secs as i64)),
{
    let max_age: i64 = max_age_secs as i64;
    let ghost stale = |x: QueueRowFacts| claim_is_stale(x, now, max_age);
    let mut out: Vec<QueueRowFacts> = Vec::new();
    let mut n: usize = 0;
    let mut i: usize = 0;
    while i < rows.len()
        invariant
            i <= rows@.len(),
            max_age == max_age_secs as i64,
            stale == (|x: QueueRowFacts| claim_is_stale(x, now, max_age)),
            out@ == rows@.subrange(0, i as int).map_values(
                |x: QueueRowFacts| stale_reset_row(x, now, max_age),
            ),
            n == count_where(rows@.subrange(0, i as int), stale),
            n <= i,
        decreases rows@.len() - i,
    {
        let row = rows[i];
        let ghost pre = rows@.subrange(0, (i + 1) as int);
        proof {
            assert(pre.drop_last() =~= rows@.subrange(0, i as int));
            assert(pre.last() == row);
        }
        let is_stale = match row.status {
            QueueStatus::Processing => match row.claimed_at {
                Some(c) => (now as i128) - (c as i128) > (max_age as i128),
                None => false,
            },
            _ => false,
        };
        if is_stale {
            out.push(QueueRowFacts { status: QueueStatus::Pending, claimed_at: None, ..row });
            n = n + 1;
        } else {
            out.push(row);
        }
        proof {
            assert(out@ =~= pre.map_values(|x: QueueRowFacts| stale_reset_row(x, now, max_age)));
        }
        i = i + 1;
    }
    proof {
        assert(rows@.subrange(0, rows@.len() as int) =~= rows@);
    }
    (out, n)
}

/// The heartbeat: the claimed row `id` is stamped with `now`; every other
/// row is unchanged.
pub open spec fn heartbeat_row(r: QueueRowFacts, id: i64, now: i64) -> QueueRowFacts {
    if r.id == id {
        QueueRowFacts { claimed_at: Some(now), ..r }
    } else {
        r
    }
}

/// Stamps the claim of row `id` with `now`, as the heartbeat's
/// `UPDATE queue SET claimed_at = now WHERE id = ?1` does.
pub fn heartbeat(rows: &Vec<QueueRowFacts>, id: i64, now: i64) -> (r: Vec<QueueRowFacts>)
    ensures
        r@ == rows@.map_values(|x: QueueRowFacts| heartbeat_row(x, id, now)),
{
    let mut out: Vec<QueueRowFacts> = Vec::new();
    let mut i: usize = 0;
    while i < rows.len()
        invariant
            i <= rows@.len(),
            out@ == rows@.subrange(0, i as int).map_values(
                |x: QueueRowFacts| heartbeat_row(x, id, now),
            ),
        decreases rows@.len() - i,
    {
        let row = rows[i];
        if row.id == id {
            out.push(QueueRowFacts { claimed_at: Some(now), ..row });
        } else {
            out.push(row);
        }
        proof {
            let pre = rows@.subrange(0, (i + 1) as int);
            assert(pre.drop_last() =~= rows@.subrange(0, i as int));
            assert(out@ =~= pre.map_values(|x: QueueRowFacts| heartbeat_row(x, id, now)));
        }
        i = i + 1;
    }
    proof {
        assert(rows@.subrange(0, rows@.len() as int) =~= rows@);
    }
    out
}

/// A dead entity row of this operation (or of none): pruned without
/// consulting the main database.
pub open spec fn is_dead_entity_row(r: QueueRowFacts) -> bool {
    r.status == QueueStatus::Dead && r.item_type == QueueItemType::Entity && r.operation
        != RowOperation::Other
}

/// Prunes the dead entity rows of this operation (or of none); returns the
/// rows left and how many went.
pub fn prune_dead_entity_rows(rows: &Vec<QueueRowFacts>) -> (r: (Vec<QueueRowFacts>, usize))
    ensures
        r.0@ == rows_except(rows@, |x: QueueRowFacts| is_dead_entity_row(x)),
        r.1 == count_where(rows@, |x: QueueRowFacts| is_dead_entity_row(x)),
{
    let ghost p = |x: QueueRowFacts| is_dead_entity_row(x);
    let mut out: Vec<QueueRowFacts> = Vec::new();
    let mut n: usize = 0;
    let mut i: usize = 0;
    while i < rows.len()
        invariant
            i <= rows@.len(),
            p == (|x: QueueRowFacts| is_dead_entity_row(x)),
            out@ == rows_except(rows@.subrange(0, i as int), p),
            n == count_where(rows@.subrange(0, i as int), p),
            n <= i,
        decreases rows@.len() - i,
    {
        let row = rows[i];
        let ghost pre = rows@.subrange(0, (i + 1) as int);
        proof {
            assert(pre.drop_last() =~= rows@.subrange(0, i as int));
            assert(pre.last() == row);
        }
        let dead_entity = match row.status {
            QueueStatus::Dead => match row.item_type {
                QueueItemType::Entity => match row.operation {
                    RowOperation::Other => false,
                    _ => true,
                },
                _ => false,
            },
            _ => false,
        };
        if dead_entity {
            n = n + 1;
        } else {
            out.push(row);
        }
        i = i + 1;
    }
    proof {
        assert(rows@.subrange(0, rows@.len() as int) =~= rows@);
    }
    (out, n)
}

/// A dead memory row of this operation (or of none) whose memory no longer
/// exists, live, in the namespace.
pub open spec fn is_dead_memory_orphan(r: QueueRowFacts, memory_live: bool) -> bool {
    r.status == QueueStatus::Dead && r.item_type == QueueItemType::Memory && r.operation
        != RowOperation::Other && !memory_live
}

/// The rows left after pruning the dead memory orphans, `memory_live[k]`
/// telling whether the memory named by row `k` still exists.
pub open spec fn memory_orphans_pruned(rows: Seq<QueueRowFacts>, memory_live: Seq<bool>) -> Seq<
    QueueRowFacts,
>
    decreases rows.len(),
{
    if rows.len() == 0 {
        Seq::empty()
    } else {
        let rest = memory_orphans_pruned(rows.drop_last(), memory_live.subrange(0, rows.len() - 1));
        if is_dead_memory_orphan(rows.last(), memory_live[rows.len() - 1]) {
            rest
        } else {
            rest.push(rows.last())
        }
    }
}

/// Prunes the dead memory rows of this operation (or of none) whose memory
/// is gone; `memory_live[k]` tells whether the memory named by row `k` still
/// exists, live, in the namespace. Returns the rows left and how many went.
pub fn prune_dead_memory_orphans(rows: &Vec<QueueRowFacts>, memory_live: &Vec<bool>) -> (r: (
    Vec<QueueRowFacts>,
    usize,
))
    requires
        memory_live@.len() == rows@.len(),
    ensures
        r.0@ == memory_orphans_pruned(rows@, memory_live@),
        r.1 + r.0@.len() == rows@.len(),
{
    let mut out: Vec<QueueRowFacts> = Vec::new();
    let mut n: usize = 0;
    let mut i: usize = 0;
    while i < rows.len()
        invariant
            i <= rows@.len(),
            memory_live@.len() == rows@.len(),
            out@ == memory_orphans_pruned(
                rows@.subrange(0, i as int),
                memory_live@.subrange(0, i as int),
            ),
            n + out@.len() == i,
        decreases rows@.len() - i,
    {
        let row = rows[i];
        let live = memory_live[i];
        proof {
            let pre = rows@.subrange(0, (i + 1) as int);
            let lpre = memory_live@.subrange(0, (i + 1) as int);
            assert(pre.drop_last() =~= rows@.subrange(0, i as int));
            assert(lpre.subrange(0, i as int) =~= memory_live@.subrange(0, i as int));
            assert(pre.last() == row);
            assert(lpre[i as int] == live);
        }
        let orphan = match row.status {
            QueueStatus::Dead => match row.item_type {
                QueueItemType::Memory => match row.operation {
                    RowOperation::Other => false,
                    _ => !live,
                },
                _ => false,
            },
            _ => false,
        };
        if orphan {
            n = n + 1;
        } else {
            out.push(row);
        }
        i = i + 1;
    }
    proof {
        assert(rows@.subrange(0, rows@.len() as int) =~= rows@);
        assert(memory_live@.subrange(0, memory_live@.len() as int) =~= memory_live@);
    }
    (out, n)
}

/// A pending row of exactly this operation and namespace at `min_priority`
/// or above (an absent priority reads as zero).
pub open spec fn is_hot_pending(r: QueueRowFacts, min_priority: i64) -> bool {
    &&& r.status == QueueStatus::Pending
    &&& r.operation == RowOperation::Same
    &&& r.in_namespace
    &&& (match r.priority {
        Some(p) => p,
        None => 0i64,
    }) >= min_priority
}

/// Counts the pending rows of this operation and namespace at
/// `min_priority` or above, as the preemption check's count does.
pub fn count_priority_pending(rows: &Vec<QueueRowFacts>, min_priority: i64) -> (r: usize)
    ensures
        r == count_where(rows@, |x: QueueRowFacts| is_hot_pending(x, min_priority)),
{
    let ghost p = |x: QueueRowFacts| is_hot_pending(x, min_priority);
    let mut n: usize = 0;
    let mut i: usize = 0;
    while i < rows.len()
        invariant
            i <= rows@.len(),
            p == (|x: QueueRowFacts| is_hot_pending(x, min_priority)),
            n == count_where(rows@.subrange(0, i as int), p),
            n <= i,
        decreases rows@.len() - i,
    {
        let row = rows[i];
        proof {
            let pre = rows@.subrange(0, (i + 1) as int);
            assert(pre.drop_last() =~= rows@.subrange(0, i as int));
            assert(pre.last() == row);
        }
        let priority: i64 = match row.priority {
            Some(v) => v,
            None => 0,
        };
        let hot = match row.status {
            QueueStatus::Pending => match row.operation {
                RowOperation::Same => row.in_namespace && priority >= min_priority,
                _ => false,
            },
            _ => false,
        };
        if hot {
            n = n + 1;
        }
        i = i + 1;
    }
    proof {
        assert(rows@.subrange(0, rows@.len() as int) =~= rows@);
    }
    n
}

/// What the stale-claim reset keeps: it only ever moves processing rows back
/// to pending, never touches a settled row, and leaves no stale claim behind.
pub proof fn lemma_stale_reset_only_reopens_stale_claims(r: QueueRowFacts, now: i64, max_age: i64)
    ensures
        stale_reset_row(r, now, max_age) != r ==> (r.status == QueueStatus::Processing && stale_reset_row(
            r,
            now,
            max_age,
        ).status == QueueStatus::Pending),
        !claim_is_stale(stale_reset_row(r, now, max_age), now, max_age),
        stale_reset_row(r, now, max_age).id == r.id,
{
}

/// The prunes only ever remove dead rows: every row they keep or drop is
/// accounted for, and a row that is not dead is always kept.
pub proof fn lemma_prune_keeps_live_rows(rows: Seq<QueueRowFacts>)
    ensures
        rows_except(rows, |x: QueueRowFacts| is_dead_entity_row(x)).len() + count_where(
            rows,
            |x: QueueRowFacts| is_dead_entity_row(x),
        ) == rows.len(),
        forall|i: int|
            0 <= i < rows.len() && (#[trigger] rows[i]).status != QueueStatus::Dead ==> rows_except(
                rows,
                |x: QueueRowFacts| is_dead_entity_row(x),
            ).contains(rows[i]),
    decreases rows.len(),
{
    if rows.len() > 0 {
        let pre = rows.drop_last();
        lemma_prune_keeps_live_rows(pre);
        let k = rows_except(rows, |x: QueueRowFacts| is_dead_entity_row(x));
        let kp = rows_except(pre, |x: QueueRowFacts| is_dead_entity_row(x));
        assert forall|i: int|
            0 <= i < rows.len() && (#[trigger] rows[i]).status != QueueStatus::Dead implies k.contains(
                rows[i],
            ) by {
            if i < rows.len() - 1 {
                assert(rows[i] == pre[i]);
                let j = choose|j: int| 0 <= j < kp.len() && kp[j] == pre[i];
                assert(k[j] == kp[j]);
            } else {
                assert(k[k.len() - 1] == rows[i]);
            }
        }
    }
}

} // verus!
