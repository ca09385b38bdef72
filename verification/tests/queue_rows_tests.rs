use sqlite_graphrag::queue::QueueStatus;
use sqlite_graphrag::queue_rows::{
    count_priority_pending, heartbeat, prune_dead_entity_rows, prune_dead_memory_orphans,
    reset_stale_claims, QueueItemType, QueueRowFacts, RowOperation,
};

fn row(id: i64, status: QueueStatus, item_type: QueueItemType) -> QueueRowFacts {
    QueueRowFacts {
        id,
        status,
        item_type,
        operation: RowOperation::Same,
        in_namespace: true,
        priority: None,
        claimed_at: None,
    }
}

#[test]
fn only_old_processing_claims_are_reset() {
    let mut old = row(1, QueueStatus::Processing, QueueItemType::Memory);
    old.claimed_at = Some(1_000);
    let mut fresh = row(2, QueueStatus::Processing, QueueItemType::Memory);
    fresh.claimed_at = Some(2_900);
    let mut done = row(3, QueueStatus::Done, QueueItemType::Memory);
    done.claimed_at = Some(0);
    let unclaimed = row(4, QueueStatus::Processing, QueueItemType::Memory);
    let (rows, n) = reset_stale_claims(&vec![old, fresh, done, unclaimed], 3_000, 1_800);
    assert_eq!(n, 1);
    assert_eq!(rows[0].status, QueueStatus::Pending);
    assert_eq!(rows[0].claimed_at, None);
    assert_eq!(&rows[1..], &[fresh, done, unclaimed]);
}

#[test]
fn a_claim_exactly_at_the_age_limit_is_kept() {
    let mut r = row(1, QueueStatus::Processing, QueueItemType::Memory);
    r.claimed_at = Some(1_200);
    let (rows, n) = reset_stale_claims(&vec![r], 3_000, 1_800);
    assert_eq!((rows, n), (vec![r], 0));
}

#[test]
fn the_heartbeat_stamps_only_its_row() {
    let a = row(1, QueueStatus::Processing, QueueItemType::Memory);
    let b = row(2, QueueStatus::Processing, QueueItemType::Memory);
    let rows = heartbeat(&vec![a, b], 2, 77);
    assert_eq!(rows[0], a);
    assert_eq!(rows[1].claimed_at, Some(77));
}

#[test]
fn dead_entity_rows_of_other_operations_survive_the_prune() {
    let dead = row(1, QueueStatus::Dead, QueueItemType::Entity);
    let mut legacy = row(2, QueueStatus::Dead, QueueItemType::Entity);
    legacy.operation = RowOperation::Absent;
    let mut other = row(3, QueueStatus::Dead, QueueItemType::Entity);
    other.operation = RowOperation::Other;
    let memory = row(4, QueueStatus::Dead, QueueItemType::Memory);
    let pending = row(5, QueueStatus::Pending, QueueItemType::Entity);
    let (rows, n) = prune_dead_entity_rows(&vec![dead, legacy, other, memory, pending]);
    assert_eq!(n, 2);
    assert_eq!(rows, vec![other, memory, pending]);
}

#[test]
fn dead_memory_rows_go_only_when_their_memory_is_gone() {
    let gone = row(1, QueueStatus::Dead, QueueItemType::Memory);
    let still_there = row(2, QueueStatus::Dead, QueueItemType::Memory);
    let entity = row(3, QueueStatus::Dead, QueueItemType::Entity);
    let (rows, n) =
        prune_dead_memory_orphans(&vec![gone, still_there, entity], &vec![false, true, false]);
    assert_eq!(n, 1);
    assert_eq!(rows, vec![still_there, entity]);
}

#[test]
fn hot_pending_counts_this_operation_and_namespace_only() {
    let mut hot = row(1, QueueStatus::Pending, QueueItemType::Entity);
    hot.priority = Some(100);
    let cold = row(2, QueueStatus::Pending, QueueItemType::Entity);
    let mut elsewhere = hot;
    elsewhere.in_namespace = false;
    let mut legacy = hot;
    legacy.operation = RowOperation::Absent;
    let mut done = hot;
    done.status = QueueStatus::Done;
    assert_eq!(count_priority_pending(&vec![hot, cold, elsewhere, legacy, done], 100), 1);
    assert_eq!(count_priority_pending(&vec![cold], 0), 1);
}
