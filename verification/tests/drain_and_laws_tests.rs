use sqlite_graphrag::backlog::{backlog_plan, BacklogPlan};
use sqlite_graphrag::codex::{levenshtein, CodexInvocation, CodexSpawnArgs};
use sqlite_graphrag::decompose::decompose_query_with_sources;
use sqlite_graphrag::drain::{
    drain_step, merge_worker_tallies, DrainAction, DrainConfig, DrainEvent, DrainState, ReembedOutcome,
    WorkerTally,
};
use sqlite_graphrag::errors::AppError;
use sqlite_graphrag::operations::{EnrichOperation, ReEmbedTarget};
use sqlite_graphrag::queue::{priority_enqueue, QueueRowState, QueueStatus};
use sqlite_graphrag::type_validation::{type_validation_gate, SkipReason};

fn fresh() -> DrainState {
    DrainState {
        completed: 0,
        failed: 0,
        skipped: 0,
        retyped: 0,
        oauth_detected: false,
        backoff_secs: 60,
        items_since_yield: 0,
        yield_count: 0,
        preempted_for_gate: false,
    }
}

fn cfg(yield_every: usize, preemptible: bool) -> DrainConfig {
    DrainConfig { yield_every, preemptible, backoff_ceiling_secs: 900, batched_reembed: false }
}

#[test]
fn a_new_priority_row_is_pending_at_that_priority() {
    let r = priority_enqueue(None, 100);
    assert_eq!(r, QueueRowState { status: QueueStatus::Pending, priority: Some(100) });
}

#[test]
fn a_priority_enqueue_reopens_a_failed_row_and_raises_it() {
    let row = QueueRowState { status: QueueStatus::Failed, priority: Some(0) };
    let r = priority_enqueue(Some(row), 100);
    assert_eq!(r, QueueRowState { status: QueueStatus::Pending, priority: Some(100) });
}

#[test]
fn a_priority_enqueue_keeps_settled_rows_settled() {
    for status in [QueueStatus::Done, QueueStatus::Skipped, QueueStatus::Dead] {
        let row = QueueRowState { status, priority: None };
        let r = priority_enqueue(Some(row), 100);
        assert_eq!(r, QueueRowState { status, priority: Some(100) });
    }
}

#[test]
fn a_priority_enqueue_never_lowers_a_row() {
    let row = QueueRowState { status: QueueStatus::Processing, priority: Some(500) };
    assert_eq!(priority_enqueue(Some(row), 100), row);
}

#[test]
fn the_type_gate_skips_without_description_or_evidence() {
    let r = type_validation_gate(Some("   "), "  two words ", 40);
    assert_eq!(r, Some(SkipReason::NoEvidence { evidence_chars: 9, min_corpus_chars: 40 }));
    assert_eq!(
        type_validation_gate(None, "", 40),
        Some(SkipReason::NoEvidence { evidence_chars: 0, min_corpus_chars: 40 })
    );
}

#[test]
fn the_type_gate_asks_the_model_with_a_description_or_enough_evidence() {
    assert_eq!(type_validation_gate(Some("A database engine"), "", 40), None);
    assert_eq!(type_validation_gate(None, "two words", 4), None);
}

#[test]
fn the_drain_stops_on_shutdown_budget_and_an_empty_queue() {
    for e in [DrainEvent::ShutdownRequested, DrainEvent::BudgetExhausted, DrainEvent::QueueEmpty] {
        let (s, a) = drain_step(cfg(0, false), fresh(), e);
        assert_eq!(a, DrainAction::Stop);
        assert_eq!(s, fresh());
    }
    let (_, a) = drain_step(cfg(0, false), fresh(), DrainEvent::DequeueBusy);
    assert_eq!(a, DrainAction::AbortBusy);
}

#[test]
fn the_drain_checks_each_claim() {
    let (s, a) = drain_step(cfg(0, false), fresh(), DrainEvent::ClaimedWrongOperation);
    assert_eq!((s, a), (fresh(), DrainAction::RequeueWrongOperation));
    let (s, a) = drain_step(cfg(0, false), fresh(), DrainEvent::ClaimedWrongType);
    assert_eq!(a, DrainAction::SkipWrongType);
    assert_eq!(s.skipped, 1);
    let (s, a) = drain_step(cfg(0, false), fresh(), DrainEvent::Claimed);
    assert_eq!((s, a), (fresh(), DrainAction::CallHandler));
}

#[test]
fn a_completion_resets_the_backoff_and_counts_toward_a_yield() {
    let mut st = fresh();
    st.backoff_secs = 480;
    let (s, a) = drain_step(cfg(2, false), st, DrainEvent::Done { is_oauth: true });
    assert_eq!(a, DrainAction::MarkDone { yield_now: false });
    assert_eq!(s.completed, 1);
    assert_eq!(s.backoff_secs, 60);
    assert!(s.oauth_detected);
    assert_eq!(s.items_since_yield, 1);
    let (s, a) = drain_step(cfg(2, false), s, DrainEvent::Done { is_oauth: false });
    assert_eq!(a, DrainAction::MarkDone { yield_now: true });
    assert_eq!(s.items_since_yield, 0);
    assert_eq!(s.yield_count, 1);
    assert!(s.oauth_detected);
}

#[test]
fn hot_descriptions_preempt_only_a_preemptible_drain() {
    let hot = DrainEvent::YieldChecked { hot_descriptions_pending: true };
    let (s, a) = drain_step(cfg(1, true), fresh(), hot);
    assert_eq!(a, DrainAction::Stop);
    assert!(s.preempted_for_gate);
    let (s, a) = drain_step(cfg(1, false), fresh(), hot);
    assert_eq!(a, DrainAction::Continue);
    assert!(!s.preempted_for_gate);
}

#[test]
fn handler_outcomes_move_the_counters() {
    let (s, a) = drain_step(cfg(0, false), fresh(), DrainEvent::Retyped);
    assert_eq!(a, DrainAction::MarkDone { yield_now: false });
    assert_eq!((s.completed, s.retyped), (1, 1));
    let (s, a) = drain_step(cfg(0, false), fresh(), DrainEvent::Skipped);
    assert_eq!((s.skipped, a), (1, DrainAction::MarkSkipped));
    let (s, a) = drain_step(cfg(0, false), fresh(), DrainEvent::PreservationFailed);
    assert_eq!((s.skipped, a), (1, DrainAction::MarkSkipped));
    let failed = DrainEvent::Failed { rate_limited: false, retries_disabled: false, deadline_passed: false };
    let (s, a) = drain_step(cfg(0, false), fresh(), failed);
    assert_eq!((s.failed, a), (1, DrainAction::RecordFailure));
}

#[test]
fn a_rate_limit_is_retried_with_a_doubled_backoff() {
    let limited = DrainEvent::Failed { rate_limited: true, retries_disabled: false, deadline_passed: false };
    let (s, a) = drain_step(cfg(0, false), fresh(), limited);
    match a {
        DrainAction::RequeueRateLimited { wait_secs } => assert!((30..60).contains(&wait_secs)),
        other => panic!("unexpected action {other:?}"),
    }
    assert_eq!(s.failed, 0);
    assert_eq!(s.backoff_secs, 120);
    let mut high = fresh();
    high.backoff_secs = 600;
    let (s, _) = drain_step(cfg(0, false), high, limited);
    assert_eq!(s.backoff_secs, 900);
    let given_up = DrainEvent::Failed { rate_limited: true, retries_disabled: false, deadline_passed: true };
    let (s, a) = drain_step(cfg(0, false), fresh(), given_up);
    assert_eq!((s.failed, a), (1, DrainAction::RecordFailure));
}

#[test]
fn levenshtein_is_symmetric_on_samples() {
    assert_eq!(levenshtein("gpt5.5", "gpt-5.5"), 1);
    assert_eq!(levenshtein("gpt-5.5", "gpt5.5"), 1);
    assert_eq!(levenshtein("kitten", "sitting"), levenshtein("sitting", "kitten"));
    assert_eq!(levenshtein("abc", ""), 3);
    assert_eq!(levenshtein("abc", "abc"), 0);
}

#[test]
fn every_sub_query_has_a_known_label_and_a_text() {
    for q in ["rust", "alpha; beta; gamma", "memory leaks related to the allocator", "one two three four"] {
        for (text, source) in decompose_query_with_sources(q, 7) {
            assert!(["original", "decomposed", "aspect"].contains(&source));
            assert!(!text.is_empty());
        }
    }
}

#[test]
fn operations_without_a_backlog_plan_zero() {
    for op in [
        EnrichOperation::AugmentBindings,
        EnrichOperation::CrossDomainBridges,
        EnrichOperation::DomainClassify,
        EnrichOperation::GraphAudit,
        EnrichOperation::DeepResearchSynth,
        EnrichOperation::BodyExtract,
    ] {
        assert!(matches!(backlog_plan(&op, ReEmbedTarget::Memories, false, 384), BacklogPlan::Zero));
    }
    match backlog_plan(&EnrichOperation::EntityTypeValidate, ReEmbedTarget::Memories, false, 384) {
        BacklogPlan::Counts(qs) => {
            assert_eq!(qs.len(), 1);
            assert!(qs[0].sql.contains("(?2 IS NULL OR type = ?2)"));
        }
        _ => panic!("entity-type-validate counts its entities"),
    }
}

#[test]
fn codex_exec_without_a_model_has_no_model_flag() {
    let args = CodexSpawnArgs {
        binary: "/usr/bin/codex",
        prompt: "p",
        json_schema: "{}",
        input_text: "i",
        model: None,
        timeout_secs: 30,
        schema_path: "/tmp/schema.json".to_string(),
    };
    match args.invocation(false, false) {
        CodexInvocation::Exec { args } => {
            assert!(!args.iter().any(|a| a == "-m"));
            assert_eq!(args.last().map(String::as_str), Some("-"));
            assert!(args.iter().any(|a| a == "--ignore-rules"));
        }
        _ => panic!("expected an exec"),
    }
}

fn worker(completed: usize, failed: usize, skipped: usize) -> WorkerTally {
    WorkerTally { completed, failed, skipped, oauth: false, db_busy: false, writeback_lost: false }
}

#[test]
fn worker_tallies_add_up() {
    let mut second = worker(1, 0, 4);
    second.oauth = true;
    let merged = merge_worker_tallies(fresh(), &vec![worker(3, 1, 0), second]).unwrap();
    assert_eq!((merged.completed, merged.failed, merged.skipped), (4, 1, 4));
    assert!(merged.oauth_detected);
    assert_eq!(merged.backoff_secs, 60);
}

#[test]
fn a_busy_worker_fails_the_whole_drain() {
    let mut busy = worker(0, 0, 0);
    busy.db_busy = true;
    let mut lost = worker(2, 0, 0);
    lost.writeback_lost = true;
    assert_eq!(
        merge_worker_tallies(fresh(), &vec![lost, busy]),
        Err(AppError::DbBusy(
            "SQLITE_BUSY exhausted bounded retries while dequeuing (parallel worker)".to_string()
        ))
    );
    assert_eq!(
        merge_worker_tallies(fresh(), &vec![worker(1, 0, 0), lost]),
        Err(AppError::DbBusy(
            "SQLITE_BUSY exhausted bounded retries while writing back a completed item (parallel worker); the item stays claimed and will be reprocessed".to_string()
        ))
    );
}

#[test]
fn a_running_drain_claims_rows_or_runs_a_reembed_cycle() {
    let (s, a) = drain_step(cfg(0, false), fresh(), DrainEvent::Proceed);
    assert_eq!((s, a), (fresh(), DrainAction::ClaimNext));
    let batched = DrainConfig { batched_reembed: true, ..cfg(0, false) };
    let (s, a) = drain_step(batched, fresh(), DrainEvent::Proceed);
    assert_eq!((s, a), (fresh(), DrainAction::RunReembedCycle));
}

#[test]
fn a_reembed_cycle_sets_the_tallies_and_decides_the_loop() {
    let batched = DrainConfig { batched_reembed: true, ..cfg(0, false) };
    let cycled = |outcome| DrainEvent::ReembedCycled { outcome, completed: 32, failed: 1, skipped: 2 };
    let (s, a) = drain_step(batched, fresh(), cycled(ReembedOutcome::Progressed));
    assert_eq!(a, DrainAction::Continue);
    assert_eq!((s.completed, s.failed, s.skipped), (32, 1, 2));
    assert_eq!(drain_step(batched, fresh(), cycled(ReembedOutcome::Empty)).1, DrainAction::Stop);
    assert_eq!(drain_step(batched, fresh(), cycled(ReembedOutcome::BreakerOpen)).1, DrainAction::Stop);
    assert_eq!(drain_step(batched, fresh(), cycled(ReembedOutcome::DbBusy)).1, DrainAction::AbortBusy);
}

#[test]
fn an_open_breaker_stops_the_worker() {
    let (s, a) = drain_step(cfg(0, false), fresh(), DrainEvent::BreakerOpened);
    assert_eq!((s, a), (fresh(), DrainAction::Stop));
}
