use sqlite_graphrag::cleanup::{
    cleanup_response, plan_cleanup, CleanupOrphansArgs, CleanupResponse, CleanupStep,
    OutputFormat, RepairOutcome,
};

#[test]
fn cleanup_response_deleted_zero_when_dry_run() {
    let resp = CleanupResponse {
        orphan_count: 10,
        deleted: 0,
        dangling_relationship_count: 0,
        dangling_relationships_deleted: 0,
        foreign_key_violation_count: 0,
        foreign_key_violations_remaining: 0,
        dry_run: true,
        namespace: None,
        elapsed_ms: 5,
    };
    assert_eq!(resp.deleted, 0, "dry_run must keep deleted at 0");
    assert_eq!(resp.orphan_count, 10);
}

#[test]
fn cleanup_response_deleted_equals_orphan_count_when_executed() {
    let resp = CleanupResponse {
        orphan_count: 3,
        deleted: 3,
        dangling_relationship_count: 4,
        dangling_relationships_deleted: 4,
        foreign_key_violation_count: 4,
        foreign_key_violations_remaining: 0,
        dry_run: false,
        namespace: Some("projeto".to_string()),
        elapsed_ms: 20,
    };
    assert_eq!(
        resp.deleted, resp.orphan_count,
        "when running without dry_run, deleted must equal orphan_count"
    );
}

#[test]
fn a_preview_reports_nothing_deleted_and_every_violation_remaining() {
    assert_eq!(plan_cleanup(true, false, false, 5, 2, 2).unwrap(), CleanupStep::Preview);
    let r = cleanup_response(5, 2, 2, None, Some("global".to_string()), 12);
    assert!(r.dry_run);
    assert_eq!(r.deleted, 0);
    assert_eq!(r.dangling_relationships_deleted, 0);
    assert_eq!(r.foreign_key_violations_remaining, 2);
    assert_eq!(r.namespace.as_deref(), Some("global"));
}

#[test]
fn deleting_without_yes_is_refused() {
    let err = plan_cleanup(false, false, false, 3, 1, 0).unwrap_err();
    assert_eq!(
        err.to_message(),
        "refusing to delete 4 orphaned rows without --yes; rerun with --yes, or preview with --dry-run"
    );
    assert_eq!(
        plan_cleanup(false, false, true, 0, 0, 0).unwrap(),
        CleanupStep::Repair { repair_foreign_keys: false }
    );
}

#[test]
fn only_an_unscoped_repair_touches_foreign_keys() {
    let args = CleanupOrphansArgs {
        namespace: None,
        dry_run: false,
        yes: true,
        format: OutputFormat::Json,
        json: false,
        db: None,
    };
    assert_eq!(
        args.plan(1, 1, 1).unwrap(),
        CleanupStep::Repair { repair_foreign_keys: true }
    );
    let scoped = CleanupOrphansArgs { namespace: Some("p".to_string()), ..args };
    assert_eq!(
        scoped.plan(1, 1, 1).unwrap(),
        CleanupStep::Repair { repair_foreign_keys: false }
    );
}

#[test]
fn an_executed_repair_reports_what_the_deletes_returned() {
    let outcome = RepairOutcome { entities_removed: 3, edges_removed: 4, violations_remaining: 0 };
    let r = cleanup_response(3, 4, 4, Some(outcome), Some("projeto".to_string()), 20);
    assert!(!r.dry_run);
    assert_eq!(r.deleted, 3);
    assert_eq!(r.dangling_relationships_deleted, 4);
    assert_eq!(r.foreign_key_violations_remaining, 0);
    assert_eq!(
        r.to_text(),
        "orphans: 3 entities found, 3 deleted; 4 dangling relationships found, 4 deleted; \
         4 foreign key violations found, 0 still remaining (dry_run=false) [projeto]"
    );
    let preview = cleanup_response(10, 0, 0, None, None, 5);
    assert_eq!(
        preview.to_text(),
        "orphans: 10 entities found, 0 deleted; 0 dangling relationships found, 0 deleted; \
         0 foreign key violations found, 0 still remaining (dry_run=true) [<all>]"
    );
}
