//! The decisions of `cleanup-orphans`: whether a run may delete, what it
//! repairs, and the report it prints.
//!
//! The caller measures the database (orphan entities, dangling relationships,
//! foreign key violations), asks [`plan_cleanup`] what to do, performs the
//! deletes it names, measures again, and hands everything to
//! [`cleanup_response`].
use crate::errors::AppError;
use crate::text::{bool_text, decimal, decimal_string, push_bool};
use vstd::prelude::*;
use vstd::string::*;

verus! {

/// How a command prints its report.
#[derive(Debug, Clone, Copy, PartialEq, Eq, Structural)]
pub enum OutputFormat {
    /// One JSON document.
    Json,
    /// One line of text.
    Text,
    /// Markdown; rendered as the text line.
    Markdown,
}

/// Arguments of `cleanup-orphans`.
#[derive(Debug, Clone)]
pub struct CleanupOrphansArgs {
    /// Namespace scope.
    pub namespace: Option<String>,
    /// Show what would happen without making changes.
    pub dry_run: bool,
    /// Confirm the deletes.
    pub yes: bool,
    /// Output format.
    pub format: OutputFormat,
    /// Accepted for uniformity; JSON is always emitted.
    pub json: bool,
    /// Path to the SQLite database file.
    pub db: Option<String>,
}

impl CleanupOrphansArgs {
    /// The step these arguments call for once the database has been
    /// measured; see [`plan_cleanup`].
    pub fn plan(
        &self,
        orphan_count: usize,
        dangling_relationship_count: usize,
        foreign_key_violation_count: usize,
    ) -> (r: Result<CleanupStep, AppError>)
        requires
            orphan_count + dangling_relationship_count + foreign_key_violation_count <= usize::MAX,
        ensures
            ({
                let d = cleanup_decision(
                    self.dry_run,
                    self.yes,
                    self.namespace is Some,
                    orphan_count as nat,
                    dangling_relationship_count as nat,
                    foreign_key_violation_count as nat,
                );
                match r {
                    Ok(step) => d == Ok::<CleanupStep, Seq<char>>(step),
                    Err(AppError::Validation(m)) => d == Err::<CleanupStep, Seq<char>>(m@),
                    Err(AppError::NotFound(_)) => false,
                    Err(AppError::DbBusy(_)) => false,
                }
            }),
    {
        plan_cleanup(
            self.dry_run,
            self.yes,
            self.namespace.is_some(),
            orphan_count,
            dangling_relationship_count,
            foreign_key_violation_count,
        )
    }
}

/// What one `cleanup-orphans` run found and did.
#[derive(Debug, Clone)]
pub struct CleanupResponse {
    /// Entities with neither memories nor relationships.
    pub orphan_count: usize,
    /// Entities deleted.
    pub deleted: usize,
    /// Relationship rows pointing at an entity id that does not exist.
    pub dangling_relationship_count: usize,
    /// Dangling relationship rows deleted.
    pub dangling_relationships_deleted: usize,
    /// Rows reported by the foreign key check across the whole file, before
    /// anything is deleted.
    pub foreign_key_violation_count: usize,
    /// The same measurement taken after the deletes.
    pub foreign_key_violations_remaining: usize,
    /// Whether the run only previewed.
    pub dry_run: bool,
    /// Namespace the run was scoped to.
    pub namespace: Option<String>,
    /// Execution time in milliseconds.
    pub elapsed_ms: u64,
}

/// What a run does after measuring.
#[derive(Debug, Clone, Copy, PartialEq, Eq, Structural)]
pub enum CleanupStep {
    /// Report the measurements and change nothing.
    Preview,
    /// Delete the dangling relationships, then the orphan entities, and, when
    /// `repair_foreign_keys`, every foreign key violation still left.
    Repair { repair_foreign_keys: bool },
}

/// What the deletes of a repair reported.
#[derive(Debug, Clone, Copy, PartialEq, Eq, Structural)]
pub struct RepairOutcome {
    /// Entities the delete removed.
    pub entities_removed: usize,
    /// Relationship rows the delete removed.
    pub edges_removed: usize,
    /// Foreign key violations measured after the repair.
    pub violations_remaining: usize,
}

/// Rows a run would delete.
pub open spec fn cleanup_total(orphans: nat, dangling: nat, violations: nat) -> nat {
    orphans + dangling + violations
}

/// The refusal of a run that would delete `total` rows without `--yes`.
pub open spec fn refusal_text(total: nat) -> Seq<char> {
    "refusing to delete "@ + decimal(total)
        + " orphaned rows without --yes; rerun with --yes, or preview with --dry-run"@
}

/// The step a run takes: a preview under `--dry-run`; otherwise a repair,
/// refused when there is something to delete and `--yes` is absent; the
/// whole-file foreign key repair only when no namespace scopes the run.
pub open spec fn cleanup_decision(
    dry_run: bool,
    yes: bool,
    namespace_scoped: bool,
    orphans: nat,
    dangling: nat,
    violations: nat,
) -> Result<CleanupStep, Seq<char>> {
    let total = cleanup_total(orphans, dangling, violations);
    if dry_run {
        Ok(CleanupStep::Preview)
    } else if total > 0 && !yes {
        Err(refusal_text(total))
    } else {
        Ok(CleanupStep::Repair { repair_foreign_keys: !namespace_scoped })
    }
}

/// Decides what a run does once the database has been measured.
pub fn plan_cleanup(
    dry_run: bool,
    yes: bool,
    namespace_scoped: bool,
    orphan_count: usize,
    dangling_relationship_count: usize,
    foreign_key_violation_count: usize,
) -> (r: Result<CleanupStep, AppError>)
    requires
        orphan_count + dangling_relationship_count + foreign_key_violation_count <= usize::MAX,
    ensures
        ({
            let d = cleanup_decision(
                dry_run,
                yes,
                namespace_scoped,
                orphan_count as nat,
                dangling_relationship_count as nat,
                foreign_key_violation_count as nat,
            );
            match r {
                Ok(step) => d == Ok::<CleanupStep, Seq<char>>(step),
                Err(AppError::Validation(m)) => d == Err::<CleanupStep, Seq<char>>(m@),
                Err(AppError::NotFound(_)) => false,
                Err(AppError::DbBusy(_)) => false,
            }
        }),
{
    if dry_run {
        return Ok(CleanupStep::Preview);
    }
    let total = orphan_count + dangling_relationship_count + foreign_key_violation_count;
    if total > 0 && !yes {
        let mut m = String::new();
        m.append("refusing to delete ");
        m.append(decimal_string(total).as_str());
        m.append(" orphaned rows without --yes; rerun with --yes, or preview with --dry-run");
        return Err(AppError::Validation(m));
    }
    Ok(CleanupStep::Repair { repair_foreign_keys: !namespace_scoped })
}

/// The report of a run: a preview (`repair` absent) deletes nothing and its
/// remaining violations are the first measurement; a repair reports what its
/// deletes removed and what the second measurement found.
pub open spec fn cleanup_report(
    orphan_count: usize,
    dangling_relationship_count: usize,
    foreign_key_violation_count: usize,
    repair: Option<RepairOutcome>,
    namespace: Option<String>,
    elapsed_ms: u64,
) -> CleanupResponse {
    CleanupResponse {
        orphan_count,
        deleted: match repair {
            Some(o) => o.entities_removed,
            None => 0,
        },
        dangling_relationship_count,
        dangling_relationships_deleted: match repair {
            Some(o) => o.edges_removed,
            None => 0,
        },
        foreign_key_violation_count,
        foreign_key_violations_remaining: match repair {
            Some(o) => o.violations_remaining,
            None => foreign_key_violation_count,
        },
        dry_run: repair is None,
        namespace,
        elapsed_ms,
    }
}

/// Assembles the report of a run from its measurements and, for a repair,
/// what the deletes reported.
pub fn cleanup_response(
    orphan_count: usize,
    dangling_relationship_count: usize,
    foreign_key_violation_count: usize,
    repair: Option<RepairOutcome>,
    namespace: Option<String>,
    elapsed_ms: u64,
) -> (r: CleanupResponse)
    ensures
        r == cleanup_report(
            orphan_count,
            dangling_relationship_count,
            foreign_key_violation_count,
            repair,
            namespace,
            elapsed_ms,
        ),
{
    let (deleted, dangling_relationships_deleted, foreign_key_violations_remaining) = match repair {
        Some(o) => (o.entities_removed, o.edges_removed, o.violations_remaining),
        None => (0, 0, foreign_key_violation_count),
    };
    CleanupResponse {
        orphan_count,
        deleted,
        dangling_relationship_count,
        dangling_relationships_deleted,
        foreign_key_violation_count,
        foreign_key_violations_remaining,
        dry_run: repair.is_none(),
        namespace,
        elapsed_ms,
    }
}

/// The one-line text report.
pub open spec fn cleanup_text(r: CleanupResponse) -> Seq<char> {
    "orphans: "@ + decimal(r.orphan_count as nat) + " entities found, "@ + decimal(
        r.deleted as nat,
    ) + " deleted; "@ + decimal(r.dangling_relationship_count as nat)
        + " dangling relationships found, "@ + decimal(r.dangling_relationships_deleted as nat)
        + " deleted; "@ + decimal(r.foreign_key_violation_count as nat)
        + " foreign key violations found, "@ + decimal(r.foreign_key_violations_remaining as nat)
        + " still remaining (dry_run="@ + bool_text(r.dry_run) + ") ["@ + match r.namespace {
        Some(ns) => ns@,
        None => "<all>"@,
    } + "]"@
}

impl CleanupResponse {
    /// The report as one line of text.
    pub fn to_text(&self) -> (r: String)
        ensures
            r@ == cleanup_text(*self),
    {
        let mut s = String::new();
        s.append("orphans: ");
        s.append(decimal_string(self.orphan_count).as_str());
        s.append(" entities found, ");
        s.append(decimal_string(self.deleted).as_str());
        s.append(" deleted; ");
        s.append(decimal_string(self.dangling_relationship_count).as_str());
        s.append(" dangling relationships found, ");
        s.append(decimal_string(self.dangling_relationships_deleted).as_str());
        s.append(" deleted; ");
        s.append(decimal_string(self.foreign_key_violation_count).as_str());
        s.append(" foreign key violations found, ");
        s.append(decimal_string(self.foreign_key_violations_remaining).as_str());
        s.append(" still remaining (dry_run=");
        push_bool(&mut s, self.dry_run);
        s.append(") [");
        match &self.namespace {
            Some(ns) => s.append(ns.as_str()),
            None => s.append("<all>"),
        }
        s.append("]");
        s
    }
}

/// A preview changes nothing: whatever was measured, a `--dry-run` run is a
/// preview, and its report deletes nothing and finds every foreign key
/// violation still in place.
pub proof fn lemma_preview_deletes_nothing(
    yes: bool,
    namespace: Option<String>,
    orphans: usize,
    dangling: usize,
    violations: usize,
    elapsed_ms: u64,
)
    ensures
        cleanup_decision(true, yes, namespace is Some, orphans as nat, dangling as nat, violations as nat)
            == Ok::<CleanupStep, Seq<char>>(CleanupStep::Preview),
        ({
            let r = cleanup_report(orphans, dangling, violations, None, namespace, elapsed_ms);
            &&& r.dry_run
            &&& r.deleted == 0
            &&& r.dangling_relationships_deleted == 0
            &&& r.foreign_key_violations_remaining == r.foreign_key_violation_count
        }),
{
}

/// A run that deletes is never refused for want of `--yes` when there is
/// nothing to delete, and is always refused without it when there is; a
/// namespaced repair never touches the whole-file foreign key violations.
pub proof fn lemma_yes_guards_every_delete(
    yes: bool,
    namespace_scoped: bool,
    orphans: nat,
    dangling: nat,
    violations: nat,
)
    ensures
        cleanup_decision(false, yes, namespace_scoped, orphans, dangling, violations) is Err
            <==> (orphans + dangling + violations > 0 && !yes),
        cleanup_decision(false, yes, namespace_scoped, orphans, dangling, violations) matches Ok(
            CleanupStep::Repair { repair_foreign_keys },
        ) ==> repair_foreign_keys == !namespace_scoped,
{
}

} // verus!
