//! The backlog `enrich --status` reports for an operation: which counting
//! statements measure it, sharing each operation's predicate with its
//! scanner.
//!
//! The caller runs the statements, binding `?1` to the namespace and `?2` as
//! each statement says, and sums the counts.
use crate::operations::{EnrichOperation, ReEmbedTarget, DEFAULT_BODY_ENRICH_MIN_CHARS};
use crate::predicates::{
    entity_description_scan_predicate, generic_description_predicate,
    generic_description_predicate_text, generic_relation_predicate, high_weight_predicate,
    is_low_quality, is_low_quality_description, reembed_chunk_predicate, reembed_entity_predicate,
    reembed_memory_predicate, reembed_predicate_text, ENRICH_HIGH_WEIGHT_THRESHOLD,
    GENERIC_RELATION, LOW_QUALITY_DESCRIPTION_PREDICATE, NULL_DESCRIPTION_PREDICATE,
    SHORT_BODY_PREDICATE, UNBOUND_MEMORY_PREDICATE,
};
use crate::text::to_owned;
use vstd::prelude::*;
use vstd::string::*;

verus! {

/// What a counting statement binds besides the namespace (`?1`).
#[derive(Debug, Clone, Copy, PartialEq, Eq, Structural)]
pub enum BacklogBinding {
    /// Nothing else.
    Namespace,
    /// `?2` is the minimum body length of `body-enrich`.
    MinBodyChars(i64),
    /// `?2` is the `--entity-type` filter, `NULL` when absent.
    TypeFilter,
}

/// One counting statement.
#[derive(Debug, Clone)]
pub struct CountQuery {
    /// The SQL text; it selects one `COUNT(*)`.
    pub sql: String,
    /// What it binds.
    pub binding: BacklogBinding,
}

/// How an operation's backlog is measured.
#[derive(Debug, Clone)]
pub enum BacklogPlan {
    /// The operation has no closeable backlog: zero.
    Zero,
    /// The sum of these counts.
    Counts(Vec<CountQuery>),
    /// The number of descriptions this statement returns (binding the
    /// namespace) that [`count_low_quality`] rejects.
    LowQualityDescriptions(String),
}

/// The view of a plan: its kind and its statements.
pub enum PlanView {
    Zero,
    Counts(Seq<(Seq<char>, BacklogBinding)>),
    LowQualityDescriptions(Seq<char>),
}

/// The view of a plan.
pub open spec fn plan_view(p: BacklogPlan) -> PlanView {
    match p {
        BacklogPlan::Zero => PlanView::Zero,
        BacklogPlan::Counts(qs) => PlanView::Counts(
            qs@.map_values(|q: CountQuery| (q.sql@, q.binding)),
        ),
        BacklogPlan::LowQualityDescriptions(sql) => PlanView::LowQualityDescriptions(sql@),
    }
}

/// Memories of the namespace that are not deleted and satisfy `pred`.
pub open spec fn live_memories_count(pred: Seq<char>) -> Seq<char> {
    "SELECT COUNT(*) FROM memories m WHERE m.namespace = ?1 AND m.deleted_at IS NULL AND "@ + pred
}

/// Relationships whose source entity is in the namespace and that satisfy
/// `pred`.
pub open spec fn relationships_count(pred: Seq<char>) -> Seq<char> {
    "SELECT COUNT(*) FROM relationships r JOIN entities e1 ON e1.id = r.source_id WHERE "@ + pred
        + " AND e1.namespace = ?1"@
}

/// The count statements of `re-embed` for `target`, memories, entities and
/// chunks in that order.
pub open spec fn reembed_counts(target: ReEmbedTarget, dim: nat) -> Seq<(Seq<char>, BacklogBinding)> {
    let mem = (
        live_memories_count(
            reembed_predicate_text("memory_embeddings"@, "me"@, "memory_id"@, "m"@, dim),
        ),
        BacklogBinding::Namespace,
    );
    let ent = (
        "SELECT COUNT(*) FROM entities e WHERE e.namespace = ?1 AND "@ + reembed_predicate_text(
            "entity_embeddings"@,
            "ev"@,
            "entity_id"@,
            "e"@,
            dim,
        ),
        BacklogBinding::Namespace,
    );
    let chunk = (
        "SELECT COUNT(*) FROM memory_chunks c LEFT JOIN memories m ON m.id = c.memory_id WHERE (m.namespace = ?1 OR m.id IS NULL) AND "@
            + reembed_predicate_text("chunk_embeddings"@, "ce"@, "chunk_id"@, "c"@, dim),
        BacklogBinding::Namespace,
    );
    (if target == ReEmbedTarget::Memories || target == ReEmbedTarget::All {
        seq![mem]
    } else {
        Seq::empty()
    }) + (if target == ReEmbedTarget::Entities || target == ReEmbedTarget::All {
        seq![ent]
    } else {
        Seq::empty()
    }) + (if target == ReEmbedTarget::Chunks || target == ReEmbedTarget::All {
        seq![chunk]
    } else {
        Seq::empty()
    })
}

/// How each operation's backlog is measured: by the predicate its scanner
/// uses; under `--force-redescribe`, entity descriptions are counted after
/// the same low-quality test the scan applies; advisory and quadratic
/// operations report zero.
pub open spec fn backlog_plan_of(
    op: EnrichOperation,
    target: ReEmbedTarget,
    force_redescribe: bool,
    dim: nat,
) -> PlanView {
    match op {
        EnrichOperation::MemoryBindings => PlanView::Counts(
            seq![(live_memories_count(UNBOUND_MEMORY_PREDICATE@), BacklogBinding::Namespace)],
        ),
        EnrichOperation::EntityDescriptions => if force_redescribe {
            PlanView::LowQualityDescriptions(
                "SELECT COALESCE(description, '') FROM entities WHERE namespace = ?1 AND "@ + (
                "("@ + NULL_DESCRIPTION_PREDICATE@ + " OR "@ + LOW_QUALITY_DESCRIPTION_PREDICATE@
                    + ")"@),
            )
        } else {
            PlanView::Counts(
                seq![
                    (
                        "SELECT COUNT(*) FROM entities WHERE namespace = ?1 AND "@
                            + NULL_DESCRIPTION_PREDICATE@,
                        BacklogBinding::Namespace,
                    ),
                ],
            )
        },
        EnrichOperation::BodyEnrich => PlanView::Counts(
            seq![
                (
                    live_memories_count(SHORT_BODY_PREDICATE@),
                    BacklogBinding::MinBodyChars(DEFAULT_BODY_ENRICH_MIN_CHARS as i64),
                ),
            ],
        ),
        EnrichOperation::ReEmbed => PlanView::Counts(reembed_counts(target, dim)),
        EnrichOperation::WeightCalibrate => PlanView::Counts(
            seq![
                (
                    relationships_count("r.weight >= "@ + ENRICH_HIGH_WEIGHT_THRESHOLD@),
                    BacklogBinding::Namespace,
                ),
            ],
        ),
        EnrichOperation::RelationReclassify => PlanView::Counts(
            seq![
                (
                    relationships_count("r.relation = '"@ + GENERIC_RELATION@ + "'"@),
                    BacklogBinding::Namespace,
                ),
            ],
        ),
        EnrichOperation::EntityTypeValidate => PlanView::Counts(
            seq![
                (
                    "SELECT COUNT(*) FROM entities WHERE namespace = ?1 AND (?2 IS NULL OR type = ?2)"@,
                    BacklogBinding::TypeFilter,
                ),
            ],
        ),
        EnrichOperation::DescriptionEnrich => PlanView::Counts(
            seq![
                (
                    "SELECT COUNT(*) FROM memories WHERE namespace = ?1 AND deleted_at IS NULL AND "@
                        + generic_description_predicate_text(),
                    BacklogBinding::Namespace,
                ),
            ],
        ),
        EnrichOperation::EntityConnect => PlanView::Counts(
            seq![
                (
                    "SELECT COUNT(*) FROM entities e WHERE e.namespace = ?1 AND e.degree = 0 AND EXISTS (SELECT 1 FROM memory_entities me WHERE me.entity_id = e.id)"@,
                    BacklogBinding::Namespace,
                ),
            ],
        ),
        _ => PlanView::Zero,
    }
}

fn count_query(prefix: &str, pred: &str, binding: BacklogBinding) -> (r: CountQuery)
    ensures
        r.sql@ == prefix@ + pred@,
        r.binding == binding,
{
    let mut s = to_owned(prefix);
    s.append(pred);
    CountQuery { sql: s, binding }
}

fn relationship_query(pred: &str) -> (r: CountQuery)
    ensures
        r.sql@ == relationships_count(pred@),
        r.binding == BacklogBinding::Namespace,
{
    let mut s = to_owned("SELECT COUNT(*) FROM relationships r JOIN entities e1 ON e1.id = r.source_id WHERE ");
    s.append(pred);
    s.append(" AND e1.namespace = ?1");
    CountQuery { sql: s, binding: BacklogBinding::Namespace }
}

fn literal_query(sql: &str, binding: BacklogBinding) -> (r: CountQuery)
    ensures
        r.sql@ == sql@,
        r.binding == binding,
{
    CountQuery { sql: to_owned(sql), binding }
}

fn push_query(v: &mut Vec<CountQuery>, q: CountQuery)
    ensures
        final(v)@.map_values(|c: CountQuery| (c.sql@, c.binding)) == old(v)@.map_values(
            |c: CountQuery| (c.sql@, c.binding),
        ).push((q.sql@, q.binding)),
{
    v.push(q);
    assert(v@.map_values(|c: CountQuery| (c.sql@, c.binding)) =~= old(v)@.map_values(
        |c: CountQuery| (c.sql@, c.binding),
    ).push((q.sql@, q.binding)));
}

/// The statements that measure `operation`'s backlog; `dim` is the
/// embedding dimension `re-embed` targets.
pub fn backlog_plan(
    operation: &EnrichOperation,
    reembed_target: ReEmbedTarget,
    force_redescribe: bool,
    dim: usize,
) -> (r: BacklogPlan)
    requires
        dim * 4 <= usize::MAX,
    ensures
        plan_view(r) == backlog_plan_of(*operation, reembed_target, force_redescribe, dim as nat),
{
    let mem_prefix = "SELECT COUNT(*) FROM memories m WHERE m.namespace = ?1 AND m.deleted_at IS NULL AND ";
    let mut qs: Vec<CountQuery> = Vec::new();
    match operation {
        EnrichOperation::MemoryBindings => {
            push_query(
                &mut qs,
                count_query(mem_prefix, UNBOUND_MEMORY_PREDICATE, BacklogBinding::Namespace),
            );
        },
        EnrichOperation::EntityDescriptions => {
            if force_redescribe {
                let pred = entity_description_scan_predicate(true, false);
                let mut s = to_owned(
                    "SELECT COALESCE(description, '') FROM entities WHERE namespace = ?1 AND ",
                );
                s.append(pred.as_str());
                return BacklogPlan::LowQualityDescriptions(s);
            }
            let pred = entity_description_scan_predicate(false, false);
            push_query(
                &mut qs,
                count_query(
                    "SELECT COUNT(*) FROM entities WHERE namespace = ?1 AND ",
                    pred.as_str(),
                    BacklogBinding::Namespace,
                ),
            );
        },
        EnrichOperation::BodyEnrich => {
            push_query(
                &mut qs,
                count_query(
                    mem_prefix,
                    SHORT_BODY_PREDICATE,
                    BacklogBinding::MinBodyChars(DEFAULT_BODY_ENRICH_MIN_CHARS as i64),
                ),
            );
        },
        EnrichOperation::ReEmbed => {
            if reembed_target == ReEmbedTarget::Memories || reembed_target == ReEmbedTarget::All {
                let p = reembed_memory_predicate(dim);
                push_query(
                    &mut qs,
                    count_query(mem_prefix, p.as_str(), BacklogBinding::Namespace),
                );
            }
            let ghost after_mem = qs@.map_values(|c: CountQuery| (c.sql@, c.binding));
            if reembed_target == ReEmbedTarget::Entities || reembed_target == ReEmbedTarget::All {
                let p = reembed_entity_predicate(dim);
                push_query(
                    &mut qs,
                    count_query(
                        "SELECT COUNT(*) FROM entities e WHERE e.namespace = ?1 AND ",
                        p.as_str(),
                        BacklogBinding::Namespace,
                    ),
                );
            }
            let ghost after_ent = qs@.map_values(|c: CountQuery| (c.sql@, c.binding));
            if reembed_target == ReEmbedTarget::Chunks || reembed_target == ReEmbedTarget::All {
                let p = reembed_chunk_predicate(dim);
                push_query(
                    &mut qs,
                    count_query(
                        "SELECT COUNT(*) FROM memory_chunks c LEFT JOIN memories m ON m.id = c.memory_id WHERE (m.namespace = ?1 OR m.id IS NULL) AND ",
                        p.as_str(),
                        BacklogBinding::Namespace,
                    ),
                );
            }
            proof {
                let t = reembed_target;
                let d = dim as nat;
                let mem = (
                    live_memories_count(
                        reembed_predicate_text("memory_embeddings"@, "me"@, "memory_id"@, "m"@, d),
                    ),
                    BacklogBinding::Namespace,
                );
                let ent = (
                    "SELECT COUNT(*) FROM entities e WHERE e.namespace = ?1 AND "@
                        + reembed_predicate_text("entity_embeddings"@, "ev"@, "entity_id"@, "e"@, d),
                    BacklogBinding::Namespace,
                );
                let m_part = if t == ReEmbedTarget::Memories || t == ReEmbedTarget::All {
                    seq![mem]
                } else {
                    Seq::empty()
                };
                let e_part = if t == ReEmbedTarget::Entities || t == ReEmbedTarget::All {
                    seq![ent]
                } else {
                    Seq::empty()
                };
                assert(after_mem =~= m_part);
                assert(after_ent =~= m_part + e_part);
                assert(qs@.map_values(|c: CountQuery| (c.sql@, c.binding)) =~= reembed_counts(t, d));
            }
        },
        EnrichOperation::WeightCalibrate => {
            let p = high_weight_predicate();
            push_query(
                &mut qs,
                relationship_query(p.as_str()),
            );
        },
        EnrichOperation::RelationReclassify => {
            let p = generic_relation_predicate();
            push_query(
                &mut qs,
                relationship_query(p.as_str()),
            );
        },
        EnrichOperation::EntityTypeValidate => {
            push_query(
                &mut qs,
                literal_query(
                    "SELECT COUNT(*) FROM entities WHERE namespace = ?1 AND (?2 IS NULL OR type = ?2)",
                    BacklogBinding::TypeFilter,
                ),
            );
        },
        EnrichOperation::DescriptionEnrich => {
            let p = generic_description_predicate();
            push_query(
                &mut qs,
                count_query(
                    "SELECT COUNT(*) FROM memories WHERE namespace = ?1 AND deleted_at IS NULL AND ",
                    p.as_str(),
                    BacklogBinding::Namespace,
                ),
            );
        },
        EnrichOperation::EntityConnect => {
            push_query(
                &mut qs,
                literal_query(
                    "SELECT COUNT(*) FROM entities e WHERE e.namespace = ?1 AND e.degree = 0 AND EXISTS (SELECT 1 FROM memory_entities me WHERE me.entity_id = e.id)",
                    BacklogBinding::Namespace,
                ),
            );
        },
        _ => {
            return BacklogPlan::Zero;
        },
    }
    proof {
        let expected = backlog_plan_of(*operation, reembed_target, force_redescribe, dim as nat);
        if let PlanView::Counts(e) = expected {
            assert(qs@.map_values(|c: CountQuery| (c.sql@, c.binding)) =~= e);
        }
    }
    BacklogPlan::Counts(qs)
}

/// The number of descriptions in `descs` that are blank or boilerplate.
pub open spec fn low_quality_count(descs: Seq<Seq<char>>) -> nat
    decreases descs.len(),
{
    if descs.len() == 0 {
        0
    } else {
        low_quality_count(descs.drop_last()) + if is_low_quality(descs.last()) {
            1nat
        } else {
            0nat
        }
    }
}

proof fn lemma_low_quality_count_bounded(descs: Seq<Seq<char>>)
    ensures
        low_quality_count(descs) <= descs.len(),
    decreases descs.len(),
{
    if descs.len() > 0 {
        lemma_low_quality_count_bounded(descs.drop_last());
    }
}

/// Counts the descriptions a forced re-description would rewrite.
pub fn count_low_quality(descs: &Vec<String>) -> (r: usize)
    ensures
        r == low_quality_count(crate::text::views(descs@)),
{
    let ghost dv = crate::text::views(descs@);
    let mut n: usize = 0;
    let mut i: usize = 0;
    assert(dv.subrange(0, 0) =~= Seq::<Seq<char>>::empty());
    while i < descs.len()
        invariant
            i <= descs.len(),
            dv == crate::text::views(descs@),
            n == low_quality_count(dv.subrange(0, i as int)),
        decreases descs.len() - i,
    {
        let ghost pre = dv.subrange(0, (i + 1) as int);
        assert(pre.drop_last() =~= dv.subrange(0, i as int));
        proof {
            lemma_low_quality_count_bounded(dv.subrange(0, i as int));
        }
        if is_low_quality_description(descs[i].as_str()) {
            n = n + 1;
        }
        i = i + 1;
    }
    assert(dv.subrange(0, descs@.len() as int) =~= dv);
    n
}

/// The operations whose backlog is always zero whatever the database holds:
/// nothing closes them for good, so they report no backlog.
pub open spec fn has_no_backlog(op: EnrichOperation) -> bool {
    ||| op == EnrichOperation::AugmentBindings
    ||| op == EnrichOperation::CrossDomainBridges
    ||| op == EnrichOperation::DomainClassify
    ||| op == EnrichOperation::GraphAudit
    ||| op == EnrichOperation::DeepResearchSynth
    ||| op == EnrichOperation::BodyExtract
}

/// The backlog law: those operations are measured as zero without a query,
/// every other one by at least one statement; and `entity-type-validate`
/// counts the entities of the namespace, narrowed to the `--entity-type`
/// filter when one is given.
pub proof fn lemma_backlog_plan_kinds(
    op: EnrichOperation,
    target: ReEmbedTarget,
    force_redescribe: bool,
    dim: nat,
)
    ensures
        has_no_backlog(op) <==> backlog_plan_of(op, target, force_redescribe, dim) == PlanView::Zero,
        op == EnrichOperation::EntityTypeValidate ==> backlog_plan_of(
            op,
            target,
            force_redescribe,
            dim,
        ) == PlanView::Counts(
            seq![
                (
                    "SELECT COUNT(*) FROM entities WHERE namespace = ?1 AND (?2 IS NULL OR type = ?2)"@,
                    BacklogBinding::TypeFilter,
                ),
            ],
        ),
{
}

} // verus!
