use sqlite_graphrag::backlog::{backlog_plan, count_low_quality, BacklogBinding, BacklogPlan};
use sqlite_graphrag::operations::{EnrichOperation, ReEmbedTarget};

fn counts(plan: BacklogPlan) -> Vec<(String, BacklogBinding)> {
    match plan {
        BacklogPlan::Counts(qs) => qs.into_iter().map(|q| (q.sql, q.binding)).collect(),
        other => panic!("expected counts, got {other:?}"),
    }
}

#[test]
fn every_operation_counts_with_its_scanner_predicate() {
    assert_eq!(
        counts(backlog_plan(&EnrichOperation::MemoryBindings, ReEmbedTarget::Memories, false, 384)),
        vec![(
            "SELECT COUNT(*) FROM memories m WHERE m.namespace = ?1 AND m.deleted_at IS NULL AND \
             NOT EXISTS (SELECT 1 FROM memory_entities me WHERE me.memory_id = m.id)"
                .to_string(),
            BacklogBinding::Namespace
        )]
    );
    assert_eq!(
        counts(backlog_plan(&EnrichOperation::BodyEnrich, ReEmbedTarget::Memories, false, 384)),
        vec![(
            "SELECT COUNT(*) FROM memories m WHERE m.namespace = ?1 AND m.deleted_at IS NULL AND \
             LENGTH(COALESCE(m.body,'')) < ?2"
                .to_string(),
            BacklogBinding::MinBodyChars(500)
        )]
    );
    assert_eq!(
        counts(backlog_plan(&EnrichOperation::WeightCalibrate, ReEmbedTarget::Memories, false, 384)),
        vec![(
            "SELECT COUNT(*) FROM relationships r JOIN entities e1 ON e1.id = r.source_id WHERE \
             r.weight >= 0.7 AND e1.namespace = ?1"
                .to_string(),
            BacklogBinding::Namespace
        )]
    );
    assert_eq!(
        counts(backlog_plan(&EnrichOperation::EntityTypeValidate, ReEmbedTarget::Memories, false, 384))[0].1,
        BacklogBinding::TypeFilter
    );
    assert_eq!(
        counts(backlog_plan(&EnrichOperation::EntityDescriptions, ReEmbedTarget::Memories, false, 384)),
        vec![(
            "SELECT COUNT(*) FROM entities WHERE namespace = ?1 AND (description IS NULL OR description = '')"
                .to_string(),
            BacklogBinding::Namespace
        )]
    );
}

#[test]
fn reembed_sums_the_selected_targets() {
    let all = counts(backlog_plan(&EnrichOperation::ReEmbed, ReEmbedTarget::All, false, 384));
    assert_eq!(all.len(), 3);
    assert!(all[0].0.contains("memory_embeddings") && all[0].0.ends_with("= 1536)"));
    assert!(all[1].0.contains("entity_embeddings"));
    assert!(all[2].0.starts_with("SELECT COUNT(*) FROM memory_chunks c LEFT JOIN memories m"));
    let chunks = counts(backlog_plan(&EnrichOperation::ReEmbed, ReEmbedTarget::Chunks, false, 384));
    assert_eq!(chunks.len(), 1);
    assert!(chunks[0].0.contains("chunk_embeddings"));
}

#[test]
fn advisory_operations_have_no_backlog_and_forced_descriptions_are_filtered() {
    assert!(matches!(
        backlog_plan(&EnrichOperation::GraphAudit, ReEmbedTarget::Memories, false, 384),
        BacklogPlan::Zero
    ));
    let BacklogPlan::LowQualityDescriptions(sql) =
        backlog_plan(&EnrichOperation::EntityDescriptions, ReEmbedTarget::Memories, true, 384)
    else {
        panic!("forced re-description filters after the scan");
    };
    assert!(sql.starts_with("SELECT COALESCE(description, '') FROM entities WHERE namespace = ?1 AND ((description IS NULL"));
    let descs = vec![
        "".to_string(),
        "Foo is a software component in the software project".to_string(),
        "OAuth2 token refresh endpoint".to_string(),
        "   ".to_string(),
    ];
    assert_eq!(count_low_quality(&descs), 3);
}
