use sqlite_graphrag::operations::{
    enrich_operation_cli_name, item_type_for, item_type_for_key, resolve_drain_parallelism,
    EnrichOperation,
};
use sqlite_graphrag::queue::{enqueue_check, enqueue_priority_entity_descriptions, EnqueueCheck};
use sqlite_graphrag::type_validation::should_abstain_from_type_judgement;

#[test]
fn enrich_operation_cli_name_pair_ops_are_kebab_case() {
    assert_eq!(
        enrich_operation_cli_name(&EnrichOperation::EntityConnect),
        "entity-connect"
    );
    assert_eq!(
        enrich_operation_cli_name(&EnrichOperation::CrossDomainBridges),
        "cross-domain-bridges"
    );
    assert_eq!(
        enrich_operation_cli_name(&EnrichOperation::EntityDescriptions),
        "entity-descriptions"
    );
}

#[test]
fn item_type_for_key_honours_reembed_prefixes() {
    assert_eq!(item_type_for_key("plain-memory-name", "memory"), "memory");
    assert_eq!(
        item_type_for_key("entity:tokio-runtime", "memory"),
        "entity"
    );
    assert_eq!(item_type_for_key("chunk:42", "memory"), "chunk");
    assert_eq!(item_type_for_key("some-entity", "entity"), "entity");
    assert_eq!(item_type_for_key("pair:1:2", "memory"), "entity_pair");
}

#[test]
fn item_type_for_maps_entity_and_memory() {
    assert_eq!(
        item_type_for(&EnrichOperation::EntityDescriptions),
        "entity"
    );
    assert_eq!(item_type_for(&EnrichOperation::MemoryBindings), "memory");
    assert_eq!(item_type_for(&EnrichOperation::AugmentBindings), "memory");
    assert_eq!(item_type_for(&EnrichOperation::BodyExtract), "memory");
    assert_eq!(
        item_type_for(&EnrichOperation::EntityConnect),
        "entity_pair"
    );
    assert_eq!(
        item_type_for(&EnrichOperation::CrossDomainBridges),
        "entity_pair"
    );
}

#[test]
fn an_entity_with_neither_description_nor_corpus_is_refused() {
    assert!(should_abstain_from_type_judgement("", "", 40));
    assert!(should_abstain_from_type_judgement("   ", "  \n ", 40));
}

#[test]
fn a_description_alone_is_enough_to_proceed() {
    assert!(!should_abstain_from_type_judgement(
        "prefix of the generated folders",
        "",
        40
    ));
}

#[test]
fn corpus_alone_is_enough_to_proceed() {
    let corpus = "Linked memory bodies:\nrd_gs marks the tree generated by the exporter";
    assert!(!should_abstain_from_type_judgement("", corpus, 40));
}

#[test]
fn a_corpus_below_the_threshold_does_not_count_as_evidence() {
    assert!(should_abstain_from_type_judgement("", "two words", 40));
    assert!(!should_abstain_from_type_judgement("", "two words", 4));
}

#[test]
fn rest_concurrency_sizes_the_drain_and_llm_parallelism_is_inert() {
    let plan = resolve_drain_parallelism(3, None);
    assert_eq!(plan.parallelism, 3);
    assert!(plan.parallel);
    assert!(!plan.warn_llm_parallelism_inert);
    let plan = resolve_drain_parallelism(3, Some(16));
    assert_eq!(plan.parallelism, 3);
    assert!(plan.warn_llm_parallelism_inert);
    assert_eq!(resolve_drain_parallelism(0, None).parallelism, 1);
    assert!(!resolve_drain_parallelism(0, None).parallel);
    assert_eq!(resolve_drain_parallelism(99, None).parallelism, 16);
}

#[test]
fn priority_descriptions_queue_one_hot_row_per_entity() {
    let names = vec!["tokio".to_string(), "serde".to_string()];
    let rows = enqueue_priority_entity_descriptions("global", &names);
    assert_eq!(rows.len(), 2);
    assert_eq!(rows[0].item_key, "tokio");
    assert_eq!(rows[1].item_key, "serde");
    for r in &rows {
        assert_eq!(r.item_type, "entity");
        assert_eq!(r.operation, "EntityDescriptions");
        assert_eq!(r.priority, 100);
    }
    assert!(enqueue_priority_entity_descriptions("global", &Vec::new()).is_empty());
}

#[test]
fn scanned_keys_are_checked_by_their_item_type() {
    assert_eq!(
        enqueue_check("notes-2024", "memory"),
        EnqueueCheck::Memory { name: "notes-2024".to_string() }
    );
    assert_eq!(
        enqueue_check("entity:tokio-runtime", "entity"),
        EnqueueCheck::Entity { name: "tokio-runtime".to_string() }
    );
    assert_eq!(
        enqueue_check("tokio-runtime", "entity"),
        EnqueueCheck::Entity { name: "tokio-runtime".to_string() }
    );
    assert_eq!(enqueue_check("chunk:42", "chunk"), EnqueueCheck::Chunk { id: 42 });
    assert_eq!(enqueue_check("chunk:x1", "chunk"), EnqueueCheck::InvalidChunk);
    assert_eq!(enqueue_check("pair:1:2", "entity_pair"), EnqueueCheck::Trusted);
}

#[test]
fn the_preflight_needs_an_api_key() {
    assert!(sqlite_graphrag::operations::openrouter_preflight(true).is_ok());
    assert_eq!(
        sqlite_graphrag::operations::openrouter_preflight(false).unwrap_err().to_message(),
        "no OpenRouter API key: store one with `config add-key --provider openrouter --from-stdin` or pass --openrouter-api-key"
    );
}
