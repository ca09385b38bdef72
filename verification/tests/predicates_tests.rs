use sqlite_graphrag::predicates::{
    entity_description_scan_predicate, generic_description_predicate, generic_relation_predicate,
    high_weight_predicate, is_low_quality_description, reembed_chunk_predicate,
    reembed_entity_predicate, reembed_memory_predicate, ENRICH_GENERIC_DESCRIPTION_MAX_CHARS,
    ENRICH_HIGH_WEIGHT_THRESHOLD,
};

#[test]
fn boilerplate_software_component_is_low_quality() {
    assert!(is_low_quality_description(
        "Foo is a software component in the software project"
    ));
}

#[test]
fn legitimate_architecture_decision_is_not_low_quality() {
    assert!(!is_low_quality_description(
        "software architecture decision for auth"
    ));
}

#[test]
fn software_development_process_is_not_low_quality() {
    assert!(!is_low_quality_description(
        "Documents the software development process for the billing team"
    ));
}

#[test]
fn empty_description_is_low_quality() {
    assert!(is_low_quality_description(""));
    assert!(is_low_quality_description("   "));
}

#[test]
fn chatbot_boilerplate_is_low_quality() {
    assert!(is_low_quality_description(
        "Module that enhances chatbot response quality"
    ));
}

#[test]
fn configuration_file_boilerplate_is_low_quality() {
    assert!(is_low_quality_description(
        "Foo is a configuration file used by the build system"
    ));
    assert!(is_low_quality_description(
        "Bar is a configuration file in the software project"
    ));
    assert!(is_low_quality_description(
        "A generic configuration file placeholder"
    ));
}

#[test]
fn legitimate_configuration_file_prose_is_not_low_quality() {
    assert!(!is_low_quality_description(
        "clippy-toml is a Rust lint configuration file that shapes code quality standards and design consistency"
    ));
    assert!(!is_low_quality_description(
        "TOML configuration file for Clippy lints in this workspace"
    ));
}

#[test]
fn high_weight_predicate_uses_constant_threshold() {
    let sql = high_weight_predicate();
    assert!(
        sql.contains(&format!("r.weight >= {}", ENRICH_HIGH_WEIGHT_THRESHOLD)),
        "predicate must be built from the constant: {sql}"
    );
}

#[test]
fn generic_description_predicate_uses_constant_cutoff() {
    let sql = generic_description_predicate();
    assert!(sql.contains(&format!(
        "length(description) < {}",
        ENRICH_GENERIC_DESCRIPTION_MAX_CHARS
    )));
}

#[test]
fn specific_domain_prose_is_not_low_quality() {
    assert!(!is_low_quality_description(
        "OAuth2 token refresh endpoint used by the mobile client"
    ));
}

#[test]
fn quality_post_filter_rejects_boilerplate_done_candidates() {
    let bad = "Foo is a software component in the software project";
    assert!(is_low_quality_description(bad));
    let good = "ICMS P05 rule for NFC-e ordered invoice sequences in Brazilian state tax";
    assert!(!is_low_quality_description(good));
}

#[test]
fn reembed_predicates_compare_blob_length_in_bytes() {
    assert_eq!(
        reembed_memory_predicate(384),
        "NOT EXISTS (SELECT 1 FROM memory_embeddings me WHERE me.memory_id = m.id AND LENGTH(me.embedding) = 1536)"
    );
    assert_eq!(
        reembed_entity_predicate(1024),
        "NOT EXISTS (SELECT 1 FROM entity_embeddings ev WHERE ev.entity_id = e.id AND LENGTH(ev.embedding) = 4096)"
    );
    assert_eq!(
        reembed_chunk_predicate(0),
        "NOT EXISTS (SELECT 1 FROM chunk_embeddings ce WHERE ce.chunk_id = c.id AND LENGTH(ce.embedding) = 0)"
    );
}

#[test]
fn a_named_forced_redescribe_selects_everything() {
    assert_eq!(entity_description_scan_predicate(true, true), "1=1");
    assert_ne!(entity_description_scan_predicate(true, false), "1=1");
    assert_eq!(generic_relation_predicate(), "r.relation = 'applies-to'");
}
