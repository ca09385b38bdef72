use sqlite_graphrag::prompts::edge_endpoints_section;
use sqlite_graphrag::type_policy::{EntityTypePolicy, PolicySource, UnknownTypePolicy};
use sqlite_graphrag::type_validation::{
    corpus_is_sufficient, decide_type_validation, SkipReason, SuggestedType, TypeValidationAction,
    TypeValidationReply,
};

fn policy(allowed: &[&str], p: UnknownTypePolicy) -> EntityTypePolicy {
    EntityTypePolicy {
        allowed: allowed.iter().map(|s| s.to_string()).collect(),
        allowed_source: PolicySource::Flag,
        policy: p,
        policy_source: PolicySource::Flag,
    }
}

fn reply(sufficient: Option<bool>, correct: Option<bool>, t: SuggestedType) -> TypeValidationReply {
    TypeValidationReply { sufficient_evidence: sufficient, was_correct: correct, validated_type: t }
}

#[test]
fn the_endpoints_section_omits_blank_descriptions() {
    assert_eq!(
        edge_endpoints_section("rd_gs", Some(" generated tree "), "v017", Some("  ")),
        "Source entity: rd_gs\nSource description: generated tree\nTarget entity: v017\n"
    );
    assert_eq!(
        edge_endpoints_section("a", None, "b", Some("x")),
        "Source entity: a\nTarget entity: b\nTarget description: x\n"
    );
}

#[test]
fn the_corpus_threshold_counts_trimmed_characters() {
    assert!(corpus_is_sufficient("  abcd  ", 4));
    assert!(!corpus_is_sufficient("  abc  ", 4));
}

#[test]
fn abstentions_and_confirmations_write_nothing() {
    let p = policy(&["person", "tool"], UnknownTypePolicy::Keep);
    let evidence = "  linked body  ";
    let a = decide_type_validation(&p, "x", "tool", None, evidence,
        &reply(Some(false), Some(false), SuggestedType::Text("person".to_string())));
    assert!(matches!(a, TypeValidationAction::Skip(SkipReason::ModelAbstained { evidence_chars: 11 })));
    let c = decide_type_validation(&p, "x", "tool", None, evidence,
        &reply(None, None, SuggestedType::Text("person".to_string())));
    assert!(matches!(c, TypeValidationAction::Skip(SkipReason::Confirmed { ref current_type }) if current_type == "tool"));
    let n = decide_type_validation(&p, "x", "tool", None, evidence,
        &reply(None, Some(false), SuggestedType::Null));
    assert!(matches!(n, TypeValidationAction::Skip(SkipReason::ModelAbstained { .. })));
    let same = decide_type_validation(&p, "x", "tool", None, evidence,
        &reply(None, Some(false), SuggestedType::Text(" TOOL ".to_string())));
    assert!(matches!(same, TypeValidationAction::Skip(SkipReason::Confirmed { .. })));
    let bad = decide_type_validation(&p, "x", "tool", None, evidence,
        &reply(None, Some(false), SuggestedType::Text("42".to_string())));
    assert!(matches!(bad, TypeValidationAction::Skip(SkipReason::SuggestionUnusable { ref suggested }) if suggested == "42"));
}

#[test]
fn a_real_change_is_written_under_the_policy() {
    let keep = policy(&["person", "tool"], UnknownTypePolicy::Keep);
    let w = decide_type_validation(&keep, "x", "tool", Some("desc"), "one\ntwo",
        &reply(Some(true), Some(false), SuggestedType::Text("Issue Tracker".to_string())));
    let TypeValidationAction::Write { label, note, event } = w else {
        panic!("keep writes the label");
    };
    assert_eq!(label, "issue_tracker");
    assert!(note.is_none());
    assert_eq!(event.raw_type, "issue_tracker");
    assert_eq!(event.signals, 3);
    assert!(!event.accepted);

    let fallback = policy(&["organization", "person"], UnknownTypePolicy::Fallback);
    let f = decide_type_validation(&fallback, "x", "tool", None, "",
        &reply(None, Some(false), SuggestedType::Text("persona".to_string())));
    let TypeValidationAction::Write { label, note, .. } = f else {
        panic!("fallback writes the nearest label");
    };
    assert_eq!(label, "person");
    assert_eq!(
        note.as_deref(),
        Some("[entity-type-fallback] raw entity type 'persona' rewritten to 'person'")
    );

    let strict = policy(&["person"], UnknownTypePolicy::Strict);
    let s = decide_type_validation(&strict, "x", "tool", None, "",
        &reply(None, Some(false), SuggestedType::Text("crate".to_string())));
    assert!(matches!(s, TypeValidationAction::Refuse { ref message, .. } if message.contains("crate")));
}
