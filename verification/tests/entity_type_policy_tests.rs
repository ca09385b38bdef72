use sqlite_graphrag::entity_type::{canonical_entity_type_list, DEFAULT_ENTITY_TYPE};
use sqlite_graphrag::type_policy::{
    count_type_signals, parse_vocabulary, raw_label_note, unknown_type_policies, EntityTypePolicy,
    PolicyOutcome, PolicySource, UnknownTypePolicy,
};

const RAW_LABEL_MARKER: &str = "[entity-type-fallback]";

fn with(allowed: &[String], policy: UnknownTypePolicy) -> EntityTypePolicy {
    EntityTypePolicy {
        allowed: allowed.to_vec(),
        allowed_source: PolicySource::Flag,
        policy,
        policy_source: PolicySource::Flag,
    }
}

fn labels(v: &[&str]) -> Vec<String> {
    v.iter().map(|s| (*s).to_string()).collect()
}

#[test]
fn the_compiled_default_keeps_an_unknown_label() {
    let policy = EntityTypePolicy::compiled_default();
    assert_eq!(policy.policy, UnknownTypePolicy::Keep);
    assert_eq!(policy.policy_source, PolicySource::Default);
    assert_eq!(
        policy.apply("crate"),
        PolicyOutcome::Accept("crate".to_string())
    );
}

#[test]
fn a_canonical_label_is_accepted_under_every_policy() {
    for chosen in [
        UnknownTypePolicy::Keep,
        UnknownTypePolicy::Fallback,
        UnknownTypePolicy::Strict,
    ] {
        let policy = with(&canonical_entity_type_list(), chosen);
        assert_eq!(
            policy.apply("person"),
            PolicyOutcome::Accept("person".to_string())
        );
    }
}

#[test]
fn strict_refuses_a_label_outside_the_vocabulary() {
    let policy = with(&labels(&["person", "project"]), UnknownTypePolicy::Strict);
    let PolicyOutcome::Refuse(message) = policy.apply("crate") else {
        panic!("strict must refuse an unknown label");
    };
    assert!(message.contains("crate"), "message must name the label");
    assert!(
        message.contains("person, project"),
        "message must name the accepted vocabulary"
    );
}

#[test]
fn fallback_maps_to_the_nearest_accepted_label_and_keeps_the_raw_one() {
    let policy = with(&labels(&["organization", "person"]), UnknownTypePolicy::Fallback);
    assert_eq!(
        policy.apply("persona"),
        PolicyOutcome::Fallback {
            applied: "person".to_string(),
            raw: "persona".to_string(),
        }
    );
}

#[test]
fn fallback_lands_on_the_default_when_nothing_is_near() {
    let policy = with(&canonical_entity_type_list(), UnknownTypePolicy::Fallback);
    assert_eq!(
        policy.apply("xyzzy"),
        PolicyOutcome::Fallback {
            applied: DEFAULT_ENTITY_TYPE.to_string(),
            raw: "xyzzy".to_string(),
        }
    );
}

#[test]
fn a_vocabulary_is_normalised_sorted_and_deduplicated() {
    let parsed = parse_vocabulary(" Person , issue-tracker ,person, 42 ,, ")
        .expect("a non-empty vocabulary must parse");
    assert_eq!(parsed, vec!["issue_tracker", "person"]);
}

#[test]
fn an_empty_declaration_does_not_install_an_empty_vocabulary() {
    assert!(parse_vocabulary("").is_none());
    assert!(parse_vocabulary(" , , ").is_none());
}

#[test]
fn the_flag_wins_over_every_other_layer() {
    let resolved = EntityTypePolicy::resolve(
        &vec!["crate".to_string(), "gap".to_string()],
        Some("strict"),
        "",
        "",
    );
    assert_eq!(resolved.allowed, vec!["crate", "gap"]);
    assert_eq!(resolved.allowed_source, PolicySource::Flag);
    assert_eq!(resolved.policy, UnknownTypePolicy::Strict);
    assert_eq!(resolved.policy_source, PolicySource::Flag);
}

#[test]
fn signals_count_the_description_and_every_evidence_line() {
    let evidence =
        "Linked memory bodies:\n- one\n- two\n\nTyped relations in the graph:\n- three";
    assert_eq!(count_type_signals("a description", evidence), 4);
    assert_eq!(count_type_signals("", evidence), 3);
    assert_eq!(count_type_signals("   ", "  \n "), 0);
}

#[test]
fn the_raw_label_note_names_both_labels() {
    let note = raw_label_note("persona", "person");
    assert!(note.contains("persona"));
    assert!(note.contains("person"));
    assert!(note.contains(RAW_LABEL_MARKER));
}

#[test]
fn every_advertised_policy_name_parses() {
    for name in unknown_type_policies() {
        let parsed = UnknownTypePolicy::parse(name).expect("advertised name must parse");
        assert_eq!(parsed.as_str(), name);
    }
    assert!(UnknownTypePolicy::parse("maybe").is_none());
}

#[test]
fn stored_settings_apply_when_no_flag_is_given() {
    let resolved = EntityTypePolicy::resolve(&Vec::new(), None, "tool, person", "fallback");
    assert_eq!(resolved.allowed, vec!["person", "tool"]);
    assert_eq!(resolved.allowed_source, PolicySource::Xdg);
    assert_eq!(resolved.policy, UnknownTypePolicy::Fallback);
    assert_eq!(resolved.policy_source, PolicySource::Xdg);
    let unset = EntityTypePolicy::resolve(&Vec::new(), None, "", "");
    assert_eq!(unset.allowed_source, PolicySource::Default);
    assert_eq!(unset.policy, UnknownTypePolicy::Keep);
}

#[test]
fn policy_names_parse_in_any_case() {
    assert_eq!(UnknownTypePolicy::parse("KEEP"), Some(UnknownTypePolicy::Keep));
    assert_eq!(UnknownTypePolicy::parse(" Strict "), Some(UnknownTypePolicy::Strict));
}

#[test]
fn nearest_picks_the_most_similar_label() {
    let policy = with(&labels(&["organization", "person", "project"]), UnknownTypePolicy::Fallback);
    assert_eq!(policy.nearest("projects"), "project");
    // Nothing is near and the default is not accepted: the first label wins.
    assert_eq!(policy.nearest("qqqqqq"), "organization");
    let canonical = with(&canonical_entity_type_list(), UnknownTypePolicy::Fallback);
    assert_eq!(canonical.nearest("qqqqqq"), DEFAULT_ENTITY_TYPE);
}

#[test]
fn the_raw_label_note_is_exact() {
    assert_eq!(
        raw_label_note("persona", "person"),
        "[entity-type-fallback] raw entity type 'persona' rewritten to 'person'"
    );
}
