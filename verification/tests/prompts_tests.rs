use sqlite_graphrag::prompts::{
    entity_description_domain_section, entity_description_user_text,
    entity_type_validate_user_text, resolve_entity_description_domain,
};

#[test]
fn domain_section_empty_for_auto() {
    assert!(entity_description_domain_section("auto").is_empty());
    assert!(entity_description_domain_section("none").is_empty());
    assert!(entity_description_domain_section("").is_empty());
}

#[test]
fn domain_section_includes_label() {
    let s = entity_description_domain_section("fiscal");
    assert!(s.contains("fiscal"));
    assert!(s.contains("Operator domain hint"));
}

#[test]
fn the_user_text_carries_the_evidence() {
    let text = entity_type_validate_user_text(
        "rd_gs",
        "concept",
        Some("prefix of the generated folders"),
        "Linked memory bodies:\nrd_gs marks the generated tree",
    );
    assert!(text.contains("rd_gs"), "entity name must survive: {text}");
    assert!(
        text.contains("concept"),
        "current type must survive: {text}"
    );
    assert!(
        text.contains("prefix of the generated folders"),
        "stored description must reach the model: {text}"
    );
    assert!(
        text.contains("rd_gs marks the generated tree"),
        "corpus evidence must reach the model: {text}"
    );
}

#[test]
fn an_absent_description_leaves_no_empty_heading() {
    for missing in [None, Some(""), Some("   ")] {
        let text = entity_type_validate_user_text("x", "concept", missing, "");
        assert!(
            !text.contains("Stored description:"),
            "empty description must not print a heading: {text:?}"
        );
        assert!(
            !text.contains("Evidence"),
            "empty evidence must not print a heading: {text:?}"
        );
    }
}

#[test]
fn the_description_prompt_puts_name_type_domain_and_corpus_in_order() {
    assert_eq!(
        entity_description_user_text("tokio", "tool", "D\n", "C"),
        "Entity name: tokio\nEntity type: tool\n\nD\nC"
    );
}

#[test]
fn the_flag_domain_wins_unless_it_says_auto() {
    assert_eq!(resolve_entity_description_domain(" fiscal ", Some("legal")), "fiscal");
    assert_eq!(resolve_entity_description_domain("AUTO", Some("legal")), "legal");
    assert_eq!(resolve_entity_description_domain("", Some("   ")), "auto");
    assert_eq!(resolve_entity_description_domain("", None), "auto");
}
