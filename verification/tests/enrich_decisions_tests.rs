use sqlite_graphrag::backoff::rate_limit_retry;
use sqlite_graphrag::body_enrich::{
    body_enrich_prompt, body_enrich_step, body_extract_input, body_hash, enriched_body_of,
    graph_extract_gate, restructured_body, BodyEnrichStep,
};
use sqlite_graphrag::description::{
    assemble_evidence, corpus_snippets, after_grounding, choose_description, description_gate, final_description, first_description,
    retry_candidate, CandidateStep, DescriptionVerdict,
};
use sqlite_graphrag::graph_ops::{
    connect_input, connect_relation, parse_i64, reclassified_relation, reclassify_input,
    relationship_id,
};
use sqlite_graphrag::json::Json;

fn json(text: &str) -> Json {
    fn conv(v: &serde_json::Value) -> Json {
        match v {
            serde_json::Value::Null => Json::Null,
            serde_json::Value::Bool(b) => Json::Bool(*b),
            serde_json::Value::Number(n) => Json::Number(n.as_u64()),
            serde_json::Value::String(s) => Json::Str(s.clone()),
            serde_json::Value::Array(a) => Json::Array(a.iter().map(conv).collect()),
            serde_json::Value::Object(m) => {
                Json::Object(m.iter().map(|(k, x)| (k.clone(), conv(x))).collect())
            }
        }
    }
    conv(&serde_json::from_str(text).expect("valid JSON"))
}

#[test]
fn thin_evidence_skips_the_description_request() {
    assert!(description_gate("  a long enough corpus of linked text  ", 10).is_none());
    assert_eq!(
        description_gate("  two words ", 40).as_deref(),
        Some(
            "insufficient_grounding: linked corpus has 9 chars, minimum is 40 \
             (consolidate the entity's variants or bind it to a memory before describing it)"
        )
    );
}

#[test]
fn a_declining_or_null_reply_is_a_skip() {
    let declined = first_description(&json(r#"{"sufficient_evidence": false, "description": "x"}"#), 120);
    assert!(matches!(declined, DescriptionVerdict::Skip(ref r)
        if r == "insufficient_evidence: model declined to describe from 120 chars of linked corpus"));
    let null = first_description(&json(r#"{"description": null}"#), 5);
    assert!(matches!(null, DescriptionVerdict::Skip(_)));
    let blank = first_description(&json(r#"{"description": "   "}"#), 5);
    assert!(matches!(blank, DescriptionVerdict::Skip(ref r) if r == "description returned empty"));
}

#[test]
fn a_reply_without_a_text_description_fails() {
    let missing = first_description(&json(r#"{"other": 1}"#), 5);
    assert!(matches!(missing, DescriptionVerdict::Fail(_)));
    let number = first_description(&json(r#"{"description": 3}"#), 5);
    assert!(matches!(number, DescriptionVerdict::Fail(_)));
    let ok = first_description(&json(r#"{"description": "ICMS rule for NFC-e sequences"}"#), 5);
    assert!(matches!(ok, DescriptionVerdict::Candidate(ref d) if d == "ICMS rule for NFC-e sequences"));
}

#[test]
fn an_ungrounded_candidate_reports_both_lengths() {
    let step = after_grounding("abcdé", false, 12, "prompt");
    assert!(matches!(step, CandidateStep::NotGrounded { chars_before: 12, chars_after: 5 }));
}

#[test]
fn boilerplate_is_retried_once_with_the_stricter_prompt() {
    let step = after_grounding(
        "Foo is a software component in the software project",
        true,
        0,
        "PROMPT",
    );
    let CandidateStep::Retry { prompt } = step else {
        panic!("boilerplate must be retried");
    };
    assert!(prompt.starts_with("PROMPT\n\nCRITICAL: your previous draft was rejected"));
    let keep = after_grounding("OAuth2 token refresh endpoint", true, 0, "PROMPT");
    assert!(matches!(keep, CandidateStep::Keep));
}

#[test]
fn the_retry_replaces_the_draft_only_when_grounded_and_specific() {
    let first = "Foo is a software component in the software project".to_string();
    let better = "OAuth2 token refresh endpoint used by the mobile client".to_string();
    assert_eq!(choose_description(first.clone(), Some(better.clone()), true), better);
    assert_eq!(choose_description(first.clone(), Some(better.clone()), false), first);
    assert_eq!(
        choose_description(first.clone(), Some("A chatbot module that enhances chatbot response quality".to_string()), true),
        first
    );
    assert_eq!(choose_description(first.clone(), None, true), first);
    assert_eq!(retry_candidate(&json(r#"{"description": null}"#)), None);
    assert_eq!(retry_candidate(&json(r#"{"description": "x"}"#)).as_deref(), Some("x"));
}

#[test]
fn boilerplate_that_survives_is_never_stored() {
    let kept = final_description("OAuth2 token refresh endpoint".to_string(), 7);
    assert_eq!(kept.as_deref(), Ok("OAuth2 token refresh endpoint"));
    let refused = final_description("Module that enhances chatbot response quality".to_string(), 7);
    assert_eq!(
        refused.unwrap_err(),
        "quality_post_filter: description still matches low-quality predicate (orig=7 chars, candidate=45 chars)"
    );
}

#[test]
fn the_body_hash_is_the_blake3_hex_digest() {
    assert_eq!(
        body_hash(""),
        "af1349b9f5f9a1a6a0404dea36dcc9499bcb25c9adc112b7cc9a93cae41f3262"
    );
    assert_eq!(body_hash("abc").len(), 64);
    assert_ne!(body_hash("abc"), body_hash("abd"));
}

#[test]
fn an_identical_rewrite_is_skipped_by_hash() {
    let step = body_enrich_step("same body", "same body", true);
    let BodyEnrichStep::Skip(reason) = step else {
        panic!("identical rewrite must be skipped");
    };
    assert_eq!(
        reason,
        format!("enriched body hash matches original (blake3:{}); idempotency skip", body_hash("same body"))
    );
}

#[test]
fn only_a_preserved_longer_rewrite_is_stored() {
    assert!(matches!(
        body_enrich_step("short", "short but longer now", false),
        BodyEnrichStep::NotPreserved { chars_before: 5, chars_after: 20 }
    ));
    let BodyEnrichStep::Skip(reason) = body_enrich_step("a longer body", "shorter", true) else {
        panic!("a shorter rewrite must be skipped");
    };
    assert_eq!(reason, "enriched body (7 chars) not longer than original (13 chars)");
    assert!(matches!(
        body_enrich_step("short", "short but longer now", true),
        BodyEnrichStep::Persist { chars_before: 5, chars_after: 20 }
    ));
}

#[test]
fn the_body_prompt_carries_context_and_targets() {
    let linked = vec!["tokio".to_string(), "serde".to_string()];
    assert_eq!(
        body_enrich_prompt("PREFIX", "notes", "note", "async runtime", "proj", &linked, 500, 2000),
        "PREFIX\nContext:\n- Memory name: notes\n- Type: note\n- Description: async runtime\n\
         - Domain: proj\n- Linked entities: tokio, serde\n\nTarget minimum length: 500 characters. \
         Maximum: 2000 characters."
    );
    assert_eq!(
        body_enrich_prompt("P", "notes", "note", "", "proj", &Vec::new(), 1, 2),
        "P\nTarget minimum length: 1 characters. Maximum: 2 characters."
    );
}

#[test]
fn replies_without_the_expected_fields_are_read_as_the_operations_say() {
    assert_eq!(enriched_body_of(&json(r#"{"enriched_body": "x"}"#)).unwrap(), "x");
    assert!(enriched_body_of(&json(r#"{"body": "x"}"#)).is_err());
    let (text, before, after, hash) = restructured_body(&json(r#"{"other": 1}"#), "orig");
    assert_eq!((text.as_str(), before, after), ("orig", 4, 4));
    assert_eq!(hash, body_hash("orig"));
    let (text, _, after, _) = restructured_body(&json(r#"{"restructured_body": "né"}"#), "orig");
    assert_eq!((text.as_str(), after), ("né", 3));
    assert_eq!(body_extract_input("k", "b"), "Memory: k\nBody:\nb");
    assert_eq!(graph_extract_gate("  \n").as_deref(), Some("body is empty"));
    assert!(graph_extract_gate("x").is_none());
}

#[test]
fn rate_limit_backoff_waits_half_plus_jitter_and_doubles_to_the_ceiling() {
    for _ in 0..50 {
        let (wait, next) = rate_limit_retry(false, false, 60, 900).expect("retry allowed");
        assert!((30..60).contains(&wait), "wait {wait} out of range");
        assert_eq!(next, 120);
    }
    assert_eq!(rate_limit_retry(false, false, 600, 900).map(|r| r.1), Some(900));
    assert_eq!(rate_limit_retry(false, false, 1, 900), Some((0, 2)));
    assert_eq!(rate_limit_retry(true, false, 60, 900), None);
    assert_eq!(rate_limit_retry(false, true, 60, 900), None);
}

#[test]
fn integers_parse_as_the_standard_library_reads_them() {
    assert_eq!(parse_i64("42"), Some(42));
    assert_eq!(parse_i64("+7"), Some(7));
    assert_eq!(parse_i64("-9223372036854775808"), Some(i64::MIN));
    assert_eq!(parse_i64("9223372036854775807"), Some(i64::MAX));
    assert_eq!(parse_i64("9223372036854775808"), None);
    assert_eq!(parse_i64(""), None);
    assert_eq!(parse_i64("-"), None);
    assert_eq!(parse_i64(" 1"), None);
    assert_eq!(parse_i64("1a"), None);
    for s in ["0", "-0", "+12", "123456789012", "-77", "99999999999999999999", "1_0"] {
        assert_eq!(parse_i64(s), s.parse::<i64>().ok(), "disagreement on {s:?}");
    }
}

#[test]
fn graph_operations_read_their_keys_and_replies() {
    assert_eq!(relationship_id("17").unwrap(), 17);
    assert_eq!(
        relationship_id("pair:1:2").unwrap_err().to_message(),
        "invalid relationship id 'pair:1:2'"
    );
    assert_eq!(reclassify_input("E\n", "applies-to"), "E\nCurrent relation: applies-to");
    assert_eq!(connect_input("a", "b"), "Entity A: a\nEntity B: b");
    assert_eq!(connect_relation(&json(r#"{"relation": "none"}"#)), None);
    assert_eq!(connect_relation(&json(r#"{"strength": 0.5}"#)), None);
    assert_eq!(connect_relation(&json(r#"{"relation": "uses"}"#)).as_deref(), Some("uses"));
    assert!(reclassified_relation(&json(r#"{}"#)).is_err());
    assert_eq!(reclassified_relation(&json(r#"{"relation": "depends-on"}"#)).unwrap(), "depends-on");
}

#[test]
fn evidence_joins_trimmed_snippets_and_typed_relations_under_headings() {
    let bodies = vec!["  first body  ".to_string(), "   ".to_string(), "second body text".to_string()];
    let corpus = corpus_snippets(&bodies, 6);
    assert_eq!(corpus, "first \n---\nsecond");
    let edges = "- this entity --uses--> tokio (weight 0.90)";
    assert_eq!(
        assemble_evidence(&corpus, edges),
        "Linked memory bodies:\nfirst \n---\nsecond\n\nTyped relations in the graph:\n- this entity --uses--> tokio (weight 0.90)"
    );
    assert_eq!(assemble_evidence("  ", edges), "Typed relations in the graph:\n- this entity --uses--> tokio (weight 0.90)");
    assert_eq!(assemble_evidence("", "\n"), "");
    let evidence = assemble_evidence(&corpus, edges);
    assert_eq!(
        sqlite_graphrag::type_policy::count_type_signals("", &evidence),
        4
    );
}
