use sqlite_graphrag::json::Json;
use sqlite_graphrag::memory_ops::{
    audit_issue_count, body_preview, classified_domain, description_enrich_input,
    domain_classify_input, domain_metadata, enriched_description, graph_audit_input,
    synth_input, synthesized_entities, synthesized_relationships,
};

fn json(text: &str) -> Json {
    fn conv(v: &serde_json::Value) -> Json {
        match v {
            serde_json::Value::Null => Json::Null,
            serde_json::Value::Bool(b) => Json::Bool(*b),
            serde_json::Value::Number(n) => Json::Number(n.as_u64()),
            serde_json::Value::String(s) => Json::Str(s.clone()),
            serde_json::Value::Array(a) => Json::Array(a.iter().map(conv).collect()),
            serde_json::Value::Object(m) => {
                Json::Object(m.iter().map(|(k, x)| (k.clone(), conv(x))).collect())
            }
        }
    }
    conv(&serde_json::from_str(text).expect("valid JSON"))
}

#[test]
fn a_preview_cuts_at_a_character_count() {
    assert_eq!(body_preview("héllo world", 5), "héllo");
    assert_eq!(body_preview("short", 50), "short");
    assert_eq!(body_preview("", 3), "");
}

#[test]
fn the_model_inputs_name_the_memory() {
    assert_eq!(
        description_enrich_input("m", "old", "body"),
        "Memory name: m\nCurrent description: old\nBody preview: body"
    );
    assert_eq!(
        domain_classify_input("m", "d", "b"),
        "Memory: m\nDescription: d\nBody preview: b"
    );
    assert_eq!(
        graph_audit_input("m", "d", 12, "b"),
        "Memory: m\nDescription: d\nEntity bindings: 12\nBody preview: b"
    );
    assert_eq!(synth_input("m", "b"), "Memory: m\nBody:\nb");
}

#[test]
fn replies_fall_back_to_the_documented_defaults() {
    assert_eq!(enriched_description(&json(r#"{"description":"new"}"#), "old"), "new");
    assert_eq!(enriched_description(&json(r#"{"description":1}"#), "old"), "old");
    assert_eq!(classified_domain(&json(r#"{"domain":"fiscal"}"#)), "fiscal");
    assert_eq!(classified_domain(&json(r#"{}"#)), "uncategorized");
    assert_eq!(audit_issue_count(&json(r#"{"issues":[1,2,3]}"#)), 3);
    assert_eq!(audit_issue_count(&json(r#"{"issues":"none"}"#)), 0);
}

#[test]
fn the_domain_metadata_escapes_quotes() {
    assert_eq!(domain_metadata("fiscal"), r#"{"domain":"fiscal"}"#);
    assert_eq!(domain_metadata(r#"a"b"#), r#"{"domain":"a\"b"}"#);
}

#[test]
fn synthesis_keeps_named_entities_and_anchored_relationships() {
    let reply = json(
        r#"{"entities":[{"name":"ab","entity_type":"tool"},{"name":"x"},{"name":"é"},{"entity_type":"tool"},{"name":"rust"}],
            "relationships":[{"source":"ab","target":"rust"},{"source":"","target":"rust","relation":"uses"},{"source":"ab","target":"rust","relation":"uses","strength":0.9}]}"#,
    );
    let ents = synthesized_entities(&reply);
    assert_eq!(
        ents,
        vec![
            ("ab".to_string(), "tool".to_string()),
            ("é".to_string(), "concept".to_string()),
            ("rust".to_string(), "concept".to_string())
        ]
    );
    let rels = synthesized_relationships(&reply);
    assert_eq!(
        rels,
        vec![
            ("ab".to_string(), "rust".to_string(), "related".to_string()),
            ("ab".to_string(), "rust".to_string(), "uses".to_string())
        ]
    );
    assert!(synthesized_entities(&json("{}")).is_empty());
}
