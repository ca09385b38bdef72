use sqlite_graphrag::codex::{
    codex_pro_oauth_model_list, levenshtein, list_codex_models, suggest_codex_model,
    validate_codex_model, CodexInvocation, CodexSpawnArgs,
};
use sqlite_graphrag::codex_events::{
    codex_jsonl_lines, codex_models_in_cache, codex_result, scan_codex_events, CodexResult,
};
use sqlite_graphrag::errors::AppError;
use sqlite_graphrag::json::Json;

/// Converts a parsed document into the library's JSON value.
fn to_json(v: &serde_json::Value) -> Json {
    match v {
        serde_json::Value::Null => Json::Null,
        serde_json::Value::Bool(b) => Json::Bool(*b),
        serde_json::Value::Number(n) => Json::Number(n.as_u64()),
        serde_json::Value::String(s) => Json::Str(s.clone()),
        serde_json::Value::Array(a) => Json::Array(a.iter().map(to_json).collect()),
        serde_json::Value::Object(m) => {
            Json::Object(m.iter().map(|(k, x)| (k.clone(), to_json(x))).collect())
        }
    }
}

/// Reads a `codex exec --json` stream the way the command does.
fn parse_codex_jsonl(stdout: &str) -> Result<CodexResult, AppError> {
    let events: Vec<Option<Json>> = codex_jsonl_lines(stdout)
        .iter()
        .map(|l| serde_json::from_str::<serde_json::Value>(l).ok().map(|v| to_json(&v)))
        .collect();
    let turn = scan_codex_events(&events)?;
    let payload: serde_json::Value = serde_json::from_str(&turn.last_agent_text)
        .map_err(|e| AppError::Validation(format!("failed to parse agent message: {e}")))?;
    codex_result(turn, &to_json(&payload))
}

const SAMPLE_JSONL: &str = r#"{"type":"thread.started","thread_id":"abc"}
{"type":"turn.started"}
{"type":"item.completed","item":{"type":"reasoning","text":"thinking"}}
{"type":"item.completed","item":{"type":"agent_message","text":"{\"entities\":[{\"name\":\"alpha\",\"type\":\"concept\"}],\"relationships\":[{\"source\":\"alpha\",\"target\":\"beta\",\"relation\":\"uses\",\"strength\":0.7}],\"extraction_method\":\"codex\",\"urls\":[]}"}}
{"type":"turn.completed","usage":{"input_tokens":120,"output_tokens":45}}
{"type":"turn.completed","usage":{}}
"#;

#[test]
fn parse_codex_jsonl_extracts_last_agent_message() {
    let result = parse_codex_jsonl(SAMPLE_JSONL).expect("parse must succeed");
    assert_eq!(result.extraction.entities.len(), 1);
    assert_eq!(result.extraction.entities[0].name, "alpha");
}

#[test]
fn parse_codex_jsonl_collects_usage() {
    let result = parse_codex_jsonl(SAMPLE_JSONL).expect("parse must succeed");
    let usage = result.usage.expect("usage must be populated");
    assert_eq!(usage.input_tokens, 120);
    assert_eq!(usage.output_tokens, 45);
}

#[test]
fn parse_codex_jsonl_detects_rate_limit() {
    let r = parse_codex_jsonl(
        "{\"type\":\"turn.failed\",\"error\":{\"message\":\"rate_limit: 429 too many\"}}\n{\"type\":\"item.completed\",\"item\":{\"type\":\"agent_message\",\"text\":\"{}\"}}",
    );
    assert!(matches!(r, Err(AppError::Validation(_))));
}

#[test]
fn parse_codex_jsonl_handles_no_agent_message() {
    let r = parse_codex_jsonl("{\"type\":\"thread.started\"}");
    assert!(matches!(r, Err(AppError::Validation(_))));
}

#[test]
fn parse_codex_jsonl_skips_malformed_lines() {
    let r = parse_codex_jsonl(
        "{not valid json\n{\"type\":\"item.completed\",\"item\":{\"type\":\"agent_message\",\"text\":\"{\\\"entities\\\":[],\\\"relationships\\\":[],\\\"extraction_method\\\":\\\"codex\\\"}\"}}",
    );
    assert!(r.is_ok(), "malformed lines must be skipped, got {r:?}");
}

#[test]
fn validate_codex_model_accepts_known() {
    assert!(validate_codex_model(Some("gpt-5.5")).is_ok());
    assert!(validate_codex_model(Some("gpt-5.4")).is_ok());
    assert!(validate_codex_model(None).is_ok());
}

#[test]
fn validate_codex_model_rejects_unknown() {
    let err = validate_codex_model(Some("gpt-4")).unwrap_err();
    let msg = err.to_message();
    assert!(msg.contains("not supported"));
    assert!(msg.contains("gpt-5.5"));
}

#[test]
fn list_codex_models_includes_all_static_whitelist() {
    let models = list_codex_models(&Vec::new());
    for m in codex_pro_oauth_model_list() {
        assert!(models.contains(&m), "missing {m} in {models:?}");
    }
}

#[test]
fn list_codex_models_dedupes_with_cache_file() {
    let models = list_codex_models(&Vec::new());
    let unique: std::collections::HashSet<_> = models.iter().collect();
    assert_eq!(unique.len(), models.len(), "list_codex_models must dedupe");
}

#[test]
fn suggest_codex_model_substring_match() {
    let s = suggest_codex_model("gpt-5", &list_codex_models(&Vec::new()));
    assert!(s.is_some(), "must suggest a gpt-5.x model");
}

#[test]
fn suggest_codex_model_fuzzy_match() {
    let s = suggest_codex_model("gpt5.5", &list_codex_models(&Vec::new()));
    assert!(s.is_some(), "fuzzy must suggest gpt-5.5 for 'gpt5.5'");
    assert_eq!(s.unwrap(), "gpt-5.5");
}

#[test]
fn suggest_codex_model_unrelated_returns_none() {
    let s = suggest_codex_model("totally-unrelated-zzz", &list_codex_models(&Vec::new()));
    assert!(s.is_none());
}

#[test]
fn the_rejection_lists_every_accepted_model() {
    let err = validate_codex_model(Some("gpt-4")).unwrap_err();
    assert_eq!(
        err.to_message(),
        "codex model 'gpt-4' is not supported with ChatGPT Pro OAuth; accepted models: \
         codex-auto-review, gpt-5.3-codex-spark, gpt-5.4, gpt-5.4-mini, gpt-5.5"
    );
}

#[test]
fn cached_models_join_the_whitelist_sorted_and_once() {
    let cached = vec!["gpt-5.5".to_string(), "alpha-model".to_string(), "zeta".to_string()];
    let models = list_codex_models(&cached);
    assert_eq!(
        models,
        vec![
            "alpha-model",
            "codex-auto-review",
            "gpt-5.3-codex-spark",
            "gpt-5.4",
            "gpt-5.4-mini",
            "gpt-5.5",
            "zeta"
        ]
    );
}

#[test]
fn levenshtein_counts_edits() {
    assert_eq!(levenshtein("kitten", "sitting"), 3);
    assert_eq!(levenshtein("", "abc"), 3);
    assert_eq!(levenshtein("abc", ""), 3);
    assert_eq!(levenshtein("gpt5.5", "gpt-5.5"), 1);
}

#[test]
fn a_suggestion_is_case_insensitive() {
    let s = suggest_codex_model("GPT-5.4-MINI", &list_codex_models(&Vec::new()));
    assert_eq!(s.as_deref(), Some("gpt-5.4-mini"));
}

#[test]
fn the_models_array_of_the_cache_is_read_not_its_keys() {
    let body = r#"{"fetched_at":"x","etag":"y","client_version":"0.139.0",
        "models":[{"slug":"gpt-5.5","display_name":"GPT-5.5"},{"slug":"gpt-5.4-mini"},"bare-model"]}"#;
    let v: serde_json::Value = serde_json::from_str(body).unwrap();
    let models = codex_models_in_cache(&to_json(&v));
    assert_eq!(models, vec!["gpt-5.5", "gpt-5.4-mini", "bare-model"]);
}

#[test]
fn a_legacy_cache_lists_its_keys() {
    let v: serde_json::Value =
        serde_json::from_str(r#"{"legacy-model-x": 1, "legacy-model-y": 2}"#).unwrap();
    let models = codex_models_in_cache(&to_json(&v));
    assert_eq!(models, vec!["legacy-model-x", "legacy-model-y"]);
    let arr: serde_json::Value = serde_json::from_str(r#"["a", 1, "b"]"#).unwrap();
    assert_eq!(codex_models_in_cache(&to_json(&arr)), vec!["a", "b"]);
}

fn spawn_args(model: Option<&str>) -> CodexSpawnArgs<'_> {
    CodexSpawnArgs {
        binary: "/usr/bin/codex",
        prompt: "p",
        json_schema: "{}",
        input_text: "i",
        model,
        timeout_secs: 60,
        schema_path: "/cache/enrich-schema-1.json".to_string(),
    }
}

#[test]
fn the_exec_arguments_carry_every_hardening_flag() {
    let CodexInvocation::Exec { args } = spawn_args(Some("gpt-5.5")).invocation(false, true) else {
        panic!("without OPENAI_API_KEY codex runs");
    };
    assert_eq!(
        args,
        vec![
            "exec",
            "-c",
            "sandbox_mode='read-only'",
            "-c",
            "approval_policy='never'",
            "--json",
            "--output-schema",
            "/cache/enrich-schema-1.json",
            "--ephemeral",
            "--skip-git-repo-check",
            "--sandbox",
            "read-only",
            "--ignore-user-config",
            "--ignore-rules",
            "--ask-for-approval",
            "never",
            "-m",
            "gpt-5.5",
            "-"
        ]
    );
}

#[test]
fn newer_codex_gets_no_approval_flag_and_no_model_when_unpinned() {
    let CodexInvocation::Exec { args } = spawn_args(None).invocation(false, false) else {
        panic!("without OPENAI_API_KEY codex runs");
    };
    assert!(!args.iter().any(|a| a == "--ask-for-approval"));
    assert!(!args.iter().any(|a| a == "-m"));
    assert_eq!(args.last().map(String::as_str), Some("-"));
    assert_eq!(args.len(), 15);
}

#[test]
fn an_api_key_in_the_environment_aborts_the_spawn() {
    let CodexInvocation::OAuthViolation { program, args } =
        spawn_args(Some("gpt-5.5")).invocation(true, true)
    else {
        panic!("OPENAI_API_KEY must abort");
    };
    assert_eq!(program, "false");
    assert_eq!(
        args,
        vec![
            "--oauth-only-violation-openai-api-key-set",
            "--oauth-only-resolution-use-codex-auth-json-or-openai-base-url"
        ]
    );
}

#[test]
fn the_full_prompt_puts_a_blank_line_before_the_input() {
    assert_eq!(spawn_args(None).full_prompt(), "p\n\ni");
}

#[test]
fn the_extraction_payload_keeps_entities_labels_and_urls() {
    let stream = r#"{"type":"item.completed","item":{"type":"agent_message","text":"{\"entities\":[{\"name\":\"alpha\",\"type\":\"tool\"},{\"name\":\"beta\",\"entity_type\":\"person\"},{\"name\":\"gamma\",\"type\":3},{\"type\":\"tool\"}],\"urls\":[{\"url\":\"https://a\",\"start\":3,\"end\":9},{\"url\":\"https://b\",\"start\":4},{\"start\":1}]}"}}"#;
    let r = parse_codex_jsonl(stream).expect("object payload");
    let ents: Vec<(&str, &str)> = r
        .extraction
        .entities
        .iter()
        .map(|e| (e.name.as_str(), e.entity_type.as_str()))
        .collect();
    assert_eq!(ents, vec![("alpha", "tool"), ("beta", "person"), ("gamma", "concept")]);
    let urls: Vec<(&str, usize, usize)> =
        r.extraction.urls.iter().map(|u| (u.url.as_str(), u.start, u.end)).collect();
    assert_eq!(urls, vec![("https://a", 3, 9), ("https://b", 4, 4)]);
}

#[test]
fn a_payload_that_is_not_an_object_is_refused() {
    let stream = r#"{"type":"item.completed","item":{"type":"agent_message","text":"[1,2]"}}"#;
    let err = parse_codex_jsonl(stream).unwrap_err();
    assert_eq!(err.to_message(), "codex agent_message is not a JSON object");
}

#[test]
fn failure_messages_name_the_cause() {
    let failed = parse_codex_jsonl(
        "{\"type\":\"turn.failed\",\"error\":{\"message\":\"boom\"}}\n{\"type\":\"item.completed\",\"item\":{\"type\":\"agent_message\",\"text\":\"{}\"}}",
    )
    .unwrap_err();
    assert_eq!(failed.to_message(), "codex turn failed: boom");
    let none = parse_codex_jsonl("{\"type\":\"error\",\"message\":\"invalid_json_schema\"}").unwrap_err();
    assert_eq!(
        none.to_message(),
        "codex JSONL output holds no agent_message (rate_limited=false, schema_error=true, turn_failed=false)"
    );
    let schema = parse_codex_jsonl(
        "{\"type\":\"error\",\"message\":\"bad schema\"}\n{\"type\":\"item.completed\",\"item\":{\"type\":\"agent_message\",\"text\":\"{}\"}}",
    )
    .unwrap_err();
    assert_eq!(
        schema.to_message(),
        "codex reported invalid_json_schema; check the --output-schema file"
    );
}

#[test]
fn a_model_at_the_radius_is_not_suggested() {
    let models = vec!["ab".to_string()];
    assert_eq!(levenshtein("xy", "ab"), 2);
    assert_eq!(suggest_codex_model("xy", &models), None);
    assert_eq!(suggest_codex_model("xb", &models).as_deref(), Some("ab"));
}
