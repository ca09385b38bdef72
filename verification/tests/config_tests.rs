use sqlite_graphrag::config::{
    add_key_gate, api_key_from_stdin, remove_api_key, resolve_knob, store_api_key, ApiKeyEntry,
    KnobSource, RuntimeFlags,
};
use sqlite_graphrag::errors::AppError;

fn key(provider: &str, fingerprint: &str) -> ApiKeyEntry {
    ApiKeyEntry {
        provider: provider.to_string(),
        value: format!("secret-{fingerprint}"),
        added_at: "2026-01-01T00:00:00+00:00".to_string(),
        fingerprint: fingerprint.to_string(),
    }
}

#[test]
fn a_new_key_replaces_the_provider_key_and_goes_last() {
    let mut keys = vec![key("openrouter", "aa"), key("other", "bb"), key("openrouter", "cc")];
    store_api_key(&mut keys, key("openrouter", "dd"));
    let fps: Vec<&str> = keys.iter().map(|k| k.fingerprint.as_str()).collect();
    assert_eq!(fps, vec!["bb", "dd"]);
}

#[test]
fn removing_an_unknown_fingerprint_is_not_found_and_changes_nothing() {
    let mut keys = vec![key("openrouter", "aa"), key("other", "bb")];
    let err = remove_api_key(&mut keys, "zz").unwrap_err();
    assert!(matches!(err, AppError::NotFound(_)));
    assert_eq!(err.to_message(), "no API key with fingerprint zz");
    assert_eq!(keys.len(), 2);
    assert!(remove_api_key(&mut keys, "aa").is_ok());
    assert_eq!(keys.len(), 1);
    assert_eq!(keys[0].fingerprint, "bb");
}

#[test]
fn add_key_reads_stdin_only_when_allowed() {
    assert!(add_key_gate(true, false).is_ok());
    assert_eq!(
        add_key_gate(false, false).unwrap_err().to_message(),
        "--from-stdin is required to avoid shell history exposure"
    );
    assert_eq!(
        add_key_gate(true, true).unwrap_err().to_message(),
        "--no-input forbids reading the API key from stdin"
    );
}

#[test]
fn the_stdin_key_is_trimmed_and_must_not_be_blank() {
    assert_eq!(api_key_from_stdin("  sk-abc\n").unwrap(), "sk-abc");
    assert_eq!(
        api_key_from_stdin(" \n\t").unwrap_err().to_message(),
        "API key cannot be empty"
    );
}

#[test]
fn a_flag_beats_the_stored_value_which_beats_the_default() {
    let (src, val) = resolve_knob(Some("UTC"), Some("America/Sao_Paulo".to_string()), Some("Z"));
    assert_eq!((src, val.as_deref()), (KnobSource::Flag, Some("UTC")));
    let (src, val) = resolve_knob(Some(""), Some("America/Sao_Paulo".to_string()), Some("Z"));
    assert_eq!((src, val.as_deref()), (KnobSource::Xdg, Some("America/Sao_Paulo")));
    let (src, val) = resolve_knob(None, Some(String::new()), Some("Z"));
    assert_eq!((src, val.as_deref()), (KnobSource::Default, Some("Z")));
    let (src, val) = resolve_knob(None, None, None);
    assert_eq!((src, val), (KnobSource::Derived, None));
    assert_eq!(KnobSource::Derived.as_str(), "derived");
}

#[test]
fn only_seven_settings_have_a_flag() {
    let flags = RuntimeFlags {
        display_tz: Some("UTC".to_string()),
        db_path: Some("/tmp/g.sqlite".to_string()),
        ..RuntimeFlags::default()
    };
    assert_eq!(flags.flag_for("display.tz"), Some("UTC"));
    assert_eq!(flags.flag_for("db.path"), Some("/tmp/g.sqlite"));
    assert_eq!(flags.flag_for("log.level"), None);
    assert_eq!(flags.flag_for("embedding.dim"), None);
}
