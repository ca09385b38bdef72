//! The decisions of the `config` subcommand: the stored API keys, the input
//! accepted for a new key, and the layer each operational setting is read
//! from.
//!
//! Loading and saving the XDG config file, reading stdin and printing the
//! envelopes belong to the caller.
use crate::errors::AppError;
use crate::text::{is_blank, is_blank_str, str_eq, trim, trim_str};
use vstd::prelude::*;
use vstd::string::*;

verus! {

/// Arguments of `config`.
#[derive(Debug, Clone)]
pub struct ConfigArgs {
    /// Action.
    pub action: ConfigAction,
}

/// What `config` does. Every action accepts `--json` and `--db` as no-ops.
#[derive(Debug, Clone)]
pub enum ConfigAction {
    /// Add an API key for a provider, read from stdin.
    AddKey { provider: String, from_stdin: bool, json: bool, db: Option<String> },
    /// List stored API keys, masked, with fingerprints.
    ListKeys { json: bool, db: Option<String> },
    /// Remove an API key by its fingerprint.
    RemoveKey { fingerprint: String, json: bool, db: Option<String> },
    /// Diagnose key resolution layers.
    Doctor { json: bool, db: Option<String> },
    /// Print the resolved XDG config file path.
    Path { json: bool, db: Option<String> },
    /// Set an operational setting.
    SetValue { key: String, value: String, json: bool, db: Option<String> },
    /// Get an operational setting.
    Get { key: String, json: bool, db: Option<String> },
    /// List all operational settings.
    List { effective: bool, json: bool, print_schema: bool, db: Option<String> },
    /// Unset an operational setting.
    Unset { key: String, json: bool, db: Option<String> },
}

/// One stored API key.
#[derive(Debug, Clone)]
pub struct ApiKeyEntry {
    /// Provider the key belongs to.
    pub provider: String,
    /// The secret itself.
    pub value: String,
    /// When it was added (RFC 3339).
    pub added_at: String,
    /// Fingerprint that identifies it without revealing it.
    pub fingerprint: String,
}

/// The refusal of `add-key` without `--from-stdin`.
pub open spec fn from_stdin_required_text() -> Seq<char> {
    "--from-stdin is required to avoid shell history exposure"@
}

/// The refusal of `add-key` under `--no-input`.
pub open spec fn no_input_text() -> Seq<char> {
    "--no-input forbids reading the API key from stdin"@
}

/// The refusal of an empty key.
pub open spec fn empty_key_text() -> Seq<char> {
    "API key cannot be empty"@
}

/// Whether `add-key` may read stdin: only with `--from-stdin`, and never
/// under `--no-input`.
pub fn add_key_gate(from_stdin: bool, no_input: bool) -> (r: Result<(), AppError>)
    ensures
        from_stdin && !no_input ==> r is Ok,
        from_stdin && no_input ==> (r matches Err(AppError::Validation(m)) && m@
            == no_input_text()),
        !from_stdin ==> (r matches Err(AppError::Validation(m)) && m@
            == from_stdin_required_text()),
{
    if from_stdin {
        if no_input {
            let mut m = String::new();
            m.append("--no-input forbids reading the API key from stdin");
            return Err(AppError::Validation(m));
        }
        Ok(())
    } else {
        let mut m = String::new();
        m.append("--from-stdin is required to avoid shell history exposure");
        Err(AppError::Validation(m))
    }
}

/// The key read from stdin: the input trimmed, refused when nothing is left.
pub fn api_key_from_stdin(input: &str) -> (r: Result<String, AppError>)
    ensures
        is_blank(input@) <==> r is Err,
        r matches Ok(k) ==> k@ == trim(input@),
        r matches Err(e) ==> (e matches AppError::Validation(m) && m@ == empty_key_text()),
{
    if is_blank_str(input) {
        let mut m = String::new();
        m.append("API key cannot be empty");
        return Err(AppError::Validation(m));
    }
    Ok(trim_str(input))
}

/// The field of an entry that a removal matches on: the provider, or the
/// fingerprint.
pub open spec fn entry_field(k: ApiKeyEntry, by_provider: bool) -> Seq<char> {
    if by_provider {
        k.provider@
    } else {
        k.fingerprint@
    }
}

/// The entries whose field differs from `v`, in order.
pub open spec fn entries_without(keys: Seq<ApiKeyEntry>, by_provider: bool, v: Seq<char>) -> Seq<
    ApiKeyEntry,
>
    decreases keys.len(),
{
    if keys.len() == 0 {
        Seq::empty()
    } else if entry_field(keys.last(), by_provider) == v {
        entries_without(keys.drop_last(), by_provider, v)
    } else {
        entries_without(keys.drop_last(), by_provider, v).push(keys.last())
    }
}

/// Removing entries keeps every other entry, and leaves none that matches.
pub proof fn lemma_without_members(keys: Seq<ApiKeyEntry>, by_provider: bool, v: Seq<char>)
    ensures
        forall|k: ApiKeyEntry| #[trigger]
            entries_without(keys, by_provider, v).contains(k) <==> (keys.contains(k)
                && entry_field(k, by_provider) != v),
        entries_without(keys, by_provider, v).len() <= keys.len(),
        entries_without(keys, by_provider, v).len() == keys.len() <==> (forall|i: int|
            0 <= i < keys.len() ==> entry_field(#[trigger] keys[i], by_provider) != v),
    decreases keys.len(),
{
    if keys.len() > 0 {
        let init = keys.drop_last();
        lemma_without_members(init, by_provider, v);
        assert(keys =~= init.push(keys.last()));
        assert forall|k: ApiKeyEntry| #[trigger]
            entries_without(keys, by_provider, v).contains(k) <==> (keys.contains(k)
                && entry_field(k, by_provider) != v) by {
            if keys.contains(k) {
                let i = choose|i: int| 0 <= i < keys.len() && keys[i] == k;
                if i < keys.len() - 1 {
                    assert(init[i] == k);
                }
            }
            if init.contains(k) {
                let i = choose|i: int| 0 <= i < init.len() && init[i] == k;
                assert(keys[i] == k);
            }
            let w = entries_without(init, by_provider, v);
            if entry_field(keys.last(), by_provider) != v {
                if w.push(keys.last()).contains(k) {
                    let i = choose|i: int| 0 <= i < w.push(keys.last()).len() && w.push(keys.last())[i] == k;
                    if i < w.len() {
                        assert(w[i] == k);
                    }
                }
                if w.contains(k) {
                    let i = choose|i: int| 0 <= i < w.len() && w[i] == k;
                    assert(w.push(keys.last())[i] == k);
                }
                assert(w.push(keys.last())[w.len() as int] == keys.last());
            }
        }
        if entries_without(keys, by_provider, v).len() == keys.len() {
            assert forall|i: int| 0 <= i < keys.len() implies entry_field(
                #[trigger] keys[i],
                by_provider,
            ) != v by {
                if i < keys.len() - 1 {
                    assert(init[i] == keys[i]);
                }
            }
        }
        if forall|i: int| 0 <= i < keys.len() ==> entry_field(#[trigger] keys[i], by_provider) != v {
            assert forall|i: int| 0 <= i < init.len() implies entry_field(
                #[trigger] init[i],
                by_provider,
            ) != v by {
                assert(keys[i] == init[i]);
            }
            assert(entry_field(keys[keys.len() - 1], by_provider) != v);
        }
    }
}

/// Removes, in place, every entry whose field equals `v`; returns whether
/// any was removed.
fn remove_entries(keys: &mut Vec<ApiKeyEntry>, by_provider: bool, v: &str) -> (removed: bool)
    ensures
        final(keys)@ == entries_without(old(keys)@, by_provider, v@),
        removed <==> final(keys)@.len() < old(keys)@.len(),
{
    let ghost orig = keys@;
    let mut i: usize = 0;
    let ghost mut j: int = 0;
    let mut removed = false;
    while i < keys.len()
        invariant
            0 <= i <= j <= orig.len(),
            i <= keys@.len(),
            keys@.len() - i == orig.len() - j,
            keys@.subrange(0, i as int) == entries_without(orig.subrange(0, j), by_provider, v@),
            keys@.subrange(i as int, keys@.len() as int) == orig.subrange(j, orig.len() as int),
            removed <==> i < j,
        decreases keys@.len() - i,
    {
        let ghost pre = orig.subrange(0, j + 1);
        assert(pre.drop_last() =~= orig.subrange(0, j));
        assert(orig[j] == keys@[i as int]) by {
            assert(keys@.subrange(i as int, keys@.len() as int)[0] == keys@[i as int]);
        }
        let hit = if by_provider {
            str_eq(keys[i].provider.as_str(), v)
        } else {
            str_eq(keys[i].fingerprint.as_str(), v)
        };
        let ghost before = keys@;
        if hit {
            keys.remove(i);
            removed = true;
            assert(keys@.subrange(0, i as int) =~= before.subrange(0, i as int));
            assert(keys@.subrange(i as int, keys@.len() as int) =~= orig.subrange(
                j + 1,
                orig.len() as int,
            )) by {
                assert forall|t: int| 0 <= t < keys@.len() - i implies #[trigger] keys@.subrange(
                    i as int,
                    keys@.len() as int,
                )[t] == orig.subrange(j + 1, orig.len() as int)[t] by {
                    assert(before.subrange(i as int, before.len() as int)[t + 1] == orig.subrange(
                        j,
                        orig.len() as int,
                    )[t + 1]);
                }
            }
        } else {
            i = i + 1;
            assert(keys@.subrange(0, i as int) =~= before.subrange(0, (i - 1) as int).push(
                orig[j],
            ));
            assert(keys@.subrange(i as int, keys@.len() as int) =~= orig.subrange(
                j + 1,
                orig.len() as int,
            )) by {
                assert forall|t: int| 0 <= t < keys@.len() - i implies #[trigger] keys@.subrange(
                    i as int,
                    keys@.len() as int,
                )[t] == orig.subrange(j + 1, orig.len() as int)[t] by {
                    assert(before.subrange((i - 1) as int, before.len() as int)[t + 1]
                        == orig.subrange(j, orig.len() as int)[t + 1]);
                }
            }
        }
        proof {
            j = j + 1;
        }
    }
    assert(orig.subrange(j, orig.len() as int).len() == 0);
    assert(j == orig.len());
    assert(orig.subrange(0, j) =~= orig);
    assert(keys@ =~= keys@.subrange(0, i as int));
    proof {
        lemma_without_members(orig, by_provider, v@);
    }
    removed
}

/// Stores `entry` as the one key of its provider: every earlier key of that
/// provider is dropped, and `entry` goes last.
pub fn store_api_key(keys: &mut Vec<ApiKeyEntry>, entry: ApiKeyEntry)
    ensures
        final(keys)@ == entries_without(old(keys)@, true, entry.provider@).push(entry),
{
    let provider = entry.provider.clone();
    remove_entries(keys, true, provider.as_str());
    keys.push(entry);
}

/// The refusal when no stored key has `fingerprint`.
pub open spec fn fingerprint_not_found_text(fingerprint: Seq<char>) -> Seq<char> {
    "no API key with fingerprint "@ + fingerprint
}

/// Removes every key with `fingerprint`; refused, with the keys unchanged,
/// when there is none.
pub fn remove_api_key(keys: &mut Vec<ApiKeyEntry>, fingerprint: &str) -> (r: Result<(), AppError>)
    ensures
        final(keys)@ == entries_without(old(keys)@, false, fingerprint@),
        r is Ok <==> exists|i: int|
            0 <= i < old(keys)@.len() && #[trigger] old(keys)@[i].fingerprint@ == fingerprint@,
        r matches Err(e) ==> (e matches AppError::NotFound(m) && m@ == fingerprint_not_found_text(
            fingerprint@,
        )),
{
    let ghost before = keys@;
    let removed = remove_entries(keys, false, fingerprint);
    proof {
        lemma_without_members(before, false, fingerprint@);
    }
    if !removed {
        let mut m = String::new();
        m.append("no API key with fingerprint ");
        m.append(fingerprint);
        assert(forall|i: int|
            0 <= i < before.len() ==> entry_field(#[trigger] before[i], false) != fingerprint@);
        return Err(AppError::NotFound(m));
    }
    assert(exists|i: int| 0 <= i < before.len() && entry_field(#[trigger] before[i], false) == fingerprint@);
    Ok(())
}

/// Whether no two entries share a provider.
pub open spec fn providers_unique(keys: Seq<ApiKeyEntry>) -> bool {
    forall|i: int, j: int|
        0 <= i < j < keys.len() ==> #[trigger] keys[i].provider@ != #[trigger] keys[j].provider@
}

/// Storing a key keeps one key per provider: when no two stored keys shared
/// a provider before, none do after, and the new key is the one its provider
/// resolves to.
pub proof fn lemma_store_keeps_one_key_per_provider(keys: Seq<ApiKeyEntry>, entry: ApiKeyEntry)
    requires
        providers_unique(keys),
    ensures
        providers_unique(entries_without(keys, true, entry.provider@).push(entry)),
        entries_without(keys, true, entry.provider@).push(entry).last() == entry,
{
    let w = entries_without(keys, true, entry.provider@);
    lemma_without_unique(keys, entry.provider@);
    lemma_without_members(keys, true, entry.provider@);
    let r = w.push(entry);
    assert forall|i: int, j: int| 0 <= i < j < r.len() implies #[trigger] r[i].provider@
        != #[trigger] r[j].provider@ by {
        if j == r.len() - 1 {
            assert(w.contains(w[i]));
            assert(entry_field(w[i], true) != entry.provider@);
        } else {
            assert(r[i] == w[i] && r[j] == w[j]);
        }
    }
}

proof fn lemma_without_unique(keys: Seq<ApiKeyEntry>, v: Seq<char>)
    requires
        providers_unique(keys),
    ensures
        providers_unique(entries_without(keys, true, v)),
    decreases keys.len(),
{
    if keys.len() > 0 {
        let init = keys.drop_last();
        assert forall|i: int, j: int| 0 <= i < j < init.len() implies #[trigger] init[i].provider@
            != #[trigger] init[j].provider@ by {
            assert(init[i] == keys[i] && init[j] == keys[j]);
        }
        lemma_without_unique(init, v);
        lemma_without_members(init, true, v);
        let w = entries_without(init, true, v);
        if entry_field(keys.last(), true) != v {
            let r = w.push(keys.last());
            assert forall|i: int, j: int| 0 <= i < j < r.len() implies #[trigger] r[i].provider@
                != #[trigger] r[j].provider@ by {
                if j == r.len() - 1 {
                    assert(w.contains(w[i]));
                    let t = choose|t: int| 0 <= t < init.len() && init[t] == w[i];
                    assert(keys[t] == init[t]);
                    assert(keys[t].provider@ != keys[keys.len() - 1].provider@);
                } else {
                    assert(r[i] == w[i] && r[j] == w[j]);
                }
            }
        }
    }
}

/// The layer a setting's value comes from.
#[derive(Debug, Clone, Copy, PartialEq, Eq, Structural)]
pub enum KnobSource {
    /// A command-line flag.
    Flag,
    /// The XDG config file.
    Xdg,
    /// The named default.
    Default,
    /// Computed from the host at run time; no literal to report.
    Derived,
}

impl KnobSource {
    /// The name the doctor report prints.
    pub fn as_str(&self) -> (r: &'static str)
        ensures
            r@ == knob_source_name(*self),
    {
        match self {
            KnobSource::Flag => "flag",
            KnobSource::Xdg => "xdg",
            KnobSource::Default => "default",
            KnobSource::Derived => "derived",
        }
    }
}

/// The name of each layer.
pub open spec fn knob_source_name(s: KnobSource) -> Seq<char> {
    match s {
        KnobSource::Flag => "flag"@,
        KnobSource::Xdg => "xdg"@,
        KnobSource::Default => "default"@,
        KnobSource::Derived => "derived"@,
    }
}

/// The value a setting resolves to, and its layer: a non-empty flag, else a
/// non-empty stored value, else the default, else nothing (derived).
pub open spec fn knob_resolution(
    flag: Option<Seq<char>>,
    stored: Option<Seq<char>>,
    default: Option<Seq<char>>,
) -> (KnobSource, Option<Seq<char>>) {
    if flag matches Some(f) && f.len() > 0 {
        (KnobSource::Flag, flag)
    } else if stored matches Some(s) && s.len() > 0 {
        (KnobSource::Xdg, stored)
    } else if default is Some {
        (KnobSource::Default, default)
    } else {
        (KnobSource::Derived, None)
    }
}

/// Resolves one setting for the doctor report.
pub fn resolve_knob(flag: Option<&str>, stored: Option<String>, default: Option<&str>) -> (r: (
    KnobSource,
    Option<String>,
))
    ensures
        ({
            let (src, val) = knob_resolution(
                match flag {
                    Some(f) => Some(f@),
                    None => None,
                },
                crate::text::opt_view(stored),
                match default {
                    Some(d) => Some(d@),
                    None => None,
                },
            );
            r.0 == src && crate::text::opt_view(r.1) == val
        }),
{
    if let Some(f) = flag {
        if f.unicode_len() > 0 {
            let mut v = String::new();
            v.append(f);
            assert(v@ =~= f@);
            return (KnobSource::Flag, Some(v));
        }
    }
    if let Some(s) = &stored {
        if s.as_str().unicode_len() > 0 {
            return (KnobSource::Xdg, stored);
        }
    }
    match default {
        Some(d) => {
            let mut v = String::new();
            v.append(d);
            assert(v@ =~= d@);
            (KnobSource::Default, Some(v))
        },
        None => (KnobSource::Derived, None),
    }
}

/// The settings a command-line flag can override at run time.
#[derive(Debug, Clone, Default)]
pub struct RuntimeFlags {
    /// `--tz`.
    pub display_tz: Option<String>,
    /// `--lang`.
    pub lang: Option<String>,
    /// `--log-level`.
    pub log_level: Option<String>,
    /// `--log-format`.
    pub log_format: Option<String>,
    /// `--llm-model`.
    pub llm_model: Option<String>,
    /// `--llm-fallback`.
    pub llm_fallback: Option<String>,
    /// `--db`.
    pub db_path: Option<String>,
}

/// The flag value that overrides setting `key`, if a flag exists for it.
pub open spec fn flag_value(f: RuntimeFlags, key: Seq<char>) -> Option<String> {
    if key == "display.tz"@ {
        f.display_tz
    } else if key == "i18n.lang"@ {
        f.lang
    } else if key == "log.level"@ {
        f.log_level
    } else if key == "log.format"@ {
        f.log_format
    } else if key == "llm.model"@ {
        f.llm_model
    } else if key == "llm.fallback"@ {
        f.llm_fallback
    } else if key == "db.path"@ {
        f.db_path
    } else {
        None
    }
}

fn opt_str(o: &Option<String>) -> (r: Option<&str>)
    ensures
        match o {
            Some(s) => r matches Some(t) && t@ == s@,
            None => r is None,
        },
{
    match o {
        Some(s) => Some(s.as_str()),
        None => None,
    }
}

impl RuntimeFlags {
    /// The flag value that overrides setting `key`; only the seven settings
    /// with a flag have one.
    pub fn flag_for(&self, key: &str) -> (r: Option<&str>)
        ensures
            match flag_value(*self, key@) {
                Some(s) => r matches Some(t) && t@ == s@,
                None => r is None,
            },
    {
        if str_eq(key, "display.tz") {
            opt_str(&self.display_tz)
        } else if str_eq(key, "i18n.lang") {
            opt_str(&self.lang)
        } else if str_eq(key, "log.level") {
            opt_str(&self.log_level)
        } else if str_eq(key, "log.format") {
            opt_str(&self.log_format)
        } else if str_eq(key, "llm.model") {
            opt_str(&self.llm_model)
        } else if str_eq(key, "llm.fallback") {
            opt_str(&self.llm_fallback)
        } else if str_eq(key, "db.path") {
            opt_str(&self.db_path)
        } else {
            None
        }
    }
}

/// A non-empty flag always wins, whatever is stored or defaulted; with no
/// flag and nothing stored, a setting with a default reports it.
pub proof fn lemma_flag_wins(
    flag: Seq<char>,
    stored: Option<Seq<char>>,
    default: Option<Seq<char>>,
)
    requires
        flag.len() > 0,
    ensures
        knob_resolution(Some(flag), stored, default) == (KnobSource::Flag, Some(flag)),
        default is Some ==> knob_resolution(None, None, default) == (KnobSource::Default, default),
{
}

} // verus!
