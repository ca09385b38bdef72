//! Decisions of the memory operations of `enrich`: `description-enrich`,
//! `domain-classify`, `graph-audit` and `deep-research-synth`.
//!
//! Each reads one memory, asks a model, and writes or counts the answer. The
//! reads, the model call and the writes are the caller's; this module builds
//! the model input and reads the reply.
use crate::json::{as_text, get, json_get, json_str, Json};
use crate::text::{replace_all, replace_str, to_owned};
use vstd::prelude::*;
use vstd::string::*;

verus! {

/// The first `max_chars` characters of a body.
pub open spec fn preview(body: Seq<char>, max_chars: nat) -> Seq<char> {
    if body.len() <= max_chars {
        body
    } else {
        body.subrange(0, max_chars as int)
    }
}

/// The preview of a body a model is shown so it can recognise the memory.
pub fn body_preview(body: &str, max_chars: usize) -> (r: String)
    ensures
        r@ == preview(body@, max_chars as nat),
{
    let v = crate::text::chars_of(body);
    if v.len() <= max_chars {
        to_owned(body)
    } else {
        crate::text::string_of_range(&v, 0, max_chars)
    }
}

/// The model input of `description-enrich`.
pub fn description_enrich_input(item_key: &str, description: &str, preview: &str) -> (r: String)
    ensures
        r@ == "Memory name: "@ + item_key@ + "\nCurrent description: "@ + description@
            + "\nBody preview: "@ + preview@,
{
    let mut s = to_owned("Memory name: ");
    s.append(item_key);
    s.append("\nCurrent description: ");
    s.append(description);
    s.append("\nBody preview: ");
    s.append(preview);
    s
}

/// The model input of `domain-classify`.
pub fn domain_classify_input(item_key: &str, description: &str, preview: &str) -> (r: String)
    ensures
        r@ == "Memory: "@ + item_key@ + "\nDescription: "@ + description@ + "\nBody preview: "@
            + preview@,
{
    let mut s = to_owned("Memory: ");
    s.append(item_key);
    s.append("\nDescription: ");
    s.append(description);
    s.append("\nBody preview: ");
    s.append(preview);
    s
}

/// The model input of `graph-audit`; `bindings` is the number of entities
/// bound to the memory.
pub fn graph_audit_input(item_key: &str, description: &str, bindings: usize, preview: &str) -> (r:
    String)
    ensures
        r@ == "Memory: "@ + item_key@ + "\nDescription: "@ + description@ + "\nEntity bindings: "@
            + crate::text::decimal(bindings as nat) + "\nBody preview: "@ + preview@,
{
    let mut s = to_owned("Memory: ");
    s.append(item_key);
    s.append("\nDescription: ");
    s.append(description);
    s.append("\nEntity bindings: ");
    s.append(crate::text::decimal_string(bindings).as_str());
    s.append("\nBody preview: ");
    s.append(preview);
    s
}

/// The model input of `deep-research-synth`.
pub fn synth_input(item_key: &str, preview: &str) -> (r: String)
    ensures
        r@ == "Memory: "@ + item_key@ + "\nBody:\n"@ + preview@,
{
    let mut s = to_owned("Memory: ");
    s.append(item_key);
    s.append("\nBody:\n");
    s.append(preview);
    s
}

/// The description a `description-enrich` reply proposes; the current one
/// when it proposes none.
pub fn enriched_description(reply: &Json, current: &str) -> (r: String)
    ensures
        r@ == match as_text(get(*reply, "description"@)) {
            Some(t) => t,
            None => current@,
        },
{
    match json_str(json_get(reply, "description")) {
        Some(t) => to_owned(t),
        None => to_owned(current),
    }
}

/// The domain a `domain-classify` reply names; `uncategorized` when none.
pub fn classified_domain(reply: &Json) -> (r: String)
    ensures
        r@ == match as_text(get(*reply, "domain"@)) {
            Some(t) => t,
            None => "uncategorized"@,
        },
{
    match json_str(json_get(reply, "domain")) {
        Some(t) => to_owned(t),
        None => to_owned("uncategorized"),
    }
}

/// The metadata document stored for a classified memory: the domain in a
/// one-member JSON object, its double quotes escaped.
pub fn domain_metadata(domain: &str) -> (r: String)
    ensures
        r@ == "{\"domain\":\""@ + replace_all(domain@, "\""@, "\\\""@) + "\"}"@,
{
    let mut s = to_owned("{\"domain\":\"");
    let escaped = replace_str(domain, "\"", "\\\"");
    s.append(escaped.as_str());
    s.append("\"}");
    s
}

/// The number of issues a `graph-audit` reply lists: the length of its
/// `issues` array, zero when absent.
pub fn audit_issue_count(reply: &Json) -> (r: usize)
    ensures
        r == match get(*reply, "issues"@) {
            Some(Json::Array(a)) => a@.len(),
            _ => 0,
        },
{
    match json_get(reply, "issues") {
        Some(Json::Array(a)) => a.len(),
        _ => 0,
    }
}

/// The entities a synthesis reply proposes: every entry whose `name` has at
/// least two bytes (a missing name reads as empty), with its `entity_type`,
/// `concept` when absent.
pub open spec fn synth_entities(a: Seq<Json>) -> Seq<(Seq<char>, Seq<char>)>
    decreases a.len(),
{
    if a.len() == 0 {
        Seq::empty()
    } else {
        let rest = synth_entities(a.drop_last());
        let name = match as_text(get(a.last(), "name"@)) {
            Some(n) => n,
            None => Seq::empty(),
        };
        if (vstd::utf8::encode_utf8(name).len() as usize) >= 2 {
            rest.push(
                (
                    name,
                    match as_text(get(a.last(), "entity_type"@)) {
                        Some(t) => t,
                        None => "concept"@,
                    },
                ),
            )
        } else {
            rest
        }
    }
}

/// The relationships a synthesis reply proposes: every entry with a
/// non-empty `source` and `target`, with its `relation`, `related` when
/// absent.
pub open spec fn synth_relationships(a: Seq<Json>) -> Seq<(Seq<char>, Seq<char>, Seq<char>)>
    decreases a.len(),
{
    if a.len() == 0 {
        Seq::empty()
    } else {
        let rest = synth_relationships(a.drop_last());
        let src = match as_text(get(a.last(), "source"@)) {
            Some(n) => n,
            None => Seq::empty(),
        };
        let tgt = match as_text(get(a.last(), "target"@)) {
            Some(n) => n,
            None => Seq::empty(),
        };
        if src.len() == 0 || tgt.len() == 0 {
            rest
        } else {
            rest.push(
                (
                    src,
                    tgt,
                    match as_text(get(a.last(), "relation"@)) {
                        Some(t) => t,
                        None => "related"@,
                    },
                ),
            )
        }
    }
}

fn text_or(v: &Json, key: &str, default: &str) -> (r: String)
    ensures
        r@ == match as_text(get(*v, key@)) {
            Some(t) => t,
            None => default@,
        },
{
    match json_str(json_get(v, key)) {
        Some(t) => to_owned(t),
        None => to_owned(default),
    }
}

/// The array member `key` of a reply, empty when absent or not an array.
fn array_of<'a>(v: &'a Json, key: &str) -> (r: &'a [Json])
    ensures
        r@ == match get(*v, key@) {
            Some(Json::Array(a)) => a@,
            _ => Seq::empty(),
        },
{
    match json_get(v, key) {
        Some(Json::Array(a)) => a.as_slice(),
        _ => &[],
    }
}

/// The entities a synthesis reply proposes, as (name, type label).
pub fn synthesized_entities(reply: &Json) -> (r: Vec<(String, String)>)
    ensures
        r@.map_values(|p: (String, String)| (p.0@, p.1@)) == synth_entities(
            match get(*reply, "entities"@) {
                Some(Json::Array(a)) => a@,
                _ => Seq::empty(),
            },
        ),
{
    let a = array_of(reply, "entities");
    let mut out: Vec<(String, String)> = Vec::new();
    let mut i: usize = 0;
    assert(a@.subrange(0, 0) =~= Seq::<Json>::empty());
    while i < a.len()
        invariant
            i <= a@.len(),
            out@.map_values(|p: (String, String)| (p.0@, p.1@)) == synth_entities(
                a@.subrange(0, i as int),
            ),
        decreases a@.len() - i,
    {
        let ghost pre = a@.subrange(0, (i + 1) as int);
        assert(pre.drop_last() =~= a@.subrange(0, i as int));
        assert(pre.last() == a@[i as int]);
        proof {
            reveal_strlit("");
        }
        let name = text_or(&a[i], "name", "");
        if name.as_str().len() >= 2 {
            let label = text_or(&a[i], "entity_type", "concept");
            out.push((name, label));
        }
        assert(out@.map_values(|p: (String, String)| (p.0@, p.1@)) =~= synth_entities(pre));
        i = i + 1;
    }
    assert(a@.subrange(0, a@.len() as int) =~= a@);
    out
}

/// The relationships a synthesis reply proposes, as (source, target,
/// relation); their strengths are read by the caller.
pub fn synthesized_relationships(reply: &Json) -> (r: Vec<(String, String, String)>)
    ensures
        r@.map_values(|p: (String, String, String)| (p.0@, p.1@, p.2@)) == synth_relationships(
            match get(*reply, "relationships"@) {
                Some(Json::Array(a)) => a@,
                _ => Seq::empty(),
            },
        ),
{
    let a = array_of(reply, "relationships");
    let mut out: Vec<(String, String, String)> = Vec::new();
    let mut i: usize = 0;
    assert(a@.subrange(0, 0) =~= Seq::<Json>::empty());
    while i < a.len()
        invariant
            i <= a@.len(),
            out@.map_values(|p: (String, String, String)| (p.0@, p.1@, p.2@))
                == synth_relationships(a@.subrange(0, i as int)),
        decreases a@.len() - i,
    {
        let ghost pre = a@.subrange(0, (i + 1) as int);
        assert(pre.drop_last() =~= a@.subrange(0, i as int));
        assert(pre.last() == a@[i as int]);
        proof {
            reveal_strlit("");
        }
        let src = text_or(&a[i], "source", "");
        let tgt = text_or(&a[i], "target", "");
        if src.as_str().unicode_len() > 0 && tgt.as_str().unicode_len() > 0 {
            let rel = text_or(&a[i], "relation", "related");
            out.push((src, tgt, rel));
        }
        assert(out@.map_values(|p: (String, String, String)| (p.0@, p.1@, p.2@))
            =~= synth_relationships(pre));
        i = i + 1;
    }
    assert(a@.subrange(0, a@.len() as int) =~= a@);
    out
}

} // verus!
