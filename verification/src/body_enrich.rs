//! Decisions of the `body-enrich` operation, and the content hash the
//! memory store keeps of every body.
//!
//! The operation asks a model to rewrite a short memory body at more length.
//! The reads, the model call, the preservation score and the write are the
//! caller's; this module builds the prompt, reads the reply and decides
//! whether the rewrite is stored.
use crate::errors::AppError;
use crate::json::{as_text, get, json_get, json_str, Json};
use crate::text::{decimal, decimal_string, join, join_strings, str_eq, to_owned, views};
use vstd::prelude::*;
use vstd::string::*;

verus! {

/// The lowercase hexadecimal BLAKE3 digest of `data`.
pub uninterp spec fn blake3_hex(data: Seq<u8>) -> Seq<char>;

/// A lowercase hexadecimal digit.
pub open spec fn is_hex_digit(c: char) -> bool {
    ('0' <= c && c <= '9') || ('a' <= c && c <= 'f')
}

/// `blake3::hash(data).to_hex()`: the 32-byte BLAKE3 digest of `data`,
/// spelled as 64 lowercase hexadecimal digits. The digest is named, not
/// stated; only its shape is.
#[verifier::external_body]
fn blake3_hex_of(data: &[u8]) -> (r: String)
    ensures
        r@ == blake3_hex(data@),
        r@.len() == 64,
        forall|i: int| 0 <= i < r@.len() ==> is_hex_digit(#[trigger] r@[i]),
{
    blake3::hash(data).to_hex().to_string()
}

/// The content hash stored beside a memory body: the hexadecimal BLAKE3
/// digest of its UTF-8 bytes.
pub fn body_hash(body: &str) -> (r: String)
    ensures
        r@ == blake3_hex(body.spec_bytes()),
        r@.len() == 64,
{
    blake3_hex_of(body.as_bytes())
}

/// The context block of the prompt: present when the memory has linked
/// entities or a description, naming the memory, its type, its description
/// (when not empty), its namespace and its linked entities (when any).
pub open spec fn context_text(
    memory_name: Seq<char>,
    memory_type: Seq<char>,
    description: Seq<char>,
    namespace: Seq<char>,
    linked: Seq<Seq<char>>,
) -> Seq<char> {
    if linked.len() == 0 && description.len() == 0 {
        Seq::empty()
    } else {
        "\nContext:\n- Memory name: "@ + memory_name + "\n- Type: "@ + memory_type + "\n"@ + (
        if description.len() == 0 {
            Seq::empty()
        } else {
            "- Description: "@ + description + "\n"@
        }) + "- Domain: "@ + namespace + "\n"@ + (if linked.len() == 0 {
            Seq::empty()
        } else {
            "- Linked entities: "@ + join(linked, ", "@) + "\n"@
        })
    }
}

/// The prompt of one body rewrite: the template, the context block, and the
/// length targets.
pub open spec fn body_prompt_text(prefix: Seq<char>, context: Seq<char>, min: nat, max: nat) -> Seq<
    char,
> {
    prefix + context + "\nTarget minimum length: "@ + decimal(min) + " characters. Maximum: "@
        + decimal(max) + " characters."@
}

/// Builds the prompt of one body rewrite from the memory's context.
pub fn body_enrich_prompt(
    prefix: &str,
    memory_name: &str,
    memory_type: &str,
    description: &str,
    namespace: &str,
    linked_entities: &Vec<String>,
    min_output_chars: usize,
    max_output_chars: usize,
) -> (r: String)
    ensures
        r@ == body_prompt_text(
            prefix@,
            context_text(memory_name@, memory_type@, description@, namespace@, views(linked_entities@)),
            min_output_chars as nat,
            max_output_chars as nat,
        ),
{
    let mut s = to_owned(prefix);
    let ghost before_context = s@;
    if linked_entities.len() > 0 || description.unicode_len() > 0 {
        s.append("\nContext:\n- Memory name: ");
        s.append(memory_name);
        s.append("\n- Type: ");
        s.append(memory_type);
        s.append("\n");
        let ghost a = s@;
        if description.unicode_len() > 0 {
            s.append("- Description: ");
            s.append(description);
            s.append("\n");
        }
        let ghost b = s@;
        s.append("- Domain: ");
        s.append(namespace);
        s.append("\n");
        let ghost c = s@;
        if linked_entities.len() > 0 {
            s.append("- Linked entities: ");
            let joined = join_strings(linked_entities, ", ");
            s.append(joined.as_str());
            s.append("\n");
        }
        proof {
            let desc_part = if description@.len() == 0 {
                Seq::<char>::empty()
            } else {
                "- Description: "@ + description@ + "\n"@
            };
            let linked_part = if linked_entities@.len() == 0 {
                Seq::<char>::empty()
            } else {
                "- Linked entities: "@ + join(views(linked_entities@), ", "@) + "\n"@
            };
            assert(b =~= a + desc_part);
            assert(s@ =~= c + linked_part);
            assert(s@ =~= before_context + context_text(
                memory_name@,
                memory_type@,
                description@,
                namespace@,
                views(linked_entities@),
            ));
        }
    } else {
        assert(s@ =~= before_context + context_text(
            memory_name@,
            memory_type@,
            description@,
            namespace@,
            views(linked_entities@),
        ));
    }
    s.append("\nTarget minimum length: ");
    s.append(decimal_string(min_output_chars).as_str());
    s.append(" characters. Maximum: ");
    s.append(decimal_string(max_output_chars).as_str());
    s.append(" characters.");
    s
}

/// The refusal of a reply without a text `enriched_body`.
pub open spec fn missing_enriched_body_text() -> Seq<char> {
    "LLM response is missing the 'enriched_body' field"@
}

/// The rewritten body a reply carries; refused when it carries none.
pub fn enriched_body_of(reply: &Json) -> (r: Result<String, AppError>)
    ensures
        match as_text(get(*reply, "enriched_body"@)) {
            Some(t) => r matches Ok(b) && b@ == t,
            None => r matches Err(AppError::Validation(m)) && m@ == missing_enriched_body_text(),
        },
{
    match json_str(json_get(reply, "enriched_body")) {
        Some(t) => Ok(to_owned(t)),
        None => Err(AppError::Validation(to_owned("LLM response is missing the 'enriched_body' field"))),
    }
}

/// What becomes of one rewrite.
#[derive(Debug)]
pub enum BodyEnrichStep {
    /// The rewrite lost too much of the original: report the preservation
    /// failure with both lengths, in characters.
    NotPreserved { chars_before: usize, chars_after: usize },
    /// Store nothing, for this reason.
    Skip(String),
    /// Store the rewrite; it is longer than the original.
    Persist { chars_before: usize, chars_after: usize },
}

/// The skip reason of a rewrite identical to the original.
pub open spec fn identical_text(hash: Seq<char>) -> Seq<char> {
    "enriched body hash matches original (blake3:"@ + hash + "); idempotency skip"@
}

/// The skip reason of a rewrite that is not longer.
pub open spec fn not_longer_text(after: nat, before: nat) -> Seq<char> {
    "enriched body ("@ + decimal(after) + " chars) not longer than original ("@ + decimal(before)
        + " chars)"@
}

/// The texts and lengths a [`BodyEnrichStep`] carries.
pub enum BodyStepView {
    NotPreserved { before: nat, after: nat },
    Skip(Seq<char>),
    Persist { before: nat, after: nat },
}

/// The view of a step.
pub open spec fn step_view(s: BodyEnrichStep) -> BodyStepView {
    match s {
        BodyEnrichStep::NotPreserved { chars_before, chars_after } => BodyStepView::NotPreserved {
            before: chars_before as nat,
            after: chars_after as nat,
        },
        BodyEnrichStep::Skip(reason) => BodyStepView::Skip(reason@),
        BodyEnrichStep::Persist { chars_before, chars_after } => BodyStepView::Persist {
            before: chars_before as nat,
            after: chars_after as nat,
        },
    }
}

/// Whether a rewrite is stored. `preserved` is the caller's verdict that the
/// rewrite keeps enough of the original. In order: a rewrite that is not
/// preserved is reported as such; one whose content hash equals the
/// original's is skipped (re-running a batch stores nothing twice); one that
/// is not longer is skipped; any other is stored.
pub open spec fn body_step(body: &str, enriched: &str, preserved: bool) -> BodyStepView {
    let before = body@.len();
    let after = enriched@.len();
    let old_hash = blake3_hex(body.spec_bytes());
    if !preserved {
        BodyStepView::NotPreserved { before, after }
    } else if old_hash == blake3_hex(enriched.spec_bytes()) {
        BodyStepView::Skip(identical_text(old_hash))
    } else if after <= before {
        BodyStepView::Skip(not_longer_text(after, before))
    } else {
        BodyStepView::Persist { before, after }
    }
}

/// Decides whether a rewrite is stored; see [`body_step`].
pub fn body_enrich_step(body: &str, enriched: &str, preserved: bool) -> (r: BodyEnrichStep)
    ensures
        step_view(r) == body_step(body, enriched, preserved),
{
    let chars_before = body.unicode_len();
    let chars_after = enriched.unicode_len();
    if !preserved {
        return BodyEnrichStep::NotPreserved { chars_before, chars_after };
    }
    let old_hash = body_hash(body);
    let new_hash = body_hash(enriched);
    if str_eq(old_hash.as_str(), new_hash.as_str()) {
        let mut s = to_owned("enriched body hash matches original (blake3:");
        s.append(old_hash.as_str());
        s.append("); idempotency skip");
        return BodyEnrichStep::Skip(s);
    }
    if chars_after <= chars_before {
        let mut s = to_owned("enriched body (");
        s.append(decimal_string(chars_after).as_str());
        s.append(" chars) not longer than original (");
        s.append(decimal_string(chars_before).as_str());
        s.append(" chars)");
        return BodyEnrichStep::Skip(s);
    }
    BodyEnrichStep::Persist { chars_before, chars_after }
}

/// A stored rewrite was judged preserved, is longer than the body it
/// replaces, and differs from it.
pub proof fn lemma_stored_rewrites_grow(body: &str, enriched: &str, preserved: bool)
    ensures
        body_step(body, enriched, preserved) matches BodyStepView::Persist { before, after } ==> {
            &&& preserved
            &&& after > before
            &&& enriched@ != body@
        },
{
}

/// Whether a read-only graph extraction has anything to read: a blank body
/// is skipped with this reason.
pub fn graph_extract_gate(body: &str) -> (r: Option<String>)
    ensures
        r is None <==> !crate::text::is_blank(body@),
        r matches Some(reason) ==> reason@ == "body is empty"@,
{
    if crate::text::is_blank_str(body) {
        Some(to_owned("body is empty"))
    } else {
        None
    }
}

/// The input of a body restructuring request.
pub fn body_extract_input(item_key: &str, body: &str) -> (r: String)
    ensures
        r@ == "Memory: "@ + item_key@ + "\nBody:\n"@ + body@,
{
    let mut s = to_owned("Memory: ");
    s.append(item_key);
    s.append("\nBody:\n");
    s.append(body);
    s
}

/// The restructured body a reply offers, or the original when it offers
/// none; with the lengths in bytes before and after, and the hash stored
/// beside the new body.
pub fn restructured_body(reply: &Json, body: &str) -> (r: (String, usize, usize, String))
    ensures
        r.0@ == match as_text(get(*reply, "restructured_body"@)) {
            Some(t) => t,
            None => body@,
        },
        r.1 == body.spec_bytes().len() as usize,
        r.2 == vstd::utf8::encode_utf8(r.0@).len() as usize,
        r.3@ == blake3_hex(vstd::utf8::encode_utf8(r.0@)),
{
    let text = match json_str(json_get(reply, "restructured_body")) {
        Some(t) => to_owned(t),
        None => to_owned(body),
    };
    let before = body.len();
    let after = text.as_str().len();
    let hash = body_hash(text.as_str());
    (text, before, after, hash)
}

/// Every preserved rewrite whose content differs from the original (by its
/// BLAKE3 digest) and that has more characters than it is stored, with both
/// lengths; and a rewrite is stored only then.
pub proof fn lemma_longer_distinct_rewrites_are_stored(body: &str, enriched: &str, preserved: bool)
    ensures
        (preserved && blake3_hex(body.spec_bytes()) != blake3_hex(enriched.spec_bytes())
            && enriched@.len() > body@.len()) <==> body_step(body, enriched, preserved) is Persist,
        body_step(body, enriched, preserved) matches BodyStepView::Persist { before, after } ==> before
            == body@.len() && after == enriched@.len(),
{
}

} // verus!
