//! Decisions of the `entity-descriptions` operation.
//!
//! The operation reads an entity and its linked evidence, asks a model for a
//! one-sentence description, checks that the description is grounded in the
//! evidence, retries once when it reads as boilerplate, and stores it. The
//! reads, the model calls, the grounding score and the write are the
//! caller's; this module decides, from what was read and answered, whether to
//! ask, what to ask, and whether to store or skip.
use crate::errors::AppError;
use crate::json::{as_bool, as_text, get, json_bool, json_get, Json};
use crate::predicates::{is_low_quality, is_low_quality_description};
use crate::memory_ops::preview;
use crate::text::{
    decimal, decimal_string, is_blank, is_blank_str, join, join_strings, trim, trim_str, views,
};
use crate::type_validation::{corpus_sufficient, trimmed_char_count};
use vstd::prelude::*;
use vstd::string::*;

verus! {

/// Linked memory bodies read for an entity's evidence, by default.
pub const ENTITY_DESCRIPTION_CORPUS_TOP_K: usize = 8;

/// Characters kept of each linked body, by default.
pub const ENTITY_DESCRIPTION_SNIPPET_CHARS: usize = 2000;

/// Typed neighbours rendered into an entity's evidence, by default.
pub const ENTITY_DESCRIPTION_NEIGHBOUR_TOP_K: usize = 12;

/// The snippets of the non-blank bodies, trimmed and cut to `max_chars`
/// characters, in order.
pub open spec fn snippets(bodies: Seq<Seq<char>>, max_chars: nat) -> Seq<Seq<char>>
    decreases bodies.len(),
{
    if bodies.len() == 0 {
        Seq::empty()
    } else {
        let rest = snippets(bodies.drop_last(), max_chars);
        let t = trim(bodies.last());
        if t.len() == 0 {
            rest
        } else {
            rest.push(preview(t, max_chars))
        }
    }
}

/// The corpus block of an entity's evidence: the snippets of its linked
/// bodies (most recent first, as read), separated by `---` lines.
pub fn corpus_snippets(bodies: &Vec<String>, max_chars: usize) -> (r: String)
    ensures
        r@ == join(snippets(views(bodies@), max_chars as nat), "\n---\n"@),
{
    let ghost bv = views(bodies@);
    let mut parts: Vec<String> = Vec::new();
    let mut i: usize = 0;
    assert(bv.subrange(0, 0) =~= Seq::<Seq<char>>::empty());
    while i < bodies.len()
        invariant
            i <= bodies.len(),
            bv == views(bodies@),
            views(parts@) == snippets(bv.subrange(0, i as int), max_chars as nat),
        decreases bodies.len() - i,
    {
        let ghost pre = bv.subrange(0, (i + 1) as int);
        assert(pre.drop_last() =~= bv.subrange(0, i as int));
        if !is_blank_str(bodies[i].as_str()) {
            let t = trim_str(bodies[i].as_str());
            let snip = crate::memory_ops::body_preview(t.as_str(), max_chars);
            parts.push(snip);
        }
        assert(views(parts@) =~= snippets(pre, max_chars as nat));
        i = i + 1;
    }
    assert(bv.subrange(0, bodies@.len() as int) =~= bv);
    join_strings(&parts, "\n---\n")
}

/// An entity's evidence: its linked bodies, then its typed relations, each
/// under its heading and only when not blank, separated by a blank line.
pub open spec fn evidence_text(bodies: Seq<char>, edges: Seq<char>) -> Seq<char> {
    let b = if is_blank(bodies) {
        Seq::<Seq<char>>::empty()
    } else {
        seq!["Linked memory bodies:\n"@ + bodies]
    };
    let e = if is_blank(edges) {
        Seq::<Seq<char>>::empty()
    } else {
        seq!["Typed relations in the graph:\n"@ + edges]
    };
    join(b + e, "\n\n"@)
}

/// Assembles an entity's evidence from its corpus block and its rendered
/// relations; the same text is shown to the model, scored for grounding and
/// judged for sufficiency.
pub fn assemble_evidence(bodies: &str, edges: &str) -> (r: String)
    ensures
        r@ == evidence_text(bodies@, edges@),
{
    let mut parts: Vec<String> = Vec::new();
    if !is_blank_str(bodies) {
        let mut s = crate::text::to_owned("Linked memory bodies:\n");
        s.append(bodies);
        parts.push(s);
    }
    let ghost after_bodies = views(parts@);
    if !is_blank_str(edges) {
        let mut s = crate::text::to_owned("Typed relations in the graph:\n");
        s.append(edges);
        parts.push(s);
    }
    proof {
        let b = if is_blank(bodies@) {
            Seq::<Seq<char>>::empty()
        } else {
            seq!["Linked memory bodies:\n"@ + bodies@]
        };
        let e = if is_blank(edges@) {
            Seq::<Seq<char>>::empty()
        } else {
            seq!["Typed relations in the graph:\n"@ + edges@]
        };
        assert(after_bodies =~= b);
        assert(views(parts@) =~= b + e);
    }
    join_strings(&parts, "\n\n")
}

/// Why the model is not asked: the evidence is below the minimum.
pub open spec fn insufficient_grounding_text(corpus_chars: nat, min_corpus_chars: nat) -> Seq<char> {
    "insufficient_grounding: linked corpus has "@ + decimal(corpus_chars) + " chars, minimum is "@
        + decimal(min_corpus_chars)
        + " (consolidate the entity's variants or bind it to a memory before describing it)"@
}

/// Decides whether the model may be asked: `None` when the trimmed evidence
/// holds at least `min_corpus_chars` characters, else the skip reason. An
/// item skipped here costs no tokens.
pub fn description_gate(corpus: &str, min_corpus_chars: usize) -> (r: Option<String>)
    ensures
        r is None <==> corpus_sufficient(corpus@, min_corpus_chars as nat),
        r matches Some(reason) ==> reason@ == insufficient_grounding_text(
            trim(corpus@).len(),
            min_corpus_chars as nat,
        ),
{
    let n = trimmed_char_count(corpus);
    if n >= min_corpus_chars {
        return None;
    }
    let mut s = String::new();
    s.append("insufficient_grounding: linked corpus has ");
    s.append(decimal_string(n).as_str());
    s.append(" chars, minimum is ");
    s.append(decimal_string(min_corpus_chars).as_str());
    s.append(" (consolidate the entity's variants or bind it to a memory before describing it)");
    Some(s)
}

/// What a model reply amounts to.
#[derive(Debug)]
pub enum DescriptionVerdict {
    /// Record the item as skipped, for this reason.
    Skip(String),
    /// The reply is malformed.
    Fail(AppError),
    /// A description to check against the evidence.
    Candidate(String),
}

/// The skip reason when the model reports insufficient evidence.
pub open spec fn declined_text(corpus_chars: nat) -> Seq<char> {
    "insufficient_evidence: model declined to describe from "@ + decimal(corpus_chars)
        + " chars of linked corpus"@
}

/// The skip reason for an explicit null description.
pub open spec fn null_description_text() -> Seq<char> {
    "description returned null: the model abstained"@
}

/// The skip reason for a blank description.
pub open spec fn empty_description_text() -> Seq<char> {
    "description returned empty"@
}

/// The refusal of a reply without a text description.
pub open spec fn missing_description_text() -> Seq<char> {
    "LLM response is missing the 'description' field"@
}

/// The verdict on a reply, as text: the model's abstention (`sufficient_evidence`
/// false) first; then an explicit null description, a blank one, a text one,
/// or none at all (any non-text value counts as none).
pub open spec fn reply_verdict(reply: Json, corpus_chars: nat) -> Result<Seq<char>, (bool, Seq<char>)> {
    if as_bool(get(reply, "sufficient_evidence"@)) == Some(false) {
        Err((true, declined_text(corpus_chars)))
    } else {
        match get(reply, "description"@) {
            Some(Json::Null) => Err((true, null_description_text())),
            Some(Json::Str(s)) => if is_blank(s@) {
                Err((true, empty_description_text()))
            } else {
                Ok(s@)
            },
            _ => Err((false, missing_description_text())),
        }
    }
}

/// Whether `v` is the verdict [`reply_verdict`] describes: `Ok` a candidate,
/// `Err((true, _))` a skip, `Err((false, _))` a failure.
pub open spec fn verdict_is(v: DescriptionVerdict, expected: Result<Seq<char>, (bool, Seq<char>)>) -> bool {
    match v {
        DescriptionVerdict::Candidate(d) => expected == Ok::<Seq<char>, (bool, Seq<char>)>(d@),
        DescriptionVerdict::Skip(reason) => expected == Err::<Seq<char>, (bool, Seq<char>)>(
            (true, reason@),
        ),
        DescriptionVerdict::Fail(AppError::Validation(m)) => expected == Err::<
            Seq<char>,
            (bool, Seq<char>),
        >((false, m@)),
        DescriptionVerdict::Fail(AppError::NotFound(_)) => false,
        DescriptionVerdict::Fail(AppError::DbBusy(_)) => false,
    }
}

/// Reads the model's first reply. `corpus_chars` is the trimmed length of
/// the evidence it was given.
pub fn first_description(reply: &Json, corpus_chars: usize) -> (r: DescriptionVerdict)
    ensures
        verdict_is(r, reply_verdict(*reply, corpus_chars as nat)),
{
    if json_bool(json_get(reply, "sufficient_evidence")) == Some(false) {
        let mut s = String::new();
        s.append("insufficient_evidence: model declined to describe from ");
        s.append(decimal_string(corpus_chars).as_str());
        s.append(" chars of linked corpus");
        return DescriptionVerdict::Skip(s);
    }
    match json_get(reply, "description") {
        Some(Json::Null) => {
            let mut s = String::new();
            s.append("description returned null: the model abstained");
            DescriptionVerdict::Skip(s)
        },
        Some(Json::Str(d)) => {
            if is_blank_str(d.as_str()) {
                let mut s = String::new();
                s.append("description returned empty");
                DescriptionVerdict::Skip(s)
            } else {
                DescriptionVerdict::Candidate(d.clone())
            }
        },
        _ => {
            let mut s = String::new();
            s.append("LLM response is missing the 'description' field");
            DescriptionVerdict::Fail(AppError::Validation(s))
        },
    }
}

/// What to do with a candidate once its grounding has been scored.
#[derive(Debug)]
pub enum CandidateStep {
    /// Not grounded in the evidence: report the preservation failure with
    /// the previous and the candidate lengths.
    NotGrounded { chars_before: usize, chars_after: usize },
    /// Grounded but boilerplate: ask once more with this prompt.
    Retry { prompt: String },
    /// Grounded and specific: decide with [`final_description`].
    Keep,
}

/// The instruction added to the prompt of the one retry.
pub open spec fn retry_instruction() -> Seq<char> {
    "\n\nCRITICAL: your previous draft was rejected as generic filler. Write a concrete domain description using only the evidence above, or set `sufficient_evidence` to false if the evidence does not support one. Forbidden: configuration file, software component, module that, system design, chatbot."@
}

/// Decides the step after the first candidate: `grounded` is the caller's
/// grounding verdict on it, `chars_before` the length of the stored
/// description, `user_text` the prompt the model was given.
pub fn after_grounding(candidate: &str, grounded: bool, chars_before: usize, user_text: &str) -> (r:
    CandidateStep)
    ensures
        !grounded ==> (r matches CandidateStep::NotGrounded { chars_before: b, chars_after: a }
            && b == chars_before && a == candidate@.len()),
        grounded && is_low_quality(candidate@) ==> (r matches CandidateStep::Retry { prompt }
            && prompt@ == user_text@ + retry_instruction()),
        grounded && !is_low_quality(candidate@) ==> r is Keep,
{
    if !grounded {
        return CandidateStep::NotGrounded {
            chars_before,
            chars_after: candidate.unicode_len(),
        };
    }
    if is_low_quality_description(candidate) {
        let mut p = String::new();
        p.append(user_text);
        p.append(
            "\n\nCRITICAL: your previous draft was rejected as generic filler. Write a concrete domain description using only the evidence above, or set `sufficient_evidence` to false if the evidence does not support one. Forbidden: configuration file, software component, module that, system design, chatbot.",
        );
        return CandidateStep::Retry { prompt: p };
    }
    CandidateStep::Keep
}

/// The description a retry offers: its `description` when it is text.
pub fn retry_candidate(reply: &Json) -> (r: Option<String>)
    ensures
        match r {
            Some(d) => as_text(get(*reply, "description"@)) == Some(d@),
            None => as_text(get(*reply, "description"@)) is None,
        },
{
    match json_get(reply, "description") {
        Some(Json::Str(d)) => Some(d.clone()),
        _ => None,
    }
}

/// The description kept after the retry: the retry's, when it offered one
/// that is grounded (`retry_grounded`) and specific; otherwise the first.
pub fn choose_description(first: String, retry: Option<String>, retry_grounded: bool) -> (r: String)
    ensures
        r@ == match retry {
            Some(d) => if retry_grounded && !is_low_quality(d@) {
                d@
            } else {
                first@
            },
            None => first@,
        },
{
    match retry {
        Some(d) => {
            if retry_grounded && !is_low_quality_description(d.as_str()) {
                d
            } else {
                first
            }
        },
        None => first,
    }
}

/// The skip reason when the kept description is still boilerplate.
pub open spec fn post_filter_text(chars_before: nat, chars_after: nat) -> Seq<char> {
    "quality_post_filter: description still matches low-quality predicate (orig="@ + decimal(
        chars_before,
    ) + " chars, candidate="@ + decimal(chars_after) + " chars)"@
}

/// The last gate: store `description` unless it is still boilerplate, in
/// which case the item is skipped with the two lengths.
pub fn final_description(description: String, chars_before: usize) -> (r: Result<String, String>)
    ensures
        !is_low_quality(description@) <==> r is Ok,
        r matches Ok(d) ==> d@ == description@,
        r matches Err(reason) ==> reason@ == post_filter_text(
            chars_before as nat,
            description@.len(),
        ),
{
    if is_low_quality_description(description.as_str()) {
        let mut s = String::new();
        s.append("quality_post_filter: description still matches low-quality predicate (orig=");
        s.append(decimal_string(chars_before).as_str());
        s.append(" chars, candidate=");
        s.append(decimal_string(description.as_str().unicode_len()).as_str());
        s.append(" chars)");
        return Err(s);
    }
    Ok(description)
}

/// An abstention is a skip, never a failure: a reply that reports
/// insufficient evidence, or a null description, skips the item; and a
/// candidate handed on for grounding is never blank.
pub proof fn lemma_abstention_is_a_skip(reply: Json, corpus_chars: nat)
    ensures
        as_bool(get(reply, "sufficient_evidence"@)) == Some(false) ==> (reply_verdict(
            reply,
            corpus_chars,
        ) matches Err((skip, _)) && skip),
        get(reply, "description"@) == Some(Json::Null) ==> (reply_verdict(
            reply,
            corpus_chars,
        ) matches Err((skip, _)) && skip),
        reply_verdict(reply, corpus_chars) matches Ok(d) ==> !is_blank(d),
{
}

} // verus!
