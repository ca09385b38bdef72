//! Enrichment prompts: the entity-description policy and the `user`
//! messages that carry an entity and its evidence to the model.
use crate::text::{
    eq_ignore_ascii_case, is_blank, is_blank_str, lower, to_owned, trim, trim_str,
};
use vstd::prelude::*;
use vstd::string::*;

verus! {

/// Neutral multi-domain entity-description policy. Policy only: the entity
/// and its evidence travel in the `user` message built by
/// [`entity_description_user_text`].
pub const ENTITY_DESCRIPTION_SYSTEM_PROMPT: &'static str = "You are a knowledge graph annotator. From the entity and the evidence in the user message, write a concise one-sentence description (10-20 words) explaining what the entity IS and WHY it matters in its real domain.\n\n\
Grounding rules:\n\
- Use ONLY facts stated in the provided evidence.\n\
- If the evidence does not support any factual statement about this entity, set `sufficient_evidence` to false and `description` to null. Abstaining is the correct answer, never a failure.\n\
- NEVER infer a profession, nationality, employer or biography from a personal name. A name alone is not evidence.\n\
- NEVER fall back to a software, product, framework or configuration-file frame when the evidence does not mention one.\n\
- Write the description in the SAME language as the evidence.";

/// A domain hint that selects no domain section: empty, `auto` or `none`
/// (ASCII case-insensitive), after trimming.
pub open spec fn is_no_domain(d: Seq<char>) -> bool {
    d.len() == 0 || lower(d) == lower("auto"@) || lower(d) == lower("none"@)
}

/// The operator domain hint section for `domain`.
pub open spec fn domain_section_text(domain: Seq<char>) -> Seq<char> {
    let d = trim(domain);
    if is_no_domain(d) {
        Seq::empty()
    } else {
        "Operator domain hint: "@ + d
            + ". Prefer facts consistent with this domain when supported by evidence; do not invent details outside the evidence.\n\n"@
    }
}

/// Optional operator domain hint injected into the description prompt.
/// `auto`, `none` and empty select no domain section.
pub fn entity_description_domain_section(domain: &str) -> (r: String)
    ensures
        r@ == domain_section_text(domain@),
{
    let d = trim_str(domain);
    if d.as_str().unicode_len() == 0 || eq_ignore_ascii_case(d.as_str(), "auto")
        || eq_ignore_ascii_case(d.as_str(), "none") {
        return String::new();
    }
    let mut s = to_owned("Operator domain hint: ");
    s.append(d.as_str());
    s.append(
        ". Prefer facts consistent with this domain when supported by evidence; do not invent details outside the evidence.\n\n",
    );
    s
}

/// The `user` message of the description prompt: the entity under
/// annotation and its evidence.
pub fn entity_description_user_text(
    entity_name: &str,
    entity_type: &str,
    domain_section: &str,
    corpus_section: &str,
) -> (r: String)
    ensures
        r@ == "Entity name: "@ + entity_name@ + "\nEntity type: "@ + entity_type@ + "\n\n"@
            + domain_section@ + corpus_section@,
{
    let mut s = to_owned("Entity name: ");
    s.append(entity_name);
    s.append("\nEntity type: ");
    s.append(entity_type);
    s.append("\n\n");
    s.append(domain_section);
    s.append(corpus_section);
    s
}

/// The trimmed text of an optional field, when it is present and not blank.
pub open spec fn present_text(o: Option<&str>) -> Option<Seq<char>> {
    match o {
        Some(d) => if is_blank(d@) {
            None
        } else {
            Some(trim(d@))
        },
        None => None,
    }
}

/// `label + text + "\n"` when the text is present, nothing otherwise.
pub open spec fn optional_line(label: Seq<char>, o: Option<&str>) -> Seq<char> {
    match present_text(o) {
        Some(t) => label + t + "\n"@,
        None => Seq::empty(),
    }
}

fn append_optional_line(s: &mut String, label: &str, o: Option<&str>)
    ensures
        final(s)@ == old(s)@ + optional_line(label@, o),
{
    if let Some(d) = o {
        if !is_blank_str(d) {
            let t = trim_str(d);
            s.append(label);
            s.append(t.as_str());
            s.append("\n");
            return;
        }
    }
    assert(old(s)@ + Seq::<char>::empty() =~= old(s)@);
}

/// The two endpoints of an edge, with their descriptions when stored.
pub open spec fn edge_endpoints_text(
    source_name: Seq<char>,
    source_description: Option<&str>,
    target_name: Seq<char>,
    target_description: Option<&str>,
) -> Seq<char> {
    "Source entity: "@ + source_name + "\n"@ + optional_line(
        "Source description: "@,
        source_description,
    ) + "Target entity: "@ + target_name + "\n"@ + optional_line(
        "Target description: "@,
        target_description,
    )
}

/// Renders the two endpoints of an edge, with their descriptions when
/// stored. A missing or blank description is omitted rather than rendered
/// as an empty field.
pub fn edge_endpoints_section(
    source_name: &str,
    source_description: Option<&str>,
    target_name: &str,
    target_description: Option<&str>,
) -> (r: String)
    ensures
        r@ == edge_endpoints_text(
            source_name@,
            source_description,
            target_name@,
            target_description,
        ),
{
    let mut text = to_owned("Source entity: ");
    text.append(source_name);
    text.append("\n");
    append_optional_line(&mut text, "Source description: ", source_description);
    text.append("Target entity: ");
    text.append(target_name);
    text.append("\n");
    append_optional_line(&mut text, "Target description: ", target_description);
    text
}

/// The `user` message for `entity-type-validate`.
pub open spec fn type_validate_text(
    entity_name: Seq<char>,
    current_type: Seq<char>,
    description: Option<&str>,
    evidence: Seq<char>,
) -> Seq<char> {
    "Entity name: "@ + entity_name + "\nCurrent type: "@ + current_type + "\n"@ + optional_line(
        "Stored description: "@,
        description,
    ) + if is_blank(evidence) {
        Seq::empty()
    } else {
        "\nEvidence (ground truth; judge only from these facts):\n"@ + trim(evidence) + "\n"@
    }
}

/// Builds the `user` message for `entity-type-validate`. The description and
/// the evidence are each omitted when blank rather than sent as an empty
/// heading.
pub fn entity_type_validate_user_text(
    entity_name: &str,
    current_type: &str,
    description: Option<&str>,
    evidence: &str,
) -> (r: String)
    ensures
        r@ == type_validate_text(entity_name@, current_type@, description, evidence@),
{
    let mut text = to_owned("Entity name: ");
    text.append(entity_name);
    text.append("\nCurrent type: ");
    text.append(current_type);
    text.append("\n");
    append_optional_line(&mut text, "Stored description: ", description);
    if !is_blank_str(evidence) {
        let e = trim_str(evidence);
        text.append("\nEvidence (ground truth; judge only from these facts):\n");
        text.append(e.as_str());
        text.append("\n");
    } else {
        assert(text@ + Seq::<char>::empty() =~= text@);
    }
    text
}

/// The description domain in force: the flag when set to something other
/// than `auto`, else the stored setting when not blank, else `auto`.
pub open spec fn resolved_domain(cli: Seq<char>, stored: Option<&str>) -> Seq<char> {
    let c = trim(cli);
    if c.len() > 0 && lower(c) != lower("auto"@) {
        c
    } else {
        match stored {
            Some(s) => if is_blank(s@) {
                "auto"@
            } else {
                s@
            },
            None => "auto"@,
        }
    }
}

/// Resolves the description domain: flag > stored setting > `auto`.
///
/// `stored` is the value of `enrich.entity_description.domain` for this host,
/// when one is stored and readable.
pub fn resolve_entity_description_domain(cli: &str, stored: Option<&str>) -> (r: String)
    ensures
        r@ == resolved_domain(cli@, stored),
{
    let c = trim_str(cli);
    if c.as_str().unicode_len() > 0 && !eq_ignore_ascii_case(c.as_str(), "auto") {
        return c;
    }
    match stored {
        Some(s) => if is_blank_str(s) {
            to_owned("auto")
        } else {
            to_owned(s)
        },
        None => to_owned("auto"),
    }
}

} // verus!
