//! Shared SQL WHERE predicates for enrich scanners and backlog counters, and
//! the boilerplate test applied to descriptions after the SQL scan.
//!
//! Each operation-specific predicate lives in one place so the scanner and
//! the backlog counter cannot drift.
use crate::text::{
    chars_of, contains, contains_exec, decimal, decimal_string, is_blank, is_blank_str, lower,
    is_ws, lower_char, lower_vec, to_owned, trim, trim_bounds, trim_end, trim_start,
};
use vstd::prelude::*;
use vstd::string::*;

verus! {

/// Longest description (in characters) still considered generic by
/// `description-enrich`.
pub const ENRICH_GENERIC_DESCRIPTION_MAX_CHARS: usize = 30;

/// Weight at and above which a relationship is recalibrated by
/// `weight-calibrate`, spelled as the SQL literal it is compared with.
pub const ENRICH_HIGH_WEIGHT_THRESHOLD: &'static str = "0.7";

/// The generic relation label `relation-reclassify` looks for.
pub const GENERIC_RELATION: &'static str = "applies-to";

/// `memory-bindings`: memories with zero `memory_entities` rows.
pub const UNBOUND_MEMORY_PREDICATE: &'static str =
    "NOT EXISTS (SELECT 1 FROM memory_entities me WHERE me.memory_id = m.id)";

/// `entity-descriptions`: entities whose description is NULL or empty.
pub const NULL_DESCRIPTION_PREDICATE: &'static str = "(description IS NULL OR description = '')";

/// High-precision SQL prefilter for `--force-redescribe` low-quality
/// candidates. Full decision logic is [`is_low_quality_description`],
/// applied after the SQL scan.
pub const LOW_QUALITY_DESCRIPTION_PREDICATE: &'static str = "(
    description LIKE '%is a software component%'
    OR description LIKE '%is a software system%'
    OR description LIKE '%is a software application%'
    OR description LIKE '%in the software project%'
    OR description LIKE '%in the context of software%'
    OR description LIKE '%of the software system%'
    OR description LIKE '%in the software system%'
    OR description LIKE '%software/system design%'
    OR description LIKE '%is a configuration file%'
    OR description LIKE '%a configuration file used%'
    OR description LIKE '%generic configuration file%'
    OR description LIKE '%configuration file in the software%'
    OR description LIKE '%enhances chatbot%'
    OR description LIKE '%chatbot response%'
    OR description LIKE '%European digital identity%'
    OR description LIKE '%no additional information%'
    OR description LIKE '%no further information%'
    OR description LIKE '%details are not specified%'
    OR description LIKE '%no specific details%'
    OR description LIKE '%details are unknown%'
    OR description LIKE '%not enough information%'
    OR description LIKE '%insufficient information%'
    OR description LIKE '%no information is available%'
    OR description LIKE '%whose details are%'
    OR description LIKE '%fictional%'
    OR description LIKE '%may refer to%'
    OR description LIKE '%is a placeholder%'
    OR description LIKE '%hypothetical%'
)";

/// `body-enrich`: memory body shorter than the `?2` character threshold.
pub const SHORT_BODY_PREDICATE: &'static str = "LENGTH(COALESCE(m.body,'')) < ?2";

/// High-precision boilerplate substrings (lowercase), aligned with
/// [`LOW_QUALITY_DESCRIPTION_PREDICATE`].
pub open spec fn low_quality_markers() -> Seq<Seq<char>> {
    seq![
        "is a software component"@,
        "is a software system"@,
        "is a software application"@,
        "in the software project"@,
        "in the context of software"@,
        "of the software system"@,
        "in the software system"@,
        "software/system design"@,
        "is a configuration file"@,
        "a configuration file used"@,
        "generic configuration file"@,
        "configuration file in the software"@,
        "enhances chatbot"@,
        "chatbot response"@,
        "european digital identity"@,
        "no additional information"@,
        "no further information"@,
        "details are not specified"@,
        "no specific details"@,
        "details are unknown"@,
        "not enough information"@,
        "insufficient information"@,
        "no information is available"@,
        "whose details are"@,
        "fictional"@,
        "may refer to"@,
        "is a placeholder"@,
        "hypothetical"@,
    ]
}

fn low_quality_marker_list() -> (r: Vec<&'static str>)
    ensures
        r@.map_values(|s: &str| s@) == low_quality_markers(),
{
    let mut v: Vec<&'static str> = Vec::new();
    v.push("is a software component");
    v.push("is a software system");
    v.push("is a software application");
    v.push("in the software project");
    v.push("in the context of software");
    v.push("of the software system");
    v.push("in the software system");
    v.push("software/system design");
    v.push("is a configuration file");
    v.push("a configuration file used");
    v.push("generic configuration file");
    v.push("configuration file in the software");
    v.push("enhances chatbot");
    v.push("chatbot response");
    v.push("european digital identity");
    v.push("no additional information");
    v.push("no further information");
    v.push("details are not specified");
    v.push("no specific details");
    v.push("details are unknown");
    v.push("not enough information");
    v.push("insufficient information");
    v.push("no information is available");
    v.push("whose details are");
    v.push("fictional");
    v.push("may refer to");
    v.push("is a placeholder");
    v.push("hypothetical");
    assert(v@.map_values(|s: &str| s@) =~= low_quality_markers());
    v
}

/// A description is low quality when it is blank, or when its trimmed,
/// ASCII-lowercased text contains one of the boilerplate markers.
pub open spec fn is_low_quality(desc: Seq<char>) -> bool {
    is_blank(desc) || exists|i: int|
        0 <= i < low_quality_markers().len() && contains(
            lower(trim(desc)),
            #[trigger] low_quality_markers()[i],
        )
}

/// Post-filter for entity-description force-redescribe.
///
/// Returns `true` when `desc` matches high-precision boilerplate patterns.
/// Empty or whitespace-only descriptions are treated as low quality so
/// callers can use a single gate.
pub fn is_low_quality_description(desc: &str) -> (r: bool)
    ensures
        r == is_low_quality(desc@),
{
    if is_blank_str(desc) {
        return true;
    }
    let v = chars_of(desc);
    let (a, b) = trim_bounds(&v);
    let mut t: Vec<char> = Vec::new();
    let mut k = a;
    while k < b
        invariant
            a <= k <= b <= v.len(),
            t@ == v@.subrange(a as int, k as int),
        decreases b - k,
    {
        t.push(v[k]);
        assert(t@ =~= v@.subrange(a as int, (k + 1) as int));
        k = k + 1;
    }
    let l = lower_vec(&t);
    let markers = low_quality_marker_list();
    let mut i: usize = 0;
    while i < markers.len()
        invariant
            i <= markers.len(),
            markers@.map_values(|s: &str| s@) == low_quality_markers(),
            l@ == lower(trim(desc@)),
            forall|j: int| 0 <= j < i ==> !contains(l@, #[trigger] low_quality_markers()[j]),
        decreases markers.len() - i,
    {
        let mv = chars_of(markers[i]);
        assert(markers@.map_values(|s: &str| s@)[i as int] == markers@[i as int]@);
        if contains_exec(&l, &mv) {
            return true;
        }
        i = i + 1;
    }
    assert(markers@.map_values(|s: &str| s@).len() == markers@.len());
    false
}

/// `description-enrich`: memories with generic or auto-generated
/// descriptions.
pub open spec fn generic_description_predicate_text() -> Seq<char> {
    "(description LIKE '%ingested%' OR description LIKE '%imported%' OR description LIKE '%added%' OR length(description) < "@
        + decimal(ENRICH_GENERIC_DESCRIPTION_MAX_CHARS as nat) + ")"@
}

/// `description-enrich`: memories with generic or auto-generated
/// descriptions. The length cut-off is interpolated from
/// [`ENRICH_GENERIC_DESCRIPTION_MAX_CHARS`].
pub fn generic_description_predicate() -> (r: String)
    ensures
        r@ == generic_description_predicate_text(),
{
    let mut s = to_owned(
        "(description LIKE '%ingested%' OR description LIKE '%imported%' OR description LIKE '%added%' OR length(description) < ",
    );
    let n = decimal_string(ENRICH_GENERIC_DESCRIPTION_MAX_CHARS);
    s.append(n.as_str());
    s.append(")");
    s
}

/// Predicate for the entity-descriptions scan.
///
/// `named` is true when the caller passed an explicit name filter; then
/// eligibility is the name, not the quality heuristic.
pub fn entity_description_scan_predicate(force_redescribe: bool, named: bool) -> (r: String)
    ensures
        r@ == if force_redescribe && named {
            "1=1"@
        } else if force_redescribe {
            "("@ + NULL_DESCRIPTION_PREDICATE@ + " OR "@ + LOW_QUALITY_DESCRIPTION_PREDICATE@
                + ")"@
        } else {
            NULL_DESCRIPTION_PREDICATE@
        },
{
    if force_redescribe && named {
        to_owned("1=1")
    } else if force_redescribe {
        let mut s = to_owned("(");
        s.append(NULL_DESCRIPTION_PREDICATE);
        s.append(" OR ");
        s.append(LOW_QUALITY_DESCRIPTION_PREDICATE);
        s.append(")");
        s
    } else {
        to_owned(NULL_DESCRIPTION_PREDICATE)
    }
}

/// `weight-calibrate`: relationships strong enough to warrant
/// recalibration, built from [`ENRICH_HIGH_WEIGHT_THRESHOLD`].
pub fn high_weight_predicate() -> (r: String)
    ensures
        r@ == "r.weight >= "@ + ENRICH_HIGH_WEIGHT_THRESHOLD@,
{
    let mut s = to_owned("r.weight >= ");
    s.append(ENRICH_HIGH_WEIGHT_THRESHOLD);
    s
}

/// `relation-reclassify`: relationships still using the generic relation.
pub fn generic_relation_predicate() -> (r: String)
    ensures
        r@ == "r.relation = '"@ + GENERIC_RELATION@ + "'"@,
{
    let mut s = to_owned("r.relation = '");
    s.append(GENERIC_RELATION);
    s.append("'");
    s
}

/// The `NOT EXISTS` clause selecting rows of `owner` that lack a live
/// vector: one whose BLOB holds `dim` 4-byte floats.
pub open spec fn reembed_predicate_text(
    table: Seq<char>,
    alias: Seq<char>,
    key: Seq<char>,
    owner: Seq<char>,
    dim: nat,
) -> Seq<char> {
    "NOT EXISTS (SELECT 1 FROM "@ + table + " "@ + alias + " WHERE "@ + alias + "."@ + key + " = "@
        + owner + ".id AND LENGTH("@ + alias + ".embedding) = "@ + decimal(dim * 4) + ")"@
}

fn reembed_predicate(table: &str, alias: &str, key: &str, owner: &str, dim: usize) -> (r: String)
    requires
        dim * 4 <= usize::MAX,
    ensures
        r@ == reembed_predicate_text(table@, alias@, key@, owner@, dim as nat),
{
    let bytes = dim * 4;
    let mut s = to_owned("NOT EXISTS (SELECT 1 FROM ");
    s.append(table);
    s.append(" ");
    s.append(alias);
    s.append(" WHERE ");
    s.append(alias);
    s.append(".");
    s.append(key);
    s.append(" = ");
    s.append(owner);
    s.append(".id AND LENGTH(");
    s.append(alias);
    s.append(".embedding) = ");
    let n = decimal_string(bytes);
    s.append(n.as_str());
    s.append(")");
    s
}

/// `re-embed --target memories`: memory `m` lacks a live vector at `dim`.
pub fn reembed_memory_predicate(dim: usize) -> (r: String)
    requires
        dim * 4 <= usize::MAX,
    ensures
        r@ == reembed_predicate_text("memory_embeddings"@, "me"@, "memory_id"@, "m"@, dim as nat),
{
    reembed_predicate("memory_embeddings", "me", "memory_id", "m", dim)
}

/// `re-embed --target entities`: entity `e` lacks a live vector at `dim`.
pub fn reembed_entity_predicate(dim: usize) -> (r: String)
    requires
        dim * 4 <= usize::MAX,
    ensures
        r@ == reembed_predicate_text("entity_embeddings"@, "ev"@, "entity_id"@, "e"@, dim as nat),
{
    reembed_predicate("entity_embeddings", "ev", "entity_id", "e", dim)
}

/// `re-embed --target chunks`: chunk `c` lacks a live vector at `dim`.
pub fn reembed_chunk_predicate(dim: usize) -> (r: String)
    requires
        dim * 4 <= usize::MAX,
    ensures
        r@ == reembed_predicate_text("chunk_embeddings"@, "ce"@, "chunk_id"@, "c"@, dim as nat),
{
    reembed_predicate("chunk_embeddings", "ce", "chunk_id", "c", dim)
}

proof fn lemma_lower_keeps_whitespace(c: char)
    ensures
        is_ws(lower_char(c)) == is_ws(c),
        lower_char(lower_char(c)) == lower_char(c),
{
}

proof fn lemma_trim_start_lower(s: Seq<char>)
    ensures
        trim_start(lower(s)) == lower(trim_start(s)),
    decreases s.len(),
{
    if s.len() > 0 {
        lemma_lower_keeps_whitespace(s[0]);
        assert(lower(s)[0] == lower_char(s[0]));
        if is_ws(s[0]) {
            assert(lower(s).drop_first() =~= lower(s.drop_first()));
            lemma_trim_start_lower(s.drop_first());
        }
    } else {
        assert(lower(s) =~= s);
    }
}

proof fn lemma_trim_end_lower(s: Seq<char>)
    ensures
        trim_end(lower(s)) == lower(trim_end(s)),
    decreases s.len(),
{
    if s.len() > 0 {
        lemma_lower_keeps_whitespace(s.last());
        assert(lower(s).last() == lower_char(s.last()));
        if is_ws(s.last()) {
            assert(lower(s).drop_last() =~= lower(s.drop_last()));
            lemma_trim_end_lower(s.drop_last());
        }
    } else {
        assert(lower(s) =~= s);
    }
}

/// Whether a description is boilerplate does not depend on ASCII case: a
/// description and its ASCII-lowercased spelling get the same verdict, so a
/// marker at the start of a capitalised sentence is caught like any other.
pub proof fn lemma_low_quality_ignores_ascii_case(desc: Seq<char>)
    ensures
        is_low_quality(desc) == is_low_quality(lower(desc)),
        forall|i: int|
            0 <= i < low_quality_markers().len() && contains(
                lower(trim(desc)),
                #[trigger] low_quality_markers()[i],
            ) ==> is_low_quality(desc),
{
    lemma_trim_start_lower(desc);
    lemma_trim_end_lower(trim_start(desc));
    let t = trim(desc);
    assert(trim(lower(desc)) == lower(t));
    assert(lower(lower(t)) =~= lower(t)) by {
        assert forall|k: int| 0 <= k < t.len() implies lower(lower(t))[k] == lower(t)[k] by {
            lemma_lower_keeps_whitespace(t[k]);
        }
    }
    assert(is_blank(lower(desc)) == is_blank(desc)) by {
        if is_blank(desc) {
            assert forall|k: int| 0 <= k < lower(desc).len() implies is_ws(#[trigger] lower(desc)[k]) by {
                lemma_lower_keeps_whitespace(desc[k]);
            }
        }
        if is_blank(lower(desc)) {
            assert forall|k: int| 0 <= k < desc.len() implies is_ws(#[trigger] desc[k]) by {
                lemma_lower_keeps_whitespace(desc[k]);
                assert(lower(desc)[k] == lower_char(desc[k]));
            }
        }
    }
}

} // verus!
