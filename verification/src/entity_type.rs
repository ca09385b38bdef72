//! Entity type labels: their accepted shape and the canonical vocabulary.
use crate::text::{chars_of, char_is_ws, char_to_lower, is_ws, lower_char, string_of, to_owned, trim, trim_bounds, views};
use vstd::prelude::*;
use vstd::string::*;

verus! {

/// Label an entity carries when nothing better is known.
pub const DEFAULT_ENTITY_TYPE: &'static str = "concept";

/// The compiled vocabulary of entity types, sorted.
pub open spec fn canonical_entity_types() -> Seq<Seq<char>> {
    seq![
        "concept"@,
        "date"@,
        "decision"@,
        "event"@,
        "file"@,
        "incident"@,
        "location"@,
        "memory"@,
        "organization"@,
        "person"@,
        "project"@,
        "tool"@,
    ]
}

/// The compiled vocabulary of entity types, sorted.
pub fn canonical_entity_type_list() -> (r: Vec<String>)
    ensures
        views(r@) == canonical_entity_types(),
{
    let mut v: Vec<String> = Vec::new();
    v.push(to_owned("concept"));
    v.push(to_owned("date"));
    v.push(to_owned("decision"));
    v.push(to_owned("event"));
    v.push(to_owned("file"));
    v.push(to_owned("incident"));
    v.push(to_owned("location"));
    v.push(to_owned("memory"));
    v.push(to_owned("organization"));
    v.push(to_owned("person"));
    v.push(to_owned("project"));
    v.push(to_owned("tool"));
    assert(views(v@) =~= canonical_entity_types());
    v
}

/// One character of a label after shape normalisation: ASCII letters fold to
/// lowercase, and hyphens and whitespace become underscores.
pub open spec fn label_char(c: char) -> char {
    if c == '-' || is_ws(c) {
        '_'
    } else {
        lower_char(c)
    }
}

/// Characters a normalised label may hold.
pub open spec fn is_label_char(c: char) -> bool {
    ('a' <= c && c <= 'z') || ('0' <= c && c <= '9') || c == '_'
}

/// A normalised label: non-empty, starting with a letter, made of label
/// characters only.
pub open spec fn is_label(t: Seq<char>) -> bool {
    &&& t.len() > 0
    &&& 'a' <= t[0] && t[0] <= 'z'
    &&& forall|i: int| 0 <= i < t.len() ==> is_label_char(#[trigger] t[i])
}

/// The label `raw` normalises to, when it has a usable shape.
pub open spec fn normalized_label(raw: Seq<char>) -> Option<Seq<char>> {
    let t = trim(raw).map_values(|c: char| label_char(c));
    if is_label(t) {
        Some(t)
    } else {
        None
    }
}

/// Normalises the shape of an entity type label: surrounding whitespace is
/// dropped, ASCII letters fold to lowercase, hyphens and inner whitespace
/// become underscores. Returns `None` when the result is not a label (empty,
/// not starting with a letter, or holding other characters). Membership in a
/// vocabulary is never checked here.
pub fn normalize_entity_type(raw: &str) -> (r: Option<String>)
    ensures
        match r {
            Some(s) => normalized_label(raw@) == Some(s@),
            None => normalized_label(raw@) is None,
        },
{
    let v = chars_of(raw);
    let (a, b) = trim_bounds(&v);
    let ghost t = v@.subrange(a as int, b as int);
    let mut out: Vec<char> = Vec::new();
    let mut ok = b > a;
    let mut i = a;
    while i < b
        invariant
            a <= i <= b <= v.len(),
            t == v@.subrange(a as int, b as int),
            out@ == t.subrange(0, i - a).map_values(|c: char| label_char(c)),
            ok == (t.len() > 0 && (i > a ==> ('a' <= out@[0] && out@[0] <= 'z')) && forall|k: int|
                0 <= k < out@.len() ==> is_label_char(#[trigger] out@[k])),
        decreases b - i,
    {
        let c = v[i];
        let m = if c == '-' || char_is_ws(c) {
            '_'
        } else {
            char_to_lower(c)
        };
        let first_ok = i != a || ('a' <= m && m <= 'z');
        let char_ok = ('a' <= m && m <= 'z') || ('0' <= m && m <= '9') || m == '_';
        let ghost old_out = out@;
        ok = ok && first_ok && char_ok;
        out.push(m);
        proof {
            assert(out@.last() == m);
            assert(forall|k: int| 0 <= k < old_out.len() ==> out@[k] == old_out[k]);
            if i == a {
                assert(out@[0] == m);
            } else {
                assert(out@[0] == old_out[0]);
            }
            if ok {
                assert forall|k: int| 0 <= k < out@.len() implies is_label_char(#[trigger] out@[k]) by {
                    if k < old_out.len() {
                        assert(out@[k] == old_out[k]);
                    }
                }
            }
            if !char_ok {
                assert(!is_label_char(out@[out@.len() - 1]));
            }
        }
        assert(t.subrange(0, i + 1 - a) =~= t.subrange(0, i - a).push(t[i - a]));
        assert(out@ =~= t.subrange(0, i + 1 - a).map_values(|c: char| label_char(c)));
        i = i + 1;
    }
    assert(t.subrange(0, b - a) =~= t);
    if ok {
        Some(string_of(&out))
    } else {
        None
    }
}

} // verus!
