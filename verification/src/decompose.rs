//! Heuristic decomposition of a deep-research query into sub-queries.
//!
//! Splits by relational phrases, then by semicolons or by commas and
//! conjunctions, then into leading and trailing word pairs for longer
//! queries, and fans a single-token query out into aspect facets. Each
//! sub-query carries the label of the branch that produced it.
use crate::text::{
    char_utf8_width, chars_of, contains, find_first, first_occurrence, is_blank,
    is_blank_str, lemma_utf8_len_prefix_mono, replace_all, replace_str,
    split, split_str, string_of_range, to_lowercase, to_owned, trim, trim_str, unicode_lowercase,
    utf8_len, utf8_len_str, utf8_prefix_len, views, words, words_of,
};
use vstd::prelude::*;
use vstd::string::*;

verus! {

/// A sub-query text with the label of the branch that produced it.
pub type LabelledText = (Seq<char>, Seq<char>);

/// The texts and labels of a plan.
pub open spec fn plan_view(v: Seq<(String, &'static str)>) -> Seq<LabelledText> {
    v.map_values(|p: (String, &'static str)| (p.0@, p.1@))
}

/// Relational phrases, most specific first, tried in this order.
pub open spec fn relational_phrases() -> Seq<Seq<char>> {
    seq![
        " that caused "@,
        " depending on "@,
        " related to "@,
        " connected to "@,
        " linked to "@,
        " caused by "@,
        " followed by "@,
    ]
}

/// Aspect facets for a single-token query, in fan-out order.
pub open spec fn single_token_aspects() -> Seq<Seq<char>> {
    seq![
        "patrimonio"@,
        "stack"@,
        "tecnologia"@,
        "stakeholders"@,
        "pessoas"@,
        "projeto"@,
        "decisao"@,
        "relacionamento"@,
        "contexto"@,
        "architecture"@,
        "history"@,
    ]
}

/// Position of the character that starts at UTF-8 byte `p` of `s` (or `s`'s
/// length when `p` is its byte length); `None` when no character starts
/// there.
#[verifier::opaque]
pub open spec fn char_index_of_byte(s: Seq<char>, p: nat) -> Option<int> {
    if exists|j: int| 0 <= j <= s.len() && utf8_len(#[trigger] s.subrange(0, j)) == p {
        Some(choose|j: int| 0 <= j <= s.len() && utf8_len(#[trigger] s.subrange(0, j)) == p)
    } else {
        None
    }
}

/// State of the relational pass: the parts split off so far, the remaining
/// text, whether any phrase split, and whether every byte position the pass
/// slices at falls on a character of the text and fits a `usize`.
pub struct RelationalState {
    pub parts: Seq<LabelledText>,
    pub text: Seq<char>,
    pub did: bool,
    pub ok: bool,
}

/// Where the first match of `phrase` in the lowercased `text` cuts `text`:
/// `None` when the phrase does not occur, `Some(None)` when a cut position
/// is not the start of a character of `text` (or exceeds `usize`), else the
/// character positions where the match begins and ends.
pub open spec fn phrase_cut(text: Seq<char>, phrase: Seq<char>) -> Option<Option<(int, int)>> {
    let l = unicode_lowercase(text);
    if !contains(l, phrase) {
        None
    } else {
        let k = first_occurrence(l, phrase)->Some_0;
        let p = utf8_len(l.subrange(0, k));
        let q = p + utf8_len(phrase);
        if q > usize::MAX {
            Some(None)
        } else {
            match (char_index_of_byte(text, p), char_index_of_byte(text, q)) {
                (Some(j1), Some(j2)) => Some(Some((j1, j2))),
                _ => Some(None),
            }
        }
    }
}

/// One relational phrase applied to the state. The phrase is searched in the
/// lowercased text, and the text is cut at the byte offsets of the match.
pub open spec fn relational_step(st: RelationalState, phrase: Seq<char>) -> RelationalState {
    if !st.ok {
        st
    } else {
        match phrase_cut(st.text, phrase) {
            None => st,
            Some(None) => RelationalState { ok: false, ..st },
            Some(Some((j1, j2))) => {
                let left = trim(st.text.subrange(0, j1));
                let right = trim(st.text.subrange(j2, st.text.len() as int));
                RelationalState {
                    parts: if left.len() > 0 {
                        st.parts.push((left, "decomposed"@))
                    } else {
                        st.parts
                    },
                    text: if right.len() > 0 {
                        right
                    } else {
                        st.text
                    },
                    did: true,
                    ok: true,
                }
            },
        }
    }
}

/// The relational pass after the first `n` phrases.
pub open spec fn relational_after(q: Seq<char>, n: nat) -> RelationalState
    decreases n,
{
    if n == 0 {
        RelationalState { parts: Seq::empty(), text: q, did: false, ok: true }
    } else {
        relational_step(relational_after(q, (n - 1) as nat), relational_phrases()[n - 1])
    }
}

/// The parts the relational pass produces.
pub open spec fn relational_parts(q: Seq<char>) -> Seq<LabelledText> {
    let st = relational_after(q, 7);
    if st.did && st.text.len() > 0 {
        st.parts.push((st.text, "decomposed"@))
    } else {
        st.parts
    }
}

/// The inputs the decomposition is defined on: every cut the relational pass
/// makes lands on a character boundary of the text. Elsewhere the byte
/// slicing it performs would fall inside a character.
pub open spec fn decomposable(q: Seq<char>) -> bool {
    q.len() == 0 || relational_after(q, 7).ok
}

/// The trimmed, non-blank pieces, labelled `decomposed`.
pub open spec fn trimmed_parts(pieces: Seq<Seq<char>>) -> Seq<LabelledText>
    decreases pieces.len(),
{
    if pieces.len() == 0 {
        Seq::empty()
    } else {
        let rest = trimmed_parts(pieces.drop_last());
        if is_blank(pieces.last()) {
            rest
        } else {
            rest.push((trim(pieces.last()), "decomposed"@))
        }
    }
}

/// The query with its conjunctions turned into commas.
pub open spec fn conjunctions_as_commas(q: Seq<char>) -> Seq<char> {
    replace_all(
        replace_all(
            replace_all(replace_all(q, " and "@, ", "@), " AND "@, ", "@),
            " e "@,
            ", "@,
        ),
        " E "@,
        ", "@,
    )
}

/// Parts from semicolons, or else from commas and conjunctions.
pub open spec fn delimiter_parts(q: Seq<char>) -> Seq<LabelledText> {
    if split(q, ';').len() > 1 {
        trimmed_parts(split(q, ';'))
    } else if split(conjunctions_as_commas(q), ',').len() > 1 {
        trimmed_parts(split(conjunctions_as_commas(q), ','))
    } else {
        Seq::empty()
    }
}

/// The words longer than two UTF-8 bytes, in order.
pub open spec fn long_words(ws: Seq<Seq<char>>) -> Seq<Seq<char>>
    decreases ws.len(),
{
    if ws.len() == 0 {
        Seq::empty()
    } else if utf8_len(ws.last()) > 2 {
        long_words(ws.drop_last()).push(ws.last())
    } else {
        long_words(ws.drop_last())
    }
}

/// The query itself plus its leading and trailing word pairs, when it has
/// at least three words longer than two bytes.
pub open spec fn word_pair_parts(q: Seq<char>) -> Seq<LabelledText> {
    let ws = long_words(words(q));
    if ws.len() >= 3 {
        seq![
            (q, "original"@),
            (ws[0] + " "@ + ws[1], "decomposed"@),
            (ws[ws.len() - 2] + " "@ + ws[ws.len() - 1], "decomposed"@),
        ]
    } else {
        Seq::empty()
    }
}

/// The single token followed by one facet per aspect.
pub open spec fn aspect_parts(q: Seq<char>) -> Seq<LabelledText> {
    let token = trim(q);
    seq![(token, "original"@)] + single_token_aspects().map_values(
        |a: Seq<char>| (token + " "@ + a, "aspect"@),
    )
}

/// The first `max` entries.
pub open spec fn truncated<A>(s: Seq<A>, max: nat) -> Seq<A> {
    if s.len() <= max {
        s
    } else {
        s.subrange(0, max as int)
    }
}

/// The sub-query plan for `q`, capped at `max` entries except where the
/// query is kept whole.
pub open spec fn decomposition(q: Seq<char>, max: nat) -> Seq<LabelledText> {
    if q.len() == 0 {
        seq![(q, "original"@)]
    } else {
        let p1 = relational_parts(q);
        let p2 = if p1.len() == 0 {
            delimiter_parts(q)
        } else {
            p1
        };
        let p3 = if p2.len() == 0 {
            word_pair_parts(q)
        } else {
            p2
        };
        if p3.len() == 0 {
            if words(q).len() == 1 {
                truncated(aspect_parts(q), max)
            } else {
                seq![(q, "original"@)]
            }
        } else {
            truncated(p3, max)
        }
    }
}

fn relational_phrase_list() -> (r: Vec<&'static str>)
    ensures
        r@.map_values(|s: &str| s@) == relational_phrases(),
{
    let mut v: Vec<&'static str> = Vec::new();
    v.push(" that caused ");
    v.push(" depending on ");
    v.push(" related to ");
    v.push(" connected to ");
    v.push(" linked to ");
    v.push(" caused by ");
    v.push(" followed by ");
    assert(v@.map_values(|s: &str| s@) =~= relational_phrases());
    v
}

fn single_token_aspect_list() -> (r: Vec<&'static str>)
    ensures
        r@.map_values(|s: &str| s@) == single_token_aspects(),
{
    let mut v: Vec<&'static str> = Vec::new();
    v.push("patrimonio");
    v.push("stack");
    v.push("tecnologia");
    v.push("stakeholders");
    v.push("pessoas");
    v.push("projeto");
    v.push("decisao");
    v.push("relacionamento");
    v.push("contexto");
    v.push("architecture");
    v.push("history");
    assert(v@.map_values(|s: &str| s@) =~= single_token_aspects());
    v
}

proof fn lemma_prefix_bytes_strict(s: Seq<char>, j1: int, j2: int)
    requires
        0 <= j1 < j2 <= s.len(),
    ensures
        utf8_len(s.subrange(0, j1)) < utf8_len(s.subrange(0, j2)),
{
    lemma_utf8_len_prefix_mono(s.subrange(0, j2), j1);
    assert(s.subrange(0, j2).subrange(0, j1) =~= s.subrange(0, j1));
}

/// Character index at byte offset `p` of `v`, when a character starts there.
fn char_index_at_byte(v: &Vec<char>, p: usize) -> (r: Option<usize>)
    ensures
        match r {
            Some(j) => char_index_of_byte(v@, p as nat) == Some(j as int) && j <= v@.len()
                && utf8_len(v@.subrange(0, j as int)) == p,
            None => char_index_of_byte(v@, p as nat) is None,
        },
{
    let mut acc: usize = 0;
    let mut j: usize = 0;
    assert(v@.subrange(0, 0) =~= Seq::<char>::empty());
    loop
        invariant
            j <= v.len(),
            acc == utf8_len(v@.subrange(0, j as int)),
            acc <= p,
        decreases v.len() - j,
    {
        if acc == p {
            proof {
                reveal(char_index_of_byte);
                let c = choose|c: int|
                    0 <= c <= v@.len() && utf8_len(#[trigger] v@.subrange(0, c)) == p as nat;
                assert(c == j as int) by {
                    if c < j {
                        lemma_prefix_bytes_strict(v@, c, j as int);
                    } else if c > j {
                        lemma_prefix_bytes_strict(v@, j as int, c);
                    }
                }
            }
            return Some(j);
        }
        if j == v.len() {
            proof {
                reveal(char_index_of_byte);
                assert forall|c: int| 0 <= c <= v@.len() implies utf8_len(
                    #[trigger] v@.subrange(0, c),
                ) != p as nat by {
                    if c < j {
                        lemma_prefix_bytes_strict(v@, c, j as int);
                    }
                }
            }
            return None;
        }
        let w = char_utf8_width(v[j]);
        assert(v@.subrange(0, (j + 1) as int).drop_last() =~= v@.subrange(0, j as int));
        if w > p - acc {
            proof {
                reveal(char_index_of_byte);
                assert forall|c: int| 0 <= c <= v@.len() implies utf8_len(
                    #[trigger] v@.subrange(0, c),
                ) != p as nat by {
                    if c < j {
                        lemma_prefix_bytes_strict(v@, c, j as int);
                    } else if c > j + 1 {
                        lemma_prefix_bytes_strict(v@, j + 1, c);
                    }
                }
            }
            return None;
        }
        acc = acc + w;
        j = j + 1;
    }
}

proof fn lemma_failure_sticks(q: Seq<char>, i: nat, n: nat)
    requires
        i <= n,
        !relational_after(q, i).ok,
    ensures
        !relational_after(q, n).ok,
    decreases n - i,
{
    if i < n {
        lemma_failure_sticks(q, i, (n - 1) as nat);
    }
}

/// Where the first match of `phrase` in the lowercased `text` cuts it.
fn phrase_cut_exec(text: &str, phrase: &str) -> (r: Option<Option<(usize, usize)>>)
    ensures
        match r {
            None => phrase_cut(text@, phrase@) is None,
            Some(None) => phrase_cut(text@, phrase@) == Some(None::<(int, int)>),
            Some(Some((a, b))) => phrase_cut(text@, phrase@) == Some(Some((a as int, b as int)))
                && a <= b <= text@.len(),
        },
{
    let lowered = to_lowercase(text);
    let lv = chars_of(lowered.as_str());
    let pv = chars_of(phrase);
    let k = match find_first(&lv, &pv) {
        None => return None,
        Some(k) => k,
    };
    let p = match utf8_prefix_len(&lv, k) {
        Some(p) => p,
        None => return Some(None),
    };
    let plen = match utf8_len_str(phrase) {
        Some(b) => b,
        None => return Some(None),
    };
    if plen > usize::MAX - p {
        return Some(None);
    }
    let q = p + plen;
    let tv = chars_of(text);
    match (char_index_at_byte(&tv, p), char_index_at_byte(&tv, q)) {
        (Some(a), Some(b)) => {
            proof {
                if b < a {
                    lemma_prefix_bytes_strict(tv@, b as int, a as int);
                }
            }
            Some(Some((a, b)))
        },
        _ => Some(None),
    }
}

/// One relational phrase applied to the pass state; `None` when a cut would
/// fall inside a character.
fn relational_step_exec(
    parts: Vec<(String, &'static str)>,
    text: String,
    did: bool,
    phrase: &str,
) -> (r: Option<(Vec<(String, &'static str)>, String, bool)>)
    ensures
        ({
            let st = relational_step(
                RelationalState { parts: plan_view(parts@), text: text@, did: did, ok: true },
                phrase@,
            );
            match r {
                None => !st.ok,
                Some((p2, t2, d2)) => st.ok && plan_view(p2@) == st.parts && t2@ == st.text && d2
                    == st.did,
            }
        }),
{
    match phrase_cut_exec(text.as_str(), phrase) {
        None => Some((parts, text, did)),
        Some(None) => None,
        Some(Some((a, b))) => {
            let tv = chars_of(text.as_str());
            let (p2, t2) = cut_text(parts, text, &tv, a, b);
            Some((p2, t2, true))
        },
    }
}

/// Splits the text at character positions `a` and `b`: the trimmed left
/// part joins the plan when non-blank, the trimmed right part replaces the
/// text when non-empty.
fn cut_text(
    parts: Vec<(String, &'static str)>,
    text: String,
    tv: &Vec<char>,
    a: usize,
    b: usize,
) -> (r: (Vec<(String, &'static str)>, String))
    requires
        tv@ == text@,
        a <= b <= tv.len(),
    ensures
        ({
            let left = trim(text@.subrange(0, a as int));
            let right = trim(text@.subrange(b as int, text@.len() as int));
            &&& plan_view(r.0@) == if left.len() > 0 {
                plan_view(parts@).push((left, "decomposed"@))
            } else {
                plan_view(parts@)
            }
            &&& r.1@ == if right.len() > 0 {
                right
            } else {
                text@
            }
        }),
{
    let mut parts = parts;
    let left_raw = string_of_range(tv, 0, a);
    let right_raw = string_of_range(tv, b, tv.len());
    let left = trim_str(left_raw.as_str());
    let right = trim_str(right_raw.as_str());
    let ghost old_parts = plan_view(parts@);
    if left.as_str().unicode_len() > 0 {
        parts.push((left, "decomposed"));
        assert(plan_view(parts@) =~= old_parts.push((left@, "decomposed"@)));
    }
    let new_text = if right.as_str().unicode_len() > 0 {
        right
    } else {
        text
    };
    (parts, new_text)
}

/// The relational pass: `None` when a cut would fall inside a character.
fn relational_pass(query: &str) -> (r: Option<(Vec<(String, &'static str)>, String, bool)>)
    ensures
        match r {
            None => !relational_after(query@, 7).ok,
            Some((parts, text, did)) => {
                let st = relational_after(query@, 7);
                &&& st.ok
                &&& plan_view(parts@) == st.parts
                &&& text@ == st.text
                &&& did == st.did
            },
        },
{
    let phrases = relational_phrase_list();
    let mut parts: Vec<(String, &'static str)> = Vec::new();
    let mut text = to_owned(query);
    let mut did = false;
    let mut i: usize = 0;
    assert(plan_view(parts@) =~= Seq::<LabelledText>::empty());
    assert(phrases@.map_values(|s: &str| s@).len() == phrases@.len());
    while i < 7
        invariant
            i <= 7,
            phrases@.len() == 7,
            phrases@.map_values(|s: &str| s@) == relational_phrases(),
            relational_after(query@, i as nat).ok,
            plan_view(parts@) == relational_after(query@, i as nat).parts,
            text@ == relational_after(query@, i as nat).text,
            did == relational_after(query@, i as nat).did,
        decreases 7 - i,
    {
        let phrase = phrases[i];
        assert(phrases@.map_values(|s: &str| s@)[i as int] == phrases@[i as int]@);
        assert(phrase@ == relational_phrases()[i as int]);
        assert(relational_after(query@, (i + 1) as nat) == relational_step(
            relational_after(query@, i as nat),
            phrase@,
        ));
        match relational_step_exec(parts, text, did, phrase) {
            None => {
                proof {
                    lemma_failure_sticks(query@, (i + 1) as nat, 7);
                }
                return None;
            },
            Some((p2, t2, d2)) => {
                parts = p2;
                text = t2;
                did = d2;
            },
        }
        i = i + 1;
    }
    Some((parts, text, did))
}

/// The trimmed, non-blank pieces, labelled `decomposed`.
fn trimmed_parts_of(pieces: &Vec<String>) -> (r: Vec<(String, &'static str)>)
    ensures
        plan_view(r@) == trimmed_parts(views(pieces@)),
{
    let ghost pv = views(pieces@);
    let mut out: Vec<(String, &'static str)> = Vec::new();
    let mut i: usize = 0;
    assert(plan_view(out@) =~= trimmed_parts(pv.subrange(0, 0)));
    while i < pieces.len()
        invariant
            i <= pieces.len(),
            pv == views(pieces@),
            plan_view(out@) == trimmed_parts(pv.subrange(0, i as int)),
        decreases pieces.len() - i,
    {
        let ghost pre = pv.subrange(0, (i + 1) as int);
        assert(pre.drop_last() =~= pv.subrange(0, i as int));
        assert(pre.last() == pieces@[i as int]@);
        let p = pieces[i].as_str();
        if !is_blank_str(p) {
            let t = trim_str(p);
            out.push((t, "decomposed"));
            assert(plan_view(out@) =~= trimmed_parts(pre));
        }
        i = i + 1;
    }
    assert(pv.subrange(0, pieces@.len() as int) =~= pv);
    out
}

/// Parts from semicolons, or else from commas and conjunctions.
fn delimiter_pass(query: &str) -> (r: Vec<(String, &'static str)>)
    ensures
        plan_view(r@) == delimiter_parts(query@),
{
    let semi = split_str(query, ';');
    if semi.len() > 1 {
        return trimmed_parts_of(&semi);
    }
    let n1 = replace_str(query, " and ", ", ");
    let n2 = replace_str(n1.as_str(), " AND ", ", ");
    let n3 = replace_str(n2.as_str(), " e ", ", ");
    let n4 = replace_str(n3.as_str(), " E ", ", ");
    let comma = split_str(n4.as_str(), ',');
    if comma.len() > 1 {
        return trimmed_parts_of(&comma);
    }
    let out: Vec<(String, &'static str)> = Vec::new();
    assert(plan_view(out@) =~= Seq::<LabelledText>::empty());
    out
}

/// The query with its leading and trailing word pairs.
fn word_pair_pass(query: &str) -> (r: Vec<(String, &'static str)>)
    ensures
        plan_view(r@) == word_pair_parts(query@),
{
    let ws = words_of(query);
    let ghost wv = views(ws@);
    let mut long: Vec<String> = Vec::new();
    let mut i: usize = 0;
    assert(views(long@) =~= long_words(wv.subrange(0, 0)));
    while i < ws.len()
        invariant
            i <= ws.len(),
            wv == views(ws@),
            views(long@) == long_words(wv.subrange(0, i as int)),
        decreases ws.len() - i,
    {
        let ghost pre = wv.subrange(0, (i + 1) as int);
        assert(pre.drop_last() =~= wv.subrange(0, i as int));
        assert(pre.last() == ws@[i as int]@);
        let keep = match utf8_len_str(ws[i].as_str()) {
            Some(b) => b > 2,
            None => true,
        };
        if keep {
            long.push(ws[i].clone());
            assert(views(long@) =~= long_words(pre));
        }
        i = i + 1;
    }
    assert(wv.subrange(0, ws@.len() as int) =~= wv);
    let mut out: Vec<(String, &'static str)> = Vec::new();
    let n = long.len();
    if n >= 3 {
        out.push((to_owned(query), "original"));
        let mut first = long[0].clone();
        first.append(" ");
        first.append(long[1].as_str());
        out.push((first, "decomposed"));
        let mut last = long[n - 2].clone();
        last.append(" ");
        last.append(long[n - 1].as_str());
        out.push((last, "decomposed"));
        proof {
            assert(views(long@)[0] == long@[0]@);
            assert(views(long@)[1] == long@[1]@);
            assert(views(long@)[n - 2] == long@[n - 2]@);
            assert(views(long@)[n - 1] == long@[n - 1]@);
        }
    }
    assert(plan_view(out@) =~= word_pair_parts(query@));
    out
}

/// The single token and its aspect facets, capped at `max` entries.
fn aspect_pass(query: &str, max: usize) -> (r: Vec<(String, &'static str)>)
    ensures
        plan_view(r@) == truncated(aspect_parts(query@), max as nat),
{
    let aspects = single_token_aspect_list();
    let token = trim_str(query);
    let ghost full = aspect_parts(query@);
    let mut out: Vec<(String, &'static str)> = Vec::new();
    out.push((token.clone(), "original"));
    assert(plan_view(out@) =~= full.subrange(0, 1));
    let mut i: usize = 0;
    while i < aspects.len()
        invariant
            i <= aspects.len() == 11,
            aspects@.map_values(|s: &str| s@) == single_token_aspects(),
            token@ == trim(query@),
            full == aspect_parts(query@),
            full.len() == 12,
            out@.len() == i + 1,
            plan_view(out@) == full.subrange(0, i + 1),
        ensures
            i <= 11,
            out@.len() == i + 1,
            plan_view(out@) == full.subrange(0, i + 1),
            out@.len() >= max || i == 11,
        decreases aspects.len() - i,
    {
        if out.len() >= max {
            break;
        }
        let mut facet = token.clone();
        facet.append(" ");
        facet.append(aspects[i]);
        out.push((facet, "aspect"));
        assert(aspects@.map_values(|s: &str| s@)[i as int] == aspects@[i as int]@);
        assert(aspects@[i as int]@ == single_token_aspects()[i as int]);
        assert(plan_view(out@) =~= full.subrange(0, i + 2));
        i = i + 1;
    }
    let ghost before = plan_view(out@);
    if out.len() > max {
        out.truncate(max);
        assert(plan_view(out@) =~= before.subrange(0, max as int));
    }
    proof {
        if out@.len() == 12 {
            assert(full.subrange(0, 12) =~= full);
        }
        assert(plan_view(out@) =~= truncated(full, max as nat));
    }
    out
}

#[verifier::rlimit(40)]
/// Heuristic query decomposition with per-sub-query source labels, or `None`
/// when the query is outside [`decomposable`].
pub fn try_decompose_query_with_sources(query: &str, max: usize) -> (r: Option<
    Vec<(String, &'static str)>,
>)
    ensures
        r is Some <==> decomposable(query@),
        r matches Some(v) ==> plan_view(v@) == decomposition(query@, max as nat),
{
    let qv = chars_of(query);
    if qv.len() == 0 {
        let mut only: Vec<(String, &'static str)> = Vec::new();
        only.push((to_owned(query), "original"));
        assert(plan_view(only@) =~= decomposition(query@, max as nat));
        return Some(only);
    }
    let (mut parts, text, did) = match relational_pass(query) {
        None => return None,
        Some(x) => x,
    };
    if did && text.as_str().unicode_len() > 0 {
        parts.push((text, "decomposed"));
    }
    assert(plan_view(parts@) =~= relational_parts(query@));
    if parts.len() == 0 {
        parts = delimiter_pass(query);
    }
    if parts.len() == 0 {
        parts = word_pair_pass(query);
    }
    if parts.len() == 0 {
        let ws = words_of(query);
        if ws.len() == 1 {
            return Some(aspect_pass(query, max));
        } else {
            let mut only: Vec<(String, &'static str)> = Vec::new();
            only.push((to_owned(query), "original"));
            assert(plan_view(only@) =~= decomposition(query@, max as nat));
            return Some(only);
        }
    }
    let ghost before = plan_view(parts@);
    if parts.len() > max {
        parts.truncate(max);
        assert(plan_view(parts@) =~= before.subrange(0, max as int));
    }
    assert(plan_view(parts@) =~= decomposition(query@, max as nat));
    Some(parts)
}

/// Heuristic query decomposition with per-sub-query source labels.
///
/// Splits by conjunctions, commas, semicolons, relational phrases, word pairs
/// for multi-word queries, and single-token aspect expansion when none of the
/// syntactic branches fire.
pub fn decompose_query_with_sources(query: &str, max: usize) -> (r: Vec<(String, &'static str)>)
    requires
        decomposable(query@),
    ensures
        plan_view(r@) == decomposition(query@, max as nat),
{
    match try_decompose_query_with_sources(query, max) {
        Some(v) => v,
        None => Vec::new(),
    }
}

/// Heuristic query decomposition, texts only.
pub fn decompose_query(query: &str, max: usize) -> (r: Vec<String>)
    requires
        decomposable(query@),
    ensures
        views(r@) == decomposition(query@, max as nat).map_values(|p: LabelledText| p.0),
{
    let planned = decompose_query_with_sources(query, max);
    let mut out: Vec<String> = Vec::new();
    let mut i: usize = 0;
    while i < planned.len()
        invariant
            i <= planned.len(),
            views(out@) == plan_view(planned@).subrange(0, i as int).map_values(
                |p: LabelledText| p.0,
            ),
        decreases planned.len() - i,
    {
        let ghost old_views = views(out@);
        out.push(planned[i].0.clone());
        assert(views(out@) =~= old_views.push(planned@[i as int].0@));
        assert(plan_view(planned@)[i as int] == (planned@[i as int].0@, planned@[i as int].1@));
        assert(views(out@) =~= plan_view(planned@).subrange(0, (i + 1) as int).map_values(
            |p: LabelledText| p.0,
        ));
        i = i + 1;
    }
    assert(plan_view(planned@).subrange(0, planned@.len() as int) =~= plan_view(planned@));
    out
}


/// The plan never exceeds `max` entries, except that a query kept whole is
/// returned as its single entry; and it is never empty when `max` is at
/// least one.
pub proof fn lemma_decomposition_size(q: Seq<char>, max: nat)
    ensures
        decomposition(q, max).len() <= max || decomposition(q, max).len() == 1,
        max >= 1 ==> decomposition(q, max).len() >= 1,
{
    let d = decomposition(q, max);
    if q.len() > 0 {
        let p1 = relational_parts(q);
        let p2 = if p1.len() == 0 {
            delimiter_parts(q)
        } else {
            p1
        };
        let p3 = if p2.len() == 0 {
            word_pair_parts(q)
        } else {
            p2
        };
        if p3.len() == 0 && words(q).len() == 1 {
            assert(aspect_parts(q).len() == 12);
        }
    }
}

/// A source label the plan may carry.
pub open spec fn known_source(label: Seq<char>) -> bool {
    label == "original"@ || label == "decomposed"@ || label == "aspect"@
}

/// Every entry of `p` carries a known source label.
pub open spec fn well_labelled(p: Seq<LabelledText>) -> bool {
    forall|i: int| 0 <= i < p.len() ==> known_source(#[trigger] p[i].1)
}

/// Every entry of `p` has a non-empty text.
pub open spec fn texts_nonempty(p: Seq<LabelledText>) -> bool {
    forall|i: int| 0 <= i < p.len() ==> (#[trigger] p[i]).0.len() > 0
}

/// Every entry of `p` is a non-empty text labelled `decomposed`.
pub open spec fn decomposed_entries(p: Seq<LabelledText>) -> bool {
    forall|i: int| 0 <= i < p.len() ==> (#[trigger] p[i]).1 == "decomposed"@ && p[i].0.len() > 0
}

proof fn lemma_relational_after_entries(q: Seq<char>, n: nat)
    ensures
        decomposed_entries(relational_after(q, n).parts),
        q.len() > 0 ==> relational_after(q, n).text.len() > 0,
    decreases n,
{
    if n > 0 {
        lemma_relational_after_entries(q, (n - 1) as nat);
        let st = relational_after(q, (n - 1) as nat);
        let nx = relational_step(st, relational_phrases()[n - 1]);
        assert(decomposed_entries(nx.parts)) by {
            assert forall|i: int| 0 <= i < nx.parts.len() implies (#[trigger] nx.parts[i]).1
                == "decomposed"@ && nx.parts[i].0.len() > 0 by {
                if i < st.parts.len() {
                    assert(nx.parts[i] == st.parts[i]);
                }
            }
        }
    }
}

proof fn lemma_relational_parts_entries(q: Seq<char>)
    requires
        q.len() > 0,
    ensures
        decomposed_entries(relational_parts(q)),
{
    lemma_relational_after_entries(q, 7);
    let st = relational_after(q, 7);
    let r = relational_parts(q);
    assert forall|i: int| 0 <= i < r.len() implies (#[trigger] r[i]).1 == "decomposed"@ && r[i].0.len()
        > 0 by {
        if i < st.parts.len() {
            assert(r[i] == st.parts[i]);
        }
    }
}

proof fn lemma_trimmed_parts_entries(pieces: Seq<Seq<char>>)
    ensures
        decomposed_entries(trimmed_parts(pieces)),
    decreases pieces.len(),
{
    if pieces.len() > 0 {
        lemma_trimmed_parts_entries(pieces.drop_last());
        let rest = trimmed_parts(pieces.drop_last());
        let r = trimmed_parts(pieces);
        if !is_blank(pieces.last()) {
            crate::text::lemma_blank_iff_trim_empty(pieces.last());
            assert forall|i: int| 0 <= i < r.len() implies (#[trigger] r[i]).1 == "decomposed"@
                && r[i].0.len() > 0 by {
                if i < rest.len() {
                    assert(r[i] == rest[i]);
                }
            }
        }
    }
}

proof fn lemma_truncated_keeps(p: Seq<LabelledText>, max: nat)
    requires
        well_labelled(p),
        texts_nonempty(p),
    ensures
        well_labelled(truncated(p, max)),
        texts_nonempty(truncated(p, max)),
{
    let t = truncated(p, max);
    assert forall|i: int| 0 <= i < t.len() implies known_source(#[trigger] t[i].1) by {
        assert(t[i] == p[i]);
    }
    assert forall|i: int| 0 <= i < t.len() implies (#[trigger] t[i]).0.len() > 0 by {
        assert(t[i] == p[i]);
    }
}

proof fn lemma_decomposed_entries_labelled(p: Seq<LabelledText>)
    requires
        decomposed_entries(p),
    ensures
        well_labelled(p),
        texts_nonempty(p),
{
    assert forall|i: int| 0 <= i < p.len() implies known_source(#[trigger] p[i].1) by {
        assert(p[i].1 == "decomposed"@);
    }
    assert forall|i: int| 0 <= i < p.len() implies (#[trigger] p[i]).0.len() > 0 by {
        assert(p[i].1 == "decomposed"@);
    }
}

/// Every sub-query of a plan is labelled `original`, `decomposed` or
/// `aspect`, and, for a non-empty query, none of their texts is empty.
pub proof fn lemma_decomposition_labels(q: Seq<char>, max: nat)
    ensures
        well_labelled(decomposition(q, max)),
        q.len() > 0 ==> texts_nonempty(decomposition(q, max)),
{
    let d = decomposition(q, max);
    if q.len() == 0 {
        assert(d[0].1 == "original"@);
    } else {
        let p1 = relational_parts(q);
        let p2 = if p1.len() == 0 {
            delimiter_parts(q)
        } else {
            p1
        };
        let p3 = if p2.len() == 0 {
            word_pair_parts(q)
        } else {
            p2
        };
        lemma_relational_parts_entries(q);
        lemma_trimmed_parts_entries(split(q, ';'));
        lemma_trimmed_parts_entries(split(conjunctions_as_commas(q), ','));
        assert(decomposed_entries(delimiter_parts(q)));
        if p3.len() == 0 {
            if words(q).len() == 1 {
                let token = trim(q);
                if is_blank(q) {
                    crate::text::lemma_blank_has_no_words(q);
                }
                crate::text::lemma_blank_iff_trim_empty(q);
                let a = aspect_parts(q);
                assert(well_labelled(a) && texts_nonempty(a)) by {
                    reveal_strlit(" ");
                    assert forall|i: int| 0 <= i < a.len() implies known_source(#[trigger] a[i].1)
                        && a[i].0.len() > 0 by {
                        if i > 0 {
                            let x = single_token_aspects()[i - 1];
                            assert(a[i] == (token + " "@ + x, "aspect"@));
                            assert((token + " "@ + x).len() >= 1);
                        } else {
                            assert(a[i] == (token, "original"@));
                        }
                    }
                }
                lemma_truncated_keeps(a, max);
            } else {
                assert(d[0] == (q, "original"@));
            }
        } else {
            if p2.len() == 0 {
                let w = word_pair_parts(q);
                let ws = long_words(words(q));
                reveal_strlit(" ");
                assert(well_labelled(w) && texts_nonempty(w)) by {
                    assert forall|i: int| 0 <= i < w.len() implies known_source(#[trigger] w[i].1)
                        && w[i].0.len() > 0 by {
                        if i == 1 {
                            assert((ws[0] + " "@ + ws[1]).len() >= 1);
                        } else if i == 2 {
                            assert((ws[ws.len() - 2] + " "@ + ws[ws.len() - 1]).len() >= 1);
                        }
                    }
                }
                lemma_truncated_keeps(w, max);
            } else {
                lemma_decomposed_entries_labelled(p2);
                lemma_truncated_keeps(p2, max);
            }
        }
    }
}

/// A query that no relational phrase, semicolon, comma or conjunction
/// splits, and that has at least three words longer than two bytes, is
/// searched as itself, then as its first two such words, then as its last
/// two, each pair joined by one space (as far as `max` allows).
pub proof fn lemma_word_pairs_of_a_plain_query(q: Seq<char>, max: nat)
    requires
        q.len() > 0,
        relational_parts(q).len() == 0,
        delimiter_parts(q).len() == 0,
        long_words(words(q)).len() >= 3,
    ensures
        ({
            let ws = long_words(words(q));
            let d = decomposition(q, max);
            &&& d.len() == if max < 3 {
                max
            } else {
                3
            }
            &&& max >= 1 ==> d[0] == (q, "original"@)
            &&& max >= 2 ==> d[1] == (ws[0] + " "@ + ws[1], "decomposed"@)
            &&& max >= 3 ==> d[2] == (ws[ws.len() - 2] + " "@ + ws[ws.len() - 1], "decomposed"@)
        }),
{
}

} // verus!
