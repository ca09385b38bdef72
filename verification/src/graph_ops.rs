//! Decisions of the graph operations of `enrich`: `weight-calibrate`,
//! `relation-reclassify` and `entity-connect`.
//!
//! Each reads one edge or one pair of entities, asks a model, and writes the
//! answer. The reads, the model call and the writes are the caller's; this
//! module reads the queue key, builds the model input and reads the reply.
use crate::errors::AppError;
use crate::json::{as_text, get, json_get, json_str, Json};
use crate::text::{str_eq, to_owned};
use vstd::prelude::*;
use vstd::string::*;

verus! {

/// Whether `c` is an ASCII digit.
pub open spec fn is_digit(c: char) -> bool {
    '0' <= c && c <= '9'
}

/// The value of a string of ASCII digits.
pub open spec fn digits_value(s: Seq<char>) -> nat
    decreases s.len(),
{
    if s.len() == 0 {
        0
    } else {
        digits_value(s.drop_last()) * 10 + ((s.last() as u32) - ('0' as u32)) as nat
    }
}

/// What follows an optional leading sign.
pub open spec fn digit_part(s: Seq<char>) -> Seq<char> {
    if s.len() > 0 && (s[0] == '-' || s[0] == '+') {
        s.drop_first()
    } else {
        s
    }
}

/// Whether every character is an ASCII digit.
pub open spec fn all_digits(s: Seq<char>) -> bool {
    forall|i: int| 0 <= i < s.len() ==> is_digit(#[trigger] s[i])
}

/// The integer `str::parse::<i64>` reads from `s`: an optional `+` or `-`,
/// then at least one ASCII digit and nothing else, within the range of
/// `i64`.
pub open spec fn parsed_i64(s: Seq<char>) -> Option<int> {
    let negative = s.len() > 0 && s[0] == '-';
    let digits = digit_part(s);
    if digits.len() == 0 || !all_digits(digits) {
        None
    } else {
        let v: int = if negative {
            -(digits_value(digits) as int)
        } else {
            digits_value(digits) as int
        };
        if i64::MIN <= v && v <= i64::MAX {
            Some(v)
        } else {
            None
        }
    }
}

proof fn lemma_digits_value_grows(s: Seq<char>, k: int)
    requires
        0 <= k <= s.len(),
        forall|i: int| 0 <= i < s.len() ==> is_digit(#[trigger] s[i]),
    ensures
        digits_value(s.subrange(0, k)) <= digits_value(s),
    decreases s.len() - k,
{
    if k < s.len() {
        lemma_digits_value_grows(s, k + 1);
        let p = s.subrange(0, k + 1);
        assert(p.drop_last() =~= s.subrange(0, k));
        assert(is_digit(p.last()));
    } else {
        assert(s.subrange(0, k) =~= s);
    }
}

/// Reads a decimal integer as `str::parse::<i64>` does.
pub fn parse_i64(s: &str) -> (r: Option<i64>)
    ensures
        r matches Some(v) ==> parsed_i64(s@) == Some(v as int),
        r is None ==> parsed_i64(s@) is None,
{
    let v = crate::text::chars_of(s);
    let n = v.len();
    if n == 0 {
        return None;
    }
    let negative = v[0] == '-';
    let signed = v[0] == '-' || v[0] == '+';
    let start: usize = if signed {
        1
    } else {
        0
    };
    let ghost digits = digit_part(s@);
    assert(digits =~= v@.subrange(start as int, n as int));
    if start == n {
        return None;
    }
    let limit: u128 = 9223372036854775808;
    let mut acc: u128 = 0;
    let mut k: usize = start;
    while k < n
        invariant
            start <= k <= n,
            n == v@.len(),
            v@ == s@,
            digits == v@.subrange(start as int, n as int),
            digits == digit_part(s@),
            forall|i: int| start <= i < k ==> is_digit(#[trigger] v@[i]),
            acc as nat == digits_value(v@.subrange(start as int, k as int)),
            acc <= limit,
            limit == 9223372036854775808u128,
            signed ==> start == 1,
            !signed ==> start == 0,
        decreases n - k,
    {
        let c = v[k];
        if !('0' <= c && c <= '9') {
            assert(digits[k - start] == c);
            assert(!is_digit(digits[k - start]));
            assert(!all_digits(digits));
            return None;
        }
        let d = (c as u32 - '0' as u32) as u128;
        let next = acc * 10 + d;
        assert(v@.subrange(start as int, (k + 1) as int).drop_last() =~= v@.subrange(
            start as int,
            k as int,
        ));
        if next > limit {
            proof {
                assert forall|i: int| 0 <= i < (k + 1 - start) implies is_digit(
                    #[trigger] v@.subrange(start as int, (k + 1) as int)[i],
                ) by {}
                if all_digits(digits) {
                    lemma_digits_value_grows(digits, (k + 1 - start) as int);
                    assert(digits.subrange(0, (k + 1 - start) as int) =~= v@.subrange(
                        start as int,
                        (k + 1) as int,
                    ));
                }
            }
            return None;
        }
        acc = next;
        k = k + 1;
    }
    assert(v@.subrange(start as int, n as int) =~= digits);
    if negative {
        if acc == limit {
            return Some(i64::MIN);
        }
        let m = acc as i64;
        Some(-m)
    } else {
        if acc == limit {
            return None;
        }
        Some(acc as i64)
    }
}

/// The refusal of a queue key that is not a relationship id.
pub open spec fn invalid_relationship_id_text(key: Seq<char>) -> Seq<char> {
    "invalid relationship id '"@ + key + "'"@
}

/// The relationship a `weight-calibrate` or `relation-reclassify` queue key
/// names: the key read as an integer.
pub fn relationship_id(item_key: &str) -> (r: Result<i64, AppError>)
    ensures
        match parsed_i64(item_key@) {
            Some(v) => r matches Ok(id) && id == v,
            None => r matches Err(AppError::Validation(m)) && m@ == invalid_relationship_id_text(
                item_key@,
            ),
        },
{
    match parse_i64(item_key) {
        Some(id) => Ok(id),
        None => {
            let mut m = to_owned("invalid relationship id '");
            m.append(item_key);
            m.append("'");
            Err(AppError::Validation(m))
        },
    }
}

/// The model input of `relation-reclassify`: the edge's endpoints section,
/// then its current relation.
pub fn reclassify_input(endpoints: &str, current_relation: &str) -> (r: String)
    ensures
        r@ == endpoints@ + "Current relation: "@ + current_relation@,
{
    let mut s = to_owned(endpoints);
    s.append("Current relation: ");
    s.append(current_relation);
    s
}

/// The model input of `entity-connect`: the two entity names.
pub fn connect_input(first: &str, second: &str) -> (r: String)
    ensures
        r@ == "Entity A: "@ + first@ + "\nEntity B: "@ + second@,
{
    let mut s = to_owned("Entity A: ");
    s.append(first);
    s.append("\nEntity B: ");
    s.append(second);
    s
}

/// The relation an `entity-connect` reply proposes: its `relation` text, or
/// `none` when absent; `None` means the model found no relationship.
pub open spec fn proposed_relation(reply: Json) -> Option<Seq<char>> {
    match as_text(get(reply, "relation"@)) {
        Some(t) => if t == "none"@ {
            None
        } else {
            Some(t)
        },
        None => None,
    }
}

/// Reads the relation an `entity-connect` reply proposes.
pub fn connect_relation(reply: &Json) -> (r: Option<String>)
    ensures
        match proposed_relation(*reply) {
            Some(t) => r matches Some(s) && s@ == t,
            None => r is None,
        },
{
    match json_str(json_get(reply, "relation")) {
        Some(t) => {
            if str_eq(t, "none") {
                None
            } else {
                Some(to_owned(t))
            }
        },
        None => None,
    }
}

/// The refusal of a reclassification reply without a relation.
pub open spec fn missing_relation_text() -> Seq<char> {
    "LLM response is missing the 'relation' field"@
}

/// Reads the relation a `relation-reclassify` reply proposes; refused when
/// it has none.
pub fn reclassified_relation(reply: &Json) -> (r: Result<String, AppError>)
    ensures
        match as_text(get(*reply, "relation"@)) {
            Some(t) => r matches Ok(s) && s@ == t,
            None => r matches Err(AppError::Validation(m)) && m@ == missing_relation_text(),
        },
{
    match json_str(json_get(reply, "relation")) {
        Some(t) => Ok(to_owned(t)),
        None => Err(AppError::Validation(to_owned("LLM response is missing the 'relation' field"))),
    }
}

/// Every integer in the range of `i64` reads back from its decimal
/// spelling, with or without a `+`.
pub proof fn lemma_parse_accepts_plain_digits(s: Seq<char>)
    requires
        s.len() > 0,
        forall|i: int| 0 <= i < s.len() ==> is_digit(#[trigger] s[i]),
        digits_value(s) <= i64::MAX,
    ensures
        parsed_i64(s) == Some(digits_value(s) as int),
        parsed_i64(seq!['+'] + s) == Some(digits_value(s) as int),
        parsed_i64(seq!['-'] + s) == Some(-(digits_value(s) as int)),
{
    assert(!(s[0] == '-' || s[0] == '+'));
    assert((seq!['+'] + s).drop_first() =~= s);
    assert((seq!['-'] + s).drop_first() =~= s);
}

} // verus!
