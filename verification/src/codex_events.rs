//! Reading the output of `codex exec --json`: its event stream, the agent's
//! extraction payload, and the local model cache.
//!
//! The caller splits the stream with [`codex_jsonl_lines`], parses each line
//! (and later the agent's text) into [`Json`], and hands the values back.
use crate::errors::AppError;
use crate::json::{as_text, as_u64, get, json_get, json_str, json_u64, member, Json};
use crate::text::{
    bool_text, contains, is_blank, is_blank_str, push_bool, split, split_str, str_contains, str_eq,
    to_owned, trim, trim_str, views,
};
use vstd::prelude::*;
use vstd::string::*;

verus! {

/// Token usage reported by Codex on `turn.completed` events.
#[derive(Debug, Clone, Copy, PartialEq, Eq, Default, Structural)]
pub struct CodexUsage {
    /// Input tokens.
    pub input_tokens: u64,
    /// Cached input tokens.
    pub cached_input_tokens: u64,
    /// Output tokens.
    pub output_tokens: u64,
    /// Reasoning output tokens.
    pub reasoning_output_tokens: u64,
}

/// The trimmed, non-blank pieces of `pieces`, in order.
pub open spec fn nonblank_trimmed(pieces: Seq<Seq<char>>) -> Seq<Seq<char>>
    decreases pieces.len(),
{
    if pieces.len() == 0 {
        Seq::empty()
    } else if is_blank(pieces.last()) {
        nonblank_trimmed(pieces.drop_last())
    } else {
        nonblank_trimmed(pieces.drop_last()).push(trim(pieces.last()))
    }
}

/// The trimmed, non-blank lines of a JSONL stream, in order.
pub fn codex_jsonl_lines(stdout: &str) -> (r: Vec<String>)
    ensures
        views(r@) == nonblank_trimmed(split(stdout@, '\n')),
{
    let pieces = split_str(stdout, '\n');
    let ghost pv = views(pieces@);
    let mut out: Vec<String> = Vec::new();
    let mut i: usize = 0;
    assert(views(out@) =~= nonblank_trimmed(pv.subrange(0, 0)));
    while i < pieces.len()
        invariant
            i <= pieces.len(),
            pv == views(pieces@),
            views(out@) == nonblank_trimmed(pv.subrange(0, i as int)),
        decreases pieces.len() - i,
    {
        let ghost pre = pv.subrange(0, (i + 1) as int);
        assert(pre.drop_last() =~= pv.subrange(0, i as int));
        assert(pre.last() == pieces@[i as int]@);
        if !is_blank_str(pieces[i].as_str()) {
            out.push(trim_str(pieces[i].as_str()));
            assert(views(out@) =~= nonblank_trimmed(pre));
        }
        i = i + 1;
    }
    assert(pv.subrange(0, pieces@.len() as int) =~= pv);
    out
}

/// One usage counter: absent reads as zero, a non-negative integer as its
/// value, anything else makes the usage unreadable.
pub open spec fn usage_field(u: Json, key: Seq<char>) -> Option<u64> {
    match get(u, key) {
        None => Some(0),
        Some(Json::Number(Some(n))) => Some(n),
        Some(_) => None,
    }
}

/// The usage an event's `usage` object reports, when every counter present
/// is a non-negative integer.
pub open spec fn usage_from(u: Json) -> Option<CodexUsage> {
    if !(u is Object) {
        None
    } else {
        match (
            usage_field(u, "input_tokens"@),
            usage_field(u, "cached_input_tokens"@),
            usage_field(u, "output_tokens"@),
            usage_field(u, "reasoning_output_tokens"@),
        ) {
            (Some(a), Some(b), Some(c), Some(d)) => Some(
                CodexUsage {
                    input_tokens: a,
                    cached_input_tokens: b,
                    output_tokens: c,
                    reasoning_output_tokens: d,
                },
            ),
            _ => None,
        }
    }
}

/// The counter `key` of a usage object as reported: its value when it holds
/// a whole number, zero when it is absent.
pub open spec fn counter_reads(u: Json, key: Seq<char>, reported: u64) -> bool {
    &&& as_u64(get(u, key)) matches Some(n) ==> reported == n
    &&& get(u, key) is None ==> reported == 0
}

/// Each usage counter is read from its own key: a whole number under
/// `input_tokens`, `cached_input_tokens`, `output_tokens` or
/// `reasoning_output_tokens` is reported as that counter, an absent key as
/// zero; and an object whose four keys are each absent or a whole number is
/// always read.
pub proof fn lemma_usage_counters_by_key(u: Json)
    ensures
        usage_from(u) matches Some(x) ==> {
            &&& counter_reads(u, "input_tokens"@, x.input_tokens)
            &&& counter_reads(u, "cached_input_tokens"@, x.cached_input_tokens)
            &&& counter_reads(u, "output_tokens"@, x.output_tokens)
            &&& counter_reads(u, "reasoning_output_tokens"@, x.reasoning_output_tokens)
        },
        (u is Object && (get(u, "input_tokens"@) is None || as_u64(get(u, "input_tokens"@)) is Some)
            && (get(u, "cached_input_tokens"@) is None || as_u64(get(u, "cached_input_tokens"@)) is Some)
            && (get(u, "output_tokens"@) is None || as_u64(get(u, "output_tokens"@)) is Some) && (get(
            u,
            "reasoning_output_tokens"@,
        ) is None || as_u64(get(u, "reasoning_output_tokens"@)) is Some)) ==> usage_from(u) is Some,
{
}

/// A usage object counts only when it reports input or output tokens.
pub open spec fn usage_populated(u: Json) -> bool {
    (as_u64(get(u, "input_tokens"@)) matches Some(n) && n > 0) || (as_u64(
        get(u, "output_tokens"@),
    ) matches Some(n) && n > 0)
}

/// What the stream has reported so far.
pub struct CodexScan {
    pub last_agent_text: Option<Seq<char>>,
    pub usage: Option<CodexUsage>,
    pub rate_limited: bool,
    pub schema_error: bool,
    pub turn_failed: bool,
    pub failed_message: Seq<char>,
}

/// A failure message that reports a rate limit.
pub open spec fn mentions_rate_limit(msg: Seq<char>) -> bool {
    contains(msg, "rate_limit"@) || contains(msg, "429"@) || contains(msg, "Too Many Requests"@)
}

/// One event applied to the scan; `None` stands for a malformed line, which
/// is skipped.
pub open spec fn scan_event(st: CodexScan, e: Option<Json>) -> CodexScan {
    match e {
        None => st,
        Some(ev) => match as_text(get(ev, "type"@)) {
            None => st,
            Some(t) => if t == "item.completed"@ {
                match get(ev, "item"@) {
                    Some(item) => if as_text(get(item, "type"@)) == Some("agent_message"@)
                        && as_text(get(item, "text"@)) is Some {
                        CodexScan { last_agent_text: as_text(get(item, "text"@)), ..st }
                    } else {
                        st
                    },
                    None => st,
                }
            } else if t == "turn.completed"@ {
                match get(ev, "usage"@) {
                    Some(u) => if usage_populated(u) && usage_from(u) is Some {
                        CodexScan { usage: usage_from(u), ..st }
                    } else {
                        st
                    },
                    None => st,
                }
            } else if t == "turn.failed"@ {
                match get(ev, "error"@) {
                    Some(err) => {
                        let msg = match as_text(get(err, "message"@)) {
                            Some(m) => m,
                            None => "unknown error"@,
                        };
                        CodexScan {
                            turn_failed: true,
                            failed_message: msg,
                            rate_limited: st.rate_limited || mentions_rate_limit(msg),
                            ..st
                        }
                    },
                    None => CodexScan { turn_failed: true, ..st },
                }
            } else if t == "error"@ {
                match as_text(get(ev, "message"@)) {
                    Some(msg) => if contains(msg, "invalid_json_schema"@) || contains(
                        msg,
                        "schema"@,
                    ) {
                        CodexScan { schema_error: true, ..st }
                    } else {
                        st
                    },
                    None => st,
                }
            } else {
                st
            },
        },
    }
}

/// The scan after all of `events`, in order.
pub open spec fn scan_events(events: Seq<Option<Json>>) -> CodexScan
    decreases events.len(),
{
    if events.len() == 0 {
        CodexScan {
            last_agent_text: None,
            usage: None,
            rate_limited: false,
            schema_error: false,
            turn_failed: false,
            failed_message: Seq::empty(),
        }
    } else {
        scan_event(scan_events(events.drop_last()), events.last())
    }
}

/// The `type` of an event; `None` for a malformed line or a missing type.
pub open spec fn event_type(e: Option<Json>) -> Option<Seq<char>> {
    match e {
        Some(ev) => as_text(get(ev, "type"@)),
        None => None,
    }
}

/// The text an event contributes as an agent message: that of an
/// `item.completed` whose item is an `agent_message` with a string text.
pub open spec fn agent_text_of(e: Option<Json>) -> Option<Seq<char>> {
    match e {
        Some(ev) => if event_type(e) == Some("item.completed"@) {
            match get(ev, "item"@) {
                Some(item) => if as_text(get(item, "type"@)) == Some("agent_message"@) {
                    as_text(get(item, "text"@))
                } else {
                    None
                },
                None => None,
            }
        } else {
            None
        },
        None => None,
    }
}

/// The agent texts of a stream, in order.
pub open spec fn agent_texts(events: Seq<Option<Json>>) -> Seq<Seq<char>>
    decreases events.len(),
{
    if events.len() == 0 {
        Seq::empty()
    } else {
        match agent_text_of(events.last()) {
            Some(t) => agent_texts(events.drop_last()).push(t),
            None => agent_texts(events.drop_last()),
        }
    }
}

/// A `turn.failed` event.
pub open spec fn fails_turn(e: Option<Json>) -> bool {
    event_type(e) == Some("turn.failed"@)
}

/// An `error` event whose message speaks of the schema.
pub open spec fn reports_schema_error(e: Option<Json>) -> bool {
    &&& event_type(e) == Some("error"@)
    &&& e matches Some(ev) && as_text(get(ev, "message"@)) matches Some(msg) && (contains(
        msg,
        "invalid_json_schema"@,
    ) || contains(msg, "schema"@))
}

/// Some event of `events` is a `turn.failed`.
pub open spec fn any_turn_failed(events: Seq<Option<Json>>) -> bool {
    exists|i: int| 0 <= i < events.len() && fails_turn(#[trigger] events[i])
}

/// Some event of `events` reports a schema error.
pub open spec fn any_schema_error(events: Seq<Option<Json>>) -> bool {
    exists|i: int| 0 <= i < events.len() && reports_schema_error(#[trigger] events[i])
}

/// What the scan of a stream holds, stated event by event: the last agent
/// text is the last of the stream's agent texts; a turn failed, or a schema
/// error was reported, exactly when some event says so; a rate limit is
/// only ever reported by a failed turn; and the failure message stays empty
/// unless a turn failed.
pub proof fn lemma_scan_events_by_event(events: Seq<Option<Json>>)
    ensures
        ({
            let st = scan_events(events);
            let a = agent_texts(events);
            &&& st.last_agent_text == if a.len() > 0 {
                Some(a.last())
            } else {
                None::<Seq<char>>
            }
            &&& st.turn_failed <==> any_turn_failed(events)
            &&& st.schema_error <==> any_schema_error(events)
            &&& st.rate_limited ==> st.turn_failed
            &&& !st.turn_failed ==> st.failed_message == Seq::<char>::empty()
        }),
    decreases events.len(),
{
    if events.len() > 0 {
        let pre = events.drop_last();
        let x = events.last();
        lemma_scan_events_by_event(pre);
        reveal_strlit("item.completed");
        reveal_strlit("turn.completed");
        reveal_strlit("turn.failed");
        reveal_strlit("error");
        assert("turn.failed"@.len() == 11);
        assert("item.completed"@.len() == 14);
        assert("turn.completed"@.len() == 14);
        assert("error"@.len() == 5);
        if any_turn_failed(pre) {
            let i = choose|i: int| 0 <= i < pre.len() && fails_turn(#[trigger] pre[i]);
            assert(events[i] == pre[i]);
        }
        if any_schema_error(pre) {
            let i = choose|i: int| 0 <= i < pre.len() && reports_schema_error(#[trigger] pre[i]);
            assert(events[i] == pre[i]);
        }
        if any_turn_failed(events) {
            let i = choose|i: int| 0 <= i < events.len() && fails_turn(#[trigger] events[i]);
            if i < pre.len() {
                assert(events[i] == pre[i]);
            }
        }
        if any_schema_error(events) {
            let i = choose|i: int| 0 <= i < events.len() && reports_schema_error(#[trigger] events[i]);
            if i < pre.len() {
                assert(events[i] == pre[i]);
            }
        }
        assert(events[events.len() - 1] == x);
        if fails_turn(x) {
            assert(fails_turn(events[events.len() - 1]));
        }
        if reports_schema_error(x) {
            assert(reports_schema_error(events[events.len() - 1]));
        }
    }
}

/// The stream law: a `codex exec` turn is accepted exactly when its stream
/// holds an agent message and no event reports a failed turn or a schema
/// error; the accepted turn carries the last agent text and an empty failure
/// message.
pub proof fn lemma_codex_stream_accepted(events: Seq<Option<Json>>)
    ensures
        turn_outcome_ok(scan_events(events)) <==> (agent_texts(events).len() > 0
            && !any_turn_failed(events) && !any_schema_error(events)),
        turn_outcome_ok(scan_events(events)) ==> scan_events(events).last_agent_text == Some(
            agent_texts(events).last(),
        ) && scan_events(events).failed_message == Seq::<char>::empty(),
{
    lemma_scan_events_by_event(events);
}

/// The refusal when the stream holds no agent message.
pub open spec fn no_agent_message_text(rate_limited: bool, schema_error: bool, turn_failed: bool) -> Seq<
    char,
> {
    "codex JSONL output holds no agent_message (rate_limited="@ + bool_text(rate_limited)
        + ", schema_error="@ + bool_text(schema_error) + ", turn_failed="@ + bool_text(turn_failed)
        + ")"@
}

/// The refusal for a schema error.
pub open spec fn schema_error_text() -> Seq<char> {
    "codex reported invalid_json_schema; check the --output-schema file"@
}

/// What one `codex exec` turn produced, before its text is parsed.
#[derive(Debug, Clone)]
pub struct CodexTurn {
    /// Text of the last `agent_message`.
    pub last_agent_text: String,
    /// Last populated usage.
    pub usage: Option<CodexUsage>,
    /// Rate limited.
    pub rate_limited: bool,
    /// Schema error.
    pub schema_error: bool,
    /// Turn failed.
    pub turn_failed: bool,
    /// Failure message of the last failed turn.
    pub failed_message: String,
}

/// The outcome of a stream: the turn when an agent message arrived and no
/// failure, schema error or rate limit was reported; otherwise the refusal.
pub open spec fn turn_outcome_ok(st: CodexScan) -> bool {
    st.last_agent_text is Some && !st.turn_failed && !st.schema_error && !st.rate_limited
}

fn usage_field_exec(u: &Json, key: &str) -> (r: Option<u64>)
    ensures
        r == usage_field(*u, key@),
{
    match json_get(u, key) {
        None => Some(0),
        Some(Json::Number(Some(n))) => Some(*n),
        Some(_) => None,
    }
}

fn usage_from_exec(u: &Json) -> (r: Option<CodexUsage>)
    ensures
        r == usage_from(*u),
{
    match u {
        Json::Object(_) => {},
        _ => return None,
    }
    let a = usage_field_exec(u, "input_tokens");
    let b = usage_field_exec(u, "cached_input_tokens");
    let c = usage_field_exec(u, "output_tokens");
    let d = usage_field_exec(u, "reasoning_output_tokens");
    match (a, b, c, d) {
        (Some(a), Some(b), Some(c), Some(d)) => Some(
            CodexUsage {
                input_tokens: a,
                cached_input_tokens: b,
                output_tokens: c,
                reasoning_output_tokens: d,
            },
        ),
        _ => None,
    }
}

/// Reads the events of one `codex exec --json` turn.
///
/// `events` holds one entry per non-blank line: the parsed value, or `None`
/// for a line that is not JSON (such lines are skipped). The last
/// `item.completed` of type `agent_message` is the assistant text; the last
/// populated `turn.completed` usage wins.
pub fn scan_codex_events(events: &Vec<Option<Json>>) -> (r: Result<CodexTurn, AppError>)
    ensures
        ({
            let st = scan_events(events@);
            match r {
                Ok(t) => turn_outcome_ok(st) && st.last_agent_text == Some(t.last_agent_text@)
                    && t.usage == st.usage && t.failed_message@ == st.failed_message
                    && !t.rate_limited && !t.schema_error && !t.turn_failed,
                Err(AppError::Validation(m)) => !turn_outcome_ok(st) && m@ == if st.last_agent_text
                    is None {
                    no_agent_message_text(st.rate_limited, st.schema_error, st.turn_failed)
                } else if st.turn_failed {
                    "codex turn failed: "@ + st.failed_message
                } else if st.schema_error {
                    schema_error_text()
                } else {
                    "codex rate limited: "@ + st.failed_message
                },
                Err(AppError::NotFound(_)) => false,
                Err(AppError::DbBusy(_)) => false,
            }
        }),
{
    let mut last_agent_text: Option<String> = None;
    let mut usage: Option<CodexUsage> = None;
    let mut rate_limited = false;
    let mut schema_error = false;
    let mut turn_failed = false;
    let mut failed_message = String::new();
    let mut i: usize = 0;
    while i < events.len()
        invariant
            i <= events.len(),
            ({
                let st = scan_events(events@.subrange(0, i as int));
                &&& crate::text::opt_view(last_agent_text) == st.last_agent_text
                &&& usage == st.usage
                &&& rate_limited == st.rate_limited
                &&& schema_error == st.schema_error
                &&& turn_failed == st.turn_failed
                &&& failed_message@ == st.failed_message
            }),
        decreases events.len() - i,
    {
        let ghost pre = events@.subrange(0, (i + 1) as int);
        assert(pre.drop_last() =~= events@.subrange(0, i as int));
        assert(pre.last() == events@[i as int]);
        if let Some(ev) = &events[i] {
            if let Some(t) = json_str(json_get(ev, "type")) {
                if str_eq(t, "item.completed") {
                    if let Some(item) = json_get(ev, "item") {
                        let is_agent = match json_str(json_get(item, "type")) {
                            Some(k) => str_eq(k, "agent_message"),
                            None => false,
                        };
                        if is_agent {
                            if let Some(text) = json_str(json_get(item, "text")) {
                                last_agent_text = Some(to_owned(text));
                            }
                        }
                    }
                } else if str_eq(t, "turn.completed") {
                    if let Some(u) = json_get(ev, "usage") {
                        let populated = match json_u64(json_get(u, "input_tokens")) {
                            Some(n) => n > 0,
                            None => false,
                        } || match json_u64(json_get(u, "output_tokens")) {
                            Some(n) => n > 0,
                            None => false,
                        };
                        if populated {
                            if let Some(parsed) = usage_from_exec(u) {
                                usage = Some(parsed);
                            }
                        }
                    }
                } else if str_eq(t, "turn.failed") {
                    turn_failed = true;
                    if let Some(err) = json_get(ev, "error") {
                        let msg = match json_str(json_get(err, "message")) {
                            Some(m) => m,
                            None => "unknown error",
                        };
                        failed_message = to_owned(msg);
                        if str_contains(msg, "rate_limit") || str_contains(msg, "429")
                            || str_contains(msg, "Too Many Requests") {
                            rate_limited = true;
                        }
                    }
                } else if str_eq(t, "error") {
                    if let Some(msg) = json_str(json_get(ev, "message")) {
                        if str_contains(msg, "invalid_json_schema") || str_contains(msg, "schema") {
                            schema_error = true;
                        }
                    }
                }
            }
        }
        i = i + 1;
    }
    assert(events@.subrange(0, events@.len() as int) =~= events@);
    let text = match last_agent_text {
        Some(t) => t,
        None => {
            let mut m = to_owned("codex JSONL output holds no agent_message (rate_limited=");
            push_bool(&mut m, rate_limited);
            m.append(", schema_error=");
            push_bool(&mut m, schema_error);
            m.append(", turn_failed=");
            push_bool(&mut m, turn_failed);
            m.append(")");
            return Err(AppError::Validation(m));
        },
    };
    if turn_failed {
        let mut m = to_owned("codex turn failed: ");
        m.append(failed_message.as_str());
        return Err(AppError::Validation(m));
    }
    if schema_error {
        return Err(
            AppError::Validation(
                to_owned("codex reported invalid_json_schema; check the --output-schema file"),
            ),
        );
    }
    if rate_limited {
        let mut m = to_owned("codex rate limited: ");
        m.append(failed_message.as_str());
        return Err(AppError::Validation(m));
    }
    Ok(
        CodexTurn {
            last_agent_text: text,
            usage,
            rate_limited,
            schema_error,
            turn_failed,
            failed_message,
        },
    )
}

/// The models a Codex cache document lists: the `slug` (or string) of each
/// entry of its `models` array; without that array, the keys of the
/// document (an older format); for a bare array, its strings.
pub open spec fn cache_models(v: Json) -> Seq<Seq<char>> {
    match v {
        Json::Object(m) => match member(m@, "models"@) {
            Some(Json::Array(a)) => slugs(a@),
            _ => m@.map_values(|p: (String, Json)| p.0@),
        },
        Json::Array(a) => strings_of(a@),
        _ => Seq::empty(),
    }
}

/// The slug, or else the string, of each entry that has one.
pub open spec fn slugs(a: Seq<Json>) -> Seq<Seq<char>>
    decreases a.len(),
{
    if a.len() == 0 {
        Seq::empty()
    } else {
        let rest = slugs(a.drop_last());
        match as_text(get(a.last(), "slug"@)) {
            Some(s) => rest.push(s),
            None => match a.last() {
                Json::Str(s) => rest.push(s@),
                _ => rest,
            },
        }
    }
}

/// The string entries, in order.
pub open spec fn strings_of(a: Seq<Json>) -> Seq<Seq<char>>
    decreases a.len(),
{
    if a.len() == 0 {
        Seq::empty()
    } else {
        let rest = strings_of(a.drop_last());
        match a.last() {
            Json::Str(s) => rest.push(s@),
            _ => rest,
        }
    }
}

/// The models listed by a parsed Codex model cache.
pub fn codex_models_in_cache(v: &Json) -> (r: Vec<String>)
    ensures
        views(r@) == cache_models(*v),
{
    let mut out: Vec<String> = Vec::new();
    match v {
        Json::Object(m) => {
            match json_get(v, "models") {
                Some(Json::Array(a)) => {
                    let mut i: usize = 0;
                    assert(views(out@) =~= slugs(a@.subrange(0, 0)));
                    while i < a.len()
                        invariant
                            i <= a.len(),
                            views(out@) == slugs(a@.subrange(0, i as int)),
                        decreases a.len() - i,
                    {
                        let ghost pre = a@.subrange(0, (i + 1) as int);
                        assert(pre.drop_last() =~= a@.subrange(0, i as int));
                        assert(pre.last() == a@[i as int]);
                        match json_str(json_get(&a[i], "slug")) {
                            Some(s) => {
                                out.push(to_owned(s));
                            },
                            None => match &a[i] {
                                Json::Str(s) => {
                                    out.push(s.clone());
                                },
                                _ => {},
                            },
                        }
                        assert(views(out@) =~= slugs(pre));
                        i = i + 1;
                    }
                    assert(a@.subrange(0, a@.len() as int) =~= a@);
                },
                _ => {
                    let mut i: usize = 0;
                    while i < m.len()
                        invariant
                            i <= m.len(),
                            out@.len() == i,
                            forall|j: int| 0 <= j < i ==> #[trigger] out@[j]@ == m@[j].0@,
                        decreases m.len() - i,
                    {
                        out.push(m[i].0.clone());
                        i = i + 1;
                    }
                    assert(views(out@) =~= m@.map_values(|p: (String, Json)| p.0@));
                },
            }
        },
        Json::Array(a) => {
            let mut i: usize = 0;
            assert(views(out@) =~= strings_of(a@.subrange(0, 0)));
            while i < a.len()
                invariant
                    i <= a.len(),
                    views(out@) == strings_of(a@.subrange(0, i as int)),
                decreases a.len() - i,
            {
                let ghost pre = a@.subrange(0, (i + 1) as int);
                assert(pre.drop_last() =~= a@.subrange(0, i as int));
                assert(pre.last() == a@[i as int]);
                match &a[i] {
                    Json::Str(s) => {
                        out.push(s.clone());
                    },
                    _ => {},
                }
                assert(views(out@) =~= strings_of(pre));
                i = i + 1;
            }
            assert(a@.subrange(0, a@.len() as int) =~= a@);
        },
        _ => {},
    }
    out
}


/// One entity the agent extracted.
#[derive(Debug, Clone)]
pub struct ExtractedEntity {
    /// Name.
    pub name: String,
    /// Type label as the agent gave it.
    pub entity_type: String,
    /// Byte offset of the first mention; the payload carries none, so zero.
    pub start: usize,
    /// Byte offset past the first mention; zero likewise.
    pub end: usize,
}

/// One URL the agent extracted.
#[derive(Debug, Clone)]
pub struct ExtractedUrl {
    /// The URL.
    pub url: String,
    /// Byte offset where it starts.
    pub start: usize,
    /// Byte offset where it ends.
    pub end: usize,
}

/// What an extraction payload holds.
#[derive(Debug, Clone)]
pub struct ExtractionResult {
    /// Entities, in payload order.
    pub entities: Vec<ExtractedEntity>,
    /// URLs, in payload order.
    pub urls: Vec<ExtractedUrl>,
    /// Time spent; the payload reports none, so zero.
    pub elapsed_ms: u64,
}

/// The combined result of one `codex exec` turn.
#[derive(Debug, Clone)]
pub struct CodexResult {
    /// The extraction the agent's text holds.
    pub extraction: ExtractionResult,
    /// Raw text of the last `agent_message`.
    pub last_agent_text: String,
    /// Last populated usage.
    pub usage: Option<CodexUsage>,
    /// Rate limited.
    pub rate_limited: bool,
    /// Schema error.
    pub schema_error: bool,
    /// Turn failed.
    pub turn_failed: bool,
    /// Failure message of the last failed turn.
    pub failed_message: String,
}

/// The type label of an entity entry: its `type` member when present (as a
/// string, else `concept`), otherwise its `entity_type`, otherwise `concept`.
pub open spec fn entity_label(e: Json) -> Seq<char> {
    match get(e, "type"@) {
        Some(t) => match as_text(Some(t)) {
            Some(s) => s,
            None => "concept"@,
        },
        None => match as_text(get(e, "entity_type"@)) {
            Some(s) => s,
            None => "concept"@,
        },
    }
}

/// The entities of an `entities` array: every entry with a string `name`.
pub open spec fn payload_entities(a: Seq<Json>) -> Seq<(Seq<char>, Seq<char>)>
    decreases a.len(),
{
    if a.len() == 0 {
        Seq::empty()
    } else {
        let rest = payload_entities(a.drop_last());
        match as_text(get(a.last(), "name"@)) {
            Some(n) => rest.push((n, entity_label(a.last()))),
            None => rest,
        }
    }
}

/// The URL of a `urls` entry with a string `url`: its `start` (zero when
/// absent) and its `end` (the start when absent).
pub open spec fn payload_url(u: Json) -> Option<(Seq<char>, usize, usize)> {
    match as_text(get(u, "url"@)) {
        Some(url) => {
            let start: usize = match as_u64(get(u, "start"@)) {
                Some(n) => n as usize,
                None => 0,
            };
            let end: usize = match as_u64(get(u, "end"@)) {
                Some(n) => n as usize,
                None => start,
            };
            Some((url, start, end))
        },
        None => None,
    }
}

/// The URLs of a `urls` array, in order.
pub open spec fn payload_urls(a: Seq<Json>) -> Seq<(Seq<char>, usize, usize)>
    decreases a.len(),
{
    if a.len() == 0 {
        Seq::empty()
    } else {
        let rest = payload_urls(a.drop_last());
        match payload_url(a.last()) {
            Some(x) => rest.push(x),
            None => rest,
        }
    }
}

/// The array member `key` of an object, empty when absent or not an array.
pub open spec fn array_member(v: Json, key: Seq<char>) -> Seq<Json> {
    match get(v, key) {
        Some(Json::Array(a)) => a@,
        _ => Seq::empty(),
    }
}

/// The refusal of a payload that is not a JSON object.
pub open spec fn not_object_text() -> Seq<char> {
    "codex agent_message is not a JSON object"@
}

/// Whether `r` holds exactly the entities and URLs of payload `v`.
pub open spec fn extraction_of(v: Json, r: ExtractionResult) -> bool {
    &&& r.entities@.map_values(|e: ExtractedEntity| (e.name@, e.entity_type@)) == payload_entities(
        array_member(v, "entities"@),
    )
    &&& forall|i: int|
        0 <= i < r.entities@.len() ==> (#[trigger] r.entities@[i]).start == 0
            && r.entities@[i].end == 0
    &&& r.urls@.map_values(|u: ExtractedUrl| (u.url@, u.start, u.end)) == payload_urls(
        array_member(v, "urls"@),
    )
    &&& r.elapsed_ms == 0
}

fn entity_label_exec(e: &Json) -> (r: String)
    ensures
        r@ == entity_label(*e),
{
    let t = match json_get(e, "type") {
        Some(t) => json_str(Some(t)),
        None => json_str(json_get(e, "entity_type")),
    };
    match t {
        Some(s) => to_owned(s),
        None => to_owned("concept"),
    }
}

fn array_of<'a>(v: &'a Json, key: &str) -> (r: &'a [Json])
    ensures
        r@ == array_member(*v, key@),
{
    match json_get(v, key) {
        Some(Json::Array(a)) => a.as_slice(),
        _ => &[],
    }
}

/// Reads the extraction payload of an agent message; refused when the
/// payload is not a JSON object. Relationships in the payload are not part
/// of the result.
pub fn extraction_from_payload(v: &Json) -> (r: Result<ExtractionResult, AppError>)
    ensures
        r is Err <==> !(*v is Object),
        r matches Ok(x) ==> extraction_of(*v, x),
        r matches Err(e) ==> (e matches AppError::Validation(m) && m@ == not_object_text()),
{
    match v {
        Json::Object(_) => {},
        _ => {
            return Err(AppError::Validation(to_owned("codex agent_message is not a JSON object")));
        },
    }
    let ents = array_of(v, "entities");
    let mut entities: Vec<ExtractedEntity> = Vec::new();
    let mut i: usize = 0;
    assert(ents@.subrange(0, 0) =~= Seq::<Json>::empty());
    while i < ents.len()
        invariant
            i <= ents@.len(),
            entities@.map_values(|e: ExtractedEntity| (e.name@, e.entity_type@)) == payload_entities(
                ents@.subrange(0, i as int),
            ),
            forall|t: int|
                0 <= t < entities@.len() ==> (#[trigger] entities@[t]).start == 0
                    && entities@[t].end == 0,
        decreases ents@.len() - i,
    {
        let ghost pre = ents@.subrange(0, (i + 1) as int);
        assert(pre.drop_last() =~= ents@.subrange(0, i as int));
        assert(pre.last() == ents@[i as int]);
        if let Some(name) = json_str(json_get(&ents[i], "name")) {
            let label = entity_label_exec(&ents[i]);
            entities.push(ExtractedEntity { name: to_owned(name), entity_type: label, start: 0, end: 0 });
        }
        assert(entities@.map_values(|e: ExtractedEntity| (e.name@, e.entity_type@)) =~= payload_entities(pre));
        i = i + 1;
    }
    assert(ents@.subrange(0, ents@.len() as int) =~= ents@);
    let us = array_of(v, "urls");
    let mut urls: Vec<ExtractedUrl> = Vec::new();
    let mut k: usize = 0;
    assert(us@.subrange(0, 0) =~= Seq::<Json>::empty());
    while k < us.len()
        invariant
            k <= us@.len(),
            urls@.map_values(|u: ExtractedUrl| (u.url@, u.start, u.end)) == payload_urls(
                us@.subrange(0, k as int),
            ),
        decreases us@.len() - k,
    {
        let ghost pre = us@.subrange(0, (k + 1) as int);
        assert(pre.drop_last() =~= us@.subrange(0, k as int));
        assert(pre.last() == us@[k as int]);
        if let Some(url) = json_str(json_get(&us[k], "url")) {
            let start: usize = match json_u64(json_get(&us[k], "start")) {
                Some(n) => n as usize,
                None => 0,
            };
            let end: usize = match json_u64(json_get(&us[k], "end")) {
                Some(n) => n as usize,
                None => start,
            };
            urls.push(ExtractedUrl { url: to_owned(url), start, end });
        }
        assert(urls@.map_values(|u: ExtractedUrl| (u.url@, u.start, u.end)) =~= payload_urls(pre));
        k = k + 1;
    }
    assert(us@.subrange(0, us@.len() as int) =~= us@);
    Ok(ExtractionResult { entities, urls, elapsed_ms: 0 })
}

/// Completes a turn that [`scan_codex_events`] accepted with the parsed
/// payload of its agent text; refused when the payload is not an object.
pub fn codex_result(turn: CodexTurn, payload: &Json) -> (r: Result<CodexResult, AppError>)
    ensures
        r is Err <==> !(*payload is Object),
        r matches Ok(x) ==> {
            &&& extraction_of(*payload, x.extraction)
            &&& x.last_agent_text == turn.last_agent_text
            &&& x.usage == turn.usage
            &&& x.rate_limited == turn.rate_limited
            &&& x.schema_error == turn.schema_error
            &&& x.turn_failed == turn.turn_failed
            &&& x.failed_message == turn.failed_message
        },
        r matches Err(e) ==> (e matches AppError::Validation(m) && m@ == not_object_text()),
{
    let extraction = match extraction_from_payload(payload) {
        Ok(x) => x,
        Err(e) => return Err(e),
    };
    Ok(
        CodexResult {
            extraction,
            last_agent_text: turn.last_agent_text,
            usage: turn.usage,
            rate_limited: turn.rate_limited,
            schema_error: turn.schema_error,
            turn_failed: turn.turn_failed,
            failed_message: turn.failed_message,
        },
    )
}

} // verus!
