//! Codex model whitelist: validation, listing and did-you-mean suggestions.
use crate::errors::AppError;
use crate::text::{
    chars_of, contains, contains_exec, insert_sorted, join, join_strings, lemma_push_to_set, lower,
    lower_str, opt_view, str_eq, strictly_sorted, to_owned, views,
};
use vstd::prelude::*;
use vstd::string::*;

verus! {

/// Models accepted by Codex CLI when using ChatGPT Pro OAuth.
pub open spec fn codex_pro_oauth_models() -> Seq<Seq<char>> {
    seq!["codex-auto-review"@, "gpt-5.3-codex-spark"@, "gpt-5.4"@, "gpt-5.4-mini"@, "gpt-5.5"@]
}

/// Models accepted by Codex CLI when using ChatGPT Pro OAuth.
pub fn codex_pro_oauth_model_list() -> (r: Vec<String>)
    ensures
        views(r@) == codex_pro_oauth_models(),
{
    let mut v: Vec<String> = Vec::new();
    v.push(to_owned("codex-auto-review"));
    v.push(to_owned("gpt-5.3-codex-spark"));
    v.push(to_owned("gpt-5.4"));
    v.push(to_owned("gpt-5.4-mini"));
    v.push(to_owned("gpt-5.5"));
    assert(views(v@) =~= codex_pro_oauth_models());
    v
}

/// The refusal for a model outside the whitelist.
pub open spec fn unsupported_model_message(model: Seq<char>) -> Seq<char> {
    "codex model '"@ + model + "' is not supported with ChatGPT Pro OAuth; accepted models: "@
        + join(codex_pro_oauth_models(), ", "@)
}

/// Validates the requested model against the ChatGPT Pro OAuth whitelist.
///
/// No override (`None`) is accepted: codex then picks its default.
pub fn validate_codex_model(model: Option<&str>) -> (r: Result<(), AppError>)
    ensures
        match model {
            None => r is Ok,
            Some(m) => if codex_pro_oauth_models().contains(m@) {
                r is Ok
            } else {
                r matches Err(AppError::Validation(msg)) && msg@ == unsupported_model_message(m@)
            },
        },
{
    let m = match model {
        None => return Ok(()),
        Some(m) => m,
    };
    let list = codex_pro_oauth_model_list();
    let mut i: usize = 0;
    while i < list.len()
        invariant
            i <= list.len(),
            model == Some(m),
            views(list@) == codex_pro_oauth_models(),
            forall|j: int| 0 <= j < i ==> codex_pro_oauth_models()[j] != m@,
        decreases list.len() - i,
    {
        assert(views(list@)[i as int] == list@[i as int]@);
        if str_eq(list[i].as_str(), m) {
            assert(views(list@)[i as int] == list@[i as int]@);
            assert(codex_pro_oauth_models()[i as int] == m@);
            assert(codex_pro_oauth_models().contains(m@));
            return Ok(());
        }
        i = i + 1;
    }
    assert(!codex_pro_oauth_models().contains(m@));
    let mut msg = to_owned("codex model '");
    msg.append(m);
    msg.append("' is not supported with ChatGPT Pro OAuth; accepted models: ");
    let joined = join_strings(&list, ", ");
    msg.append(joined.as_str());
    Err(AppError::Validation(msg))
}

/// The models offered to the operator: the whitelist united with the models
/// found in the local Codex cache, sorted and free of duplicates.
pub fn list_codex_models(cached: &Vec<String>) -> (r: Vec<String>)
    ensures
        strictly_sorted(views(r@)),
        views(r@).to_set() == codex_pro_oauth_models().to_set() + views(cached@).to_set(),
{
    let stat = codex_pro_oauth_model_list();
    let mut out: Vec<String> = Vec::new();
    let mut i: usize = 0;
    assert(views(out@).to_set() =~= Set::<Seq<char>>::empty());
    while i < stat.len()
        invariant
            i <= stat.len(),
            views(stat@) == codex_pro_oauth_models(),
            strictly_sorted(views(out@)),
            views(out@).to_set() == views(stat@).subrange(0, i as int).to_set(),
        decreases stat.len() - i,
    {
        let ghost before = views(out@).to_set();
        insert_sorted(&mut out, stat[i].clone());
        assert(views(stat@).subrange(0, (i + 1) as int) =~= views(stat@).subrange(0, i as int).push(
            stat@[i as int]@,
        ));
        proof {
            lemma_push_to_set(views(stat@).subrange(0, i as int), stat@[i as int]@);
        }
        assert(views(out@).to_set() =~= views(stat@).subrange(0, (i + 1) as int).to_set());
        i = i + 1;
    }
    assert(views(stat@).subrange(0, stat@.len() as int) =~= views(stat@));
    let mut k: usize = 0;
    while k < cached.len()
        invariant
            k <= cached.len(),
            strictly_sorted(views(out@)),
            views(out@).to_set() == codex_pro_oauth_models().to_set() + views(
                cached@,
            ).subrange(0, k as int).to_set(),
        decreases cached.len() - k,
    {
        insert_sorted(&mut out, cached[k].clone());
        assert(views(cached@).subrange(0, (k + 1) as int) =~= views(cached@).subrange(
            0,
            k as int,
        ).push(cached@[k as int]@));
        proof {
            lemma_push_to_set(views(cached@).subrange(0, k as int), cached@[k as int]@);
        }
        assert(views(out@).to_set() =~= codex_pro_oauth_models().to_set() + views(
            cached@,
        ).subrange(0, (k + 1) as int).to_set());
        k = k + 1;
    }
    assert(views(cached@).subrange(0, cached@.len() as int) =~= views(cached@));
    out
}

/// The models, ASCII-lowercased, in the same order.
pub fn list_codex_model_lc(models: &Vec<String>) -> (r: Vec<String>)
    ensures
        views(r@) == views(models@).map_values(|m: Seq<char>| lower(m)),
{
    let mut out: Vec<String> = Vec::new();
    let mut i: usize = 0;
    while i < models.len()
        invariant
            i <= models.len(),
            views(out@) == views(models@).subrange(0, i as int).map_values(
                |m: Seq<char>| lower(m),
            ),
        decreases models.len() - i,
    {
        let ghost before = views(out@);
        out.push(lower_str(models[i].as_str()));
        assert(views(out@) =~= before.push(lower(models@[i as int]@)));
        assert(views(models@).subrange(0, (i + 1) as int) =~= views(models@).subrange(0, i as int).push(
            models@[i as int]@,
        ));
        assert(views(out@) =~= views(models@).subrange(0, (i + 1) as int).map_values(
            |m: Seq<char>| lower(m),
        ));
        i = i + 1;
    }
    assert(views(models@).subrange(0, models@.len() as int) =~= views(models@));
    out
}

/// The smaller of two naturals.
pub open spec fn min_nat(a: nat, b: nat) -> nat {
    if a <= b {
        a
    } else {
        b
    }
}

/// Edit distance (insertions, deletions and substitutions of one character
/// each cost one) between `a` and `b`.
pub open spec fn edit_distance(a: Seq<char>, b: Seq<char>) -> nat
    decreases a.len() + b.len(),
{
    if a.len() == 0 {
        b.len()
    } else if b.len() == 0 {
        a.len()
    } else {
        min_nat(
            min_nat(
                edit_distance(a.drop_last(), b) + 1,
                edit_distance(a, b.drop_last()) + 1,
            ),
            edit_distance(a.drop_last(), b.drop_last()) + if a.last() == b.last() {
                0nat
            } else {
                1nat
            },
        )
    }
}

/// Edit distance never exceeds the longer length.
pub proof fn lemma_edit_distance_bounded(a: Seq<char>, b: Seq<char>)
    ensures
        edit_distance(a, b) <= if a.len() >= b.len() {
            a.len()
        } else {
            b.len()
        },
    decreases a.len() + b.len(),
{
    if a.len() > 0 && b.len() > 0 {
        lemma_edit_distance_bounded(a.drop_last(), b.drop_last());
    }
}

/// A text is at distance zero from itself.
pub proof fn lemma_edit_distance_self(a: Seq<char>)
    ensures
        edit_distance(a, a) == 0,
    decreases a.len(),
{
    if a.len() > 0 {
        lemma_edit_distance_self(a.drop_last());
    }
}

/// Distance from the empty text is the other text's length.
pub proof fn lemma_edit_distance_empty(a: Seq<char>)
    ensures
        edit_distance(a, Seq::empty()) == a.len(),
        edit_distance(Seq::empty(), a) == a.len(),
{
}

/// Edit distance is symmetric: turning `a` into `b` costs as many edits as
/// turning `b` into `a`.
pub proof fn lemma_edit_distance_symmetric(a: Seq<char>, b: Seq<char>)
    ensures
        edit_distance(a, b) == edit_distance(b, a),
    decreases a.len() + b.len(),
{
    if a.len() > 0 && b.len() > 0 {
        lemma_edit_distance_symmetric(a.drop_last(), b);
        lemma_edit_distance_symmetric(a, b.drop_last());
        lemma_edit_distance_symmetric(a.drop_last(), b.drop_last());
    }
}

/// Levenshtein distance between the characters of `a` and `b`.
pub fn levenshtein(a: &str, b: &str) -> (r: usize)
    requires
        a@.len() < usize::MAX,
        b@.len() < usize::MAX,
    ensures
        r == edit_distance(a@, b@),
{
    let a_chars = chars_of(a);
    let b_chars = chars_of(b);
    let n = a_chars.len();
    let m = b_chars.len();
    if n == 0 {
        return m;
    }
    if m == 0 {
        return n;
    }
    let ghost av = a_chars@;
    let ghost bv = b_chars@;
    let mut prev: Vec<usize> = Vec::new();
    let mut j: usize = 0;
    while j <= m
        invariant
            j <= m + 1,
            m == bv.len(),
            m < usize::MAX,
            prev@.len() == j,
            forall|k: int| 0 <= k < j ==> #[trigger] prev@[k] == edit_distance(
                av.subrange(0, 0),
                bv.subrange(0, k),
            ),
        decreases m + 1 - j,
    {
        proof {
            lemma_edit_distance_empty(bv.subrange(0, j as int));
            assert(av.subrange(0, 0) =~= Seq::<char>::empty());
        }
        prev.push(j);
        j = j + 1;
    }
    let mut i: usize = 0;
    while i < n
        invariant
            n == av.len(),
            m == bv.len(),
            n < usize::MAX,
            m < usize::MAX,
            av == a_chars@,
            bv == b_chars@,
            i <= n,
            prev@.len() == m + 1,
            forall|k: int| 0 <= k <= m ==> #[trigger] prev@[k] == edit_distance(
                av.subrange(0, i as int),
                bv.subrange(0, k),
            ),
        decreases n - i,
    {
        let ghost ai1 = av.subrange(0, (i + 1) as int);
        let mut curr: Vec<usize> = Vec::new();
        proof {
            lemma_edit_distance_empty(ai1);
            assert(bv.subrange(0, 0) =~= Seq::<char>::empty());
        }
        curr.push(i + 1);
        let ac = a_chars[i];
        let mut k: usize = 0;
        while k < m
            invariant
                n == av.len(),
                m == bv.len(),
                n < usize::MAX,
                m < usize::MAX,
                av == a_chars@,
                bv == b_chars@,
                i < n,
                ac == av[i as int],
                ai1 == av.subrange(0, (i + 1) as int),
                k <= m,
                prev@.len() == m + 1,
                forall|q: int| 0 <= q <= m ==> #[trigger] prev@[q] == edit_distance(
                    av.subrange(0, i as int),
                    bv.subrange(0, q),
                ),
                curr@.len() == k + 1,
                forall|q: int| 0 <= q <= k ==> #[trigger] curr@[q] == edit_distance(
                    ai1,
                    bv.subrange(0, q),
                ),
            decreases m - k,
        {
            let bc = b_chars[k];
            let ghost bk1 = bv.subrange(0, (k + 1) as int);
            proof {
                assert(ai1.drop_last() =~= av.subrange(0, i as int));
                assert(bk1.drop_last() =~= bv.subrange(0, k as int));
                assert(ai1.last() == ac);
                assert(bk1.last() == bc);
                lemma_edit_distance_bounded(ai1, bv.subrange(0, k as int));
                lemma_edit_distance_bounded(av.subrange(0, i as int), bk1);
                lemma_edit_distance_bounded(av.subrange(0, i as int), bv.subrange(0, k as int));
            }
            let cost: usize = if ac == bc {
                0
            } else {
                1
            };
            let x = curr[k] + 1;
            let y = prev[k + 1] + 1;
            let z = prev[k] + cost;
            let mut best = if x <= y {
                x
            } else {
                y
            };
            if z < best {
                best = z;
            }
            curr.push(best);
            k = k + 1;
        }
        prev = curr;
        i = i + 1;
    }
    assert(av.subrange(0, n as int) =~= av);
    assert(bv.subrange(0, m as int) =~= bv);
    prev[m]
}

/// `i` is the first model that contains the query.
pub open spec fn is_first_containing(models: Seq<Seq<char>>, q: Seq<char>, i: int) -> bool {
    &&& 0 <= i < models.len()
    &&& contains(models[i], q)
    &&& forall|j: int| 0 <= j < i ==> !contains(#[trigger] models[j], q)
}

/// `i` is the first model at the least distance from the query among those
/// below `max_d`.
pub open spec fn is_first_closest(models: Seq<Seq<char>>, q: Seq<char>, max_d: nat, i: int) -> bool {
    &&& 0 <= i < models.len()
    &&& edit_distance(q, models[i]) < max_d
    &&& forall|j: int|
        0 <= j < models.len() && edit_distance(q, #[trigger] models[j]) < max_d ==> edit_distance(
            q,
            models[i],
        ) <= edit_distance(q, models[j])
    &&& forall|j: int|
        0 <= j < i && edit_distance(q, #[trigger] models[j]) < max_d ==> edit_distance(
            q,
            models[i],
        ) < edit_distance(q, models[j])
}

/// The distance a fuzzy suggestion must stay below: a third of the query's
/// UTF-8 length, but never less than two.
pub open spec fn suggestion_radius(query_bytes: nat) -> nat {
    if query_bytes / 3 >= 2 {
        query_bytes / 3
    } else {
        2
    }
}

/// The model suggested for `query` among `models` (already lowercased):
/// the first one containing the lowercased query; otherwise the first one at
/// the least edit distance, when that distance is below the radius.
pub open spec fn suggestion(models: Seq<Seq<char>>, q: Seq<char>, max_d: nat) -> Option<Seq<char>> {
    if exists|i: int| is_first_containing(models, q, i) {
        Some(models[choose|i: int| is_first_containing(models, q, i)])
    } else if exists|i: int| is_first_closest(models, q, max_d, i) {
        Some(models[choose|i: int| is_first_closest(models, q, max_d, i)])
    } else {
        None
    }
}

/// Suggests the closest Codex model to a user-supplied query among `models`
/// (the list [`list_codex_models`] returns). Returns `None` when no candidate
/// is close enough. The suggestion is spelled in lowercase.
///
/// Exact substring containment wins; otherwise Levenshtein distance below
/// `max(2, query.len() / 3)`, the first of the closest winning ties.
pub fn suggest_codex_model(query: &str, models: &Vec<String>) -> (r: Option<String>)
    requires
        query@.len() < usize::MAX,
        forall|i: int| 0 <= i < models@.len() ==> (#[trigger] models@[i])@.len() < usize::MAX,
    ensures
        opt_view(r) == suggestion(
            views(models@).map_values(|m: Seq<char>| lower(m)),
            lower(query@),
            suggestion_radius(query.len() as nat),
        ),
{
    let ghost ms = views(models@).map_values(|m: Seq<char>| lower(m));
    let ghost q = lower(query@);
    let query_lc = lower_str(query);
    let qv = chars_of(query_lc.as_str());
    let lc = list_codex_model_lc(models);
    let mut i: usize = 0;
    while i < lc.len()
        invariant
            i <= lc.len(),
            views(lc@) == ms,
            ms == views(models@).map_values(|m: Seq<char>| lower(m)),
            q == lower(query@),
            query_lc@ == q,
            qv@ == q,
            forall|j: int| 0 <= j < i ==> !contains(#[trigger] ms[j], q),
        decreases lc.len() - i,
    {
        assert(views(lc@)[i as int] == lc@[i as int]@);
        let mv = chars_of(lc[i].as_str());
        if contains_exec(&mv, &qv) {
            proof {
                assert(is_first_containing(ms, q, i as int));
                let c = choose|c: int| is_first_containing(ms, q, c);
                assert(c == i as int) by {
                    if c < i {
                        assert(!contains(ms[c], q));
                    } else if c > i {
                        assert(!contains(ms[i as int], q));
                    }
                }
            }
            return Some(lc[i].clone());
        }
        i = i + 1;
    }
    assert(!exists|c: int| is_first_containing(ms, q, c));
    let third = query.len() / 3;
    let max_distance = if third >= 2 {
        third
    } else {
        2
    };
    let mut best: Option<(usize, usize)> = None;
    let mut k: usize = 0;
    while k < lc.len()
        invariant
            k <= lc.len(),
            views(lc@) == ms,
            ms == views(models@).map_values(|m: Seq<char>| lower(m)),
            ms.len() == models@.len(),
            qv@ == q,
            query_lc@ == q,
            q == lower(query@),
            q.len() == query@.len(),
            q.len() < usize::MAX,
            max_distance == suggestion_radius(query.len() as nat),
            forall|t: int| 0 <= t < models@.len() ==> (#[trigger] models@[t])@.len() < usize::MAX,
            match best {
                None => forall|j: int| 0 <= j < k ==> edit_distance(q, #[trigger] ms[j]) >= max_distance,
                Some((d, b)) => b < k && d == edit_distance(q, ms[b as int]) && is_first_closest(
                    ms.subrange(0, k as int),
                    q,
                    max_distance as nat,
                    b as int,
                ),
            },
        decreases lc.len() - k,
    {
        proof {
            assert(views(models@)[k as int] == models@[k as int]@);
            assert(ms[k as int] == lower(models@[k as int]@));
            assert(views(lc@)[k as int] == lc@[k as int]@);
            assert(ms[k as int].len() == models@[k as int]@.len());
        }
        let d = levenshtein(query_lc.as_str(), lc[k].as_str());
        let ghost pre = ms.subrange(0, k as int);
        let ghost post = ms.subrange(0, (k + 1) as int);
        assert(d == edit_distance(q, ms[k as int]));
        let ghost old_best = best;
        let take = d < max_distance && match best {
            None => true,
            Some((bd, _)) => d < bd,
        };
        if take {
            best = Some((d, k));
        }
        proof {
            match best {
                None => {},
                Some((bd, b)) => {
                    assert forall|j: int|
                        0 <= j < post.len() && edit_distance(q, #[trigger] post[j])
                            < max_distance implies edit_distance(q, post[b as int])
                        <= edit_distance(q, post[j]) by {
                        if j < k {
                            assert(post[j] == pre[j]);
                            match old_best {
                                None => {},
                                Some((od, ob)) => {
                                    assert(pre[ob as int] == ms[ob as int]);
                                },
                            }
                        } else {
                            assert(post[j] == ms[k as int]);
                        }
                    }
                    assert forall|j: int|
                        0 <= j < b && edit_distance(q, #[trigger] post[j])
                            < max_distance implies edit_distance(q, post[b as int])
                        < edit_distance(q, post[j]) by {
                        assert(post[j] == pre[j]);
                    }
                    assert(post[b as int] == ms[b as int]);
                },
            }
        }
        k = k + 1;
    }
    assert(ms.subrange(0, ms.len() as int) =~= ms);
    match best {
        None => {
            assert(!exists|c: int| is_first_closest(ms, q, max_distance as nat, c));
            None
        },
        Some((_, b)) => {
            proof {
                assert(views(lc@)[b as int] == lc@[b as int]@);
                let c = choose|c: int| is_first_closest(ms, q, max_distance as nat, c);
                assert(c == b as int) by {
                    if c < b {
                        assert(edit_distance(q, ms[b as int]) < edit_distance(q, ms[c]));
                    } else if c > b {
                        assert(edit_distance(q, ms[c]) < edit_distance(q, ms[b as int]));
                    }
                }
            }
            Some(lc[b].clone())
        },
    }
}

/// A suggestion is always one of the offered models (lowercased).
pub proof fn lemma_suggestion_is_offered(models: Seq<Seq<char>>, q: Seq<char>, max_d: nat)
    ensures
        suggestion(models, q, max_d) matches Some(s) ==> models.contains(s),
{
    if exists|i: int| is_first_containing(models, q, i) {
        let i = choose|i: int| is_first_containing(models, q, i);
        assert(models.contains(models[i]));
    } else if exists|i: int| is_first_closest(models, q, max_d, i) {
        let i = choose|i: int| is_first_closest(models, q, max_d, i);
        assert(models.contains(models[i]));
    }
}


/// Configuration of one `codex exec` spawn.
#[derive(Debug, Clone)]
pub struct CodexSpawnArgs<'a> {
    /// Path of the codex binary.
    pub binary: &'a str,
    /// Prompt.
    pub prompt: &'a str,
    /// JSON schema the answer must follow.
    pub json_schema: &'a str,
    /// Input text appended to the prompt.
    pub input_text: &'a str,
    /// Model name, when the caller pinned one.
    pub model: Option<&'a str>,
    /// Timeout in seconds.
    pub timeout_secs: u64,
    /// Where the schema is written; a directory codex trusts.
    pub schema_path: String,
}

/// The arguments of a hardened `codex exec`: read-only sandbox, no approval
/// prompts, no user config or rules, JSONL events, the answer held to the
/// schema, the prompt read from stdin (`-`). `--ask-for-approval never` only
/// for the codex versions that still accept it.
pub open spec fn codex_exec_args(schema_path: Seq<char>, model: Option<Seq<char>>, ask_for_approval: bool) -> Seq<
    Seq<char>,
> {
    let base = seq![
        "exec"@,
        "-c"@,
        "sandbox_mode='read-only'"@,
        "-c"@,
        "approval_policy='never'"@,
        "--json"@,
        "--output-schema"@,
        schema_path,
        "--ephemeral"@,
        "--skip-git-repo-check"@,
        "--sandbox"@,
        "read-only"@,
        "--ignore-user-config"@,
        "--ignore-rules"@,
    ];
    let approval = if ask_for_approval {
        seq!["--ask-for-approval"@, "never"@]
    } else {
        Seq::empty()
    };
    let pinned = match model {
        Some(m) => seq!["-m"@, m],
        None => Seq::empty(),
    };
    base + approval + pinned + seq!["-"@]
}

/// The flags that hold every `codex exec` to a read-only, non-interactive,
/// unconfigured run.
pub open spec fn hardening_flags() -> Seq<Seq<char>> {
    seq![
        "exec"@,
        "-c"@,
        "sandbox_mode='read-only'"@,
        "approval_policy='never'"@,
        "--json"@,
        "--output-schema"@,
        "--ephemeral"@,
        "--skip-git-repo-check"@,
        "--sandbox"@,
        "read-only"@,
        "--ignore-user-config"@,
        "--ignore-rules"@,
    ]
}

/// Every `codex exec` carries all the hardening flags and the schema path,
/// reads its prompt from stdin (its last argument is `-`), pins the model
/// with `-m` exactly when one was given (for a schema path other than
/// `-m`), and passes `--ask-for-approval` exactly when codex supports it
/// (for a schema path and model other than that flag).
pub proof fn lemma_codex_exec_args_hardened(
    schema_path: Seq<char>,
    model: Option<Seq<char>>,
    ask_for_approval: bool,
)
    ensures
        ({
            let a = codex_exec_args(schema_path, model, ask_for_approval);
            &&& forall|k: int| 0 <= k < hardening_flags().len() ==> a.contains(
                #[trigger] hardening_flags()[k],
            )
            &&& a.contains(schema_path)
            &&& a.last() == "-"@
            &&& model matches Some(m) ==> (exists|i: int|
                0 <= i < a.len() - 1 && #[trigger] a[i] == "-m"@ && a[i + 1] == m)
            &&& (model is None && schema_path != "-m"@) ==> !a.contains("-m"@)
            &&& ask_for_approval ==> a.contains("--ask-for-approval"@)
            &&& (!ask_for_approval && schema_path != "--ask-for-approval"@ && model != Some(
                "--ask-for-approval"@,
            )) ==> !a.contains("--ask-for-approval"@)
        }),
{
    let a = codex_exec_args(schema_path, model, ask_for_approval);
    let h = hardening_flags();
    assert(a[0] == h[0] && a[1] == h[1] && a[2] == h[2] && a[4] == h[3] && a[5] == h[4]);
    assert(a[6] == h[5] && a[8] == h[6] && a[9] == h[7] && a[10] == h[8] && a[11] == h[9]);
    assert(a[12] == h[10] && a[13] == h[11] && a[7] == schema_path);
    assert forall|k: int| 0 <= k < h.len() implies a.contains(#[trigger] h[k]) by {
        let idx: int = if k <= 2 {
            k
        } else if k <= 5 {
            k + 1
        } else {
            k + 2
        };
        assert(a[idx] == h[k]);
    }
    if ask_for_approval {
        assert(a[14] == "--ask-for-approval"@);
    }
    if let Some(m) = model {
        let i: int = if ask_for_approval {
            16
        } else {
            14
        };
        assert(a[i] == "-m"@ && a[i + 1] == m);
    }
    if !ask_for_approval && schema_path != "--ask-for-approval"@ && model != Some(
        "--ask-for-approval"@,
    ) {
        reveal_strlit("--ask-for-approval");
        reveal_strlit("-m");
        reveal_strlit("-c");
        reveal_strlit("exec");
        reveal_strlit("sandbox_mode='read-only'");
        reveal_strlit("approval_policy='never'");
        reveal_strlit("--json");
        reveal_strlit("--output-schema");
        reveal_strlit("--ephemeral");
        reveal_strlit("--skip-git-repo-check");
        reveal_strlit("--sandbox");
        reveal_strlit("read-only");
        reveal_strlit("--ignore-user-config");
        reveal_strlit("--ignore-rules");
        reveal_strlit("-");
        assert forall|i: int| 0 <= i < a.len() implies a[i] != "--ask-for-approval"@ by {
            if a[i] == "--ask-for-approval"@ {
                assert(a[i].len() == 18);
            }
        }
    }
    if model is None && schema_path != "-m"@ {
        reveal_strlit("-m");
        reveal_strlit("-c");
        reveal_strlit("exec");
        reveal_strlit("sandbox_mode='read-only'");
        reveal_strlit("approval_policy='never'");
        reveal_strlit("--json");
        reveal_strlit("--output-schema");
        reveal_strlit("--ephemeral");
        reveal_strlit("--skip-git-repo-check");
        reveal_strlit("--sandbox");
        reveal_strlit("read-only");
        reveal_strlit("--ignore-user-config");
        reveal_strlit("--ignore-rules");
        reveal_strlit("--ask-for-approval");
        reveal_strlit("never");
        reveal_strlit("-");
        assert("-c"@[1] != "-m"@[1]);
        assert forall|i: int| 0 <= i < a.len() implies a[i] != "-m"@ by {
            if a[i] == "-m"@ {
                assert(a[i].len() == 2);
                assert(a[i][1] == 'm');
            }
        }
    }
}

/// The arguments of the command that stands in for codex when
/// `OPENAI_API_KEY` is set: it fails, and says why.
pub open spec fn oauth_violation_args() -> Seq<Seq<char>> {
    seq![
        "--oauth-only-violation-openai-api-key-set"@,
        "--oauth-only-resolution-use-codex-auth-json-or-openai-base-url"@,
    ]
}

/// What to run for one codex turn.
#[derive(Debug, Clone)]
pub enum CodexInvocation {
    /// `OPENAI_API_KEY` is set: the API-key path is forbidden, so run
    /// `program` (`false`, which always fails) with these arguments, an empty
    /// environment and `PATH=/nonexistent`; no schema file is written.
    OAuthViolation { program: String, args: Vec<String> },
    /// Run the codex binary with these arguments, feeding the full prompt on
    /// stdin after writing the schema to its path.
    Exec { args: Vec<String> },
}

fn push_arg(v: &mut Vec<String>, a: &str)
    ensures
        views(final(v)@) == views(old(v)@).push(a@),
{
    v.push(to_owned(a));
    assert(views(v@) =~= views(old(v)@).push(a@));
}

impl<'a> CodexSpawnArgs<'a> {
    /// The text fed to codex on stdin: the prompt, a blank line, the input.
    pub fn full_prompt(&self) -> (r: String)
        ensures
            r@ == self.prompt@ + "\n\n"@ + self.input_text@,
    {
        let mut s = to_owned(self.prompt);
        s.append("\n\n");
        s.append(self.input_text);
        s
    }

    /// The command for this spawn: refused (a failing stand-in) when
    /// `OPENAI_API_KEY` is set, else the hardened `codex exec` arguments.
    pub fn invocation(&self, openai_api_key_set: bool, ask_for_approval: bool) -> (r:
        CodexInvocation)
        ensures
            openai_api_key_set ==> (r matches CodexInvocation::OAuthViolation { program, args }
                && program@ == "false"@ && views(args@) == oauth_violation_args()),
            !openai_api_key_set ==> (r matches CodexInvocation::Exec { args } && views(args@)
                == codex_exec_args(
                self.schema_path@,
                match self.model {
                    Some(m) => Some(m@),
                    None => None,
                },
                ask_for_approval,
            )),
    {
        let mut args: Vec<String> = Vec::new();
        if openai_api_key_set {
            push_arg(&mut args, "--oauth-only-violation-openai-api-key-set");
            push_arg(&mut args, "--oauth-only-resolution-use-codex-auth-json-or-openai-base-url");
            assert(views(args@) =~= oauth_violation_args());
            return CodexInvocation::OAuthViolation { program: to_owned("false"), args };
        }
        push_arg(&mut args, "exec");
        push_arg(&mut args, "-c");
        push_arg(&mut args, "sandbox_mode='read-only'");
        push_arg(&mut args, "-c");
        push_arg(&mut args, "approval_policy='never'");
        push_arg(&mut args, "--json");
        push_arg(&mut args, "--output-schema");
        push_arg(&mut args, self.schema_path.as_str());
        push_arg(&mut args, "--ephemeral");
        push_arg(&mut args, "--skip-git-repo-check");
        push_arg(&mut args, "--sandbox");
        push_arg(&mut args, "read-only");
        push_arg(&mut args, "--ignore-user-config");
        push_arg(&mut args, "--ignore-rules");
        let ghost base = views(args@);
        if ask_for_approval {
            push_arg(&mut args, "--ask-for-approval");
            push_arg(&mut args, "never");
        }
        let ghost with_approval = views(args@);
        if let Some(m) = self.model {
            push_arg(&mut args, "-m");
            push_arg(&mut args, m);
        }
        let ghost with_model = views(args@);
        push_arg(&mut args, "-");
        proof {
            let approval = if ask_for_approval {
                seq!["--ask-for-approval"@, "never"@]
            } else {
                Seq::<Seq<char>>::empty()
            };
            let pinned = match self.model {
                Some(m) => seq!["-m"@, m@],
                None => Seq::<Seq<char>>::empty(),
            };
            assert(with_approval =~= base + approval);
            assert(with_model =~= base + approval + pinned);
            assert(views(args@) =~= codex_exec_args(
                self.schema_path@,
                match self.model {
                    Some(m) => Some(m@),
                    None => None,
                },
                ask_for_approval,
            ));
        }
        CodexInvocation::Exec { args }
    }
}

} // verus!
