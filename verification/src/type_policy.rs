//! Entity type vocabulary policy for `entity-type-validate`.
//!
//! Resolves the accepted vocabulary and the policy for a label outside it
//! (flag > stored setting > compiled default), applies that policy to one
//! label, and builds the record an operator reads to audit the decision.
use crate::entity_type::{
    canonical_entity_type_list, canonical_entity_types, normalize_entity_type, normalized_label,
    DEFAULT_ENTITY_TYPE,
};
use crate::text::{
    insert_sorted, is_ascii_text, is_blank, is_blank_str, join, join_strings,
    lower, split, split_str, str_eq, strictly_sorted, to_lowercase, to_owned, trim, trim_str,
    unicode_lowercase, views,
};
use vstd::prelude::*;
use vstd::string::*;

verus! {

/// What to do with a validated label outside the accepted vocabulary.
#[derive(Debug, Clone, Copy, PartialEq, Eq, Structural)]
pub enum UnknownTypePolicy {
    /// Store the label as written; the default.
    Keep,
    /// Store the nearest accepted label, preserving the raw one in the entity
    /// description.
    Fallback,
    /// Refuse the item with a validation error.
    Strict,
}

/// Which precedence layer supplied a resolved value.
#[derive(Debug, Clone, Copy, PartialEq, Eq, Structural)]
pub enum PolicySource {
    /// A command-line flag on this invocation.
    Flag,
    /// A setting stored for this host.
    Xdg,
    /// The compiled default.
    Default,
}

/// Wire name of a policy, identical to the flag value that selects it.
pub open spec fn policy_name(p: UnknownTypePolicy) -> Seq<char> {
    match p {
        UnknownTypePolicy::Keep => "keep"@,
        UnknownTypePolicy::Fallback => "fallback"@,
        UnknownTypePolicy::Strict => "strict"@,
    }
}

/// The policy a folded, trimmed name selects.
pub open spec fn policy_named(s: Seq<char>) -> Option<UnknownTypePolicy> {
    if s == "keep"@ {
        Some(UnknownTypePolicy::Keep)
    } else if s == "fallback"@ {
        Some(UnknownTypePolicy::Fallback)
    } else if s == "strict"@ {
        Some(UnknownTypePolicy::Strict)
    } else {
        None
    }
}

/// The policy `parse` returns for `raw`: its trimmed, lowercased spelling
/// looked up among the three names.
pub open spec fn parsed_policy(raw: Seq<char>) -> Option<UnknownTypePolicy> {
    policy_named(unicode_lowercase(trim(raw)))
}

impl UnknownTypePolicy {
    /// Parses a policy name, returning `None` for anything unrecognised.
    pub fn parse(raw: &str) -> (r: Option<Self>)
        ensures
            r == parsed_policy(raw@),
            is_ascii_text(trim(raw@)) ==> r == policy_named(lower(trim(raw@))),
    {
        let t = trim_str(raw);
        let l = to_lowercase(t.as_str());
        if str_eq(l.as_str(), "keep") {
            Some(UnknownTypePolicy::Keep)
        } else if str_eq(l.as_str(), "fallback") {
            Some(UnknownTypePolicy::Fallback)
        } else if str_eq(l.as_str(), "strict") {
            Some(UnknownTypePolicy::Strict)
        } else {
            None
        }
    }

    /// Wire name, identical to the flag value that selects it.
    pub fn as_str(self) -> (r: &'static str)
        ensures
            r@ == policy_name(self),
    {
        match self {
            UnknownTypePolicy::Keep => "keep",
            UnknownTypePolicy::Fallback => "fallback",
            UnknownTypePolicy::Strict => "strict",
        }
    }
}

/// Every policy's wire name is ASCII, has no surrounding whitespace, and
/// parses back to that policy: `parse(p.as_str()) == Some(p)`.
pub proof fn lemma_policy_name_round_trip(p: UnknownTypePolicy)
    ensures
        trim(policy_name(p)) == policy_name(p),
        is_ascii_text(policy_name(p)),
        lower(policy_name(p)) == policy_name(p),
        policy_named(lower(trim(policy_name(p)))) == Some(p),
{
    reveal_strlit("keep");
    reveal_strlit("fallback");
    reveal_strlit("strict");
    let n = policy_name(p);
    assert(n.len() > 0);
    assert(n.drop_first().len() > 0);
    assert(!crate::text::is_ws(n[0]));
    assert(!crate::text::is_ws(n.last()));
    assert(crate::text::trim_start(n) == n);
    assert(crate::text::trim_end(n) == n);
    assert(lower(n) =~= n);
}

/// The names the command line advertises, in order.
pub open spec fn advertised_policy_names() -> Seq<Seq<char>> {
    seq!["keep"@, "fallback"@, "strict"@]
}

/// The names the command line advertises for `--on-unknown-type`.
pub fn unknown_type_policies() -> (r: Vec<&'static str>)
    ensures
        r@.map_values(|s: &str| s@) == advertised_policy_names(),
{
    let mut v: Vec<&'static str> = Vec::new();
    v.push("keep");
    v.push("fallback");
    v.push("strict");
    assert(v@.map_values(|s: &str| s@) =~= advertised_policy_names());
    v
}

/// The vocabulary and policy in force for this process.
#[derive(Debug, Clone)]
pub struct EntityTypePolicy {
    /// Accepted labels.
    pub allowed: Vec<String>,
    /// Where `allowed` came from.
    pub allowed_source: PolicySource,
    /// What to do with a label outside `allowed`.
    pub policy: UnknownTypePolicy,
    /// Where `policy` came from.
    pub policy_source: PolicySource,
}

/// Verdict for one validated label.
#[derive(Debug, PartialEq, Eq)]
pub enum PolicyOutcome {
    /// Write the label as it stands.
    Accept(String),
    /// Write `applied` instead of `raw`, preserving `raw` in the description.
    Fallback {
        /// Accepted label to store.
        applied: String,
        /// Label the model actually returned.
        raw: String,
    },
    /// Refuse the item with this message.
    Refuse(String),
}

/// The texts a [`PolicyOutcome`] carries.
pub enum OutcomeView {
    Accept(Seq<char>),
    Fallback { applied: Seq<char>, raw: Seq<char> },
    Refuse(Seq<char>),
}

impl View for PolicyOutcome {
    type V = OutcomeView;

    open spec fn view(&self) -> OutcomeView {
        match self {
            PolicyOutcome::Accept(s) => OutcomeView::Accept(s@),
            PolicyOutcome::Fallback { applied, raw } => OutcomeView::Fallback {
                applied: applied@,
                raw: raw@,
            },
            PolicyOutcome::Refuse(s) => OutcomeView::Refuse(s@),
        }
    }
}

/// The name the Jaro-Winkler similarity of `a` and `b` carries in contracts:
/// `rapidfuzz`'s normalized similarity, a number in `[0, 1]`, given as the
/// IEEE-754 bit pattern of that `f64`. For non-negative floats the bit
/// patterns order exactly as the numbers do, so comparing these integers is
/// comparing the similarities.
pub uninterp spec fn jaro_winkler_bits(a: Seq<char>, b: Seq<char>) -> u64;

/// Calls `rapidfuzz::distance::jaro_winkler::normalized_similarity` on the
/// characters of `a` and `b` and returns the bit pattern of the score. The
/// contract claims only that the result is the named score of the two texts.
#[verifier::external_body]
fn jaro_winkler_similarity_bits(a: &str, b: &str) -> (r: u64)
    ensures
        r == jaro_winkler_bits(a@, b@),
{
    rapidfuzz::distance::jaro_winkler::normalized_similarity(a.chars(), b.chars()).to_bits()
}

/// Bit pattern of `0.6`, the least similarity `fallback` accepts as a match.
pub const FALLBACK_MIN_SIMILARITY_BITS: u64 = 0x3fe3_3333_3333_3333;

/// `b` is the first index holding the greatest score.
pub open spec fn is_first_max(scores: Seq<u64>, b: int) -> bool {
    &&& 0 <= b < scores.len()
    &&& forall|j: int| 0 <= j < b ==> #[trigger] scores[j] < scores[b]
    &&& forall|j: int| 0 <= j < scores.len() ==> #[trigger] scores[j] <= scores[b]
}

/// Similarity of `label` to every accepted label, in vocabulary order.
pub open spec fn scores_for(allowed: Seq<Seq<char>>, label: Seq<char>) -> Seq<u64> {
    allowed.map_values(|a: Seq<char>| jaro_winkler_bits(label, a))
}

/// The label `fallback` stores for `label`: the first most similar accepted
/// label when it is similar enough; otherwise the default label when it is
/// accepted, else the first accepted label, else the default.
pub open spec fn nearest_label(allowed: Seq<Seq<char>>, label: Seq<char>) -> Seq<char> {
    let scores = scores_for(allowed, label);
    let b = choose|b: int| is_first_max(scores, b);
    if allowed.len() > 0 && scores[b] >= FALLBACK_MIN_SIMILARITY_BITS {
        allowed[b]
    } else if allowed.contains(DEFAULT_ENTITY_TYPE@) {
        DEFAULT_ENTITY_TYPE@
    } else if allowed.len() > 0 {
        allowed[0]
    } else {
        DEFAULT_ENTITY_TYPE@
    }
}

/// The refusal `strict` reports for `label`, naming the vocabulary.
pub open spec fn refusal_message(label: Seq<char>, allowed: Seq<Seq<char>>) -> Seq<char> {
    "--on-unknown-type "@ + "strict"@ + " is in force and the validated entity type '"@ + label
        + "' is outside the accepted vocabulary: "@ + join(allowed, ", "@)
        + ". Add the label with --allowed-types, or choose keep/fallback to let the run continue"@
}

/// What the policy decides for `label`.
pub open spec fn outcome_for(
    allowed: Seq<Seq<char>>,
    policy: UnknownTypePolicy,
    label: Seq<char>,
) -> OutcomeView {
    if allowed.contains(label) {
        OutcomeView::Accept(label)
    } else {
        match policy {
            UnknownTypePolicy::Keep => OutcomeView::Accept(label),
            UnknownTypePolicy::Fallback => OutcomeView::Fallback {
                applied: nearest_label(allowed, label),
                raw: label,
            },
            UnknownTypePolicy::Strict => OutcomeView::Refuse(refusal_message(label, allowed)),
        }
    }
}

/// The labels the comma-separated pieces of `raw` normalise to.
pub open spec fn vocabulary_labels(raw: Seq<char>) -> Set<Seq<char>> {
    let parts = split(raw, ',');
    Set::new(
        |t: Seq<char>|
            exists|i: int| 0 <= i < parts.len() && normalized_label(#[trigger] parts[i]) == Some(t),
    )
}

/// `v` is the vocabulary declared by `raw`: its normalised labels, sorted and
/// free of duplicates.
pub open spec fn is_vocabulary_of(v: Seq<Seq<char>>, raw: Seq<char>) -> bool {
    strictly_sorted(v) && v.to_set() == vocabulary_labels(raw)
}

impl EntityTypePolicy {
    /// The accepted labels as texts.
    pub open spec fn allowed_view(&self) -> Seq<Seq<char>> {
        views(self.allowed@)
    }

    /// The compiled default: the canonical vocabulary, labels kept as written.
    pub fn compiled_default() -> (r: Self)
        ensures
            r.allowed_view() == canonical_entity_types(),
            r.allowed_source == PolicySource::Default,
            r.policy == UnknownTypePolicy::Keep,
            r.policy_source == PolicySource::Default,
    {
        EntityTypePolicy {
            allowed: canonical_entity_type_list(),
            allowed_source: PolicySource::Default,
            policy: UnknownTypePolicy::Keep,
            policy_source: PolicySource::Default,
        }
    }

    /// Resolves flag > stored setting > compiled default for both halves.
    ///
    /// `stored_allowed` and `stored_policy` are the values stored for this
    /// host under `enrich.entity_type.allowed_types` and
    /// `enrich.entity_type.on_unknown_type` (empty when unset).
    pub fn resolve(
        flag_allowed: &Vec<String>,
        flag_policy: Option<&str>,
        stored_allowed: &str,
        stored_policy: &str,
    ) -> (r: Self)
        ensures
            ({
                let flag_raw = join(views(flag_allowed@), ","@);
                if !vocabulary_labels(flag_raw).is_empty() {
                    r.allowed_source == PolicySource::Flag && is_vocabulary_of(
                        r.allowed_view(),
                        flag_raw,
                    )
                } else if !vocabulary_labels(stored_allowed@).is_empty() {
                    r.allowed_source == PolicySource::Xdg && is_vocabulary_of(
                        r.allowed_view(),
                        stored_allowed@,
                    )
                } else {
                    r.allowed_source == PolicySource::Default && r.allowed_view()
                        == canonical_entity_types()
                }
            }),
            match flag_policy {
                Some(f) if parsed_policy(f@) is Some => r.policy_source == PolicySource::Flag
                    && Some(r.policy) == parsed_policy(f@),
                _ => if parsed_policy(stored_policy@) is Some {
                    r.policy_source == PolicySource::Xdg && Some(r.policy) == parsed_policy(
                        stored_policy@,
                    )
                } else {
                    r.policy_source == PolicySource::Default && r.policy == UnknownTypePolicy::Keep
                },
            },
    {
        let mut resolved = Self::compiled_default();
        let joined = join_strings(flag_allowed, ",");
        match parse_vocabulary(joined.as_str()) {
            Some(list) => {
                resolved.allowed = list;
                resolved.allowed_source = PolicySource::Flag;
            },
            None => {
                match parse_vocabulary(stored_allowed) {
                    Some(list) => {
                        resolved.allowed = list;
                        resolved.allowed_source = PolicySource::Xdg;
                    },
                    None => {},
                }
            },
        }
        let from_flag = match flag_policy {
            Some(f) => UnknownTypePolicy::parse(f),
            None => None,
        };
        match from_flag {
            Some(p) => {
                resolved.policy = p;
                resolved.policy_source = PolicySource::Flag;
            },
            None => {
                match UnknownTypePolicy::parse(stored_policy) {
                    Some(p) => {
                        resolved.policy = p;
                        resolved.policy_source = PolicySource::Xdg;
                    },
                    None => {},
                }
            },
        }
        resolved
    }

    /// Reports whether `label` is inside the accepted vocabulary.
    pub fn accepts(&self, label: &str) -> (r: bool)
        ensures
            r == self.allowed_view().contains(label@),
    {
        let mut i: usize = 0;
        while i < self.allowed.len()
            invariant
                i <= self.allowed.len(),
                forall|j: int| 0 <= j < i ==> self.allowed_view()[j] != label@,
            decreases self.allowed.len() - i,
        {
            if str_eq(self.allowed[i].as_str(), label) {
                assert(self.allowed_view()[i as int] == label@);
                return true;
            }
            i = i + 1;
        }
        false
    }

    /// Nearest accepted label to `label`, or the default label when nothing
    /// is near enough to call a match. Ties resolve to the first candidate in
    /// vocabulary order.
    pub fn nearest(&self, label: &str) -> (r: String)
        ensures
            r@ == nearest_label(self.allowed_view(), label@),
    {
        let ghost allowed = self.allowed_view();
        let ghost scores = scores_for(allowed, label@);
        let n = self.allowed.len();
        let mut best: usize = 0;
        let mut best_score: u64 = 0;
        let mut i: usize = 0;
        while i < n
            invariant
                n == self.allowed.len() == allowed.len() == scores.len(),
                allowed == self.allowed_view(),
                scores == scores_for(allowed, label@),
                i <= n,
                i > 0 ==> is_first_max(scores.subrange(0, i as int), best as int),
                i > 0 ==> best_score == scores[best as int],
            decreases n - i,
        {
            let score = jaro_winkler_similarity_bits(label, self.allowed[i].as_str());
            assert(score == scores[i as int]);
            let ghost pre = scores.subrange(0, i as int);
            let ghost post = scores.subrange(0, (i + 1) as int);
            if i == 0 || score > best_score {
                best = i;
                best_score = score;
                assert forall|j: int| 0 <= j < post.len() implies #[trigger] post[j] <= post[best as int] by {
                    if j < i {
                        assert(post[j] == pre[j]);
                    }
                }
                assert forall|j: int| 0 <= j < best implies #[trigger] post[j] < post[best as int] by {
                    assert(post[j] == pre[j]);
                }
            } else {
                assert forall|j: int| 0 <= j < post.len() implies #[trigger] post[j] <= post[best as int] by {
                    if j < i {
                        assert(post[j] == pre[j]);
                    }
                }
                assert forall|j: int| 0 <= j < best implies #[trigger] post[j] < post[best as int] by {
                    assert(post[j] == pre[j]);
                }
            }
            i = i + 1;
        }
        proof {
            if n > 0 {
                assert(scores.subrange(0, n as int) =~= scores);
                let c = choose|b: int| is_first_max(scores, b);
                assert(is_first_max(scores, best as int));
                assert(c == best as int) by {
                    if c < best {
                        assert(scores[c] < scores[best as int]);
                    } else if c > best {
                        assert(scores[best as int] < scores[c]);
                    }
                }
            }
        }
        if n > 0 && best_score >= FALLBACK_MIN_SIMILARITY_BITS {
            self.allowed[best].clone()
        } else if self.accepts(DEFAULT_ENTITY_TYPE) {
            to_owned(DEFAULT_ENTITY_TYPE)
        } else if n > 0 {
            self.allowed[0].clone()
        } else {
            to_owned(DEFAULT_ENTITY_TYPE)
        }
    }

    /// Applies the policy to one already shape-normalised label.
    pub fn apply(&self, label: &str) -> (r: PolicyOutcome)
        ensures
            r@ == outcome_for(self.allowed_view(), self.policy, label@),
    {
        if self.accepts(label) {
            return PolicyOutcome::Accept(to_owned(label));
        }
        match self.policy {
            UnknownTypePolicy::Keep => PolicyOutcome::Accept(to_owned(label)),
            UnknownTypePolicy::Fallback => PolicyOutcome::Fallback {
                applied: self.nearest(label),
                raw: to_owned(label),
            },
            UnknownTypePolicy::Strict => {
                let mut m = to_owned("--on-unknown-type ");
                m.append(UnknownTypePolicy::Strict.as_str());
                m.append(" is in force and the validated entity type '");
                m.append(label);
                m.append("' is outside the accepted vocabulary: ");
                let list = join_strings(&self.allowed, ", ");
                m.append(list.as_str());
                m.append(
                    ". Add the label with --allowed-types, or choose keep/fallback to let the run continue",
                );
                PolicyOutcome::Refuse(m)
            },
        }
    }
}

/// Labels of the first `n` pieces.
pub open spec fn labels_of_prefix(parts: Seq<Seq<char>>, n: int) -> Set<Seq<char>> {
    Set::new(
        |t: Seq<char>|
            exists|i: int| 0 <= i < n && normalized_label(#[trigger] parts[i]) == Some(t),
    )
}

/// Splits a comma-separated vocabulary, dropping labels of unusable shape,
/// then sorts and deduplicates. Returns `None` when the input declares
/// nothing, so the caller falls through to the next precedence layer instead
/// of installing an empty vocabulary that would refuse every label.
pub fn parse_vocabulary(raw: &str) -> (r: Option<Vec<String>>)
    ensures
        r is None <==> vocabulary_labels(raw@).is_empty(),
        r matches Some(v) ==> is_vocabulary_of(views(v@), raw@),
{
    let parts = split_str(raw, ',');
    let ghost pv = views(parts@);
    let mut out: Vec<String> = Vec::new();
    let mut i: usize = 0;
    assert(views(out@).to_set() =~= labels_of_prefix(pv, 0));
    while i < parts.len()
        invariant
            i <= parts.len(),
            pv == views(parts@),
            pv == split(raw@, ','),
            strictly_sorted(views(out@)),
            views(out@).to_set() == labels_of_prefix(pv, i as int),
        decreases parts.len() - i,
    {
        let ghost before = views(out@).to_set();
        match normalize_entity_type(parts[i].as_str()) {
            Some(l) => {
                let ghost lv = l@;
                insert_sorted(&mut out, l);
                assert(views(out@).to_set() =~= labels_of_prefix(pv, (i + 1) as int)) by {
                    assert forall|t: Seq<char>| #[trigger] labels_of_prefix(pv, (i + 1) as int).contains(
                        t,
                    ) <==> before.insert(lv).contains(t) by {
                        if labels_of_prefix(pv, (i + 1) as int).contains(t) {
                            let k = choose|k: int|
                                0 <= k < i + 1 && normalized_label(#[trigger] pv[k]) == Some(t);
                            if k < i {
                                assert(labels_of_prefix(pv, i as int).contains(t));
                            }
                        }
                        if before.contains(t) {
                            let k = choose|k: int|
                                0 <= k < i && normalized_label(#[trigger] pv[k]) == Some(t);
                            assert(labels_of_prefix(pv, (i + 1) as int).contains(t));
                        }
                        if t == lv {
                            assert(normalized_label(pv[i as int]) == Some(t));
                        }
                    }
                }
            },
            None => {
                assert(views(out@).to_set() =~= labels_of_prefix(pv, (i + 1) as int)) by {
                    assert forall|t: Seq<char>| #[trigger] labels_of_prefix(pv, (i + 1) as int).contains(
                        t,
                    ) implies before.contains(t) by {
                        let k = choose|k: int|
                            0 <= k < i + 1 && normalized_label(#[trigger] pv[k]) == Some(t);
                        if k < i {
                            assert(labels_of_prefix(pv, i as int).contains(t));
                        }
                    }
                    assert forall|t: Seq<char>| before.contains(t) implies #[trigger] labels_of_prefix(
                        pv,
                        (i + 1) as int,
                    ).contains(t) by {
                        let k = choose|k: int|
                            0 <= k < i && normalized_label(#[trigger] pv[k]) == Some(t);
                    }
                }
            },
        }
        i = i + 1;
    }
    assert(labels_of_prefix(pv, pv.len() as int) =~= vocabulary_labels(raw@));
    if out.len() == 0 {
        assert(views(out@).to_set() =~= Set::<Seq<char>>::empty());
        None
    } else {
        assert(views(out@).to_set().contains(views(out@)[0]));
        Some(out)
    }
}

/// Marker that carries the raw label into the entity description under
/// `fallback`, so the rewrite has a declared inverse.
pub open spec fn raw_label_note_text(raw: Seq<char>, applied: Seq<char>) -> Seq<char> {
    "[entity-type-fallback] raw entity type '"@ + raw + "' rewritten to '"@ + applied + "'"@
}

/// Sentence appended to an entity description so a `fallback` rewrite can be
/// undone without a backup.
pub fn raw_label_note(raw: &str, applied: &str) -> (r: String)
    ensures
        r@ == raw_label_note_text(raw@, applied@),
{
    let mut m = to_owned("[entity-type-fallback] raw entity type '");
    m.append(raw);
    m.append("' rewritten to '");
    m.append(applied);
    m.append("'");
    m
}

/// Evidence block headers; they label the evidence, they are not evidence.
pub open spec fn is_evidence_header(t: Seq<char>) -> bool {
    t == "Linked memory bodies:"@ || t == "Typed relations in the graph:"@
}

/// Number of evidence lines among `lines` that carry text and are not a
/// header.
pub open spec fn evidence_line_count(lines: Seq<Seq<char>>) -> nat
    decreases lines.len(),
{
    if lines.len() == 0 {
        0
    } else {
        evidence_line_count(lines.drop_last()) + if !is_blank(lines.last())
            && !is_evidence_header(trim(lines.last())) {
            1nat
        } else {
            0nat
        }
    }
}

/// How many distinct signals fed a type decision: one for a non-blank
/// description, plus one per non-blank, non-header line of evidence.
pub open spec fn type_signal_count(description: Seq<char>, evidence: Seq<char>) -> nat {
    (if is_blank(description) {
        0nat
    } else {
        1nat
    }) + evidence_line_count(split(evidence, '\n'))
}

proof fn lemma_line_count_prefix(lines: Seq<Seq<char>>, n: int)
    requires
        0 <= n <= lines.len(),
    ensures
        evidence_line_count(lines.subrange(0, n)) <= evidence_line_count(lines),
    decreases lines.len() - n,
{
    if n < lines.len() {
        lemma_line_count_prefix(lines, n + 1);
        assert(lines.subrange(0, n + 1).drop_last() =~= lines.subrange(0, n));
    } else {
        assert(lines.subrange(0, n) =~= lines);
    }
}

/// How many distinct signals fed a type decision.
///
/// A description counts once, and every non-header line of gathered evidence
/// counts once.
pub fn count_type_signals(description: &str, evidence: &str) -> (r: usize)
    requires
        type_signal_count(description@, evidence@) <= usize::MAX,
    ensures
        r == type_signal_count(description@, evidence@),
{
    let described: usize = if is_blank_str(description) {
        0
    } else {
        1
    };
    let lines = split_str(evidence, '\n');
    let ghost lv = views(lines@);
    let mut count: usize = 0;
    let mut i: usize = 0;
    while i < lines.len()
        invariant
            i <= lines.len(),
            lv == views(lines@),
            lv == split(evidence@, '\n'),
            count == evidence_line_count(lv.subrange(0, i as int)),
            described + evidence_line_count(lv) <= usize::MAX,
        decreases lines.len() - i,
    {
        proof {
            lemma_line_count_prefix(lv, (i + 1) as int);
        }
        assert(lv.subrange(0, (i + 1) as int).drop_last() =~= lv.subrange(0, i as int));
        let line = lines[i].as_str();
        if !is_blank_str(line) {
            let t = trim_str(line);
            if !str_eq(t.as_str(), "Linked memory bodies:") && !str_eq(
                t.as_str(),
                "Typed relations in the graph:",
            ) {
                count = count + 1;
            }
        }
        i = i + 1;
    }
    assert(lv.subrange(0, lines@.len() as int) =~= lv);
    described + count
}

/// One record per label the policy ruled on.
#[derive(Debug, Clone)]
pub struct EntityTypePolicyEvent {
    /// Event family discriminator.
    pub phase: String,
    /// Entity whose label was ruled on.
    pub item: String,
    /// Policy applied on this invocation.
    pub policy: UnknownTypePolicy,
    /// Layer that supplied the policy.
    pub policy_source: PolicySource,
    /// Layer that supplied the accepted vocabulary.
    pub allowed_types_source: PolicySource,
    /// Size of the accepted vocabulary in force.
    pub allowed_types: usize,
    /// Label the model returned, after shape normalisation.
    pub raw_type: String,
    /// Label the run will store, when it stores one.
    pub applied_type: Option<String>,
    /// Whether the label sits inside the accepted vocabulary.
    pub accepted: bool,
    /// Distinct signals that fed the decision.
    pub signals: usize,
    /// Characters of evidence the decision was made from.
    pub evidence_chars: usize,
}

/// The policy record for `item` under `policy`.
pub fn policy_event(
    policy: &EntityTypePolicy,
    item: &str,
    raw_type: &str,
    applied_type: Option<&str>,
    signals: usize,
    evidence_chars: usize,
) -> (r: EntityTypePolicyEvent)
    ensures
        r.phase@ == "entity-type-policy"@,
        r.item@ == item@,
        r.policy == policy.policy,
        r.policy_source == policy.policy_source,
        r.allowed_types_source == policy.allowed_source,
        r.allowed_types == policy.allowed@.len(),
        r.raw_type@ == raw_type@,
        match applied_type {
            Some(a) => r.applied_type matches Some(s) && s@ == a@,
            None => r.applied_type is None,
        },
        r.accepted == policy.allowed_view().contains(raw_type@),
        r.signals == signals,
        r.evidence_chars == evidence_chars,
{
    let applied = match applied_type {
        Some(a) => Some(to_owned(a)),
        None => None,
    };
    EntityTypePolicyEvent {
        phase: to_owned("entity-type-policy"),
        item: to_owned(item),
        policy: policy.policy,
        policy_source: policy.policy_source,
        allowed_types_source: policy.allowed_source,
        allowed_types: policy.allowed.len(),
        raw_type: to_owned(raw_type),
        applied_type: applied,
        accepted: policy.accepts(raw_type),
        signals,
        evidence_chars,
    }
}


/// Some index holds the first greatest score of a non-empty score list.
pub proof fn lemma_first_max_exists(scores: Seq<u64>)
    requires
        scores.len() > 0,
    ensures
        exists|b: int| is_first_max(scores, b),
    decreases scores.len(),
{
    if scores.len() == 1 {
        assert(is_first_max(scores, 0));
    } else {
        let pre = scores.drop_last();
        lemma_first_max_exists(pre);
        let b = choose|b: int| is_first_max(pre, b);
        let last = scores.len() - 1;
        if scores[last] > scores[b] {
            assert forall|j: int| 0 <= j < last implies #[trigger] scores[j] < scores[last] by {
                assert(scores[j] == pre[j]);
            }
            assert(is_first_max(scores, last));
        } else {
            assert forall|j: int| 0 <= j < scores.len() implies #[trigger] scores[j] <= scores[b] by {
                if j < last {
                    assert(scores[j] == pre[j]);
                }
            }
            assert forall|j: int| 0 <= j < b implies #[trigger] scores[j] < scores[b] by {
                assert(scores[j] == pre[j]);
            }
            assert(is_first_max(scores, b));
        }
    }
}

/// A label inside the accepted vocabulary is stored as written, whatever the
/// policy.
pub proof fn lemma_accepted_label_is_kept(
    allowed: Seq<Seq<char>>,
    policy: UnknownTypePolicy,
    label: Seq<char>,
)
    requires
        allowed.contains(label),
    ensures
        outcome_for(allowed, policy, label) == OutcomeView::Accept(label),
{
}

/// `keep` never rewrites and never refuses: every label is stored as written.
pub proof fn lemma_keep_stores_every_label(allowed: Seq<Seq<char>>, label: Seq<char>)
    ensures
        outcome_for(allowed, UnknownTypePolicy::Keep, label) == OutcomeView::Accept(label),
{
}

/// Only `strict` refuses, and only a label outside the vocabulary.
pub proof fn lemma_only_strict_refuses(
    allowed: Seq<Seq<char>>,
    policy: UnknownTypePolicy,
    label: Seq<char>,
)
    ensures
        outcome_for(allowed, policy, label) is Refuse <==> (policy == UnknownTypePolicy::Strict
            && !allowed.contains(label)),
{
}

/// `fallback` always stores an accepted label when the vocabulary is not
/// empty (and the default label otherwise), and always keeps the raw one.
pub proof fn lemma_fallback_stores_an_accepted_label(allowed: Seq<Seq<char>>, label: Seq<char>)
    requires
        !allowed.contains(label),
    ensures
        outcome_for(allowed, UnknownTypePolicy::Fallback, label) matches OutcomeView::Fallback {
            applied,
            raw,
        } && raw == label && (if allowed.len() > 0 {
            allowed.contains(applied)
        } else {
            applied == DEFAULT_ENTITY_TYPE@
        }),
{
    let scores = scores_for(allowed, label);
    if allowed.len() > 0 {
        lemma_first_max_exists(scores);
        let b = choose|b: int| is_first_max(scores, b);
        assert(0 <= b < allowed.len());
        assert(allowed.contains(allowed[b]));
        assert(allowed.contains(allowed[0]));
    }
}

/// The nearest label is always an accepted one when the vocabulary is not
/// empty, and the default label when it is; when some accepted label is
/// similar enough, it is the first of the most similar ones.
pub proof fn lemma_nearest_label_is_accepted(allowed: Seq<Seq<char>>, label: Seq<char>)
    ensures
        allowed.len() > 0 ==> allowed.contains(nearest_label(allowed, label)),
        allowed.len() == 0 ==> nearest_label(allowed, label) == DEFAULT_ENTITY_TYPE@,
        (exists|i: int|
            0 <= i < allowed.len() && #[trigger] scores_for(allowed, label)[i]
                >= FALLBACK_MIN_SIMILARITY_BITS) ==> exists|b: int|
            is_first_max(scores_for(allowed, label), b) && nearest_label(allowed, label)
                == allowed[b],
{
    let scores = scores_for(allowed, label);
    if allowed.len() > 0 {
        lemma_first_max_exists(scores);
        let b = choose|b: int| is_first_max(scores, b);
        assert(allowed.contains(allowed[b]));
        assert(allowed.contains(allowed[0]));
        if exists|i: int| 0 <= i < allowed.len() && #[trigger] scores[i] >= FALLBACK_MIN_SIMILARITY_BITS {
            let i = choose|i: int| 0 <= i < allowed.len() && #[trigger] scores[i] >= FALLBACK_MIN_SIMILARITY_BITS;
            assert(scores[i] <= scores[b]);
            assert(nearest_label(allowed, label) == allowed[b]);
        }
    }
}

} // verus!
