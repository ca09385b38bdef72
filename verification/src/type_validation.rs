//! Decisions of the `entity-type-validate` operation.
//!
//! The operation reads an entity and its evidence, asks a model whether the
//! stored type is right, and writes a corrected type. The reads, the model
//! call and the writes are the caller's; this module decides, from what was
//! read and what the model answered, whether to ask at all and what to
//! write, skip or refuse.
use crate::entity_type::normalized_label;
use crate::text::{chars_of, is_blank, opt_view, is_blank_str, str_eq, trim, trim_bounds, trim_str};
use crate::type_policy::{
    count_type_signals, outcome_for, policy_event, type_signal_count, EntityTypePolicy,
    EntityTypePolicyEvent, OutcomeView, PolicyOutcome,
};
use vstd::prelude::*;
use vstd::string::*;

verus! {

/// The evidence is enough to judge from: its trimmed text holds at least
/// `min_corpus_chars` characters.
pub open spec fn corpus_sufficient(corpus: Seq<char>, min_corpus_chars: nat) -> bool {
    trim(corpus).len() >= min_corpus_chars
}

/// Number of characters of the trimmed text.
pub fn trimmed_char_count(s: &str) -> (r: usize)
    ensures
        r == trim(s@).len(),
{
    let v = chars_of(s);
    let (a, b) = trim_bounds(&v);
    b - a
}

/// Whether a corpus is enough evidence to judge from.
pub fn corpus_is_sufficient(corpus: &str, min_corpus_chars: usize) -> (r: bool)
    ensures
        r == corpus_sufficient(corpus@, min_corpus_chars as nat),
{
    trimmed_char_count(corpus) >= min_corpus_chars
}

/// A type judgement is withheld when there is neither a stored description
/// nor enough corpus: the only basis left would be how the name is spelled.
pub open spec fn abstains(description: Seq<char>, evidence: Seq<char>, min_corpus_chars: nat) -> bool {
    is_blank(description) && !corpus_sufficient(evidence, min_corpus_chars)
}

/// Whether to skip the model call for lack of evidence.
pub fn should_abstain_from_type_judgement(
    description: &str,
    evidence: &str,
    min_corpus_chars: usize,
) -> (r: bool)
    ensures
        r == abstains(description@, evidence@, min_corpus_chars as nat),
{
    is_blank_str(description) && !corpus_is_sufficient(evidence, min_corpus_chars)
}

/// Whether to skip an entity before any request is spent on it: a
/// `NoEvidence` skip when it has neither a stored description (trimmed,
/// empty when absent) nor enough evidence; `None` when the request goes
/// ahead.
pub fn type_validation_gate(
    description: Option<&str>,
    evidence: &str,
    min_corpus_chars: usize,
) -> (r: Option<SkipReason>)
    ensures
        r is Some <==> abstains(stored_description(description), evidence@, min_corpus_chars as nat),
        r matches Some(reason) ==> reason == (SkipReason::NoEvidence {
            evidence_chars: trim(evidence@).len() as usize,
            min_corpus_chars,
        }),
{
    let desc = match description {
        Some(d) => trim_str(d),
        None => String::new(),
    };
    if should_abstain_from_type_judgement(desc.as_str(), evidence, min_corpus_chars) {
        let evidence_chars = trimmed_char_count(evidence);
        Some(SkipReason::NoEvidence { evidence_chars, min_corpus_chars })
    } else {
        None
    }
}

/// The `validated_type` field of the model's reply.
#[derive(Debug, Clone, PartialEq, Eq)]
pub enum SuggestedType {
    /// The field is absent.
    Absent,
    /// The field is an explicit `null`: the model abstained.
    Null,
    /// The field holds this text.
    Text(String),
    /// The field holds something other than text or `null`.
    Other,
}

/// The fields of the model's reply the decision reads.
#[derive(Debug, Clone, PartialEq, Eq)]
pub struct TypeValidationReply {
    /// `sufficient_evidence`, when present as a boolean.
    pub sufficient_evidence: Option<bool>,
    /// `was_correct`, when present as a boolean.
    pub was_correct: Option<bool>,
    /// `validated_type`.
    pub validated_type: SuggestedType,
}

/// Why an item is skipped without a write.
#[derive(Debug, Clone, PartialEq, Eq)]
pub enum SkipReason {
    /// Neither a description nor enough corpus: no model call was made.
    NoEvidence { evidence_chars: usize, min_corpus_chars: usize },
    /// The model read the evidence and declined to judge.
    ModelAbstained { evidence_chars: usize },
    /// The stored type was confirmed.
    Confirmed { current_type: String },
    /// The suggested label has no usable shape; the current type is kept.
    SuggestionUnusable { suggested: String },
}

/// What the operation does with one entity after the model answered.
#[derive(Debug, Clone)]
pub enum TypeValidationAction {
    /// Write nothing.
    Skip(SkipReason),
    /// Write `label` as the entity's type, appending `note` to its
    /// description first when present, and publish `event`.
    Write { label: String, note: Option<String>, event: EntityTypePolicyEvent },
    /// Refuse the item with `message` after publishing `event`.
    Refuse { message: String, event: EntityTypePolicyEvent },
}

/// The text of the suggested type, as the reply is read: an absent field or a
/// non-text value reads as empty.
pub open spec fn suggested_text(s: SuggestedType) -> Seq<char> {
    match s {
        SuggestedType::Text(t) => t@,
        _ => Seq::empty(),
    }
}

/// The label the operation would store, before the vocabulary policy, when
/// the model proposes a change: `None` when the reply leads to a skip.
pub open spec fn proposed_label(
    current_type: Seq<char>,
    reply: TypeValidationReply,
) -> Option<Seq<char>> {
    if reply.sufficient_evidence == Some(false) {
        None
    } else if reply.was_correct != Some(false) {
        None
    } else if reply.validated_type == SuggestedType::Null {
        None
    } else {
        match normalized_label(suggested_text(reply.validated_type)) {
            None => None,
            Some(n) => if n == current_type {
                None
            } else {
                Some(n)
            },
        }
    }
}

/// The description of the entity as the decision reads it: trimmed, empty
/// when absent.
pub open spec fn stored_description(description: Option<&str>) -> Seq<char> {
    match description {
        Some(d) => trim(d@),
        None => Seq::empty(),
    }
}

/// `e` reports the ruling on `raw` for `item`, with the label stored.
pub open spec fn event_reports(
    e: EntityTypePolicyEvent,
    item: Seq<char>,
    raw: Seq<char>,
    applied: Option<Seq<char>>,
    signals: nat,
    evidence_chars: nat,
) -> bool {
    &&& e.item@ == item
    &&& e.raw_type@ == raw
    &&& opt_view(e.applied_type) == applied
    &&& e.signals == signals
    &&& e.evidence_chars == evidence_chars
}

/// `r` writes `label` (after appending `note` to the description).
pub open spec fn is_write(
    r: TypeValidationAction,
    label: Seq<char>,
    note: Option<Seq<char>>,
    item: Seq<char>,
    raw: Seq<char>,
    signals: nat,
    evidence_chars: nat,
) -> bool {
    match r {
        TypeValidationAction::Write { label: w, note: n, event } => w@ == label && opt_view(n)
            == note && event_reports(event, item, raw, Some(label), signals, evidence_chars),
        _ => false,
    }
}

/// `r` refuses with `message`.
pub open spec fn is_refuse(
    r: TypeValidationAction,
    message: Seq<char>,
    item: Seq<char>,
    raw: Seq<char>,
    signals: nat,
    evidence_chars: nat,
) -> bool {
    match r {
        TypeValidationAction::Refuse { message: m, event } => m@ == message && event_reports(
            event,
            item,
            raw,
            None,
            signals,
            evidence_chars,
        ),
        _ => false,
    }
}

/// Decides what to do with the model's reply for one entity.
///
/// Skips when the model abstains (`sufficient_evidence: false` or a `null`
/// type), confirms (`was_correct` true or absent, or the same label), or
/// suggests a label of unusable shape; otherwise applies the vocabulary
/// policy to the normalised suggestion.
pub fn decide_type_validation(
    policy: &EntityTypePolicy,
    entity_name: &str,
    current_type: &str,
    description: Option<&str>,
    evidence: &str,
    reply: &TypeValidationReply,
) -> (r: TypeValidationAction)
    requires
        type_signal_count(stored_description(description), evidence@) <= usize::MAX,
    ensures
        ({
            let evidence_chars = trim(evidence@).len();
            if reply.sufficient_evidence == Some(false) || reply.validated_type
                == SuggestedType::Null && reply.was_correct == Some(false) {
                r matches TypeValidationAction::Skip(SkipReason::ModelAbstained { evidence_chars: n })
                    && n == evidence_chars
            } else if reply.was_correct != Some(false) {
                r matches TypeValidationAction::Skip(SkipReason::Confirmed { current_type: c })
                    && c@ == current_type@
            } else if normalized_label(suggested_text(reply.validated_type)) is None {
                r matches TypeValidationAction::Skip(SkipReason::SuggestionUnusable { suggested: s })
                    && s@ == suggested_text(reply.validated_type)
            } else if proposed_label(current_type@, *reply) is None {
                r matches TypeValidationAction::Skip(SkipReason::Confirmed { current_type: c })
                    && c@ == current_type@
            } else {
                let label = proposed_label(current_type@, *reply)->Some_0;
                let signals = type_signal_count(stored_description(description), evidence@);
                match outcome_for(policy.allowed_view(), policy.policy, label) {
                    OutcomeView::Accept(l) => is_write(
                        r,
                        l,
                        None,
                        entity_name@,
                        label,
                        signals,
                        evidence_chars,
                    ),
                    OutcomeView::Fallback { applied, raw } => is_write(
                        r,
                        applied,
                        Some(crate::type_policy::raw_label_note_text(raw, applied)),
                        entity_name@,
                        label,
                        signals,
                        evidence_chars,
                    ),
                    OutcomeView::Refuse(m) => is_refuse(
                        r,
                        m,
                        entity_name@,
                        label,
                        signals,
                        evidence_chars,
                    ),
                }
            }
        }),
{
    let evidence_chars = trimmed_char_count(evidence);
    if reply.sufficient_evidence == Some(false) {
        return TypeValidationAction::Skip(SkipReason::ModelAbstained { evidence_chars });
    }
    let was_correct = match reply.was_correct {
        Some(b) => b,
        None => true,
    };
    if was_correct {
        return TypeValidationAction::Skip(
            SkipReason::Confirmed { current_type: crate::text::to_owned(current_type) },
        );
    }
    let suggested = match &reply.validated_type {
        SuggestedType::Null => {
            return TypeValidationAction::Skip(SkipReason::ModelAbstained { evidence_chars });
        },
        SuggestedType::Text(t) => t.clone(),
        SuggestedType::Absent => String::new(),
        SuggestedType::Other => String::new(),
    };
    let normalized = match crate::entity_type::normalize_entity_type(suggested.as_str()) {
        Some(n) => n,
        None => {
            return TypeValidationAction::Skip(SkipReason::SuggestionUnusable { suggested });
        },
    };
    if str_eq(normalized.as_str(), current_type) {
        return TypeValidationAction::Skip(
            SkipReason::Confirmed { current_type: crate::text::to_owned(current_type) },
        );
    }
    let desc = match description {
        Some(d) => trim_str(d),
        None => String::new(),
    };
    let signals = count_type_signals(desc.as_str(), evidence);
    let outcome = policy.apply(normalized.as_str());
    match outcome {
        PolicyOutcome::Accept(label) => {
            let event = policy_event(
                policy,
                entity_name,
                normalized.as_str(),
                Some(label.as_str()),
                signals,
                evidence_chars,
            );
            TypeValidationAction::Write { label, note: None, event }
        },
        PolicyOutcome::Fallback { applied, raw } => {
            let note = crate::type_policy::raw_label_note(raw.as_str(), applied.as_str());
            let event = policy_event(
                policy,
                entity_name,
                normalized.as_str(),
                Some(applied.as_str()),
                signals,
                evidence_chars,
            );
            TypeValidationAction::Write { label: applied, note: Some(note), event }
        },
        PolicyOutcome::Refuse(message) => {
            let event = policy_event(
                policy,
                entity_name,
                normalized.as_str(),
                None,
                signals,
                evidence_chars,
            );
            TypeValidationAction::Refuse { message, event }
        },
    }
}

/// A type is only ever written when the model said the stored one was wrong
/// and proposed a differently spelled, well-shaped label.
pub proof fn lemma_write_requires_a_real_change(
    current_type: Seq<char>,
    reply: TypeValidationReply,
)
    ensures
        proposed_label(current_type, reply) matches Some(l) ==> l != current_type
            && reply.was_correct == Some(false) && reply.sufficient_evidence != Some(false)
            && normalized_label(suggested_text(reply.validated_type)) == Some(l),
{
}

} // verus!
