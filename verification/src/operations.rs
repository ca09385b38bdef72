//! The enrichment operations, their command-line names, and the queue item
//! types their work items carry.
use crate::text::{starts_with, str_starts_with};
use vstd::prelude::*;
use vstd::string::*;

verus! {

/// Operation to perform in the `enrich` command.
#[derive(Debug, Clone, Copy, PartialEq, Eq, Structural)]
pub enum EnrichOperation {
    /// Link each memory to the existing entities extracted from its body.
    MemoryBindings,
    /// Re-run binding extraction over already-bound memories, additively.
    AugmentBindings,
    /// Fill missing entity descriptions.
    EntityDescriptions,
    /// Expand short memory bodies.
    BodyEnrich,
    /// Rebuild missing embeddings without rewriting bodies.
    ReEmbed,
    /// Calibrate relationship weights.
    WeightCalibrate,
    /// Reclassify relationship types.
    RelationReclassify,
    /// Connect isolated entities.
    EntityConnect,
    /// Validate entity type assignments.
    EntityTypeValidate,
    /// Enrich generic memory descriptions.
    DescriptionEnrich,
    /// Identify cross-domain bridges between disconnected subgraphs.
    CrossDomainBridges,
    /// Classify memories into domain categories.
    DomainClassify,
    /// Audit the graph for quality issues.
    GraphAudit,
    /// Synthesize deep-research findings into graph memories.
    DeepResearchSynth,
    /// Extract structured body from unstructured text.
    BodyExtract,
}

/// Which embedding table the `re-embed` operation backfills.
#[derive(Debug, Clone, Copy, PartialEq, Eq, Structural)]
pub enum ReEmbedTarget {
    /// Memories without a live vector (the default).
    Memories,
    /// Entities without a live vector.
    Entities,
    /// Chunks without a live vector.
    Chunks,
    /// All three targets in a single run.
    All,
}

/// LLM provider for enrichment.
#[derive(Debug, Clone, Copy, PartialEq, Eq, Structural)]
pub enum EnrichMode {
    /// The OpenRouter chat-completions REST API.
    OpenRouter,
}

impl EnrichMode {
    /// The provider's command-line name.
    pub fn name(&self) -> (r: &'static str)
        ensures
            r@ == "openrouter"@,
    {
        match self {
            EnrichMode::OpenRouter => "openrouter",
        }
    }

    /// The provider in force: the one given, else OpenRouter, the only one
    /// that spawns no headless process.
    pub fn resolved(mode: Option<EnrichMode>) -> (r: EnrichMode)
        ensures
            r == match mode {
                Some(m) => m,
                None => EnrichMode::OpenRouter,
            },
    {
        match mode {
            Some(m) => m,
            None => EnrichMode::OpenRouter,
        }
    }
}

impl EnrichOperation {
    /// The operation in force: the one given, else `memory-bindings`, the
    /// queue the read-only inspectors fall back to.
    pub fn resolved(op: Option<EnrichOperation>) -> (r: EnrichOperation)
        ensures
            r == match op {
                Some(o) => o,
                None => EnrichOperation::MemoryBindings,
            },
    {
        match op {
            Some(o) => o,
            None => EnrichOperation::MemoryBindings,
        }
    }
}

/// Queue priority of a hot item.
pub const PRIORITY_HOT: i64 = 100;

/// Seconds to wait after a rate limit, by default.
pub const DEFAULT_RATE_LIMIT_WAIT: u64 = 60;

/// Default lower bound on a body-enrich rewrite, in characters.
pub const DEFAULT_BODY_ENRICH_MIN_CHARS: usize = 500;

/// Default upper bound on a body-enrich rewrite, in characters.
pub const DEFAULT_BODY_ENRICH_MAX_CHARS: usize = 2000;

/// Default number of attempts before an item is dead-lettered.
pub const DEFAULT_ENRICH_MAX_ATTEMPTS: u32 = 8;

/// Default age after which a processing claim is considered stale.
pub const DEFAULT_ENRICH_STALE_CLAIM_SECS: u64 = 1800;

/// Default safety margin added to rate-limit waits.
pub const DEFAULT_ENRICH_RATE_LIMIT_BUFFER_SECS: u64 = 300;

/// Default number of consecutive failures that trips the circuit breaker.
pub const DEFAULT_ENRICH_CIRCUIT_BREAKER_THRESHOLD: u32 = 5;

/// Command-line (kebab-case) name of each operation.
pub open spec fn operation_cli_name(op: EnrichOperation) -> Seq<char> {
    match op {
        EnrichOperation::MemoryBindings => "memory-bindings"@,
        EnrichOperation::AugmentBindings => "augment-bindings"@,
        EnrichOperation::EntityDescriptions => "entity-descriptions"@,
        EnrichOperation::BodyEnrich => "body-enrich"@,
        EnrichOperation::ReEmbed => "re-embed"@,
        EnrichOperation::WeightCalibrate => "weight-calibrate"@,
        EnrichOperation::RelationReclassify => "relation-reclassify"@,
        EnrichOperation::EntityConnect => "entity-connect"@,
        EnrichOperation::EntityTypeValidate => "entity-type-validate"@,
        EnrichOperation::DescriptionEnrich => "description-enrich"@,
        EnrichOperation::CrossDomainBridges => "cross-domain-bridges"@,
        EnrichOperation::DomainClassify => "domain-classify"@,
        EnrichOperation::GraphAudit => "graph-audit"@,
        EnrichOperation::DeepResearchSynth => "deep-research-synth"@,
        EnrichOperation::BodyExtract => "body-extract"@,
    }
}

/// Command-line (kebab-case) name for an enrich operation, matching the
/// `--operation` values.
pub fn enrich_operation_cli_name(op: &EnrichOperation) -> (r: &'static str)
    ensures
        r@ == operation_cli_name(*op),
{
    match op {
        EnrichOperation::MemoryBindings => "memory-bindings",
        EnrichOperation::AugmentBindings => "augment-bindings",
        EnrichOperation::EntityDescriptions => "entity-descriptions",
        EnrichOperation::BodyEnrich => "body-enrich",
        EnrichOperation::ReEmbed => "re-embed",
        EnrichOperation::WeightCalibrate => "weight-calibrate",
        EnrichOperation::RelationReclassify => "relation-reclassify",
        EnrichOperation::EntityConnect => "entity-connect",
        EnrichOperation::EntityTypeValidate => "entity-type-validate",
        EnrichOperation::DescriptionEnrich => "description-enrich",
        EnrichOperation::CrossDomainBridges => "cross-domain-bridges",
        EnrichOperation::DomainClassify => "domain-classify",
        EnrichOperation::GraphAudit => "graph-audit",
        EnrichOperation::DeepResearchSynth => "deep-research-synth",
        EnrichOperation::BodyExtract => "body-extract",
    }
}

/// Distinct operations have distinct command-line names.
pub proof fn lemma_cli_names_distinct(a: EnrichOperation, b: EnrichOperation)
    ensures
        operation_cli_name(a) == operation_cli_name(b) ==> a == b,
{
    reveal_strlit("memory-bindings");
    reveal_strlit("augment-bindings");
    reveal_strlit("entity-descriptions");
    reveal_strlit("body-enrich");
    reveal_strlit("re-embed");
    reveal_strlit("weight-calibrate");
    reveal_strlit("relation-reclassify");
    reveal_strlit("entity-connect");
    reveal_strlit("entity-type-validate");
    reveal_strlit("description-enrich");
    reveal_strlit("cross-domain-bridges");
    reveal_strlit("domain-classify");
    reveal_strlit("graph-audit");
    reveal_strlit("deep-research-synth");
    reveal_strlit("body-extract");
    if a != b && operation_cli_name(a) == operation_cli_name(b) {
        let na = operation_cli_name(a);
        let nb = operation_cli_name(b);
        assert(na.len() == nb.len());
        assert(forall|i: int| 0 <= i < na.len() ==> na[i] == nb[i]);
        assert(na[0] == nb[0]);
        assert(na[1] == nb[1]);
        assert(na[2] == nb[2]);
        assert(na[5] == nb[5]);
        assert(na[7] == nb[7]);
    }
}

/// Queue item type of each operation: entity-keyed operations use `entity`,
/// entity-pair operations use `entity_pair`, every other operation uses
/// `memory`.
pub open spec fn operation_item_type(op: EnrichOperation) -> Seq<char> {
    match op {
        EnrichOperation::EntityDescriptions => "entity"@,
        EnrichOperation::EntityConnect | EnrichOperation::CrossDomainBridges => "entity_pair"@,
        _ => "memory"@,
    }
}

/// Queue `item_type` for an operation.
pub fn item_type_for(operation: &EnrichOperation) -> (r: &'static str)
    ensures
        r@ == operation_item_type(*operation),
{
    match operation {
        EnrichOperation::EntityDescriptions => "entity",
        EnrichOperation::EntityConnect | EnrichOperation::CrossDomainBridges => "entity_pair",
        _ => "memory",
    }
}

/// Item type a queue key carries: `pair:`, `entity:` and `chunk:` prefixes
/// select their own type; any other key keeps the operation's default.
pub open spec fn key_item_type(key: Seq<char>, default: Seq<char>) -> Seq<char> {
    if starts_with(key, "pair:"@) {
        "entity_pair"@
    } else if starts_with(key, "entity:"@) {
        "entity"@
    } else if starts_with(key, "chunk:"@) {
        "chunk"@
    } else {
        default
    }
}

/// Per-key `item_type` override for prefixed keys, so a queue row always
/// carries the real item type of its key.
pub fn item_type_for_key(key: &str, default: &'static str) -> (r: &'static str)
    ensures
        r@ == key_item_type(key@, default@),
{
    if str_starts_with(key, "pair:") {
        "entity_pair"
    } else if str_starts_with(key, "entity:") {
        "entity"
    } else if str_starts_with(key, "chunk:") {
        "chunk"
    } else {
        default
    }
}

/// Drain worker count under OpenRouter: `--rest-concurrency` clamped to
/// `1..=16`.
pub open spec fn drain_parallelism(rest_concurrency: u32) -> nat {
    if rest_concurrency < 1 {
        1
    } else if rest_concurrency > 16 {
        16
    } else {
        rest_concurrency as nat
    }
}

/// The drain fan-out decision: how many workers, and whether
/// `--llm-parallelism` was passed (it is inert under OpenRouter, so the
/// caller warns about it).
pub struct DrainPlan {
    /// Worker count.
    pub parallelism: usize,
    /// Whether to warn that `--llm-parallelism` has no effect.
    pub warn_llm_parallelism_inert: bool,
    /// Whether more than one worker runs.
    pub parallel: bool,
}

/// Resolves the drain worker count from `--rest-concurrency` and
/// `--llm-parallelism`.
pub fn resolve_drain_parallelism(rest_concurrency: u32, llm_parallelism: Option<u32>) -> (r:
    DrainPlan)
    ensures
        r.parallelism == drain_parallelism(rest_concurrency),
        r.warn_llm_parallelism_inert == llm_parallelism is Some,
        r.parallel == (r.parallelism > 1),
        1 <= r.parallelism <= 16,
{
    let c: u32 = if rest_concurrency < 1 {
        1
    } else if rest_concurrency > 16 {
        16
    } else {
        rest_concurrency
    };
    let p = c as usize;
    DrainPlan {
        parallelism: p,
        warn_llm_parallelism_inert: llm_parallelism.is_some(),
        parallel: p > 1,
    }
}

/// The refusal of an `enrich` run with no OpenRouter API key.
pub open spec fn missing_api_key_text() -> Seq<char> {
    "no OpenRouter API key: store one with `config add-key --provider openrouter --from-stdin` or pass --openrouter-api-key"@
}

/// The readiness check run before any database work: the OpenRouter judge
/// has no process to ping, so it is ready exactly when an API key resolves.
pub fn openrouter_preflight(api_key_resolved: bool) -> (r: Result<(), crate::errors::AppError>)
    ensures
        api_key_resolved <==> r is Ok,
        r matches Err(e) ==> (e matches crate::errors::AppError::Validation(m) && m@
            == missing_api_key_text()),
{
    if api_key_resolved {
        Ok(())
    } else {
        Err(
            crate::errors::AppError::Validation(
                crate::text::to_owned(
                    "no OpenRouter API key: store one with `config add-key --provider openrouter --from-stdin` or pass --openrouter-api-key",
                ),
            ),
        )
    }
}

} // verus!
