//! Rows of the enrich work queue: what a priority enqueue writes, and what
//! the status, dead-letter and requeue reports carry.
//!
//! The queue itself is a SQLite sidecar kept by the caller; this module
//! decides which rows go into it.
use crate::graph_ops::{parse_i64, parsed_i64};
use crate::operations::PRIORITY_HOT;
use crate::text::{starts_with, str_eq, str_starts_with, to_owned};
use vstd::prelude::*;
use vstd::string::*;

verus! {

/// One row to insert into the queue (`INSERT OR IGNORE`, then raise the
/// priority of an existing lower-priority row with the same key).
#[derive(Debug, Clone)]
pub struct QueueCandidate {
    /// Key of the item: an entity name for entity-keyed operations.
    pub item_key: String,
    /// `memory`, `entity`, `entity_pair` or `chunk`.
    pub item_type: &'static str,
    /// Operation the row belongs to, as the queue stores it.
    pub operation: &'static str,
    /// Higher values are claimed first.
    pub priority: i64,
}

/// The candidate row that puts the description of entity `name` at the head
/// of the queue.
pub open spec fn hot_description_row(name: Seq<char>, c: QueueCandidate) -> bool {
    &&& c.item_key@ == name
    &&& c.item_type@ == "entity"@
    &&& c.operation@ == "EntityDescriptions"@
    &&& c.priority == PRIORITY_HOT
}

/// The rows that queue a fresh description for each of `entity_names`, in
/// order, at hot priority; their number is the count the command reports.
///
/// The namespace is accepted for symmetry with the other enqueue paths: the
/// queue sidecar sits next to one database, and its priority rows are keyed
/// by entity name alone.
pub fn enqueue_priority_entity_descriptions(namespace: &str, entity_names: &Vec<String>) -> (r: Vec<
    QueueCandidate,
>)
    ensures
        r.len() == entity_names.len(),
        forall|i: int| 0 <= i < r.len() ==> hot_description_row(entity_names@[i]@, #[trigger] r@[i]),
{
    let mut out: Vec<QueueCandidate> = Vec::new();
    let mut i: usize = 0;
    while i < entity_names.len()
        invariant
            i <= entity_names.len(),
            out.len() == i,
            forall|t: int| 0 <= t < i ==> hot_description_row(entity_names@[t]@, #[trigger] out@[t]),
        decreases entity_names.len() - i,
    {
        let entity = "entity";
        let operation = "EntityDescriptions";
        proof {
            reveal_strlit("entity");
            reveal_strlit("EntityDescriptions");
        }
        out.push(
            QueueCandidate {
                item_key: entity_names[i].clone(),
                item_type: entity,
                operation,
                priority: PRIORITY_HOT,
            },
        );
        i = i + 1;
    }
    out
}

/// The status of a queue row.
#[derive(Debug, Clone, Copy, PartialEq, Eq, Structural)]
pub enum QueueStatus {
    /// Waiting to be claimed.
    Pending,
    /// Claimed by a worker.
    Processing,
    /// Finished.
    Done,
    /// Failed, to be retried.
    Failed,
    /// Vetoed for its operation.
    Skipped,
    /// Dead-lettered.
    Dead,
}

/// What the priority enqueue reads and writes of one queue row.
#[derive(Debug, Clone, Copy, PartialEq, Eq, Structural)]
pub struct QueueRowState {
    /// Its status.
    pub status: QueueStatus,
    /// Its priority; `None` for a row written before priorities existed.
    pub priority: Option<i64>,
}

/// A row in `done`, `skipped` or `dead` is finished and is never reopened
/// by a priority enqueue.
pub open spec fn is_settled(s: QueueStatus) -> bool {
    s == QueueStatus::Done || s == QueueStatus::Skipped || s == QueueStatus::Dead
}

/// The row after a priority enqueue at `priority`: a new row is inserted
/// pending at that priority; an existing row whose priority (absent reads
/// as zero) is lower is raised to it and, unless settled, set pending; any
/// other row is left as it is.
pub open spec fn priority_enqueued(existing: Option<QueueRowState>, priority: i64) -> QueueRowState {
    match existing {
        None => QueueRowState { status: QueueStatus::Pending, priority: Some(priority) },
        Some(row) => {
            let current: i64 = match row.priority {
                Some(p) => p,
                None => 0,
            };
            if current < priority {
                QueueRowState {
                    status: if is_settled(row.status) {
                        row.status
                    } else {
                        QueueStatus::Pending
                    },
                    priority: Some(priority),
                }
            } else {
                row
            }
        },
    }
}

/// The row a priority enqueue leaves, as the queue's insert-or-ignore and
/// raise statements leave it; see [`priority_enqueued`].
pub fn priority_enqueue(existing: Option<QueueRowState>, priority: i64) -> (r: QueueRowState)
    ensures
        r == priority_enqueued(existing, priority),
{
    match existing {
        None => QueueRowState { status: QueueStatus::Pending, priority: Some(priority) },
        Some(row) => {
            let current: i64 = match row.priority {
                Some(p) => p,
                None => 0,
            };
            if current < priority {
                let settled = match row.status {
                    QueueStatus::Done | QueueStatus::Skipped | QueueStatus::Dead => true,
                    _ => false,
                };
                QueueRowState {
                    status: if settled {
                        row.status
                    } else {
                        QueueStatus::Pending
                    },
                    priority: Some(priority),
                }
            } else {
                row
            }
        },
    }
}

/// A priority enqueue at a positive priority never lowers a row, always
/// leaves it at least at the requested priority, never reopens a settled row, and leaves every other
/// row it touches or creates pending.
pub proof fn lemma_priority_enqueue_raises(existing: Option<QueueRowState>, priority: i64)
    requires
        priority > 0,
    ensures
        ({
            let r = priority_enqueued(existing, priority);
            let before: i64 = match existing {
                Some(row) => match row.priority {
                    Some(p) => p,
                    None => 0,
                },
                None => priority,
            };
            &&& r.priority matches Some(p) && p >= priority && p >= before
            &&& existing matches Some(row) ==> (is_settled(row.status) ==> r.status == row.status)
            &&& existing is None ==> r.status == QueueStatus::Pending
            &&& existing matches Some(row) ==> (!is_settled(row.status) && before < priority
                ==> r.status == QueueStatus::Pending)
        }),
{
}

/// What must be confirmed before a scanned key is queued.
#[derive(Debug, Clone, PartialEq, Eq)]
pub enum EnqueueCheck {
    /// The memory of this name must exist, undeleted, in the namespace; its
    /// id is stored with the row.
    Memory { name: String },
    /// The entity of this name must exist in the namespace.
    Entity { name: String },
    /// The chunk of this id must belong to an undeleted memory of the
    /// namespace.
    Chunk { id: i64 },
    /// The key names no chunk: the candidate is dropped.
    InvalidChunk,
    /// Any other key is queued as the scanner produced it.
    Trusted,
}

/// `key` without `prefix`, when it starts with it; else `key`.
pub open spec fn without_prefix(key: Seq<char>, prefix: Seq<char>) -> Seq<char> {
    if starts_with(key, prefix) {
        key.subrange(prefix.len() as int, key.len() as int)
    } else {
        key
    }
}

/// The check for a key of `item_type`: a memory by its name; an entity by
/// its name, an `entity:` prefix stripped; a chunk by the integer after an
/// optional `chunk:` prefix; anything else trusted.
pub open spec fn enqueue_check_of(key: Seq<char>, item_type: Seq<char>) -> EnqueueCheckView {
    if item_type == "memory"@ {
        EnqueueCheckView::Memory(key)
    } else if item_type == "entity"@ {
        EnqueueCheckView::Entity(without_prefix(key, "entity:"@))
    } else if item_type == "chunk"@ {
        match parsed_i64(without_prefix(key, "chunk:"@)) {
            Some(id) => EnqueueCheckView::Chunk(id),
            None => EnqueueCheckView::InvalidChunk,
        }
    } else {
        EnqueueCheckView::Trusted
    }
}

/// The view of an [`EnqueueCheck`].
pub enum EnqueueCheckView {
    Memory(Seq<char>),
    Entity(Seq<char>),
    Chunk(int),
    InvalidChunk,
    Trusted,
}

/// The view of a check.
pub open spec fn check_view(c: EnqueueCheck) -> EnqueueCheckView {
    match c {
        EnqueueCheck::Memory { name } => EnqueueCheckView::Memory(name@),
        EnqueueCheck::Entity { name } => EnqueueCheckView::Entity(name@),
        EnqueueCheck::Chunk { id } => EnqueueCheckView::Chunk(id as int),
        EnqueueCheck::InvalidChunk => EnqueueCheckView::InvalidChunk,
        EnqueueCheck::Trusted => EnqueueCheckView::Trusted,
    }
}

fn strip_prefix(key: &str, prefix: &str) -> (r: String)
    ensures
        r@ == without_prefix(key@, prefix@),
{
    if str_starts_with(key, prefix) {
        let v = crate::text::chars_of(key);
        let p = crate::text::chars_of(prefix);
        crate::text::string_of_range(&v, p.len(), v.len())
    } else {
        to_owned(key)
    }
}

/// Decides what a scanned candidate must pass before it is queued; a key
/// that fails its check is never queued, so a queue row never names
/// something missing from the namespace.
pub fn enqueue_check(key: &str, item_type: &str) -> (r: EnqueueCheck)
    ensures
        check_view(r) == enqueue_check_of(key@, item_type@),
{
    if str_eq(item_type, "memory") {
        EnqueueCheck::Memory { name: to_owned(key) }
    } else if str_eq(item_type, "entity") {
        EnqueueCheck::Entity { name: strip_prefix(key, "entity:") }
    } else if str_eq(item_type, "chunk") {
        let rest = strip_prefix(key, "chunk:");
        match parse_i64(rest.as_str()) {
            Some(id) => EnqueueCheck::Chunk { id },
            None => EnqueueCheck::InvalidChunk,
        }
    } else {
        EnqueueCheck::Trusted
    }
}

/// One pending row waiting on its backoff cooldown.
#[derive(Debug, Clone)]
pub struct WaitingItem {
    /// Key of the item.
    pub item_key: String,
    /// Attempts so far.
    pub attempt: i64,
    /// When it becomes eligible again.
    pub next_retry_at: Option<String>,
    /// Class of its last error.
    pub error_class: Option<String>,
}

/// One dead-letter row reported by `--list-dead`.
#[derive(Debug, Clone)]
pub struct DeadItem {
    /// Always true; marks the line as a dead item.
    pub dead_item: bool,
    /// Key of the item.
    pub item_key: String,
    /// Type of the item.
    pub item_type: String,
    /// Attempts made.
    pub attempt: i64,
    /// Class of the last error.
    pub error_class: Option<String>,
    /// Last error.
    pub error: Option<String>,
    /// Finish reason of the response that produced the failure, when known.
    pub finish_reason: Option<String>,
    /// Prompt tokens of that response, when known.
    pub input_tokens: Option<i64>,
    /// Completion tokens of that response, when known.
    pub output_tokens: Option<i64>,
}

/// Summary footer for `--list-dead`, `--requeue-dead` and
/// `--prune-dead-orphans`.
#[derive(Debug, Clone)]
pub struct DeadSummary {
    /// Always true; marks the line as the summary.
    pub summary: bool,
    /// Operation the report covers.
    pub operation: String,
    /// Namespace the report covers.
    pub namespace: String,
    /// `list-dead`, `requeue-dead` or `prune-dead-orphans`.
    pub action: &'static str,
    /// Dead rows found.
    pub dead_total: i64,
    /// Rows moved back to pending.
    pub requeued: i64,
    /// Dead rows removed because what they referenced is gone.
    pub pruned: i64,
}

} // verus!
