//! Rebuilding the evidence path of a graph hit: from the entity reached,
//! back through the predecessor each traversal step recorded, to the seed
//! entity the traversal started from.
//!
//! Edge weights are `f64` values carried as their bit patterns; multiplying
//! them into the path's weight is floating point and belongs to the caller.
use crate::text::{i64_decimal_string, signed_decimal};
use vstd::prelude::*;
use vstd::string::*;

verus! {

/// How the traversal reached `child`: from `parent`, over `relation`, with
/// an edge weight given as the bit pattern of its `f64`.
#[derive(Debug, Clone)]
pub struct Predecessor {
    pub child: i64,
    pub parent: i64,
    pub relation: String,
    pub weight_bits: u64,
}

/// One node of a rebuilt path.
#[derive(Debug, Clone)]
pub struct PathNode {
    /// The entity's name, or `entity-{id}` when its name is unknown.
    pub entity: String,
    /// The relation that led to it; `None` for the seed.
    pub relation: Option<String>,
    /// The weight of that relation, as `f64` bits; `None` for the seed.
    pub weight_bits: Option<u64>,
}

/// The view of a predecessor entry.
pub type PredView = (i64, i64, Seq<char>, u64);

/// A path node by id: the entity id, and the relation and weight that led
/// to it.
pub type StepView = (i64, Option<(Seq<char>, u64)>);

/// The views of the predecessor entries.
pub open spec fn pred_view(p: Seq<Predecessor>) -> Seq<PredView> {
    p.map_values(|e: Predecessor| (e.child, e.parent, e.relation@, e.weight_bits))
}

/// Each entity has at most one predecessor, as in the map the traversal
/// fills.
pub open spec fn one_predecessor_each(p: Seq<PredView>) -> bool {
    forall|i: int, j: int| 0 <= i < j < p.len() ==> #[trigger] p[i].0 != #[trigger] p[j].0
}

/// Where the predecessor of `id` is recorded, if anywhere.
pub open spec fn predecessor_of(p: Seq<PredView>, id: i64) -> Option<int> {
    if exists|k: int| 0 <= k < p.len() && (#[trigger] p[k]).0 == id {
        Some(choose|k: int| 0 <= k < p.len() && (#[trigger] p[k]).0 == id)
    } else {
        None
    }
}

/// How a walk back from an entity ends.
pub enum Walk {
    /// At a seed: the nodes from the starting entity back to that seed.
    Reached(Seq<StepView>),
    /// At an entity with no recorded predecessor.
    Gap,
    /// Not within the steps allowed.
    Unfinished,
}

/// The walk back from `current`, taking at most `fuel` predecessor steps:
/// the nodes from `current` back to the first seed met, each entity but the
/// seed carrying the relation and weight that led to it.
pub open spec fn walk_back(current: i64, seeds: Seq<i64>, p: Seq<PredView>, fuel: nat) -> Walk
    decreases fuel,
{
    if seeds.contains(current) {
        Walk::Reached(seq![(current, None)])
    } else {
        match predecessor_of(p, current) {
            None => Walk::Gap,
            Some(k) => if fuel == 0 {
                Walk::Unfinished
            } else {
                match walk_back(p[k].1, seeds, p, (fuel - 1) as nat) {
                    Walk::Reached(rest) => Walk::Reached(
                        seq![(current, Some((p[k].2, p[k].3)))] + rest,
                    ),
                    other => other,
                }
            },
        }
    }
}

/// The walks the original traversal finishes: with one predecessor per
/// entity, a walk that is still going after as many steps as there are
/// entries has met an entity twice and would go round for ever.
pub open spec fn walk_ends(target: i64, seeds: Seq<i64>, p: Seq<PredView>) -> bool {
    !(walk_back(target, seeds, p, p.len()) is Unfinished)
}

/// The name a node is shown under: the known name of the entity, else
/// `entity-{id}`.
pub open spec fn node_name(names: Seq<(i64, Seq<char>)>, id: i64) -> Seq<char> {
    if exists|k: int| 0 <= k < names.len() && (#[trigger] names[k]).0 == id {
        names[choose|k: int| 0 <= k < names.len() && (#[trigger] names[k]).0 == id].1
    } else {
        "entity-"@ + signed_decimal(id as int)
    }
}

/// Each id has at most one known name.
pub open spec fn one_name_each(names: Seq<(i64, Seq<char>)>) -> bool {
    forall|i: int, j: int| 0 <= i < j < names.len() ==> #[trigger] names[i].0 != #[trigger] names[j].0
}

/// The view of a path node.
pub open spec fn node_view(n: PathNode) -> (Seq<char>, Option<(Seq<char>, u64)>) {
    (
        n.entity@,
        match (n.relation, n.weight_bits) {
            (Some(r), Some(w)) => Some((r@, w)),
            _ => None,
        },
    )
}

/// The path as shown: from the seed to the entity reached.
pub open spec fn shown_path(names: Seq<(i64, Seq<char>)>, steps: Seq<StepView>) -> Seq<
    (Seq<char>, Option<(Seq<char>, u64)>),
> {
    steps.reverse().map_values(|s: StepView| (node_name(names, s.0), s.1))
}

fn seeds_contain(seeds: &Vec<i64>, id: i64) -> (r: bool)
    ensures
        r == seeds@.contains(id),
{
    let mut i: usize = 0;
    while i < seeds.len()
        invariant
            i <= seeds@.len(),
            forall|j: int| 0 <= j < i ==> seeds@[j] != id,
        decreases seeds@.len() - i,
    {
        if seeds[i] == id {
            assert(seeds@[i as int] == id);
            return true;
        }
        i = i + 1;
    }
    false
}

fn find_predecessor(pred: &Vec<Predecessor>, id: i64) -> (r: Option<usize>)
    requires
        one_predecessor_each(pred_view(pred@)),
    ensures
        match r {
            Some(k) => predecessor_of(pred_view(pred@), id) == Some(k as int) && k < pred@.len(),
            None => predecessor_of(pred_view(pred@), id) is None,
        },
{
    let ghost pv = pred_view(pred@);
    let mut i: usize = 0;
    while i < pred.len()
        invariant
            i <= pred@.len(),
            pv == pred_view(pred@),
            one_predecessor_each(pv),
            forall|j: int| 0 <= j < i ==> (#[trigger] pv[j]).0 != id,
        decreases pred@.len() - i,
    {
        assert(pv[i as int].0 == pred@[i as int].child);
        if pred[i].child == id {
            proof {
                assert(pv[i as int].0 == id);
                let c = choose|k: int| 0 <= k < pv.len() && (#[trigger] pv[k]).0 == id;
                assert(pv[c].0 == id);
                if c != i as int {
                    if c < i {
                        assert(pv[c].0 != id);
                    } else {
                        assert(pv[i as int].0 != pv[c].0);
                    }
                }
            }
            return Some(i);
        }
        i = i + 1;
    }
    None
}

fn name_for(names: &Vec<(i64, String)>, id: i64) -> (r: String)
    requires
        one_name_each(names@.map_values(|n: (i64, String)| (n.0, n.1@))),
    ensures
        r@ == node_name(names@.map_values(|n: (i64, String)| (n.0, n.1@)), id),
{
    let ghost nv = names@.map_values(|n: (i64, String)| (n.0, n.1@));
    let mut i: usize = 0;
    while i < names.len()
        invariant
            i <= names@.len(),
            nv == names@.map_values(|n: (i64, String)| (n.0, n.1@)),
            one_name_each(nv),
            forall|j: int| 0 <= j < i ==> (#[trigger] nv[j]).0 != id,
        decreases names@.len() - i,
    {
        assert(nv[i as int] == (names@[i as int].0, names@[i as int].1@));
        if names[i].0 == id {
            proof {
                assert(nv[i as int].0 == id);
                let c = choose|k: int| 0 <= k < nv.len() && (#[trigger] nv[k]).0 == id;
                if c != i as int {
                    if c < i {
                        assert(nv[c].0 != id);
                    } else {
                        assert(nv[i as int].0 != nv[c].0);
                    }
                }
            }
            return names[i].1.clone();
        }
        i = i + 1;
    }
    let mut out = String::new();
    out.append("entity-");
    let digits = i64_decimal_string(id);
    out.append(digits.as_str());
    proof {
        reveal_strlit("entity-");
    }
    out
}

/// Rebuilds the path that led the traversal from a seed to `target`: `None`
/// when the walk back meets an entity with no recorded predecessor before a
/// seed; otherwise the nodes from the seed to `target`, each named, and each
/// but the seed carrying the relation and weight bits that led to it.
pub fn reconstruct_path(
    target: i64,
    seeds: &Vec<i64>,
    pred: &Vec<Predecessor>,
    names: &Vec<(i64, String)>,
) -> (r: Option<Vec<PathNode>>)
    requires
        one_predecessor_each(pred_view(pred@)),
        one_name_each(names@.map_values(|n: (i64, String)| (n.0, n.1@))),
        walk_ends(target, seeds@, pred_view(pred@)),
    ensures
        match walk_back(target, seeds@, pred_view(pred@), pred@.len()) {
            Walk::Reached(steps) => r matches Some(nodes) && nodes@.map_values(
                |n: PathNode| node_view(n),
            ) == shown_path(names@.map_values(|n: (i64, String)| (n.0, n.1@)), steps),
            _ => r is None,
        },
{
    let ghost pv = pred_view(pred@);
    let ghost nv = names@.map_values(|n: (i64, String)| (n.0, n.1@));
    let ghost total = pred@.len();
    let mut back: Vec<(i64, Option<(String, u64)>)> = Vec::new();
    let mut current = target;
    let mut taken: usize = 0;
    loop
        invariant_except_break
            pv == pred_view(pred@),
            total == pred@.len(),
            one_predecessor_each(pv),
            taken <= total,
            !(walk_back(target, seeds@, pv, total) is Unfinished),
            walk_back(target, seeds@, pv, total) == after(
                back_steps(back@),
                walk_back(current, seeds@, pv, (total - taken) as nat),
            ),
        ensures
            walk_back(target, seeds@, pv, total) == after(
                back_steps(back@),
                walk_back(current, seeds@, pv, (total - taken) as nat),
            ),
            seeds@.contains(current),
        decreases total - taken,
    {
        if seeds_contain(seeds, current) {
            break;
        }
        match find_predecessor(pred, current) {
            None => {
                return None;
            },
            Some(k) => {
                if taken == pred.len() {
                    assert(walk_back(current, seeds@, pv, 0) is Unfinished);
                    return None;
                }
                let e = &pred[k];
                assert(pv[k as int] == (e.child, e.parent, e.relation@, e.weight_bits));
                let ghost old_back = back_steps(back@);
                let ghost step: StepView = (current, Some((e.relation@, e.weight_bits)));
                back.push((current, Some((e.relation.clone(), e.weight_bits))));
                proof {
                    assert(back_steps(back@) =~= old_back.push(step));
                    let f = (total - taken) as nat;
                    let w = walk_back(e.parent, seeds@, pv, (f - 1) as nat);
                    if w is Reached {
                        let rest = w->Reached_0;
                        assert(old_back + (seq![step] + rest) =~= old_back.push(step) + rest);
                    }
                }
                current = e.parent;
                taken = taken + 1;
            },
        }
    }
    let ghost before = back_steps(back@);
    back.push((current, None));
    proof {
        assert(back_steps(back@) =~= before + seq![(current, None::<(Seq<char>, u64)>)]);
    }
    let ghost steps = back_steps(back@);
    let mut nodes: Vec<PathNode> = Vec::new();
    let mut i: usize = back.len();
    while i > 0
        invariant
            i <= back@.len(),
            steps == back_steps(back@),
            nv == names@.map_values(|n: (i64, String)| (n.0, n.1@)),
            one_name_each(nv),
            nodes@.len() == back@.len() - i,
            forall|j: int|
                0 <= j < nodes@.len() ==> node_view(#[trigger] nodes@[j]) == (
                    node_name(nv, steps[back@.len() - 1 - j].0),
                    steps[back@.len() - 1 - j].1,
                ),
        decreases i,
    {
        i = i - 1;
        let id = back[i].0;
        let entity = name_for(names, id);
        let node = match &back[i].1 {
            Some(rw) => PathNode {
                entity,
                relation: Some(rw.0.clone()),
                weight_bits: Some(rw.1),
            },
            None => PathNode { entity, relation: None, weight_bits: None },
        };
        nodes.push(node);
    }
    proof {
        assert(nodes@.map_values(|n: PathNode| node_view(n)) =~= shown_path(nv, steps));
    }
    Some(nodes)
}

/// The view of the nodes gathered while walking back.
pub open spec fn back_steps(b: Seq<(i64, Option<(String, u64)>)>) -> Seq<StepView> {
    b.map_values(
        |x: (i64, Option<(String, u64)>)|
            (
                x.0,
                match x.1 {
                    Some(rw) => Some((rw.0@, rw.1)),
                    None => None,
                },
            ),
    )
}

/// A walk's end, with `prefix` placed before the nodes it reached.
pub open spec fn after(prefix: Seq<StepView>, w: Walk) -> Walk {
    match w {
        Walk::Reached(rest) => Walk::Reached(prefix + rest),
        other => other,
    }
}

/// A rebuilt path runs from the entity reached back to a seed: it starts at
/// `current`, ends at a seed with no relation, and every other node carries
/// the relation and weight recorded for it, its parent being the next node.
pub proof fn lemma_walk_links_to_a_seed(current: i64, seeds: Seq<i64>, p: Seq<PredView>, fuel: nat)
    ensures
        walk_back(current, seeds, p, fuel) matches Walk::Reached(steps) ==> {
            &&& steps.len() >= 1
            &&& steps[0].0 == current
            &&& seeds.contains(steps.last().0)
            &&& steps.last().1 is None
            &&& forall|i: int|
                0 <= i < steps.len() - 1 ==> (predecessor_of(p, (#[trigger] steps[i]).0) matches Some(
                    k,
                ) && steps[i].1 == Some((p[k].2, p[k].3)) && p[k].1 == steps[i + 1].0)
        },
    decreases fuel,
{
    if !seeds.contains(current) {
        if let Some(k) = predecessor_of(p, current) {
            if fuel > 0 {
                lemma_walk_links_to_a_seed(p[k].1, seeds, p, (fuel - 1) as nat);
                let w = walk_back(p[k].1, seeds, p, (fuel - 1) as nat);
                if w is Reached {
                    let rest = w->Reached_0;
                    let steps = seq![(current, Some((p[k].2, p[k].3)))] + rest;
                    assert forall|i: int| 0 <= i < steps.len() - 1 implies (predecessor_of(
                        p,
                        (#[trigger] steps[i]).0,
                    ) matches Some(j) && steps[i].1 == Some((p[j].2, p[j].3)) && p[j].1 == steps[i
                        + 1].0) by {
                        if i > 0 {
                            assert(steps[i] == rest[i - 1]);
                            assert(steps[i + 1] == rest[i]);
                        }
                    }
                    assert(steps.last() == rest.last());
                }
            }
        }
    }
}

} // verus!
