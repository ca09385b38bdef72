//! Planning a `deep-research` run: which sub-queries it searches, how many
//! run at once, and which evidence chains it reports.
//!
//! Reading the sub-queries file, the searches themselves and the scoring of
//! hits (floating point) belong to the caller.
use crate::decompose::{decomposable, decomposition, try_decompose_query_with_sources};
use crate::errors::AppError;
use crate::text::{
    is_blank, is_blank_str, split, split_str, starts_with, str_eq, str_starts_with, trim, trim_str,
};
use vstd::prelude::*;
use vstd::string::*;

verus! {

/// One planned sub-query.
#[derive(Debug, Clone)]
pub struct SubQuery {
    /// Position in the plan, from zero.
    pub id: usize,
    /// Text searched.
    pub text: String,
    /// `manual`, `original`, `decomposed` or `aspect`.
    pub source: &'static str,
}

/// The refusal of a blank query.
pub open spec fn empty_query_text() -> Seq<char> {
    "query must not be empty"@
}

/// The refusal of the manual strategy without a file.
pub open spec fn manual_needs_file_text() -> Seq<char> {
    "--sub-query-strategy manual requires --sub-queries-file PATH"@
}

/// The refusal of a sub-queries file with no usable line.
pub open spec fn empty_file_text(path: Seq<char>) -> Seq<char> {
    "sub-queries file "@ + path + " holds no sub-queries"@
}

/// Where the sub-queries come from: a blank query is refused; the `manual`
/// strategy reads the file (refused when none was given); every other
/// strategy decomposes the query.
pub open spec fn sub_query_origin(query: Seq<char>, strategy: Seq<char>, has_file: bool) -> Result<
    bool,
    Seq<char>,
> {
    if is_blank(query) {
        Err(empty_query_text())
    } else if strategy == "manual"@ {
        if has_file {
            Ok(true)
        } else {
            Err(manual_needs_file_text())
        }
    } else {
        Ok(false)
    }
}

/// Decides where a run's sub-queries come from: `Ok(true)` when the caller
/// must read the sub-queries file and hand it to [`manual_sub_queries`],
/// `Ok(false)` when [`heuristic_sub_queries`] plans them from the query.
pub fn sub_query_origin_of(query: &str, strategy: &str, has_file: bool) -> (r: Result<
    bool,
    AppError,
>)
    ensures
        match r {
            Ok(b) => sub_query_origin(query@, strategy@, has_file) == Ok::<bool, Seq<char>>(b),
            Err(AppError::Validation(m)) => sub_query_origin(query@, strategy@, has_file) == Err::<
                bool,
                Seq<char>,
            >(m@),
            Err(AppError::NotFound(_)) => false,
            Err(AppError::DbBusy(_)) => false,
        },
{
    if is_blank_str(query) {
        let mut m = String::new();
        m.append("query must not be empty");
        return Err(AppError::Validation(m));
    }
    if str_eq(strategy, "manual") {
        if has_file {
            Ok(true)
        } else {
            let mut m = String::new();
            m.append("--sub-query-strategy manual requires --sub-queries-file PATH");
            Err(AppError::Validation(m))
        }
    } else {
        Ok(false)
    }
}

/// The usable lines of a sub-queries file, in order: trimmed, neither blank
/// nor a `#` comment.
pub open spec fn manual_lines(pieces: Seq<Seq<char>>) -> Seq<Seq<char>>
    decreases pieces.len(),
{
    if pieces.len() == 0 {
        Seq::empty()
    } else {
        let rest = manual_lines(pieces.drop_last());
        let t = trim(pieces.last());
        if t.len() == 0 || starts_with(t, "#"@) {
            rest
        } else {
            rest.push(t)
        }
    }
}

/// The sub-queries of a file: its usable lines, at most `max`, numbered from
/// zero and labelled `manual`.
pub open spec fn manual_plan(contents: Seq<char>, max: nat) -> Seq<Seq<char>> {
    let lines = manual_lines(split(contents, '\n'));
    if lines.len() <= max {
        lines
    } else {
        lines.subrange(0, max as int)
    }
}

/// Plans the sub-queries of the manual strategy from the file's contents;
/// refused when the file holds no usable line. `path` names the file in the
/// refusal.
pub fn manual_sub_queries(path: &str, contents: &str, max_sub_queries: usize) -> (r: Result<
    Vec<SubQuery>,
    AppError,
>)
    ensures
        r is Err <==> manual_lines(split(contents@, '\n')).len() == 0,
        r matches Err(e) ==> (e matches AppError::Validation(m) && m@ == empty_file_text(path@)),
        r matches Ok(v) ==> {
            &&& v.len() == manual_plan(contents@, max_sub_queries as nat).len()
            &&& forall|i: int|
                0 <= i < v.len() ==> {
                    &&& (#[trigger] v@[i]).id == i
                    &&& v@[i].text@ == manual_plan(contents@, max_sub_queries as nat)[i]
                    &&& v@[i].source@ == "manual"@
                }
        },
{
    let pieces = split_str(contents, '\n');
    let ghost pv = pieces@.map_values(|x: String| x@);
    let mut lines: Vec<String> = Vec::new();
    let mut i: usize = 0;
    assert(pv.subrange(0, 0) =~= Seq::<Seq<char>>::empty());
    while i < pieces.len()
        invariant
            i <= pieces.len(),
            pv == pieces@.map_values(|x: String| x@),
            lines@.map_values(|x: String| x@) == manual_lines(pv.subrange(0, i as int)),
        decreases pieces.len() - i,
    {
        let ghost pre = pv.subrange(0, (i + 1) as int);
        assert(pre.drop_last() =~= pv.subrange(0, i as int));
        assert(pre.last() == pieces@[i as int]@);
        if !is_blank_str(pieces[i].as_str()) {
            let t = trim_str(pieces[i].as_str());
            if !str_starts_with(t.as_str(), "#") {
                lines.push(t);
            }
        }
        assert(lines@.map_values(|x: String| x@) =~= manual_lines(pre));
        i = i + 1;
    }
    assert(pv.subrange(0, pieces@.len() as int) =~= pv);
    assert(pv =~= split(contents@, '\n'));
    let ghost all = lines@.map_values(|x: String| x@);
    if lines.len() == 0 {
        let mut m = String::new();
        m.append("sub-queries file ");
        m.append(path);
        m.append(" holds no sub-queries");
        return Err(AppError::Validation(m));
    }
    let n = if lines.len() <= max_sub_queries {
        lines.len()
    } else {
        max_sub_queries
    };
    let mut out: Vec<SubQuery> = Vec::new();
    let mut k: usize = 0;
    let manual = "manual";
    proof {
        reveal_strlit("manual");
    }
    while k < n
        invariant
            k <= n,
            n <= lines.len(),
            all == lines@.map_values(|x: String| x@),
            n as nat == manual_plan(contents@, max_sub_queries as nat).len(),
            all == manual_lines(split(contents@, '\n')),
            manual@ == "manual"@,
            out.len() == k,
            forall|t: int|
                0 <= t < k ==> {
                    &&& (#[trigger] out@[t]).id == t
                    &&& out@[t].text@ == manual_plan(contents@, max_sub_queries as nat)[t]
                    &&& out@[t].source@ == "manual"@
                },
        decreases n - k,
    {
        out.push(SubQuery { id: k, text: lines[k].clone(), source: manual });
        assert(manual_plan(contents@, max_sub_queries as nat)[k as int] == all[k as int]);
        k = k + 1;
    }
    Ok(out)
}

/// Plans the sub-queries of the heuristic strategy: the decomposition of the
/// query, numbered from zero. `None` on the queries where the decomposition
/// is undefined (a cut would fall inside a character).
pub fn heuristic_sub_queries(query: &str, max_sub_queries: usize) -> (r: Option<Vec<SubQuery>>)
    ensures
        r is Some <==> decomposable(query@),
        r matches Some(v) ==> {
            &&& v.len() == decomposition(query@, max_sub_queries as nat).len()
            &&& forall|i: int|
                0 <= i < v.len() ==> {
                    &&& (#[trigger] v@[i]).id == i
                    &&& v@[i].text@ == decomposition(query@, max_sub_queries as nat)[i].0
                    &&& v@[i].source@ == decomposition(query@, max_sub_queries as nat)[i].1
                }
        },
{
    let planned = match try_decompose_query_with_sources(query, max_sub_queries) {
        Some(p) => p,
        None => return None,
    };
    let ghost d = decomposition(query@, max_sub_queries as nat);
    assert(planned@.len() == d.len());
    let mut out: Vec<SubQuery> = Vec::new();
    let mut k: usize = 0;
    while k < planned.len()
        invariant
            k <= planned.len(),
            planned@.len() == d.len(),
            d == decomposition(query@, max_sub_queries as nat),
            crate::decompose::plan_view(planned@) == d,
            out.len() == k,
            forall|t: int|
                0 <= t < k ==> {
                    &&& (#[trigger] out@[t]).id == t
                    &&& out@[t].text@ == d[t].0
                    &&& out@[t].source@ == d[t].1
                },
        decreases planned.len() - k,
    {
        assert(crate::decompose::plan_view(planned@)[k as int] == (
            planned@[k as int].0@,
            planned@[k as int].1@,
        ));
        out.push(SubQuery { id: k, text: planned[k].0.clone(), source: planned[k].1 });
        k = k + 1;
    }
    Some(out)
}

/// Sub-queries searched at once: the requested concurrency (by default the
/// CPU count, at most eight), no more than there are sub-queries, and at
/// least one.
pub open spec fn permits(max_concurrency: Option<usize>, cpu_count: usize, sub_queries: usize) -> nat {
    let wanted: nat = match max_concurrency {
        Some(m) => m as nat,
        None => if cpu_count < 8 {
            cpu_count as nat
        } else {
            8
        },
    };
    let capped: nat = if wanted < sub_queries {
        wanted
    } else {
        sub_queries as nat
    };
    if capped < 1 {
        1
    } else {
        capped
    }
}

/// The number of sub-queries a run searches at once.
pub fn sub_query_permits(max_concurrency: Option<usize>, cpu_count: usize, sub_queries: usize) -> (r:
    usize)
    ensures
        r == permits(max_concurrency, cpu_count, sub_queries),
        r >= 1,
{
    let wanted = match max_concurrency {
        Some(m) => m,
        None => if cpu_count < 8 {
            cpu_count
        } else {
            8
        },
    };
    let capped = if wanted < sub_queries {
        wanted
    } else {
        sub_queries
    };
    if capped < 1 {
        1
    } else {
        capped
    }
}

/// The key two evidence chains are deduplicated by.
pub open spec fn chain_key(from: Seq<char>, to: Seq<char>) -> Seq<char> {
    from + "->"@ + to
}

/// Whether chain `i` is reported: it is the first with its key, and it spans
/// at least two nodes.
pub open spec fn chain_kept(chains: Seq<(Seq<char>, Seq<char>, usize)>, i: int) -> bool {
    &&& chains[i].2 >= 2
    &&& forall|j: int|
        0 <= j < i ==> chain_key(#[trigger] chains[j].0, chains[j].1) != chain_key(
            chains[i].0,
            chains[i].1,
        )
}

/// The positions of the chains a run reports, in order: the first chain of
/// each key (`from->to`), among those of depth two or more.
pub open spec fn kept_chains(chains: Seq<(Seq<char>, Seq<char>, usize)>, n: int) -> Seq<usize>
    decreases n,
{
    if n <= 0 {
        Seq::empty()
    } else if chain_kept(chains, n - 1) {
        kept_chains(chains, n - 1).push((n - 1) as usize)
    } else {
        kept_chains(chains, n - 1)
    }
}

/// The view of chain endpoints and depths.
pub open spec fn chain_view(chains: Seq<(String, String, usize)>) -> Seq<(Seq<char>, Seq<char>, usize)> {
    chains.map_values(|c: (String, String, usize)| (c.0@, c.1@, c.2))
}

fn chain_key_string(from: &str, to: &str) -> (r: String)
    ensures
        r@ == chain_key(from@, to@),
{
    let mut k = String::new();
    k.append(from);
    k.append("->");
    k.append(to);
    k
}

/// Selects the evidence chains a run reports, given each chain's endpoints
/// and depth in the order the sub-queries produced them.
pub fn select_evidence_chains(chains: &Vec<(String, String, usize)>) -> (r: Vec<usize>)
    ensures
        r@ == kept_chains(chain_view(chains@), chains@.len() as int),
{
    let ghost cv = chain_view(chains@);
    let mut seen: Vec<String> = Vec::new();
    let mut out: Vec<usize> = Vec::new();
    let mut i: usize = 0;
    while i < chains.len()
        invariant
            i <= chains.len(),
            cv == chain_view(chains@),
            out@ == kept_chains(cv, i as int),
            seen@.len() == i,
            forall|j: int| 0 <= j < i ==> #[trigger] seen@[j]@ == chain_key(cv[j].0, cv[j].1),
        decreases chains.len() - i,
    {
        let key = chain_key_string(chains[i].0.as_str(), chains[i].1.as_str());
        assert(cv[i as int] == (chains@[i as int].0@, chains@[i as int].1@, chains@[i as int].2));
        let mut dup = false;
        let mut j: usize = 0;
        while j < seen.len()
            invariant
                j <= seen.len(),
                seen@.len() == i,
                i < chains.len(),
                cv == chain_view(chains@),
                key@ == chain_key(cv[i as int].0, cv[i as int].1),
                forall|t: int| 0 <= t < i ==> #[trigger] seen@[t]@ == chain_key(cv[t].0, cv[t].1),
                dup <==> exists|t: int|
                    0 <= t < j && chain_key(#[trigger] cv[t].0, cv[t].1) == key@,
            decreases seen.len() - j,
        {
            if str_eq(seen[j].as_str(), key.as_str()) {
                dup = true;
            }
            j = j + 1;
        }
        if chains[i].2 >= 2 && !dup {
            out.push(i);
        }
        seen.push(key);
        i = i + 1;
    }
    out
}

/// A reported chain always spans at least two nodes, and no two reported
/// chains share a key.
pub proof fn lemma_reported_chains_distinct(chains: Seq<(Seq<char>, Seq<char>, usize)>, n: int)
    requires
        0 <= n <= chains.len(),
        chains.len() <= usize::MAX,
    ensures
        forall|a: int|
            0 <= a < kept_chains(chains, n).len() ==> {
                let i = #[trigger] kept_chains(chains, n)[a] as int;
                0 <= i < n && chains[i].2 >= 2
            },
        forall|a: int, b: int|
            0 <= a < b < kept_chains(chains, n).len() ==> {
                let i = #[trigger] kept_chains(chains, n)[a] as int;
                let j = #[trigger] kept_chains(chains, n)[b] as int;
                i < j && chain_key(chains[i].0, chains[i].1) != chain_key(chains[j].0, chains[j].1)
            },
    decreases n,
{
    if n > 0 {
        lemma_reported_chains_distinct(chains, n - 1);
        let prev = kept_chains(chains, n - 1);
        if chain_kept(chains, n - 1) {
            let cur = prev.push((n - 1) as usize);
            assert(kept_chains(chains, n) == cur);
            assert forall|a: int| 0 <= a < cur.len() implies {
                let i = #[trigger] cur[a] as int;
                0 <= i < n && chains[i].2 >= 2
            } by {
                if a < prev.len() {
                    assert(cur[a] == prev[a]);
                }
            }
            assert forall|a: int, b: int| 0 <= a < b < cur.len() implies {
                let i = #[trigger] cur[a] as int;
                let j = #[trigger] cur[b] as int;
                i < j && chain_key(chains[i].0, chains[i].1) != chain_key(chains[j].0, chains[j].1)
            } by {
                assert(cur[a] == prev[a]);
                if b < prev.len() {
                    assert(cur[b] == prev[b]);
                } else {
                    let i = prev[a] as int;
                    assert(0 <= i < n - 1);
                    assert(chain_key(chains[i].0, chains[i].1) != chain_key(
                        chains[n - 1].0,
                        chains[n - 1].1,
                    ));
                }
            }
        }
    }
}

/// Chains are told apart by the text `from->to`: with the same start and
/// different ends, or the same end and different starts, two chains are
/// never duplicates of each other.
pub proof fn lemma_chain_key_separates_pairs(f1: Seq<char>, t1: Seq<char>, f2: Seq<char>, t2: Seq<char>)
    ensures
        (f1 == f2 || t1 == t2) ==> (chain_key(f1, t1) == chain_key(f2, t2) <==> (f1 == f2 && t1
            == t2)),
{
    let a = f1 + "->"@ + t1;
    let b = f2 + "->"@ + t2;
    if f1 == f2 && a == b {
        let k = f1.len() + "->"@.len();
        assert(a.subrange(k as int, a.len() as int) =~= t1);
        assert(b.subrange(k as int, b.len() as int) =~= t2);
    }
    if t1 == t2 && a == b {
        assert(a.len() == f1.len() + "->"@.len() + t1.len());
        assert(b.len() == f2.len() + "->"@.len() + t2.len());
        assert(f1.len() == f2.len());
        assert(a.subrange(0, f1.len() as int) =~= f1);
        assert(b.subrange(0, f2.len() as int) =~= f2);
    }
}

/// Which chains a run reports: chain `i` is reported exactly when it spans
/// at least two nodes and no earlier chain has the same text
/// `from + "->" + to`.
pub proof fn lemma_chain_reported_iff(chains: Seq<(Seq<char>, Seq<char>, usize)>, n: int, i: int)
    requires
        0 <= i < n <= chains.len(),
        chains.len() <= usize::MAX,
    ensures
        kept_chains(chains, n).contains(i as usize) <==> (chains[i].2 >= 2 && forall|j: int|
            0 <= j < i ==> #[trigger] chains[j].0 + "->"@ + chains[j].1 != chains[i].0 + "->"@
                + chains[i].1),
    decreases n,
{
    lemma_reported_chains_distinct(chains, n - 1);
    let prev = kept_chains(chains, n - 1);
    if i < n - 1 {
        lemma_chain_reported_iff(chains, n - 1, i);
        if chain_kept(chains, n - 1) {
            let cur = prev.push((n - 1) as usize);
            if cur.contains(i as usize) {
                let a = choose|a: int| 0 <= a < cur.len() && cur[a] == i as usize;
                if a == prev.len() {
                    assert(cur[a] == (n - 1) as usize);
                } else {
                    assert(prev[a] == cur[a]);
                }
            }
            if prev.contains(i as usize) {
                let a = choose|a: int| 0 <= a < prev.len() && prev[a] == i as usize;
                assert(cur[a] == prev[a]);
            }
        }
    } else {
        if prev.contains(i as usize) {
            let a = choose|a: int| 0 <= a < prev.len() && prev[a] == i as usize;
            assert(0 <= prev[a] < n - 1);
        }
        if chain_kept(chains, n - 1) {
            let cur = prev.push((n - 1) as usize);
            assert(cur[prev.len() as int] == i as usize);
        }
        if chains[i].2 >= 2 && forall|j: int|
            0 <= j < i ==> #[trigger] chains[j].0 + "->"@ + chains[j].1 != chains[i].0 + "->"@
                + chains[i].1 {
            assert forall|j: int| 0 <= j < i implies chain_key(#[trigger] chains[j].0, chains[j].1)
                != chain_key(chains[i].0, chains[i].1) by {
                assert(chains[j].0 + "->"@ + chains[j].1 != chains[i].0 + "->"@ + chains[i].1);
            }
        }
    }
}

} // verus!
