use sqlite_graphrag::decompose::{decompose_query, decompose_query_with_sources};
use sqlite_graphrag::research::{
    heuristic_sub_queries, manual_sub_queries, select_evidence_chains, sub_query_origin_of,
    sub_query_permits,
};

#[test]
fn test_decompose_and_conjunction() {
    let result = decompose_query("A and B", 7);
    assert_eq!(result, vec!["A", "B"]);
}

#[test]
fn test_decompose_no_split_multiword_stays_single() {
    let result = decompose_query("simple query", 7);
    assert_eq!(result, vec!["simple query"]);
}

#[test]
fn test_decompose_single_token_danilo_fans_out() {
    let result = decompose_query("danilo", 7);
    assert!(
        result.len() > 1,
        "expected aspect fan-out for single token, got {result:?}"
    );
    assert_eq!(result[0], "danilo");
    assert!(
        result
            .iter()
            .any(|s| s.contains("stack") || s.contains("patrimonio")),
        "expected aspect facets in {result:?}"
    );
    let with_src = decompose_query_with_sources("danilo", 7);
    assert_eq!(with_src[0].1, "original");
    assert!(with_src.iter().skip(1).all(|(_, s)| *s == "aspect"));
}

#[test]
fn test_decompose_three_parts() {
    let result = decompose_query("A, B and C", 7);
    assert_eq!(result, vec!["A", "B", "C"]);
}

#[test]
fn test_decompose_portuguese_conjunctions() {
    let result = decompose_query("A e B", 7);
    assert_eq!(result, vec!["A", "B"]);
}

#[test]
fn test_decompose_max_cap() {
    let parts: Vec<String> = (0..10).map(|i| format!("part{i}")).collect();
    let query = parts.join(", ");
    let result = decompose_query(&query, 7);
    assert!(
        result.len() <= 7,
        "expected at most 7 sub-queries, got {}",
        result.len()
    );
}

#[test]
fn test_decompose_empty_preserves_original() {
    let result = decompose_query("", 7);
    assert_eq!(result, vec![""]);
}

#[test]
fn test_decompose_semicolons() {
    let result = decompose_query("auth design; deployment config; logging", 7);
    assert_eq!(result, vec!["auth design", "deployment config", "logging"]);
}

#[test]
fn test_decompose_relational_phrase() {
    let result = decompose_query("auth that caused deployment failure", 7);
    assert_eq!(result, vec!["auth", "deployment failure"]);
}

#[test]
fn test_distinct_sub_queries_produce_distinct_texts() {
    let queries = [
        "authentication design decisions",
        "deployment configuration and infrastructure",
    ];
    assert_ne!(queries[0], queries[1]);
    let decomposed = decompose_query(
        "authentication design decisions; deployment configuration and infrastructure",
        7,
    );
    assert_eq!(decomposed.len(), 2);
    assert_ne!(decomposed[0], decomposed[1]);
}

#[test]
fn test_evidence_chains_single_hop_filtered_out() {
    let chains = vec![("a".to_string(), "a".to_string(), 1usize)];
    let retained = select_evidence_chains(&chains);
    assert!(retained.is_empty(), "depth-1 chains must be filtered out");
}

#[test]
fn the_first_chain_of_each_pair_is_kept() {
    let chains = vec![
        ("auth".to_string(), "jwt".to_string(), 3usize),
        ("auth".to_string(), "jwt".to_string(), 2usize),
        ("auth".to_string(), "db".to_string(), 1usize),
        ("db".to_string(), "auth".to_string(), 2usize),
        ("auth".to_string(), "db".to_string(), 2usize),
    ];
    assert_eq!(select_evidence_chains(&chains), vec![0, 3]);
}

#[test]
fn a_blank_query_is_refused() {
    let err = sub_query_origin_of("   ", "heuristic", false).unwrap_err();
    assert_eq!(err.to_message(), "query must not be empty");
}

#[test]
fn the_manual_strategy_needs_a_file() {
    let err = sub_query_origin_of("danilo", "manual", false).unwrap_err();
    assert_eq!(
        err.to_message(),
        "--sub-query-strategy manual requires --sub-queries-file PATH"
    );
    assert_eq!(sub_query_origin_of("danilo", "manual", true).unwrap(), true);
    assert_eq!(sub_query_origin_of("danilo", "heuristic", true).unwrap(), false);
}

#[test]
fn manual_lines_skip_blanks_and_comments_and_stop_at_the_cap() {
    let contents = "  first aspect \n\n# a comment\r\nsecond\r\n   \nthird\nfourth\n";
    let plan = manual_sub_queries("aspects.txt", contents, 3).expect("lines present");
    let texts: Vec<&str> = plan.iter().map(|s| s.text.as_str()).collect();
    assert_eq!(texts, vec!["first aspect", "second", "third"]);
    assert!(plan.iter().all(|s| s.source == "manual"));
    assert_eq!(plan.iter().map(|s| s.id).collect::<Vec<_>>(), vec![0, 1, 2]);
}

#[test]
fn a_file_of_comments_only_is_refused() {
    let err = manual_sub_queries("aspects.txt", "# only\n\n   \n", 7).unwrap_err();
    assert_eq!(err.to_message(), "sub-queries file aspects.txt holds no sub-queries");
}

#[test]
fn heuristic_sub_queries_number_the_decomposition() {
    let plan = heuristic_sub_queries("auth design; logging", 7).expect("ascii query");
    assert_eq!(plan.len(), 2);
    assert_eq!(plan[0].id, 0);
    assert_eq!(plan[0].text, "auth design");
    assert_eq!(plan[0].source, "decomposed");
    assert_eq!(plan[1].id, 1);
    assert_eq!(plan[1].text, "logging");
}

#[test]
fn permits_are_bounded_by_the_plan_and_never_zero() {
    assert_eq!(sub_query_permits(None, 16, 7), 7);
    assert_eq!(sub_query_permits(None, 16, 20), 8);
    assert_eq!(sub_query_permits(None, 2, 20), 2);
    assert_eq!(sub_query_permits(Some(3), 16, 20), 3);
    assert_eq!(sub_query_permits(Some(0), 16, 20), 1);
    assert_eq!(sub_query_permits(None, 4, 0), 1);
}
