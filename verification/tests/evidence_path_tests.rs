use sqlite_graphrag::evidence_path::{reconstruct_path, Predecessor};

fn pred(child: i64, parent: i64, relation: &str, weight: f64) -> Predecessor {
    Predecessor { child, parent, relation: relation.to_string(), weight_bits: weight.to_bits() }
}

#[test]
fn the_path_runs_from_the_seed_to_the_target() {
    let preds = vec![pred(3, 2, "uses", 0.5), pred(2, 1, "depends_on", 0.8)];
    let names = vec![(1, "alpha".to_string()), (3, "gamma".to_string())];
    let nodes = reconstruct_path(3, &vec![1], &preds, &names).expect("a path");
    let shown: Vec<(&str, Option<&str>, Option<f64>)> = nodes
        .iter()
        .map(|n| (n.entity.as_str(), n.relation.as_deref(), n.weight_bits.map(f64::from_bits)))
        .collect();
    assert_eq!(
        shown,
        vec![
            ("alpha", None, None),
            ("entity-2", Some("depends_on"), Some(0.8)),
            ("gamma", Some("uses"), Some(0.5)),
        ]
    );
    let weight: f64 = nodes.iter().filter_map(|n| n.weight_bits.map(f64::from_bits)).product();
    assert!((weight - 0.4).abs() < 1e-12);
}

#[test]
fn a_seed_target_is_a_path_of_one_node() {
    let nodes = reconstruct_path(-7, &vec![-7], &vec![], &vec![]).expect("a path");
    assert_eq!(nodes.len(), 1);
    assert_eq!(nodes[0].entity, "entity--7");
    assert!(nodes[0].relation.is_none());
}

#[test]
fn a_missing_predecessor_gives_no_path() {
    let preds = vec![pred(3, 2, "uses", 0.5)];
    assert!(reconstruct_path(3, &vec![1], &preds, &vec![]).is_none());
}
