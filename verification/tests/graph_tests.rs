use parser::includes_graph::IncludesGraph;

#[test]
fn chain_renders_joined_by_arrows() {
    let chain = vec!["F".to_string(), "G".to_string(), "H".to_string()];
    assert_eq!(IncludesGraph::display_path(&chain), "F -> G -> H");
}

#[test]
fn single_segment_renders_alone() {
    let chain = vec!["F".to_string()];
    assert_eq!(IncludesGraph::display_path(&chain), "F");
}

#[test]
fn empty_chain_renders_as_nothing() {
    let chain: Vec<String> = vec![];
    assert_eq!(IncludesGraph::display_path(&chain), "");
}

#[test]
fn repeated_edge_reports_one_exemplar_chain() {
    let mut graph = IncludesGraph::new();
    graph.add_node("a".to_string(), false, true);
    graph.add_edge("b".to_string(), "a".to_string()).unwrap();
    graph.add_edge("b".to_string(), "a".to_string()).unwrap();
    assert_eq!(
        graph.get_problematic_paths(),
        vec![vec!["a".to_string(), "b".to_string()]]
    );
}

#[test]
fn cyclic_includes_terminate_and_report() {
    // a and b include each other; a uses the feature and neither declares
    // it: the walk terminates and reports an exemplar chain.
    let mut graph = IncludesGraph::new();
    graph.add_node("a".to_string(), false, true);
    graph.add_node("b".to_string(), false, false);
    graph.add_edge("a".to_string(), "b".to_string()).unwrap();
    graph.add_edge("b".to_string(), "a".to_string()).unwrap();
    let chains = graph.get_problematic_paths();
    assert_eq!(chains, vec![vec!["a".to_string(), "b".to_string()]]);
}
