use sas_game::nav::{NavEdgeType, NavGraph, NavNodeType};

fn graph_with_nodes(n: usize) -> NavGraph {
    let mut g = NavGraph::new();
    for _ in 0..n {
        g.add_node(NavNodeType::Ground);
    }
    g
}

#[test]
fn add_node_returns_consecutive_ids() {
    let mut g = NavGraph::new();
    assert_eq!(g.add_node(NavNodeType::Ground), 0);
    assert_eq!(g.add_node(NavNodeType::JumpPad), 1);
    assert_eq!(g.add_node(NavNodeType::ItemLocation), 2);
    assert_eq!(g.nodes.len(), 3);
    assert_eq!(g.nodes[1].id, 1);
    assert_eq!(g.nodes[1].node_type, NavNodeType::JumpPad);
    assert!(g.edges.is_empty());
}

#[test]
fn add_edge_appends_directed_edge() {
    let mut g = graph_with_nodes(3);
    g.add_edge(0, 2, NavEdgeType::Jump);
    assert_eq!(g.edges.len(), 1);
    assert!(g.has_edge(0, 2, NavEdgeType::Jump));
    assert!(!g.has_edge(2, 0, NavEdgeType::Jump));
    assert!(!g.has_edge(0, 2, NavEdgeType::Walk));
}

#[test]
fn add_selected_edges_skips_repeated_targets() {
    let mut g = graph_with_nodes(4);
    let added = g.add_selected_edges(0, NavEdgeType::FallOff, [Some(2), Some(2), Some(3)]);
    assert_eq!(added, 2);
    assert_eq!(g.edges.len(), 2);
    assert_eq!((g.edges[0].from, g.edges[0].to), (0, 2));
    assert_eq!((g.edges[1].from, g.edges[1].to), (0, 3));
    assert_eq!(g.edges[1].edge_type, NavEdgeType::FallOff);
}

#[test]
fn add_selected_edges_with_nothing_selected() {
    let mut g = graph_with_nodes(2);
    assert_eq!(g.add_selected_edges(1, NavEdgeType::Jump, [None, None, None]), 0);
    assert!(g.edges.is_empty());
    assert_eq!(g.add_selected_edges(1, NavEdgeType::Jump, [None, Some(0), None]), 1);
    assert!(g.has_edge(1, 0, NavEdgeType::Jump));
}

fn sorted(mut v: Vec<usize>) -> Vec<usize> {
    v.sort();
    v
}

#[test]
fn components_ignore_edge_direction() {
    let mut g = graph_with_nodes(6);
    g.add_edge(0, 1, NavEdgeType::Walk);
    g.add_edge(2, 1, NavEdgeType::FallOff);
    g.add_edge(4, 3, NavEdgeType::Teleport);
    let comps = g.find_connected_components();
    assert_eq!(comps.len(), 3);
    assert_eq!(comps[0][0], 0);
    assert_eq!(sorted(comps[0].clone()), vec![0, 1, 2]);
    assert_eq!(comps[1][0], 3);
    assert_eq!(sorted(comps[1].clone()), vec![3, 4]);
    assert_eq!(comps[2], vec![5]);
}

#[test]
fn components_of_empty_graph() {
    let g = NavGraph::new();
    assert!(g.find_connected_components().is_empty());
}

#[test]
fn components_match_connectivity_on_example() {
    // Two nodes share a component exactly when a chain of edges joins them.
    let mut g = graph_with_nodes(5);
    g.add_edge(0, 3, NavEdgeType::Walk);
    g.add_edge(3, 4, NavEdgeType::Jump);
    g.add_edge(1, 1, NavEdgeType::Walk);
    let comps = g.find_connected_components();
    let part_of = |v: usize| comps.iter().position(|c| c.contains(&v)).unwrap();
    assert_eq!(part_of(0), part_of(4));
    assert_ne!(part_of(0), part_of(1));
    assert_ne!(part_of(1), part_of(2));
    let total: usize = comps.iter().map(|c| c.len()).sum();
    assert_eq!(total, 5);
}

#[test]
fn reconstruct_path_follows_predecessors() {
    let g = graph_with_nodes(4);
    let came_from = vec![None, Some(0), Some(1), None];
    assert_eq!(g.reconstruct_path(&came_from, 2), vec![0, 1, 2]);
    assert_eq!(g.reconstruct_path(&came_from, 3), vec![3]);
}

#[test]
fn path_to_refuses_cyclic_records() {
    let g = graph_with_nodes(2);
    let came_from = vec![Some(1), Some(0)];
    assert_eq!(g.path_to(&came_from, 0), None);
}

#[test]
fn path_to_ends_at_unrecorded_node() {
    let g = graph_with_nodes(3);
    let came_from = vec![None, Some(0), Some(1)];
    assert_eq!(g.path_to(&came_from, 2), Some(vec![0, 1, 2]));
    assert_eq!(g.path_to(&Vec::new(), 7), Some(vec![7]));
    let beyond = vec![Some(9)];
    assert_eq!(g.path_to(&beyond, 0), Some(vec![9, 0]));
}

#[test]
fn parts_list_nodes_in_search_order() {
    // From 0 the edges 0->2, 3->0 and 0->1 push 2, 3, 1; the last pushed is
    // taken first, so 1 comes next and pushes 4, then 4, 3 and 2 follow.
    let mut g = graph_with_nodes(5);
    g.add_edge(0, 2, NavEdgeType::Walk);
    g.add_edge(3, 0, NavEdgeType::Jump);
    g.add_edge(0, 1, NavEdgeType::Walk);
    g.add_edge(1, 4, NavEdgeType::Walk);
    let comps = g.find_connected_components();
    assert_eq!(comps, vec![vec![0, 1, 4, 3, 2]]);
}
