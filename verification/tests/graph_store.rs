use wye::Logger;
use wye::RecorderError;

fn text(s: &str) -> String {
    s.to_string()
}

#[test]
fn fresh_recorder_renders_empty_graph() {
    let wye = Logger::new();
    assert_eq!(wye.render(), "digraph {\n}\n");
    assert_eq!(wye.node_count(), 0);
    assert_eq!(wye.edge_count(), 0);
}

#[test]
fn node_without_name_is_labelled_by_value() {
    let mut wye = Logger::new();
    assert_eq!(wye.node(0, 7, None, text("3")), Ok(()));
    assert_eq!(wye.render(), "digraph {\n    0 [ label = \"3\" ]\n}\n");
}

#[test]
fn node_with_name_is_labelled_by_name_and_value() {
    let mut wye = Logger::new();
    assert_eq!(wye.node(0, 7, Some(text("a")), text("1")), Ok(()));
    assert_eq!(wye.render(), "digraph {\n    0 [ label = \"a = 1\" ]\n}\n");
}

#[test]
fn node_label_formula() {
    assert_eq!(wye::logger::node_label(Some(text("five")), text("5")), "five = 5");
    assert_eq!(wye::logger::node_label(None, text("5")), "5");
    assert_eq!(wye::logger::node_label(Some(text("")), text("")), " = ");
}

#[test]
fn declared_node_has_empty_label_until_defined() {
    let mut wye = Logger::new();
    assert_eq!(wye.declare_node(4, 9), Ok(()));
    assert_eq!(wye.render(), "digraph {\n    0 [ label = \"\" ]\n}\n");
    assert_eq!(wye.last_node(), Err(RecorderError::NoNodeYet));
    assert_eq!(wye.define_node(4, 9, Some(text("x")), text("10")), Ok(()));
    assert_eq!(wye.render(), "digraph {\n    0 [ label = \"x = 10\" ]\n}\n");
    assert_eq!(wye.last_node(), Ok((4, 9)));
}

#[test]
fn defining_again_replaces_the_label() {
    let mut wye = Logger::new();
    assert_eq!(wye.node(0, 1, None, text("old")), Ok(()));
    assert_eq!(wye.node(0, 2, None, text("other")), Ok(()));
    assert_eq!(wye.define_node(0, 1, Some(text("n")), text("new")), Ok(()));
    assert_eq!(
        wye.render(),
        "digraph {\n    0 [ label = \"n = new\" ]\n    1 [ label = \"other\" ]\n}\n"
    );
    assert_eq!(wye.last_node(), Ok((0, 1)));
    assert_eq!(wye.node_count(), 2);
}

#[test]
fn edge_may_reach_a_declared_node_before_it_is_defined() {
    let mut wye = Logger::new();
    assert_eq!(wye.node(0, 1, None, text("src")), Ok(()));
    assert_eq!(wye.declare_node(0, 2), Ok(()));
    assert_eq!(wye.edge(0, 1, 0, 2), Ok(()));
    assert_eq!(wye.define_node(0, 2, None, text("dst")), Ok(()));
    assert_eq!(
        wye.render(),
        "digraph {\n    0 [ label = \"src\" ]\n    1 [ label = \"dst\" ]\n    0 -> 1 [ label = \"\" ]\n}\n"
    );
}

#[test]
fn nodes_are_numbered_in_order_of_declaration() {
    let mut wye = Logger::new();
    assert_eq!(wye.node(9, 9, None, text("first")), Ok(()));
    assert_eq!(wye.node(0, 0, None, text("second")), Ok(()));
    assert_eq!(wye.node(5, 1, None, text("third")), Ok(()));
    assert_eq!(wye.edge(5, 1, 9, 9), Ok(()));
    assert_eq!(wye.edge(0, 0, 5, 1), Ok(()));
    assert_eq!(
        wye.render(),
        "digraph {\n    0 [ label = \"first\" ]\n    1 [ label = \"second\" ]\n    2 [ label = \"third\" ]\n    2 -> 0 [ label = \"\" ]\n    1 -> 2 [ label = \"\" ]\n}\n"
    );
}

#[test]
fn parallel_edges_and_loops_are_kept() {
    let mut wye = Logger::new();
    assert_eq!(wye.node(0, 1, None, text("a")), Ok(()));
    assert_eq!(wye.node(0, 2, None, text("b")), Ok(()));
    assert_eq!(wye.edge(0, 1, 0, 2), Ok(()));
    assert_eq!(wye.edge(0, 1, 0, 2), Ok(()));
    assert_eq!(wye.edge(0, 2, 0, 2), Ok(()));
    assert_eq!(wye.edge_count(), 3);
    assert_eq!(
        wye.render(),
        "digraph {\n    0 [ label = \"a\" ]\n    1 [ label = \"b\" ]\n    0 -> 1 [ label = \"\" ]\n    0 -> 1 [ label = \"\" ]\n    1 -> 1 [ label = \"\" ]\n}\n"
    );
}

#[test]
fn same_slot_in_another_frame_is_another_node() {
    let mut wye = Logger::new();
    assert_eq!(wye.node(0, 5, None, text("x")), Ok(()));
    assert_eq!(wye.node(1, 5, None, text("y")), Ok(()));
    assert_eq!(wye.node(5, 0, None, text("z")), Ok(()));
    assert_eq!(wye.node(u64::MAX, u64::MAX, None, text("w")), Ok(()));
    assert_eq!(wye.node(u64::MAX, 0, None, text("v")), Ok(()));
    assert_eq!(wye.node(0, u64::MAX, None, text("u")), Ok(()));
    assert_eq!(wye.node_count(), 6);
    assert_eq!(wye.edge(u64::MAX, 0, 0, u64::MAX), Ok(()));
    assert!(wye.render().ends_with("    4 -> 5 [ label = \"\" ]\n}\n"));
}

#[test]
fn labels_are_escaped_for_graphviz() {
    let mut wye = Logger::new();
    assert_eq!(wye.node(0, 1, Some(text("Into::<String>::into(\"a\")")), text("a")), Ok(()));
    assert_eq!(wye.node(0, 2, None, text("back\\slash")), Ok(()));
    assert_eq!(wye.node(0, 3, None, text("two\nlines")), Ok(()));
    assert_eq!(
        wye.render(),
        "digraph {\n    0 [ label = \"Into::<String>::into(\\\"a\\\") = a\" ]\n    1 [ label = \"back\\\\slash\" ]\n    2 [ label = \"two\\llines\" ]\n}\n"
    );
}

#[test]
fn declaring_twice_is_refused() {
    let mut wye = Logger::new();
    assert_eq!(wye.declare_node(3, 4), Ok(()));
    assert_eq!(
        wye.declare_node(3, 4),
        Err(RecorderError::DuplicateDeclaration { frame: 3, slot: 4 })
    );
    assert_eq!(wye.node_count(), 1);
}

#[test]
fn node_twice_is_refused_and_keeps_the_first_label() {
    let mut wye = Logger::new();
    assert_eq!(wye.node(0, 11, Some(text("a")), text("1")), Ok(()));
    assert_eq!(wye.node(0, 12, None, text("+")), Ok(()));
    let before = wye.render();
    assert_eq!(
        wye.node(0, 11, Some(text("b")), text("2")),
        Err(RecorderError::DuplicateDeclaration { frame: 0, slot: 11 })
    );
    assert_eq!(wye.render(), before);
    assert_eq!(
        before,
        "digraph {\n    0 [ label = \"a = 1\" ]\n    1 [ label = \"+\" ]\n}\n"
    );
    assert_eq!(wye.node_count(), 2);
    assert_eq!(wye.last_node(), Ok((0, 12)));
}

#[test]
fn defining_an_undeclared_address_is_refused() {
    let mut wye = Logger::new();
    assert_eq!(wye.node(0, 1, None, text("x")), Ok(()));
    assert_eq!(
        wye.define_node(0, 2, None, text("y")),
        Err(RecorderError::UndeclaredNode { frame: 0, slot: 2 })
    );
    assert_eq!(
        wye.define_node(1, 1, None, text("y")),
        Err(RecorderError::UndeclaredNode { frame: 1, slot: 1 })
    );
    assert_eq!(wye.render(), "digraph {\n    0 [ label = \"x\" ]\n}\n");
    assert_eq!(wye.last_node(), Ok((0, 1)));
}

#[test]
fn edge_with_an_undeclared_endpoint_is_refused() {
    let mut wye = Logger::new();
    assert_eq!(wye.node(0, 1, None, text("x")), Ok(()));
    assert_eq!(
        wye.edge(0, 2, 0, 1),
        Err(RecorderError::UnknownEndpoint { frame: 0, slot: 2 })
    );
    assert_eq!(
        wye.edge(0, 1, 7, 3),
        Err(RecorderError::UnknownEndpoint { frame: 7, slot: 3 })
    );
    assert_eq!(
        wye.edge(8, 8, 9, 9),
        Err(RecorderError::UnknownEndpoint { frame: 8, slot: 8 })
    );
    assert_eq!(wye.edge_count(), 0);
    assert_eq!(wye.render(), "digraph {\n    0 [ label = \"x\" ]\n}\n");
}

#[test]
fn last_node_follows_definitions() {
    let mut wye = Logger::new();
    assert_eq!(wye.last_node(), Err(RecorderError::NoNodeYet));
    assert_eq!(wye.declare_node(0, 1), Ok(()));
    assert_eq!(wye.last_node(), Err(RecorderError::NoNodeYet));
    assert_eq!(wye.node(0, 2, None, text("x")), Ok(()));
    assert_eq!(wye.last_node(), Ok((0, 2)));
    assert_eq!(wye.define_node(0, 1, None, text("y")), Ok(()));
    assert_eq!(wye.last_node(), Ok((0, 1)));
    wye.set_last_node((40, 41));
    assert_eq!(wye.last_node(), Ok((40, 41)));
}

#[test]
fn set_last_node_on_a_fresh_recorder() {
    let mut wye = Logger::new();
    wye.set_last_node((1, 2));
    assert_eq!(wye.last_node(), Ok((1, 2)));
    assert_eq!(wye.render(), "digraph {\n}\n");
}

#[test]
fn address_key_keeps_frame_and_slot_apart() {
    assert_eq!(wye::address::key(0, 0), 0);
    assert_eq!(wye::address::key(0, 1), 1);
    assert_eq!(wye::address::key(1, 0), 1u128 << 64);
    assert_eq!(wye::address::key(1, 2), (1u128 << 64) + 2);
    assert_eq!(wye::address::key(u64::MAX, u64::MAX), u128::MAX);
    assert_ne!(wye::address::key(2, 1), wye::address::key(1, 2));
}

#[test]
fn render_is_the_dot_text_of_the_same_graph() {
    let mut graph = petgraph::graph::Graph::<String, String>::new();
    let mut wye = Logger::new();
    let mut indices = Vec::new();
    for n in 0..12u64 {
        let label = if n % 3 == 0 { format!("v{n} = \"{n}\"") } else { format!("{n}\n") };
        indices.push(graph.add_node(label));
        if n % 3 == 0 {
            assert_eq!(wye.node(n / 4, n, Some(format!("v{n}")), format!("\"{n}\"")), Ok(()));
        } else {
            assert_eq!(wye.node(n / 4, n, None, format!("{n}\n")), Ok(()));
        }
    }
    for (from, to) in [(0u64, 11u64), (5, 5), (11, 0), (3, 4), (3, 4), (10, 2)] {
        graph.add_edge(indices[from as usize], indices[to as usize], String::new());
        assert_eq!(wye.edge(from / 4, from, to / 4, to), Ok(()));
    }
    assert_eq!(wye.render(), format!("{}", petgraph::dot::Dot::new(&graph)));
    assert_eq!(wye.node_count(), graph.node_count());
    assert_eq!(wye.edge_count(), graph.edge_count());
}
