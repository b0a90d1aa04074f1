use std::collections::hash_map::DefaultHasher;
use std::hash::Hash;
use std::hash::Hasher;
use wye::hash;
use wye::Logger;
use wye::RecorderError;

fn text(s: &str) -> String {
    s.to_string()
}

/// What the instrumented `fn add(a: u64, b: u64) -> u64 { a + b }` reports.
fn add(wye: &mut Logger, a: u64, b: u64) -> u64 {
    let (frame, args) = wye.frame();
    wye.param(frame, &args, 0, hash("a"), text("a"), a.to_string()).unwrap();
    wye.param(frame, &args, 1, hash("b"), text("b"), b.to_string()).unwrap();
    wye.node(frame, hash("+"), None, text("+")).unwrap();
    let r = a + b;
    wye.node(frame, hash("a + b"), None, r.to_string()).unwrap();
    wye.edge(frame, hash("a"), frame, hash("+")).unwrap();
    wye.edge(frame, hash("b"), frame, hash("+")).unwrap();
    wye.edge(frame, hash("+"), frame, hash("a + b")).unwrap();
    r
}

#[test]
fn hash_is_the_default_hash_of_the_key() {
    for key in ["", "a", "b", "+", "a + b", "five", "\u{e9}t\u{e9}"] {
        let mut state = DefaultHasher::new();
        key.hash(&mut state);
        assert_eq!(hash(key), state.finish());
    }
}

#[test]
fn hash_gives_one_key_one_slot() {
    assert_eq!(hash("a"), hash("a"));
    assert_eq!(hash("a + b"), hash(&text("a + b")));
    assert_ne!(hash("a"), hash("b"));
    assert_ne!(hash("a"), hash(""));
    assert_ne!(hash("ab"), hash("ba"));
}

#[test]
fn tracing_add_of_two_literals() {
    let mut wye = Logger::new();
    assert_eq!(add(&mut wye, 1, 2), 3);
    assert_eq!(
        wye.render(),
        "digraph {\n    0 [ label = \"a = 1\" ]\n    1 [ label = \"b = 2\" ]\n    2 [ label = \"+\" ]\n    3 [ label = \"3\" ]\n    0 -> 2 [ label = \"\" ]\n    1 -> 2 [ label = \"\" ]\n    2 -> 3 [ label = \"\" ]\n}\n"
    );
    assert_eq!(wye.node_count(), 4);
    assert_eq!(wye.edge_count(), 3);
    assert_eq!(wye.last_node(), Ok((0, hash("a + b"))));
}

#[test]
fn tracing_add_of_a_literal_and_a_traced_call() {
    let mut wye = Logger::new();

    wye.push_frame();
    wye.push_lit();
    wye.push_frame();
    wye.push_lit();
    wye.push_lit();
    let inner = add(&mut wye, 2, 3);
    wye.pop_frame().unwrap();
    let produced = wye.last_node().unwrap();
    wye.push_var(produced);
    let outer = add(&mut wye, 1, inner);
    wye.pop_frame().unwrap();

    assert_eq!(outer, 6);
    assert_eq!(
        wye.render(),
        "digraph {\n    0 [ label = \"a = 2\" ]\n    1 [ label = \"b = 3\" ]\n    2 [ label = \"+\" ]\n    3 [ label = \"5\" ]\n    4 [ label = \"a = 1\" ]\n    5 [ label = \"b = 5\" ]\n    6 [ label = \"+\" ]\n    7 [ label = \"6\" ]\n    0 -> 2 [ label = \"\" ]\n    1 -> 2 [ label = \"\" ]\n    2 -> 3 [ label = \"\" ]\n    3 -> 5 [ label = \"\" ]\n    4 -> 6 [ label = \"\" ]\n    5 -> 6 [ label = \"\" ]\n    6 -> 7 [ label = \"\" ]\n}\n"
    );
    assert_eq!(wye.frame(), (2, vec![]));
}

#[test]
fn tracing_a_binding_that_feeds_a_call() {
    let mut wye = Logger::new();
    let (top, _) = wye.frame();

    wye.push_frame();
    wye.push_lit();
    wye.push_lit();
    let five = add(&mut wye, 2, 3);
    wye.pop_frame().unwrap();
    let produced = wye.last_node().unwrap();
    wye.node(top, hash("five"), Some(text("five")), five.to_string()).unwrap();
    wye.edge(produced.0, produced.1, top, hash("five")).unwrap();

    wye.push_frame();
    wye.push_lit();
    wye.push_var(wye.last_node().unwrap());
    let six = add(&mut wye, 1, five);
    wye.pop_frame().unwrap();

    assert_eq!(six, 6);
    assert_eq!(
        wye.render(),
        "digraph {\n    0 [ label = \"a = 2\" ]\n    1 [ label = \"b = 3\" ]\n    2 [ label = \"+\" ]\n    3 [ label = \"5\" ]\n    4 [ label = \"five = 5\" ]\n    5 [ label = \"a = 1\" ]\n    6 [ label = \"b = 5\" ]\n    7 [ label = \"+\" ]\n    8 [ label = \"6\" ]\n    0 -> 2 [ label = \"\" ]\n    1 -> 2 [ label = \"\" ]\n    2 -> 3 [ label = \"\" ]\n    3 -> 4 [ label = \"\" ]\n    4 -> 6 [ label = \"\" ]\n    5 -> 7 [ label = \"\" ]\n    6 -> 7 [ label = \"\" ]\n    7 -> 8 [ label = \"\" ]\n}\n"
    );
}

#[test]
fn repeated_invocations_do_not_collide() {
    let mut wye = Logger::new();
    for n in 0..4u64 {
        wye.push_frame();
        wye.push_lit();
        wye.push_lit();
        assert_eq!(wye.frame().0, n);
        assert_eq!(add(&mut wye, n, n), 2 * n);
        wye.pop_frame().unwrap();
    }
    assert_eq!(wye.node_count(), 16);
    assert_eq!(wye.edge_count(), 12);
    assert_eq!(wye.frame().0, 4);
}

#[test]
fn an_invocation_that_was_not_left_collides_with_itself() {
    let mut wye = Logger::new();
    wye.push_frame();
    wye.push_lit();
    wye.push_lit();
    assert_eq!(add(&mut wye, 1, 2), 3);
    let (frame, args) = wye.frame();
    assert_eq!(
        wye.param(frame, &args, 0, hash("a"), text("a"), text("1")),
        Err(RecorderError::DuplicateDeclaration { frame: 0, slot: hash("a") })
    );
    assert_eq!(wye.node_count(), 4);
}

#[test]
fn traced_argument_gets_an_edge_into_the_parameter() {
    let mut wye = Logger::new();
    wye.node(0, 100, Some(text("x")), text("7")).unwrap();
    wye.push_frame();
    wye.push_lit();
    wye.push_var((0, 100));
    let (frame, args) = wye.frame();
    assert_eq!(args, vec![None, Some((0, 100))]);
    assert_eq!(wye.param(frame, &args, 0, 1, text("a"), text("1")), Ok(()));
    assert_eq!(wye.edge_count(), 0);
    assert_eq!(wye.param(frame, &args, 1, 2, text("b"), text("7")), Ok(()));
    assert_eq!(wye.edge_count(), 1);
    assert_eq!(
        wye.render(),
        "digraph {\n    0 [ label = \"x = 7\" ]\n    1 [ label = \"a = 1\" ]\n    2 [ label = \"b = 7\" ]\n    0 -> 2 [ label = \"\" ]\n}\n"
    );
    assert_eq!(wye.last_node(), Ok((0, 2)));
}

#[test]
fn parameter_behind_the_arguments_gets_no_edge() {
    let mut wye = Logger::new();
    wye.node(0, 100, None, text("7")).unwrap();
    wye.push_frame();
    wye.push_var((0, 100));
    let (frame, args) = wye.frame();
    assert_eq!(wye.param(frame, &args, 1, 1, text("b"), text("2")), Ok(()));
    assert_eq!(wye.param(frame, &args, usize::MAX, 2, text("c"), text("3")), Ok(()));
    assert_eq!(wye.edge_count(), 0);
    assert_eq!(wye.node_count(), 3);
}

#[test]
fn parameter_that_is_its_own_producer_gets_no_edge() {
    let mut wye = Logger::new();
    let args = vec![Some((0, 5))];
    assert_eq!(wye.param(0, &args, 0, 5, text("a"), text("1")), Ok(()));
    assert_eq!(wye.edge_count(), 0);
    assert_eq!(wye.render(), "digraph {\n    0 [ label = \"a = 1\" ]\n}\n");
}

#[test]
fn parameter_with_an_undeclared_producer_is_refused() {
    let mut wye = Logger::new();
    let args = vec![Some((3, 4))];
    assert_eq!(
        wye.param(0, &args, 0, 5, text("a"), text("1")),
        Err(RecorderError::UnknownEndpoint { frame: 3, slot: 4 })
    );
    assert_eq!(wye.node_count(), 0);
    assert_eq!(wye.last_node(), Err(RecorderError::NoNodeYet));
    assert_eq!(wye.render(), "digraph {\n}\n");
}

#[test]
fn parameter_at_a_declared_address_is_refused() {
    let mut wye = Logger::new();
    wye.node(0, 5, None, text("x")).unwrap();
    let args = vec![Some((3, 4))];
    assert_eq!(
        wye.param(0, &args, 0, 5, text("a"), text("1")),
        Err(RecorderError::DuplicateDeclaration { frame: 0, slot: 5 })
    );
    assert_eq!(wye.render(), "digraph {\n    0 [ label = \"x\" ]\n}\n");
}

#[test]
fn same_calls_give_the_same_text() {
    fn record() -> Logger {
        let mut wye = Logger::new();
        wye.push_frame();
        wye.push_lit();
        wye.push_frame();
        wye.push_lit();
        wye.push_lit();
        let inner = add(&mut wye, 20, 22);
        wye.pop_frame().unwrap();
        wye.push_var(wye.last_node().unwrap());
        add(&mut wye, 1, inner);
        wye.pop_frame().unwrap();
        wye
    }
    let first = record();
    let second = record();
    assert_eq!(first.render(), second.render());
    assert_eq!(first.frame(), second.frame());
    assert_eq!(first.last_node(), second.last_node());
    assert!(first.render().contains("    7 [ label = \"43\" ]\n"));
}
