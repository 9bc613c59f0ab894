use std::collections::HashMap;
use zk_graph::builder::Builder;
use zk_graph::node::Node;

#[test]
fn new_builder_has_no_values_and_no_constraints() {
    let builder = Builder::new();
    assert_eq!(builder.get_value(&Node::new(0)), None);
    assert!(builder.check_constraints());
}

#[test]
fn default_builder_is_empty() {
    let mut builder = Builder::default();
    assert!(builder.check_constraints());
    let first = builder.init();
    assert_eq!(first.id(), 0);
}

#[test]
fn handles_count_up_from_zero() {
    let mut builder = Builder::new();
    let a = builder.init();
    let b = builder.constant(9);
    let c = builder.add(a, b);
    let d = builder.mul(c, c);
    let e = builder.hint(|_values: &HashMap<usize, u32>| None);
    assert_eq!(a.id(), 0);
    assert_eq!(b.id(), 1);
    assert_eq!(c.id(), 2);
    assert_eq!(d.id(), 3);
    assert_eq!(e.id(), 4);
}

#[test]
fn construction_computes_nothing() {
    let mut builder = Builder::new();
    let c = builder.constant(3);
    let s = builder.add(c, c);
    assert_eq!(builder.get_value(&c), None);
    assert_eq!(builder.get_value(&s), None);
}

#[test]
fn sum_is_taken_modulo_two_to_the_32() {
    let mut builder = Builder::new();
    let a = builder.constant(4294967295);
    let b = builder.constant(1);
    let sum = builder.add(a, b);
    builder.fill_nodes(&[]);
    assert_eq!(builder.get_value(&sum), Some(0));
}

#[test]
fn sum_of_inputs_wraps() {
    let mut builder = Builder::new();
    let x = builder.init();
    let y = builder.init();
    let sum = builder.add(x, y);
    builder.fill_nodes(&[(x, 4000000000), (y, 500000000)]);
    assert_eq!(builder.get_value(&sum), Some(205032704));
    assert_eq!(builder.get_value(&sum), Some(4000000000u32.wrapping_add(500000000)));
}

#[test]
fn product_is_taken_modulo_two_to_the_32() {
    let mut builder = Builder::new();
    let x = builder.init();
    let y = builder.init();
    let product = builder.mul(x, y);
    builder.fill_nodes(&[(x, 65536), (y, 65537)]);
    // 65536 * 65537 = 2^32 + 65536
    assert_eq!(builder.get_value(&product), Some(65536));
    builder.fill_nodes(&[(x, 4294967295), (y, 4294967295)]);
    // (2^32 - 1)^2 = 2^64 - 2^33 + 1
    assert_eq!(builder.get_value(&product), Some(1));
}

#[test]
fn constant_stands_under_every_binding() {
    let mut builder = Builder::new();
    let x = builder.init();
    let c = builder.constant(42);
    builder.fill_nodes(&[]);
    assert_eq!(builder.get_value(&c), Some(42));
    builder.fill_nodes(&[(x, 1)]);
    assert_eq!(builder.get_value(&c), Some(42));
    builder.fill_nodes(&[(c, 7)]);
    assert_eq!(builder.get_value(&c), Some(42));
    builder.fill_nodes(&[(x, 9), (c, 7), (c, 8)]);
    assert_eq!(builder.get_value(&c), Some(42));
}

#[test]
fn polynomial_of_three_is_seventeen() {
    let mut builder = Builder::new();
    let x = builder.init();
    let x_squared = builder.mul(x, x);
    let five = builder.constant(5);
    let x_squared_plus_5 = builder.add(x_squared, five);
    let result = builder.add(x_squared_plus_5, x);
    builder.fill_nodes(&[(x, 3)]);
    assert_eq!(builder.get_value(&result), Some(17));
    assert_eq!(builder.get_value(&x_squared), Some(9));
    assert_eq!(builder.get_value(&x_squared_plus_5), Some(14));
}

#[test]
fn same_inputs_give_same_values() {
    let mut builder = Builder::new();
    let x = builder.init();
    let y = builder.init();
    let s = builder.add(x, y);
    let p = builder.mul(s, x);
    let h = builder.hint(move |values: &HashMap<usize, u32>| values.get(&p.id()).map(|v| v / 3));
    let nodes = [x, y, s, p, h];

    builder.fill_nodes(&[(x, 11), (y, 31)]);
    let first: Vec<Option<u32>> = nodes.iter().map(|n| builder.get_value(n)).collect();
    builder.fill_nodes(&[(x, 11), (y, 31)]);
    let second: Vec<Option<u32>> = nodes.iter().map(|n| builder.get_value(n)).collect();

    assert_eq!(first, vec![Some(11), Some(31), Some(42), Some(462), Some(154)]);
    assert_eq!(first, second);
}

#[test]
fn new_inputs_replace_old_values() {
    let mut builder = Builder::new();
    let x = builder.init();
    let y = builder.init();
    let s = builder.add(x, y);

    builder.fill_nodes(&[(x, 1), (y, 2)]);
    assert_eq!(builder.get_value(&s), Some(3));

    // y is not bound any more: it and what depends on it are gone
    builder.fill_nodes(&[(x, 10)]);
    assert_eq!(builder.get_value(&x), Some(10));
    assert_eq!(builder.get_value(&y), None);
    assert_eq!(builder.get_value(&s), None);

    builder.fill_nodes(&[]);
    assert_eq!(builder.get_value(&x), None);
}

#[test]
fn later_binding_of_a_node_stands() {
    let mut builder = Builder::new();
    let x = builder.init();
    let one = builder.constant(1);
    let s = builder.add(x, one);
    builder.fill_nodes(&[(x, 5), (x, 6), (x, 7)]);
    assert_eq!(builder.get_value(&x), Some(7));
    assert_eq!(builder.get_value(&s), Some(8));
}

#[test]
fn unbound_input_leaves_dependents_unresolved() {
    let mut builder = Builder::new();
    let x = builder.init();
    let y = builder.init();
    let s = builder.add(x, y);
    let p = builder.mul(s, s);
    builder.fill_nodes(&[(x, 3)]);
    assert_eq!(builder.get_value(&x), Some(3));
    assert_eq!(builder.get_value(&y), None);
    assert_eq!(builder.get_value(&s), None);
    assert_eq!(builder.get_value(&p), None);
}

#[test]
fn binding_of_a_sum_stands_in_place_of_the_sum() {
    let mut builder = Builder::new();
    let x = builder.init();
    let one = builder.constant(1);
    let s = builder.add(x, one);
    let t = builder.add(s, one);
    builder.fill_nodes(&[(x, 1), (s, 5)]);
    assert_eq!(builder.get_value(&s), Some(5));
    assert_eq!(builder.get_value(&t), Some(6));
}

#[test]
fn binding_of_an_unknown_position_is_kept() {
    let mut builder = Builder::new();
    let x = builder.init();
    builder.fill_nodes(&[(x, 1), (Node::new(40), 2)]);
    assert_eq!(builder.get_value(&Node::new(40)), Some(2));
    assert_eq!(builder.get_value(&Node::new(41)), None);
}

#[test]
fn empty_graph_evaluates() {
    let mut builder = Builder::new();
    builder.fill_nodes(&[]);
    assert_eq!(builder.get_value(&Node::new(0)), None);
    assert!(builder.check_constraints());
}
