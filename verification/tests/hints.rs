use std::collections::HashMap;
use zk_graph::builder::Builder;
use zk_graph::node::HintFn;

fn rounded_root(value: u32) -> u32 {
    (value as f64).sqrt().round() as u32
}

#[test]
fn division_by_eight_is_hinted_and_checked() {
    let mut builder = Builder::new();
    let a = builder.init();
    let one = builder.constant(1);
    let b = builder.add(a, one);
    let c = builder.hint(move |values: &HashMap<usize, u32>| {
        values.get(&b.id()).map(|b_val| b_val / 8)
    });
    let eight = builder.constant(8);
    let c_times_8 = builder.mul(c, eight);
    builder.assert_equal(b, c_times_8);

    builder.fill_nodes(&[(a, 7)]);
    assert_eq!(builder.get_value(&c), Some(1));
    assert!(builder.check_constraints());

    // 9 is no multiple of 8: the hint answers, and the constraint fails
    builder.fill_nodes(&[(a, 8)]);
    assert_eq!(builder.get_value(&c), Some(1));
    assert_eq!(builder.get_value(&c_times_8), Some(8));
    assert!(!builder.check_constraints());
}

#[test]
fn square_root_is_hinted_and_checked() {
    let mut builder = Builder::new();
    let x = builder.init();
    let seven = builder.constant(7);
    let x_plus_seven = builder.add(x, seven);
    let root = builder.hint(move |values: &HashMap<usize, u32>| {
        values.get(&x_plus_seven.id()).map(|val| rounded_root(*val))
    });
    let computed_sq = builder.mul(root, root);
    builder.assert_equal(computed_sq, x_plus_seven);

    builder.fill_nodes(&[(x, 2)]);
    assert_eq!(builder.get_value(&root), Some(3));
    assert!(builder.check_constraints());

    builder.fill_nodes(&[(x, 9)]);
    assert_eq!(builder.get_value(&root), Some(4));
    assert!(builder.check_constraints());

    // 10 is no square
    builder.fill_nodes(&[(x, 3)]);
    assert!(!builder.check_constraints());
}

#[test]
fn hint_waits_for_what_it_reads() {
    let mut builder = Builder::new();
    let x = builder.init();
    let h = builder.hint(move |values: &HashMap<usize, u32>| values.get(&x.id()).map(|v| v + 1));
    let d = builder.add(h, h);
    builder.assert_equal(h, h);

    builder.fill_nodes(&[]);
    assert_eq!(builder.get_value(&h), None);
    assert_eq!(builder.get_value(&d), None);
    assert!(!builder.check_constraints());

    builder.fill_nodes(&[(x, 4)]);
    assert_eq!(builder.get_value(&h), Some(5));
    assert_eq!(builder.get_value(&d), Some(10));
    assert!(builder.check_constraints());
}

#[test]
fn hint_that_never_answers_stays_unresolved() {
    let mut builder = Builder::new();
    let x = builder.init();
    let h = builder.hint(|_values: &HashMap<usize, u32>| None);
    let s = builder.add(x, h);
    builder.assert_equal(x, h);
    builder.fill_nodes(&[(x, 1)]);
    assert_eq!(builder.get_value(&h), None);
    assert_eq!(builder.get_value(&s), None);
    assert!(!builder.check_constraints());
}

#[test]
fn hints_that_wait_for_each_other_stall() {
    let mut builder = Builder::new();
    let x = builder.init();
    // the first hint reads the second, the second reads the first
    let first = builder.hint(|values: &HashMap<usize, u32>| values.get(&2).copied());
    let second = builder.hint(|values: &HashMap<usize, u32>| values.get(&1).copied());
    assert_eq!(first.id(), 1);
    assert_eq!(second.id(), 2);
    builder.fill_nodes(&[(x, 3)]);
    assert_eq!(builder.get_value(&x), Some(3));
    assert_eq!(builder.get_value(&first), None);
    assert_eq!(builder.get_value(&second), None);
}

#[test]
fn hint_that_reads_a_later_node_needs_a_second_pass() {
    let mut builder = Builder::new();
    let x = builder.init();
    // node 1 reads node 3, which is made after it
    let early = builder.hint(|values: &HashMap<usize, u32>| values.get(&3).map(|v| v * 2));
    let one = builder.constant(1);
    let late = builder.add(x, one);
    let after = builder.add(early, one);
    assert_eq!(late.id(), 3);
    builder.fill_nodes(&[(x, 20)]);
    assert_eq!(builder.get_value(&late), Some(21));
    assert_eq!(builder.get_value(&early), Some(42));
    assert_eq!(builder.get_value(&after), Some(43));
}

#[test]
fn chain_of_hints_against_the_order_of_creation_resolves() {
    let mut builder = Builder::new();
    // node k reads node k + 1, the last reads the input made at the end
    let h0 = builder.hint(|values: &HashMap<usize, u32>| values.get(&1).map(|v| v + 1));
    let h1 = builder.hint(|values: &HashMap<usize, u32>| values.get(&2).map(|v| v + 1));
    let h2 = builder.hint(|values: &HashMap<usize, u32>| values.get(&3).map(|v| v + 1));
    let x = builder.init();
    assert_eq!(x.id(), 3);
    builder.fill_nodes(&[(x, 100)]);
    assert_eq!(builder.get_value(&h2), Some(101));
    assert_eq!(builder.get_value(&h1), Some(102));
    assert_eq!(builder.get_value(&h0), Some(103));
}

#[test]
fn bound_hint_is_not_asked() {
    let mut builder = Builder::new();
    let h = builder.hint(|_values: &HashMap<usize, u32>| Some(1));
    builder.fill_nodes(&[(h, 9)]);
    assert_eq!(builder.get_value(&h), Some(9));
    builder.fill_nodes(&[]);
    assert_eq!(builder.get_value(&h), Some(1));
}

#[test]
fn closure_answers_as_a_hint() {
    let double = |values: &HashMap<usize, u32>| values.get(&0).map(|v| v.wrapping_mul(2));
    let mut values = HashMap::new();
    assert_eq!(double.compute(&values), None);
    values.insert(0, 2147483649);
    assert_eq!(double.compute(&values), Some(2));
}
