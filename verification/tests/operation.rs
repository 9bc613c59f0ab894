use std::collections::HashMap;
use zk_graph::operation::Operation;

#[test]
fn input_is_written_out() {
    assert_eq!(Operation::Input.describe(), "Input");
}

#[test]
fn constant_is_written_out() {
    assert_eq!(Operation::Constant(0).describe(), "Constant(0)");
    assert_eq!(Operation::Constant(5).describe(), "Constant(5)");
    assert_eq!(Operation::Constant(10).describe(), "Constant(10)");
    assert_eq!(Operation::Constant(4294967295).describe(), "Constant(4294967295)");
}

#[test]
fn sum_is_written_out() {
    assert_eq!(Operation::Add(0, 1).describe(), "Add(0, 1)");
    assert_eq!(Operation::Add(12, 345).describe(), "Add(12, 345)");
}

#[test]
fn product_is_written_out() {
    assert_eq!(Operation::Multiply(7, 7).describe(), "Multiply(7, 7)");
    assert_eq!(Operation::Multiply(1000, 90).describe(), "Multiply(1000, 90)");
}

#[test]
fn hint_is_written_out_without_its_function() {
    let op = Operation::Hint(Box::new(|_values: &HashMap<usize, u32>| Some(3)));
    assert_eq!(op.describe(), "Hint(<function>)");
}

#[test]
fn writing_agrees_with_decimal_formatting() {
    let samples: [u32; 8] = [0, 9, 10, 99, 100, 1234567, 4294967294, 4294967295];
    for value in samples {
        assert_eq!(Operation::Constant(value).describe(), format!("Constant({})", value));
    }
    assert_eq!(
        Operation::Add(usize::MAX, 0).describe(),
        format!("Add({}, {})", usize::MAX, 0)
    );
}
