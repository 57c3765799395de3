use rlex::samples::{
    add, arrays_and_slices, basic_types, control_flow, describe_color, operators,
    pattern_matching, tuples, variables, Color, Comparison, Point,
};

#[test]
fn basic_types_values() {
    assert_eq!(basic_types(), (42, true, 'A', "Hello, Rust!"));
}

#[test]
fn variables_values() {
    assert_eq!(variables(), (10, 30, 100));
}

#[test]
fn control_flow_values() {
    assert_eq!(control_flow(), (Comparison::Greater, 5, vec![0, 1, 2]));
}

#[test]
fn add_values() {
    assert_eq!(add(5, 3), 8);
    assert_eq!(add(-7, 2), -5);
}

#[test]
fn pattern_matching_values() {
    assert_eq!(pattern_matching(), "It's red");
    assert_eq!(describe_color(Color::Green), "It's green");
    assert_eq!(describe_color(Color::Blue), "It's blue");
}

#[test]
fn arrays_and_slices_values() {
    assert_eq!(arrays_and_slices(), vec![2, 3]);
}

#[test]
fn tuples_values() {
    assert_eq!(tuples(), (42, 'Z'));
}

#[test]
fn operators_values() {
    assert_eq!(operators(), (15, 50, true));
}

#[test]
fn point_fields() {
    let p = Point { x: 1, y: 2 };
    assert_eq!((p.x, p.y), (1, 2));
}
