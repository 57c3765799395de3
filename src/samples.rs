//! Small programs over the basic constructs of the language that the lexer reads:
//! literals, bindings, control flow, functions, structs, enums, pattern matching,
//! arrays, tuples and operators. Each returns what it computes.
use vstd::prelude::*;

verus! {

pub const CONSTANT: i32 = 100;

/// A point in the plane.
#[derive(Clone, Copy, Debug, PartialEq, Eq, Structural)]
pub struct Point {
    pub x: i32,
    pub y: i32,
}

#[derive(Clone, Copy, Debug, PartialEq, Eq, Structural)]
pub enum Color {
    Red,
    Green,
    Blue,
}

/// How a number compares with another.
#[derive(Clone, Copy, Debug, PartialEq, Eq, Structural)]
pub enum Comparison {
    Less,
    Equal,
    Greater,
}

/// An integer, a boolean, a character and a string literal.
pub fn basic_types() -> (r: (i32, bool, char, &'static str))
    ensures
        r.0 == 42,
        r.1,
        r.2 == 'A',
        r.3@ == "Hello, Rust!"@,
{
    let integer: i32 = 42;
    let boolean: bool = true;
    let character: char = 'A';
    let string: &str = "Hello, Rust!";
    (integer, boolean, character, string)
}

/// An immutable binding, a mutable one after reassignment, and a constant.
pub fn variables() -> (r: (i32, i32, i32))
    ensures
        r == (10i32, 30i32, 100i32),
{
    let immutable: i32 = 10;
    let mut mutable: i32 = 20;
    mutable = 30;
    (immutable, mutable, CONSTANT)
}

/// How 7 compares with 5; the counter after a `loop` that stops at 3 and a
/// `while` that goes on to 5; and the values of the range `0..3`.
pub fn control_flow() -> (r: (Comparison, i32, Vec<i32>))
    ensures
        r.0 == Comparison::Greater,
        r.1 == 5,
        r.2@ == seq![0i32, 1, 2],
{
    let number: i32 = 7;
    let comparison = if number > 5 {
        Comparison::Greater
    } else if number == 5 {
        Comparison::Equal
    } else {
        Comparison::Less
    };
    let mut count: i32 = 0;
    loop
        invariant_except_break
            0 <= count < 3,
        ensures
            count == 3,
        decreases 3 - count,
    {
        count += 1;
        if count == 3 {
            break;
        }
    }
    while count < 5
        invariant
            3 <= count <= 5,
        decreases 5 - count,
    {
        count += 1;
    }
    let mut seen: Vec<i32> = Vec::new();
    let mut i: i32 = 0;
    while i < 3
        invariant
            0 <= i <= 3,
            seen@.len() == i,
            forall|k: int| 0 <= k < i ==> seen@[k] == k,
        decreases 3 - i,
    {
        seen.push(i);
        i += 1;
    }
    assert(seen@ =~= seq![0i32, 1, 2]);
    (comparison, count, seen)
}

/// Adds two integers.
pub fn add(a: i32, b: i32) -> (r: i32)
    requires
        i32::MIN <= a + b <= i32::MAX,
    ensures
        r == a + b,
{
    a + b
}

/// The message for a color.
pub fn describe_color(color: Color) -> (r: &'static str)
    ensures
        color == Color::Red ==> r@ == "It's red"@,
        color == Color::Green ==> r@ == "It's green"@,
        color == Color::Blue ==> r@ == "It's blue"@,
{
    match color {
        Color::Red => "It's red",
        Color::Green => "It's green",
        Color::Blue => "It's blue",
    }
}

/// Matches on `Color::Red`.
pub fn pattern_matching() -> (r: &'static str)
    ensures
        r@ == "It's red"@,
{
    describe_color(Color::Red)
}

/// The slice `[1..3]` of the array `[1, 2, 3, 4, 5]`.
pub fn arrays_and_slices() -> (r: Vec<i32>)
    ensures
        r@ == seq![2i32, 3],
{
    let array: [i32; 5] = [1, 2, 3, 4, 5];
    let mut slice: Vec<i32> = Vec::new();
    let mut k: usize = 1;
    while k < 3
        invariant
            1 <= k <= 3,
            array@ == seq![1i32, 2, 3, 4, 5],
            slice@ == array@.subrange(1, k as int),
        decreases 3 - k,
    {
        slice.push(array[k]);
        k += 1;
        assert(slice@ =~= array@.subrange(1, k as int));
    }
    assert(slice@ =~= seq![2i32, 3]);
    slice
}

/// The integer and the character of the tuple `(42, 'Z')`, taken apart by a pattern.
pub fn tuples() -> (r: (i32, char))
    ensures
        r == (42i32, 'Z'),
{
    let tuple: (i32, char) = (42, 'Z');
    let (x, z) = tuple;
    (x, z)
}

/// With `a = 10` and `b = 5`: their sum, their product, and `a > b && b != 0`.
pub fn operators() -> (r: (i32, i32, bool))
    ensures
        r == (15i32, 50i32, true),
{
    let a: i32 = 10;
    let b: i32 = 5;
    let sum = a + b;
    let product = a * b;
    let logical = a > b && b != 0;
    (sum, product, logical)
}

} // verus!
