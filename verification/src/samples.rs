//! Small self-contained functions, kept as sample input for tools that read
//! or lint Rust source.

use vstd::prelude::*;
use vstd::string::*;

verus! {

/// A record with a text and a number.
pub struct MyStruct {
    pub name: String,
    pub value: i32,
}

/// The sum of two numbers that has to fit in `i32`.
pub fn add(a: i32, b: i32) -> (r: i32)
    requires
        i32::MIN <= a + b <= i32::MAX,
    ensures
        r == a + b,
{
    a + b
}

/// Hands its argument back.
pub fn identity<T>(value: T) -> (r: T)
    ensures
        r == value,
{
    value
}

/// Hands its argument back.
pub fn immutable_function(var: i32) -> (r: i32)
    ensures
        r == var,
{
    var
}

/// Hands its argument back.
pub fn immutable_function2(var: i32) -> (r: i32)
    ensures
        r == var,
{
    var
}

/// Clones a number and drops the clone.
pub fn correctness_clone_on_copy() {
    let x: i32 = 42i32;
    let _ = x.clone();
}

/// Clones a string to take its length.
pub fn correctness_redundant_clone() {
    let s = String::from_str("hello");
    let _ = s.clone().as_str().len();
}

/// Always 1: the tested number is positive.
pub fn suspicious_suspicious_else_formatting() -> (r: i32)
    ensures
        r == 1,
{
    let x: i32 = 5;
    if x > 0 {
        1
    } else {
        0
    }
}

/// Adds one to a local number.
pub fn suspicious_assign_op_pattern() {
    let mut x: i32 = 5;
    x = x + 1;
}

/// Makes an owned string from a literal.
pub fn suspicious_inefficient_to_string() {
    let s = "hello";
    let _ = s.to_string();
}

/// Counts the pairs `(i, j)` with `i` even, `6 <= i < 10` and `3 <= j < 5`:
/// there are four.
pub fn complexity_cognitive_complexity() -> (r: i32)
    ensures
        r == 4,
{
    let mut result: i32 = 0;
    let mut i: i32 = 0;
    while i < 10
        invariant
            0 <= i <= 10,
            result == (if i <= 6 {
                0int
            } else if i <= 8 {
                2
            } else {
                4
            }),
        decreases 10 - i,
    {
        if i % 2 == 0 {
            let base: i32 = result;
            let mut j: i32 = 0;
            while j < 5
                invariant
                    0 <= j <= 5,
                    0 <= i < 10,
                    i % 2 == 0,
                    base == (if i <= 6 {
                        0int
                    } else if i <= 8 {
                        2
                    } else {
                        4
                    }),
                    result == base + (if i > 5 && j > 3 {
                        j - 3
                    } else {
                        0
                    }),
                ensures
                    result == base + (if i > 5 {
                        2int
                    } else {
                        0
                    }),
                decreases 5 - j,
            {
                if j > 2 {
                    if i > 5 {
                        result += 1;
                        if result > 10 {
                            break ;
                        }
                    }
                }
                j += 1;
            }
        }
        i += 1;
    }
    result
}

/// The threshold that `x` reaches, as a spec: 0 up to 0, then 10, 20, 30, 40
/// and 50 above 40.
pub open spec fn threshold(x: int) -> int {
    if x <= 0 {
        0
    } else if x <= 10 {
        10
    } else if x <= 20 {
        20
    } else if x <= 30 {
        30
    } else if x <= 40 {
        40
    } else {
        50
    }
}

/// The threshold that `x` reaches.
pub fn complexity_cyclomatic_complexity(x: i32) -> (r: i32)
    ensures
        r == threshold(x as int),
{
    if x > 0 {
        if x > 10 {
            if x > 20 {
                if x > 30 {
                    if x > 40 {
                        50
                    } else {
                        40
                    }
                } else {
                    30
                }
            } else {
                20
            }
        } else {
            10
        }
    } else {
        0
    }
}

/// Copies a string's text into a new string.
pub fn perf_unnecessary_to_owned() {
    let s = String::from_str("hello");
    let _ = s.as_str().to_owned();
}

/// Makes a large array of zero bytes.
pub fn perf_large_stack_arrays() {
    let _large_array = [0u8; 524288];
}

/// The number 42 as text.
pub fn style_single_match() -> (r: String)
    ensures
        to_string_from_display_ensures::<i32>(&42i32, r),
{
    let x: Option<i32> = Some(42);
    match x {
        Some(n) => n.to_string(),
        None => "none".to_string(),
    }
}

/// Builds a string by adding a literal to an empty one.
pub fn perf_string_add_assign() {
    let mut s = String::new();
    s = s.concat("hello");
}

/// Fills a list with three numbers, one push at a time.
pub fn perf_vec_init_then_push() {
    let mut v: Vec<i32> = Vec::new();
    v.push(1);
    v.push(2);
    v.push(3);
}

/// Always 42.
pub fn style_needless_return() -> (r: i32)
    ensures
        r == 42,
{
    return 42;
}

/// Builds a record from two locals named as its fields.
pub fn style_redundant_field_names() {
    let name = String::from_str("test");
    let value: i32 = 42;
    let _s = MyStruct { name: name, value: value };
}

/// Twice five, wrapped.
pub fn style_manual_map() -> (r: Option<i32>)
    ensures
        r == Some(10i32),
{
    let x: Option<i32> = Some(5);
    match x {
        Some(val) => Some(val * 2),
        None => None,
    }
}

/// Always `Some(42)`.
pub fn style_unnecessary_wraps() -> (r: Option<i32>)
    ensures
        r == Some(42i32),
{
    Some(42)
}

} // verus!
