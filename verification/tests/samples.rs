use crateify::samples::{
    add, complexity_cognitive_complexity, complexity_cyclomatic_complexity,
    correctness_clone_on_copy, correctness_redundant_clone, identity, immutable_function,
    immutable_function2, perf_vec_init_then_push, style_manual_map, style_needless_return,
    style_redundant_field_names, style_unnecessary_wraps, suspicious_assign_op_pattern,
    suspicious_inefficient_to_string, suspicious_suspicious_else_formatting,
};

#[test]
fn add_sums() {
    assert_eq!(add(2, 3), 5);
    assert_eq!(add(-7, 7), 0);
    assert_eq!(add(i32::MAX, -1), i32::MAX - 1);
}

#[test]
fn identity_returns_its_argument() {
    assert_eq!(identity(7u8), 7u8);
    assert_eq!(identity("x".to_string()), "x".to_string());
    assert_eq!(immutable_function(-3), -3);
    assert_eq!(immutable_function2(11), 11);
}

#[test]
fn thresholds() {
    assert_eq!(complexity_cyclomatic_complexity(-5), 0);
    assert_eq!(complexity_cyclomatic_complexity(0), 0);
    assert_eq!(complexity_cyclomatic_complexity(1), 10);
    assert_eq!(complexity_cyclomatic_complexity(10), 10);
    assert_eq!(complexity_cyclomatic_complexity(11), 20);
    assert_eq!(complexity_cyclomatic_complexity(20), 20);
    assert_eq!(complexity_cyclomatic_complexity(21), 30);
    assert_eq!(complexity_cyclomatic_complexity(30), 30);
    assert_eq!(complexity_cyclomatic_complexity(31), 40);
    assert_eq!(complexity_cyclomatic_complexity(40), 40);
    assert_eq!(complexity_cyclomatic_complexity(41), 50);
    assert_eq!(complexity_cyclomatic_complexity(i32::MAX), 50);
}

#[test]
fn constants() {
    assert_eq!(complexity_cognitive_complexity(), 4);
    assert_eq!(suspicious_suspicious_else_formatting(), 1);
    assert_eq!(style_needless_return(), 42);
    assert_eq!(style_manual_map(), Some(10));
    assert_eq!(style_unnecessary_wraps(), Some(42));
}

#[test]
fn unit_samples_return() {
    correctness_clone_on_copy();
    correctness_redundant_clone();
    suspicious_assign_op_pattern();
    suspicious_inefficient_to_string();
    perf_vec_init_then_push();
    style_redundant_field_names();
}

#[test]
fn an_unclosed_bracket_is_rejected() {
    assert_eq!(
        crateify::patterns::correctness_invalid_regex(),
        crateify::patterns::PatternCheck::Rejected
    );
}

#[test]
fn a_compilation_is_read_off() {
    assert_eq!(
        crateify::patterns::pattern_check(&regex::Regex::new("a+b")),
        crateify::patterns::PatternCheck::Accepted
    );
    assert_eq!(
        crateify::patterns::pattern_check(&regex::Regex::new("(")),
        crateify::patterns::PatternCheck::Rejected
    );
}

#[test]
fn more_unit_samples_return() {
    crateify::samples::perf_unnecessary_to_owned();
    crateify::samples::perf_large_stack_arrays();
    assert_eq!(crateify::samples::style_single_match(), "42");
}
