use exercises::arith::{clamp, div};
use exercises::text;

#[test]
fn test_clamp_lower() {
    let result = clamp(3, 5, 10);
    assert_eq!(result, 5, "Should return lower value")
}

#[test]
fn test_clamp_upper() {
    let result = clamp(12, 5, 10);
    assert_eq!(result, 10, "Should return upper value")
}

#[test]
fn test_clamp_n() {
    let result = clamp(12, 12, 12);
    assert_eq!(result, 12, "Should return n value")
}

#[test]
fn test_div() {
    let result = div(10, 5);
    assert_eq!(result, Some(2), "Should return 2 value")
}

#[test]
fn test_div_0() {
    let result = div(10, 100);
    assert_eq!(result, Some(0), "Should return 0 value")
}

#[test]
fn test_concat() {
    let result = text::concat("a", "b");
    assert_eq!(result, String::from("ab"), "should come after string")
}

#[test]
fn div_by_zero_is_none() {
    assert_eq!(div(7, 0), None);
}

#[test]
fn div_rounds_toward_zero() {
    assert_eq!(div(-7, 2), Some(-3));
    assert_eq!(div(7, -2), Some(-3));
    assert_eq!(div(-7, -2), Some(3));
    assert_eq!(div(i32::MIN, 1), Some(i32::MIN));
}

#[test]
fn clamp_inside_range_keeps_value() {
    assert_eq!(clamp(7, 5, 10), 7);
    assert_eq!(clamp(-4, -10, -1), -4);
}
