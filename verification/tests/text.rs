use ic_hir::text::{decimal_i64, decimal_u64};

#[test]
fn decimal_notation() {
    assert_eq!(decimal_u64(0), "0");
    assert_eq!(decimal_u64(1234567890), "1234567890");
    assert_eq!(decimal_u64(u64::MAX), "18446744073709551615");
    assert_eq!(decimal_i64(-1), "-1");
    assert_eq!(decimal_i64(i64::MIN), "-9223372036854775808");
    assert_eq!(decimal_i64(42), "42");
}
