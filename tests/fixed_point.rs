use fluidpong::fixed::{fx_add, fx_div, fx_mul, fx_sub, isqrt, FX_MAX, SCALE};

#[test]
fn integer_square_root() {
    assert_eq!(isqrt(0), 0);
    assert_eq!(isqrt(15), 3);
    assert_eq!(isqrt(16), 4);
    assert_eq!(isqrt(u128::MAX), u64::MAX as u128);
}

#[test]
fn products_and_quotients() {
    assert_eq!(fx_mul(1_500_000, 2_000_000), 3_000_000);
    assert_eq!(fx_mul(-1, 1), 0);
    assert_eq!(fx_mul(-1_500_000, 2_000_000), -3_000_000);
    assert_eq!(fx_div(SCALE, 3 * SCALE), 333_333);
    assert_eq!(fx_div(-SCALE, 3 * SCALE), -333_333);
}

#[test]
fn operations_saturate() {
    assert_eq!(fx_add(FX_MAX, 1), FX_MAX);
    assert_eq!(fx_sub(-FX_MAX, 5), -FX_MAX);
    assert_eq!(fx_mul(FX_MAX, 2 * SCALE), FX_MAX);
    assert_eq!(fx_mul(i64::MIN, SCALE), -FX_MAX);
}
