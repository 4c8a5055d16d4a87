use fluidpong::ns::math::index as fixed_index;
use fluidpong::nsmath::index;

#[test]
fn fixed_grid_index() {
    assert_eq!(fixed_index(0, 0), 0);
    assert_eq!(fixed_index(5, 2), 5 + 2 * 96);
    assert_eq!(fixed_index(95, 71), 95 + 71 * 96);
    assert_eq!(fixed_index(500, 300), 95 + 71 * 96);
}

#[test]
fn square_grid_index() {
    assert_eq!(index(10, 3, 4), 43);
    assert_eq!(index(10, 20, 20), 99);
    assert_eq!(index(1, 7, 7), 0);
}
