use fluidpong::kernel::{Kernel, Poly6Kernel, SpikyKernel, ViscosityKernel};
use fluidpong::vector::Vec2;

const H: i64 = 8_000_000;

#[test]
fn poly6_peak_value() {
    let k = Poly6Kernel::new(H);
    assert_eq!(k.evaluate(Vec2::new(0, 0)), 19894);
    assert_eq!(k.coefficient(Vec2::new(0, 0)), 19894);
}

#[test]
fn poly6_value_at_three_units() {
    let k = Poly6Kernel::new(H);
    assert_eq!(k.evaluate(Vec2::new(3_000_000, 0)), 12626);
    assert_eq!(k.evaluate(Vec2::new(0, -3_000_000)), 12626);
}

#[test]
fn poly6_coefficient_outside_support_is_zero() {
    let k = Poly6Kernel::new(H);
    assert_eq!(k.coefficient(Vec2::new(H + 1, 0)), 0);
}

#[test]
fn kernels_vanish_beyond_support() {
    let far = [Vec2::new(H + 1, 0), Vec2::new(6_000_000, 6_000_000), Vec2::new(-9_000_000, 0)];
    let kernels = [
        Kernel::Poly6(Poly6Kernel::new(H)),
        Kernel::Spiky(SpikyKernel::new(H)),
        Kernel::Viscosity(ViscosityKernel::new(H)),
    ];
    for k in kernels.iter() {
        for r in far.iter() {
            assert_eq!(k.evaluate(*r), 0);
            assert_eq!(k.gradient(*r), Vec2::new(0, 0));
            assert_eq!(k.laplacian(*r), 0);
        }
    }
}

#[test]
fn kernels_vanish_at_support_boundary() {
    let h = 5_000_000;
    let edge = Vec2::new(3_000_000, 4_000_000);
    assert_eq!(Poly6Kernel::new(h).evaluate(edge), 0);
    assert_eq!(SpikyKernel::new(h).gradient(edge), Vec2::new(0, 0));
    assert_eq!(ViscosityKernel::new(h).laplacian(edge), 0);
    assert!(Poly6Kernel::new(h).evaluate(Vec2::new(3_000_000, 3_000_000)) > 0);
}

#[test]
fn spiky_gradient_values() {
    let k = SpikyKernel::new(H);
    assert_eq!(k.gradient(Vec2::new(3_000_000, 0)), Vec2::new(-2428, 0));
    assert_eq!(k.gradient(Vec2::new(3_000_000, 4_000_000)), Vec2::new(-524, -699));
}

#[test]
fn spiky_gradient_zero_at_origin() {
    assert_eq!(SpikyKernel::new(H).gradient(Vec2::new(0, 0)), Vec2::new(0, 0));
}

#[test]
fn spiky_gradient_is_odd() {
    let k = SpikyKernel::new(H);
    for r in [Vec2::new(3_000_000, 0), Vec2::new(1_234_567, -2_345_678), Vec2::new(-5, 7)].iter() {
        let g = k.gradient(*r);
        let gn = k.gradient(Vec2::new(-r.x, -r.y));
        assert_eq!(gn, Vec2::new(-g.x, -g.y));
    }
}

#[test]
fn viscosity_laplacian_value() {
    assert_eq!(ViscosityKernel::new(H).laplacian(Vec2::new(3_000_000, 0)), 1942);
}

#[test]
fn kernel_methods_without_meaning_return_zero() {
    let r = Vec2::new(1_000_000, 0);
    assert_eq!(Kernel::Poly6(Poly6Kernel::new(H)).gradient(r), Vec2::new(0, 0));
    assert_eq!(Kernel::Poly6(Poly6Kernel::new(H)).laplacian(r), 0);
    assert_eq!(Kernel::Spiky(SpikyKernel::new(H)).evaluate(r), 0);
    assert_eq!(Kernel::Viscosity(ViscosityKernel::new(H)).evaluate(r), 0);
    assert!(Kernel::Poly6(Poly6Kernel::new(H)).evaluate(r) > 0);
}
