use pathtracer::array::Array;
use pathtracer::noise::{Axis, Gradient2, Gradient3, Perlin, Xorshift};

#[test]
fn array_new_is_default_filled() {
    let a: Array<u8, 3> = Array::new();
    assert_eq!(a.data, [0, 0, 0]);
    let b: Array<i32, 5> = Array::new();
    assert_eq!(b.data, [0; 5]);
}

#[test]
fn uhash11_known_values() {
    assert_eq!(Xorshift::uhash11(0), 0);
    assert_eq!(Xorshift::uhash11(1), 4206352382);
    assert_eq!(Xorshift::uhash11(2), 2011813715);
    assert_eq!(Xorshift::uhash11(0xdeadbeef), 3744943543);
    assert_eq!(Xorshift::uhash11(u32::MAX), 2103176191);
}

#[test]
fn uhash22_known_values() {
    let mut r = [7u32, 7u32];
    Xorshift::uhash22(0, 0, &mut r);
    assert_eq!(r, [0, 0]);
    Xorshift::uhash22(1, 0, &mut r);
    assert_eq!(r, [2335784377, 2052932608]);
    Xorshift::uhash22(0, 1, &mut r);
    assert_eq!(r, [603034840, 579619837]);
    Xorshift::uhash22(1.0f32.to_bits(), 2.0f32.to_bits(), &mut r);
    assert_eq!(r, [3233808384, 4284481536]);
}

#[test]
fn uhash33_known_values() {
    let mut r = [9u32; 3];
    Xorshift::uhash33(0, 0, 0, &mut r);
    assert_eq!(r, [0, 0, 0]);
    Xorshift::uhash33(1, 2, 3, &mut r);
    assert_eq!(r, [3151426942, 2926377624, 3122899005]);
    Xorshift::uhash33(1.0f32.to_bits(), 2.0f32.to_bits(), 3.0f32.to_bits(), &mut r);
    assert_eq!(r, [3286237184, 2861563904, 3956277248]);
}

#[test]
fn hashes_are_deterministic() {
    let mut a = [0u32; 3];
    let mut b = [0u32; 3];
    Xorshift::uhash33(11, 22, 33, &mut a);
    Xorshift::uhash33(11, 22, 33, &mut b);
    assert_eq!(a, b);
    assert_eq!(Xorshift::uhash11(12345), Xorshift::uhash11(12345));
}

#[test]
fn perlin_gradient2_table() {
    let g = |swap, negate_u, negate_v| Gradient2 { swap, negate_u, negate_v };
    assert_eq!(Perlin::gradient2(0, 0), g(false, false, false));
    assert_eq!(Perlin::gradient2(1, 0), g(true, false, false));
    assert_eq!(Perlin::gradient2(0, 1), g(false, true, false));
    assert_eq!(Perlin::gradient2(1.0f32.to_bits(), 2.0f32.to_bits()), g(true, false, true));
    assert_eq!(Perlin::gradient2(3.0f32.to_bits(), 0), g(true, true, true));
}

#[test]
fn perlin_gradient3_table() {
    let g = |u, v, negate_u, negate_v| Gradient3 { u, v, negate_u, negate_v };
    assert_eq!(Perlin::gradient3(0, 0, 0), g(Axis::X, Axis::Y, false, false));
    assert_eq!(Perlin::gradient3(1, 2, 3), g(Axis::Y, Axis::Z, true, true));
    assert_eq!(
        Perlin::gradient3(1.0f32.to_bits(), 2.0f32.to_bits(), 3.0f32.to_bits()),
        g(Axis::Y, Axis::X, false, false)
    );
    assert_eq!(Perlin::gradient3(7, 8, 9), g(Axis::X, Axis::Y, true, false));
    assert_eq!(Perlin::gradient3(100, 0, 0), g(Axis::Y, Axis::X, false, true));
}
