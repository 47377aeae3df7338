use pathtracer::intersect::{key_bits, nearest_hit, order_key, select_root, Hit, Roots};

fn k(t: f32) -> u32 {
    order_key(t.to_bits())
}

#[test]
fn order_key_follows_float_order() {
    let xs = [
        f32::NEG_INFINITY, -1.0e30, -2.5, -1.0, -1.0e-40, -0.0, 0.0, 1.0e-40, 0.001, 0.5, 1.0,
        1000.0, f32::INFINITY,
    ];
    for a in xs {
        for b in xs {
            assert_eq!(a < b, k(a) < k(b), "{} {}", a, b);
            assert_eq!(a == b, k(a) == k(b), "{} {}", a, b);
        }
    }
}

#[test]
fn key_bits_inverts_order_key() {
    for t in [-3.5f32, -1.0e-40, 0.0, 0.25, 1000.0, f32::INFINITY] {
        assert_eq!(f32::from_bits(key_bits(k(t))), t);
    }
    assert_eq!(key_bits(k(-0.0)), 0);
}

#[test]
fn roots_new_orders() {
    assert_eq!(Roots::new(5, 3), Roots { near: 3, far: 5 });
    assert_eq!(Roots::new(3, 5), Roots { near: 3, far: 5 });
}

#[test]
fn select_root_prefers_near_then_far() {
    let r = Some(Roots::new(k(0.5), k(1.5)));
    assert_eq!(select_root(r, k(0.001), k(1000.0)), Some(k(0.5)));
    assert_eq!(select_root(r, k(1.0), k(1000.0)), Some(k(1.5)));
    assert_eq!(select_root(r, k(0.001), k(0.4)), None);
    assert_eq!(select_root(r, k(2.0), k(1000.0)), None);
    assert_eq!(select_root(None, k(0.0), k(1000.0)), None);
}

#[test]
fn select_root_interval_is_open() {
    let r = Some(Roots::new(k(0.5), k(1.5)));
    assert_eq!(select_root(r, k(0.5), k(1000.0)), Some(k(1.5)));
    assert_eq!(select_root(r, k(0.5), k(1.5)), None);
}

#[test]
fn nearest_hit_takes_minimum() {
    let c = vec![
        Some(Roots::new(k(3.0), k(4.0))),
        None,
        Some(Roots::new(k(1.0), k(2.0))),
        Some(Roots::new(k(-1.0), k(5.0))),
    ];
    assert_eq!(nearest_hit(&c, k(0.001), k(1000.0)), Some(Hit { index: 2, t: k(1.0) }));
    assert_eq!(nearest_hit(&c, k(1.5), k(1000.0)), Some(Hit { index: 2, t: k(2.0) }));
    assert_eq!(nearest_hit(&c, k(0.001), k(0.5)), None);
    assert_eq!(nearest_hit(&vec![], k(0.0), k(1000.0)), None);
}

#[test]
fn nearest_hit_ties_go_to_first() {
    let c = vec![Some(Roots::new(k(2.0), k(3.0))), Some(Roots::new(k(1.0), k(2.0))), Some(Roots::new(k(1.0), k(9.0)))];
    assert_eq!(nearest_hit(&c, k(0.0), k(10.0)), Some(Hit { index: 1, t: k(1.0) }));
}

#[test]
fn nearest_hit_ignores_order() {
    let c = vec![
        Some(Roots::new(k(3.0), k(4.0))),
        Some(Roots::new(k(-2.0), k(2.5))),
        None,
        Some(Roots::new(k(0.75), k(0.8))),
    ];
    let mut perms = vec![vec![0usize, 1, 2, 3]];
    perms.push(vec![3, 2, 1, 0]);
    perms.push(vec![1, 3, 0, 2]);
    perms.push(vec![2, 0, 3, 1]);
    for p in perms {
        let d: Vec<Option<Roots>> = p.iter().map(|&i| c[i]).collect();
        let h = nearest_hit(&d, k(0.001), k(1000.0)).unwrap();
        assert_eq!(h.t, k(0.75));
        assert_eq!(p[h.index], 3);
    }
}
