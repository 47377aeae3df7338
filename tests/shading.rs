use pathtracer::shading::{Path, Shade, Step};

fn trace(depth: i32, hits: &[bool]) -> Shade {
    let mut p = Path::start(depth);
    let mut i = 0;
    loop {
        let hit = i < hits.len() && hits[i];
        match p.step(hit) {
            Step::Done(s) => return s,
            Step::Bounce(q) => p = q,
        }
        i += 1;
    }
}

#[test]
fn zero_budget_is_black() {
    assert_eq!(trace(0, &[]), Shade::Black);
    assert_eq!(trace(0, &[true, true]), Shade::Black);
    assert_eq!(trace(-3, &[false]), Shade::Black);
    assert!(Path::start(0).exhausted());
    assert!(!Path::start(1).exhausted());
}

#[test]
fn miss_yields_sky() {
    assert_eq!(trace(1, &[false]), Shade::Sky { halvings: 0 });
    assert_eq!(trace(50, &[]), Shade::Sky { halvings: 0 });
}

#[test]
fn each_bounce_halves() {
    assert_eq!(trace(5, &[true, false]), Shade::Sky { halvings: 1 });
    assert_eq!(trace(5, &[true, true, true, false]), Shade::Sky { halvings: 3 });
    assert_eq!(trace(3, &[true, true, true, false]), Shade::Black);
    assert_eq!(trace(3, &[true, true, false]), Shade::Sky { halvings: 2 });
}

#[test]
fn step_transitions() {
    let p = Path::start(2);
    assert_eq!(p.step(true), Step::Bounce(Path { depth: 1, bounces: 1 }));
    assert_eq!(p.step(false), Step::Done(Shade::Sky { halvings: 0 }));
    let q = Path { depth: 0, bounces: 4 };
    assert_eq!(q.step(true), Step::Done(Shade::Black));
}
