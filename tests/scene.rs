use raytracer::scene::World;

// An object is a point on the ray's line at a fixed parameter.
fn at_parameter(object: &f64, bound: f64) -> Option<(f64, usize)> {
    if *object >= 0.001 && *object <= bound {
        Some((*object, (*object * 10.0) as usize))
    } else {
        None
    }
}

#[test]
fn empty_world_has_no_hit() {
    let w: World<f64> = World::new();
    assert_eq!(w.len(), 0);
    assert!(w.closest_hit(f64::INFINITY, &at_parameter).is_none());
}

#[test]
fn closest_hit_wins_regardless_of_order() {
    for order in [[3.0, 1.0, 2.0], [1.0, 2.0, 3.0], [2.0, 3.0, 1.0]] {
        let mut w = World::new();
        for t in order {
            w.push(t);
        }
        assert_eq!(w.len(), 3);
        let r = w.closest_hit(f64::INFINITY, &at_parameter);
        assert_eq!(r, Some((1.0, 10)));
    }
}

#[test]
fn closest_hit_respects_bound() {
    let mut w = World::new();
    w.push(5.0);
    w.push(0.0005);
    assert!(w.closest_hit(4.0, &at_parameter).is_none());
    assert_eq!(w.closest_hit(6.0, &at_parameter), Some((5.0, 50)));
}

#[test]
fn closest_hit_skips_objects_behind() {
    let mut w = World::new();
    w.push(2.0);
    w.push(7.0);
    let tested = std::cell::RefCell::new(Vec::new());
    let r = w.closest_hit(f64::INFINITY, &|o: &f64, b: f64| {
        tested.borrow_mut().push(b);
        at_parameter(o, b)
    });
    assert_eq!(r, Some((2.0, 20)));
    assert_eq!(tested.into_inner(), vec![f64::INFINITY, 2.0]);
}
