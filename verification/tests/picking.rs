use domino_simulator::scalar::{Matrix4, Scalar, Vector4};
use domino_simulator::ui_3d::{slab_test, Crossing, Crossings, Interval, OrientedBox, UI3d};

fn s(x: f32) -> Scalar {
    Scalar::from_bits(x.to_bits())
}

fn n(x: Scalar) -> f32 {
    f32::from_bits(x.to_bits())
}

fn column(x: f32, y: f32, z: f32, w: f32) -> Vector4 {
    Vector4 { x: s(x), y: s(y), z: s(z), w: s(w) }
}

fn translation(x: f32, y: f32, z: f32) -> Matrix4 {
    Matrix4 {
        x: column(1.0, 0.0, 0.0, 0.0),
        y: column(0.0, 1.0, 0.0, 0.0),
        z: column(0.0, 0.0, 1.0, 0.0),
        w: column(x, y, z, 1.0),
    }
}

fn dot(a: (f32, f32, f32), b: (f32, f32, f32)) -> f32 {
    a.0 * b.0 + a.1 * b.1 + a.2 * b.2
}

/// Where the ray crosses the planes of the box's three slabs.
fn crossings(origin: (f32, f32, f32), direction: (f32, f32, f32), b: &OrientedBox) -> Crossings {
    let delta = (n(b.center.x) - origin.0, n(b.center.y) - origin.1, n(b.center.z) - origin.2);
    let crossing = |axis: (f32, f32, f32), lo: f32, hi: f32| {
        let e = dot(axis, delta);
        let f = dot(direction, axis);
        Crossing { first: s((e + lo) / f), second: s((e + hi) / f) }
    };
    Crossings {
        x: crossing((n(b.axis_x.x), n(b.axis_x.y), n(b.axis_x.z)), n(b.min.x), n(b.max.x)),
        y: crossing((n(b.axis_y.x), n(b.axis_y.y), n(b.axis_y.z)), n(b.min.y), n(b.max.y)),
        z: crossing((n(b.axis_z.x), n(b.axis_z.y), n(b.axis_z.z)), n(b.min.z), n(b.max.z)),
    }
}

/// Crossings of a ray that hits.
fn hit() -> Crossings {
    let c = Crossing { first: s(1.0), second: s(2.0) };
    Crossings { x: c, y: c, z: c }
}

/// Crossings of a ray that misses.
fn miss() -> Crossings {
    let c = Crossing { first: s(1.0), second: s(2.0) };
    Crossings { x: c, y: Crossing { first: s(3.0), second: s(4.0) }, z: c }
}

fn towards(from: (f32, f32, f32), to: (f32, f32, f32)) -> (f32, f32, f32) {
    let d = (to.0 - from.0, to.1 - from.1, to.2 - from.2);
    let len = dot(d, d).sqrt();
    (d.0 / len, d.1 / len, d.2 / len)
}

#[test]
fn box_takes_its_frame_from_the_model_matrix() {
    let m = Matrix4 {
        x: column(1.0, 2.0, 3.0, 4.0),
        y: column(5.0, 6.0, 7.0, 8.0),
        z: column(9.0, 10.0, 11.0, 12.0),
        w: column(13.0, 14.0, 15.0, 16.0),
    };
    let b = OrientedBox::of_model(m);
    assert_eq!((n(b.center.x), n(b.center.y), n(b.center.z)), (13.0, 14.0, 15.0));
    assert_eq!((n(b.axis_x.x), n(b.axis_x.y), n(b.axis_x.z)), (1.0, 2.0, 3.0));
    assert_eq!((n(b.axis_y.x), n(b.axis_y.y), n(b.axis_y.z)), (5.0, 6.0, 7.0));
    assert_eq!((n(b.axis_z.x), n(b.axis_z.y), n(b.axis_z.z)), (9.0, 10.0, 11.0));
    assert_eq!((n(b.min.x), n(b.min.y), n(b.min.z)), (-0.035, 0.0, -0.01));
    assert_eq!((n(b.max.x), n(b.max.y), n(b.max.z)), (0.035, 0.14, 0.01));
}

#[test]
fn click_on_a_base_centre_selects_that_domino() {
    let mats = vec![(4u32, translation(0.0, 0.0, 0.0)), (9u32, translation(1.0, 0.0, 1.0))];
    let eye = (1.0f32, 0.5f32, 1.6f32);
    let mut ui = UI3d::new();
    let ray = towards(eye, (1.0, 0.0, 1.0));
    ui.get_clicked_ray_obb_intersection(&mats, |b: &OrientedBox| crossings(eye, ray, b));
    assert_eq!(ui.selected_domino_id, Some(9));
    let ray = towards(eye, (0.0, 0.0, 0.0));
    ui.get_clicked_ray_obb_intersection(&mats, |b: &OrientedBox| crossings(eye, ray, b));
    assert_eq!(ui.selected_domino_id, Some(4));
}

#[test]
fn click_far_from_every_domino_clears_the_selection() {
    let mats = vec![(4u32, translation(0.0, 0.0, 0.0)), (9u32, translation(1.0, 0.0, 1.0))];
    let eye = (1.0f32, 0.5f32, 1.6f32);
    let mut ui = UI3d::new();
    ui.selected_domino_id = Some(4);
    let ray = towards(eye, (5.0, 3.0, -2.0));
    ui.get_clicked_ray_obb_intersection(&mats, |b: &OrientedBox| crossings(eye, ray, b));
    assert_eq!(ui.selected_domino_id, None);
}

#[test]
fn first_hit_in_order_wins_and_later_boxes_are_not_tested() {
    let mats = vec![
        (7u32, translation(1.0, 0.0, 0.0)),
        (3u32, translation(2.0, 0.0, 0.0)),
        (5u32, translation(3.0, 0.0, 0.0)),
    ];
    let tested = std::cell::RefCell::new(Vec::new());
    let mut ui = UI3d::new();
    ui.get_clicked_ray_obb_intersection(&mats, |b: &OrientedBox| {
        tested.borrow_mut().push(n(b.center.x));
        if n(b.center.x) >= 2.0 {
            hit()
        } else {
            miss()
        }
    });
    assert_eq!(ui.selected_domino_id, Some(3));
    assert_eq!(*tested.borrow(), vec![1.0, 2.0]);
}

#[test]
fn click_keeps_the_camera() {
    let mats = vec![(7u32, translation(1.0, 0.0, 0.0))];
    let mut ui = UI3d::new();
    ui.cam_pos.x = s(4.0);
    ui.cam_angle.y = s(0.5);
    let before = ui;
    ui.get_clicked_ray_obb_intersection(&mats, |_b: &OrientedBox| hit());
    assert_eq!(ui.selected_domino_id, Some(7));
    assert_eq!(ui.cam_pos, before.cam_pos);
    assert_eq!(ui.cam_angle, before.cam_angle);
    assert_eq!(ui.fov, before.fov);
}

#[test]
fn click_into_an_empty_scene_clears_the_selection() {
    let mats: Vec<(u32, Matrix4)> = vec![];
    let mut ui = UI3d::new();
    ui.selected_domino_id = Some(2);
    ui.get_clicked_ray_obb_intersection(&mats, |_b: &OrientedBox| hit());
    assert_eq!(ui.selected_domino_id, None);
}

#[test]
fn click_that_misses_every_box_selects_nothing() {
    let mats = vec![(7u32, translation(1.0, 0.0, 0.0)), (3u32, translation(2.0, 0.0, 0.0))];
    let mut ui = UI3d::new();
    ui.selected_domino_id = Some(7);
    ui.get_clicked_ray_obb_intersection(&mats, |_b: &OrientedBox| miss());
    assert_eq!(ui.selected_domino_id, None);
}

#[test]
fn whole_ray_runs_from_zero_to_the_greatest_number() {
    let whole = Interval::whole();
    assert_eq!(n(whole.t_min), 0.0);
    assert_eq!(n(whole.t_max), f32::MAX);
    assert!(!whole.is_empty());
}

#[test]
fn narrowing_takes_the_later_entry_and_the_earlier_exit() {
    let i = Interval { t_min: s(1.0), t_max: s(5.0) };
    let cut = i.narrowed(Crossing { first: s(4.0), second: s(2.0) });
    assert_eq!((n(cut.t_min), n(cut.t_max)), (2.0, 4.0));
    let cut = i.narrowed(Crossing { first: s(0.5), second: s(7.0) });
    assert_eq!((n(cut.t_min), n(cut.t_max)), (1.0, 5.0));
    let cut = i.narrowed(Crossing { first: s(6.0), second: s(8.0) });
    assert_eq!((n(cut.t_min), n(cut.t_max)), (6.0, 5.0));
    assert!(cut.is_empty());
    let cut = i.narrowed(Crossing { first: s(-3.0), second: s(-1.0) });
    assert_eq!((n(cut.t_min), n(cut.t_max)), (1.0, -1.0));
    assert!(cut.is_empty());
    let cut = i.narrowed(Crossing { first: s(f32::NAN), second: s(f32::NAN) });
    assert_eq!(cut, i);
    let cut = i.narrowed(Crossing { first: s(f32::NEG_INFINITY), second: s(f32::INFINITY) });
    assert_eq!(cut, i);
}

#[test]
fn slab_test_is_the_overlap_of_the_three_slabs() {
    let c = |a: f32, b: f32| Crossing { first: s(a), second: s(b) };
    assert!(slab_test(&Crossings { x: c(1.0, 3.0), y: c(2.0, 4.0), z: c(2.5, 9.0) }));
    assert!(slab_test(&Crossings { x: c(3.0, 1.0), y: c(4.0, 2.0), z: c(9.0, 2.5) }));
    assert!(slab_test(&Crossings { x: c(1.0, 3.0), y: c(3.0, 4.0), z: c(0.0, 9.0) }));
    assert!(!slab_test(&Crossings { x: c(1.0, 3.0), y: c(3.5, 4.0), z: c(0.0, 9.0) }));
    assert!(!slab_test(&Crossings { x: c(1.0, 3.0), y: c(0.0, 9.0), z: c(3.5, 4.0) }));
    // A box behind the ray's start is not hit.
    assert!(!slab_test(&Crossings { x: c(-3.0, -1.0), y: c(-3.0, -1.0), z: c(-3.0, -1.0) }));
    // A ray that starts inside the box hits it.
    assert!(slab_test(&Crossings { x: c(-3.0, 1.0), y: c(-2.0, 2.0), z: c(-1.0, 3.0) }));
    // A ray along a slab, inside it: the crossings are infinite.
    assert!(slab_test(&Crossings {
        x: c(f32::NEG_INFINITY, f32::INFINITY),
        y: c(1.0, 2.0),
        z: c(1.5, 3.0)
    }));
    // A ray along a slab, outside it.
    assert!(!slab_test(&Crossings {
        x: c(f32::INFINITY, f32::INFINITY),
        y: c(1.0, 2.0),
        z: c(1.5, 3.0)
    }));
}

/// The slab method as single-precision arithmetic writes it.
fn slab_method(crossings: &Crossings) -> bool {
    let mut t_min = 0.0f32;
    let mut t_max = f32::MAX;
    for c in [crossings.x, crossings.y, crossings.z] {
        let mut t1 = n(c.first);
        let mut t2 = n(c.second);
        if t1 > t2 {
            std::mem::swap(&mut t1, &mut t2);
        }
        if t2 < t_max {
            t_max = t2;
        }
        if t1 > t_min {
            t_min = t1;
        }
        if t_max < t_min {
            return false;
        }
    }
    true
}

#[test]
fn slab_test_decides_as_single_precision_arithmetic_does() {
    let special = [
        0.0f32,
        -0.0,
        1.0,
        -1.0,
        0.5,
        2.0,
        3.0,
        f32::MAX,
        f32::MIN,
        f32::MIN_POSITIVE,
        f32::INFINITY,
        f32::NEG_INFINITY,
        f32::NAN,
        1.0e-40,
        -1.0e-40,
    ];
    let mut x: u32 = 0x9E37_79B9;
    let mut next = || {
        x ^= x << 13;
        x ^= x >> 17;
        x ^= x << 5;
        if x % 3 == 0 {
            special[(x >> 8) as usize % special.len()]
        } else {
            ((x >> 4) % 41) as f32 * 0.25 - 2.0
        }
    };
    let mut hits = 0;
    for _ in 0..200_000 {
        let c = Crossings {
            x: Crossing { first: s(next()), second: s(next()) },
            y: Crossing { first: s(next()), second: s(next()) },
            z: Crossing { first: s(next()), second: s(next()) },
        };
        let expected = slab_method(&c);
        assert_eq!(slab_test(&c), expected, "{:?}", c);
        if expected {
            hits += 1;
        }
    }
    assert!(hits > 1000);
}
