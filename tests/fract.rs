use fract::{
    Anim, Animator, FixedComplex, FractalCalc, FractalSpecs, FractalType, Matrix, Rotation,
    Vector2, VectorAnim, VectorAnimator, View, Views, FIX_ONE,
};

const ONE: i64 = FIX_ONE;

fn mandel_specs(max_val: u16) -> FractalSpecs {
    let mut s = FractalSpecs::new_mandelbrot_with_defaults(ONE / 2);
    s.max_val = max_val;
    s
}

fn julia_specs(seed: FixedComplex, max_val: u16) -> FractalSpecs {
    let mut s = FractalSpecs::new_julia(seed, ONE / 2);
    s.max_val = max_val;
    s
}

#[test]
fn mandelbrot_origin_never_escapes() {
    for max in [0u16, 1, 7, 500, 1000] {
        assert_eq!(FractalCalc::get_value(&mandel_specs(max), 0, 0), max);
    }
}

#[test]
fn mandelbrot_two_two_escapes_after_one_step() {
    assert_eq!(FractalCalc::get_value(&mandel_specs(500), 2 * ONE, 2 * ONE), 1);
    assert_eq!(FractalCalc::get_value(&mandel_specs(0), 2 * ONE, 2 * ONE), 0);
}

#[test]
fn mandelbrot_known_points() {
    // -1 cycles between -1 and 0 and never escapes.
    assert_eq!(FractalCalc::get_value(&mandel_specs(300), -ONE, 0), 300);
    // 1: z runs 0, 1, 2 and escapes once |z| reaches 2.
    assert_eq!(FractalCalc::get_value(&mandel_specs(300), ONE, 0), 2);
}

#[test]
fn julia_zero_seed_origin_never_escapes() {
    let seed = FixedComplex { re: 0, im: 0 };
    for max in [0u16, 1, 50, 500] {
        assert_eq!(FractalCalc::get_value(&julia_specs(seed, max), 0, 0), max);
    }
}

#[test]
fn julia_zero_seed_three_escapes_at_once() {
    let seed = FixedComplex { re: 0, im: 0 };
    assert_eq!(FractalCalc::get_value(&julia_specs(seed, 500), 3 * ONE, 0), 0);
}

#[test]
fn julia_zero_seed_inside_unit_circle_stays() {
    let seed = FixedComplex { re: 0, im: 0 };
    assert_eq!(FractalCalc::get_value(&julia_specs(seed, 40), ONE / 2, ONE / 2), 40);
    // 1.5 squares to 2.25 > 2 after one step.
    assert_eq!(FractalCalc::get_value(&julia_specs(seed, 40), 3 * ONE / 2, 0), 1);
}

#[test]
fn default_specs() {
    let m = FractalSpecs::new_mandelbrot_with_defaults(ONE);
    assert!(m.fractal_type == FractalType::Mandelbrot);
    assert_eq!(m.max_val, 500);
    assert_eq!(m.default_width, 4 * ONE);
    assert!(m.default_center == Vector2 { x: 0, y: 0 });
    let c = FixedComplex { re: -ONE / 4, im: ONE / 8 };
    let j = FractalSpecs::new_julia(c, ONE);
    assert!(j.fractal_type == FractalType::Julia(c));
    assert_eq!(j.default_width, 4 * ONE);
}

#[test]
fn height_span_follows_shape_and_aspect() {
    let s = FractalSpecs::new_mandelbrot_with_defaults(ONE / 2);
    // width 4 over an 80 x 24 grid of cells half as wide as tall: 4 * 24/80 * 2 = 2.4
    let h = FractalCalc::get_height(&s, 80, 24, 4 * ONE);
    assert_eq!(h, (4 * ONE as i128) * 24 * 2 / 80);
}

#[test]
fn write_matrix_center_cell_is_center_point() {
    let specs = mandel_specs(100);
    let mut m: Matrix<u16> = Matrix::new(4, 4, 7);
    FractalCalc::write_matrix(&specs, Vector2 { x: 0, y: 0 }, 4 * ONE, Rotation::identity(), &mut m);
    assert_eq!(m.width(), 4);
    assert_eq!(m.height(), 4);
    // cell (2, 2) samples the center itself: the origin, which never escapes.
    assert_eq!(m.get(2, 2), 100);
    // cell (0, 0) samples -2 - 2i (cell height 2 for a square grid at aspect 1/2).
    assert_eq!(m.get(0, 0), FractalCalc::get_value(&specs, -2 * ONE, -4 * ONE));
}

#[test]
fn zero_rotation_matches_unrotated_lattice() {
    let specs = mandel_specs(60);
    let (w, h) = (9usize, 5usize);
    let width = 3 * ONE;
    let center = Vector2 { x: -ONE / 2, y: ONE / 10 };
    let mut m: Matrix<u16> = Matrix::new(w, h, 0);
    FractalCalc::write_matrix(&specs, center, width, Rotation { cos: ONE, sin: 0 }, &mut m);
    let ew = width / w as i64;
    let eh = ((width as i128) * (ONE as i128) / ((w as i128) * (specs.element_ar as i128))) as i64;
    for iy in 0..h {
        for ix in 0..w {
            let x = center.x + (ew * (2 * ix as i64 - w as i64)) / 2;
            let y = center.y + (eh * (2 * iy as i64 - h as i64)) / 2;
            assert_eq!(m.get(ix, iy), FractalCalc::get_value(&specs, x, y));
        }
    }
}

#[test]
fn quarter_turn_swaps_axes() {
    let specs = mandel_specs(60);
    let mut a: Matrix<u16> = Matrix::new(6, 6, 0);
    let mut b: Matrix<u16> = Matrix::new(6, 6, 0);
    let width = 3 * ONE;
    FractalCalc::write_matrix(&specs, Vector2 { x: 0, y: 0 }, width, Rotation { cos: 0, sin: ONE }, &mut a);
    FractalCalc::write_matrix(&specs, Vector2 { x: 0, y: 0 }, width, Rotation::identity(), &mut b);
    // the cell at column 5, row 3 of the quarter-turned lattice samples the
    // point at (0, ew * 2) while the unrotated one at that cell samples (ew * 2, 0)
    let ew = width / 6;
    assert_eq!(a.get(5, 3), FractalCalc::get_value(&specs, 0, 2 * ew));
    assert_eq!(b.get(5, 3), FractalCalc::get_value(&specs, 2 * ew, 0));
}

#[test]
fn write_matrix_section_fills_its_rows() {
    let specs = mandel_specs(80);
    let center = Vector2 { x: -ONE / 2, y: 0 };
    let mut full: Matrix<u16> = Matrix::new(8, 6, 0);
    FractalCalc::write_matrix(&specs, center, 3 * ONE, Rotation::identity(), &mut full);
    let mut section: Matrix<u16> = Matrix::new(8, 2, 0);
    FractalCalc::write_matrix_section(&specs, center, 3 * ONE, Rotation::identity(), &mut section, 3, 6);
    for iy in 0..2 {
        for ix in 0..8 {
            assert_eq!(section.get(ix, iy), full.get(ix, iy + 3));
        }
    }
}

#[test]
fn matrix_get_set_row_major() {
    let mut m: Matrix<u16> = Matrix::new(3, 2, 0);
    m.set(2, 1, 9);
    m.set(0, 1, 4);
    assert_eq!(m.get(2, 1), 9);
    assert_eq!(m.get(0, 1), 4);
    assert_eq!(m.get(2, 0), 0);
    assert_eq!(m.get(1, 1), 0);
}

fn two_grids() -> (Matrix<u16>, Matrix<u16>) {
    let mut a: Matrix<u16> = Matrix::new(2, 2, 0);
    let mut b: Matrix<u16> = Matrix::new(2, 2, 0);
    let av = [0u16, 10, 500, 65535];
    let bv = [100u16, 11, 0, 65535];
    for i in 0..4 {
        a.set(i % 2, i / 2, av[i]);
        b.set(i % 2, i / 2, bv[i]);
    }
    (a, b)
}

#[test]
fn interpolate_at_zero_is_previous() {
    let (a, b) = two_grids();
    let mut out: Matrix<u16> = Matrix::new(2, 2, 3);
    Matrix::interpolate(0, &a, &b, &mut out);
    for i in 0..4 {
        assert_eq!(out.get(i % 2, i / 2), a.get(i % 2, i / 2));
    }
}

#[test]
fn interpolate_at_one_is_current() {
    let (a, b) = two_grids();
    let mut out: Matrix<u16> = Matrix::new(2, 2, 3);
    Matrix::interpolate(ONE, &a, &b, &mut out);
    for i in 0..4 {
        assert_eq!(out.get(i % 2, i / 2), b.get(i % 2, i / 2));
    }
}

#[test]
fn interpolate_at_half_is_mean() {
    let (a, b) = two_grids();
    let mut out: Matrix<u16> = Matrix::new(2, 2, 3);
    Matrix::interpolate(ONE / 2, &a, &b, &mut out);
    assert_eq!(out.get(0, 0), 50);
    assert_eq!(out.get(1, 0), 10);
    assert_eq!(out.get(0, 1), 250);
    assert_eq!(out.get(1, 1), 65535);
}

#[test]
fn velocity_with_friction_stops() {
    let mut a = Animator::new(0, Anim::Velocity { velocity: 1000, friction: ONE / 2, epsilon: Some(1) });
    let mut n = 0;
    while *a.anim() != Anim::Still {
        a.update();
        n += 1;
        assert!(n <= 1001);
    }
    // 1000 + 500 + 250 + 125 + 62 + 31 + 15 + 7 + 3 + 1
    assert_eq!(a.value, 1994);
}

#[test]
fn velocity_without_friction_is_constant_rate() {
    let mut a = Animator::new(5, Anim::Velocity { velocity: 3, friction: ONE, epsilon: None });
    for _ in 0..4 {
        a.update();
    }
    assert_eq!(a.value, 17);
    assert!(*a.anim() == Anim::Velocity { velocity: 3, friction: ONE, epsilon: None });
}

#[test]
fn zero_friction_stops_after_one_step() {
    let mut a = Animator::new(10, Anim::Velocity { velocity: -4, friction: 0, epsilon: Some(1) });
    a.update();
    assert_eq!(a.value, 6);
    assert!(*a.anim() == Anim::Still);
}

#[test]
fn target_eases_and_snaps() {
    let mut a = Animator::new(0, Anim::Target { target: 1000, coefficient: ONE / 2, epsilon: Some(10) });
    let mut last = 1000i64;
    loop {
        a.update();
        let d = (1000 - a.value).abs();
        assert!(d <= last);
        last = d;
        if *a.anim() == Anim::Still {
            break;
        }
    }
    assert_eq!(a.value, 1000);
}

#[test]
fn target_steps_exactly() {
    let mut a = Animator::new(0, Anim::Target { target: 1000, coefficient: ONE / 2, epsilon: None });
    a.update();
    assert_eq!(a.value, 500);
    a.update();
    assert_eq!(a.value, 750);
    let mut b = Animator::new(0, Anim::Target { target: -7, coefficient: ONE, epsilon: None });
    b.update();
    assert_eq!(b.value, -7);
}

#[test]
fn scale_velocity_grows_and_decays() {
    let mut a = Animator::new(1000, Anim::ScaleVelocity { scale_velocity: ONE / 8, friction: ONE / 2, epsilon: None });
    a.update();
    assert_eq!(a.value, 1125);
    assert!(*a.anim() == Anim::ScaleVelocity { scale_velocity: ONE / 16, friction: ONE / 2, epsilon: None });
    a.update();
    // 1125 / 16 = 70.3, rounded toward zero
    assert_eq!(a.value, 1195);
}

#[test]
fn set_anim_keeps_value() {
    let mut a = Animator::new(42, Anim::Still);
    a.update();
    assert_eq!(a.value, 42);
    a.set_anim(Anim::Velocity { velocity: 1, friction: ONE, epsilon: None });
    assert_eq!(a.value, 42);
}

fn two_views(w: usize, h: usize) -> Views {
    let m = View::new(w, h, FractalSpecs::new_mandelbrot_with_defaults(ONE / 2), vec![]);
    let seed = FixedComplex { re: -ONE * 8 / 10, im: ONE * 156 / 1000 };
    let j = View::new(w, h, FractalSpecs::new_julia(seed, ONE / 2), vec![Vector2 { x: ONE, y: 0 }]);
    Views::new(w, h, vec![m, j])
}

#[test]
fn switching_twice_wraps_and_crossfade_ends() {
    let mut v = two_views(8, 4);
    assert_eq!(v.index, 0);
    v.switch_to_next();
    assert_eq!(v.index, 1);
    assert_eq!(v.last_index, 0);
    for _ in 0..21 {
        v.update();
    }
    assert!(*v.crossfade.anim() == Anim::Still);
    v.switch_to_next();
    assert_eq!(v.index, 0);
    assert_eq!(v.last_index, 1);
    assert!(*v.crossfade.anim() != Anim::Still);
    for _ in 0..19 {
        v.update();
    }
    assert!(*v.crossfade.anim() != Anim::Still);
    v.update();
    assert!(*v.crossfade.anim() == Anim::Still);
    assert_eq!(v.crossfade.value, 0);
}

#[test]
fn switch_stops_motion_of_view_left() {
    let mut v = two_views(8, 4);
    v.vec[0].width_animator.set_anim(Anim::Velocity { velocity: 5, friction: ONE, epsilon: None });
    v.switch_to_next();
    assert!(*v.vec[0].width_animator.anim() == Anim::Still);
}

#[test]
fn resize_rebuilds_every_grid() {
    let mut v = two_views(8, 4);
    v.calculate(Rotation::identity());
    v.set_size(5, 3);
    for view in v.vec.iter() {
        assert_eq!(view.matrix.width(), 5);
        assert_eq!(view.matrix.height(), 3);
        for iy in 0..3 {
            for ix in 0..5 {
                assert_eq!(view.matrix.get(ix, iy), 0);
            }
        }
    }
    assert_eq!(v.crossfade_matrix.width(), 5);
    assert_eq!(v.crossfade_matrix.height(), 3);
    assert_eq!(v.output().width(), 5);
}

#[test]
fn composite_blends_during_crossfade() {
    let mut v = two_views(4, 2);
    v.calculate(Rotation::identity());
    v.switch_to_next();
    v.calculate(Rotation::identity());
    v.update();
    v.composite();
    let t = v.crossfade.value;
    assert_eq!(t, 214748365);
    let prev = v.vec[0].matrix.get(1, 1) as u64;
    let cur = v.vec[1].matrix.get(1, 1) as u64;
    let want = ((ONE as u64 - t as u64) * prev + t as u64 * cur) / ONE as u64;
    assert_eq!(v.output().get(1, 1) as u64, want);
}

#[test]
fn output_is_current_grid_without_crossfade() {
    let mut v = two_views(4, 2);
    v.calculate(Rotation::identity());
    v.composite();
    assert_eq!(v.output().get(2, 1), v.get().matrix.get(2, 1));
    // the center of the Mandelbrot home view is the origin
    assert_eq!(v.output().get(2, 1), 500);
}

#[test]
fn view_home_and_presets() {
    let mut v = View::new(4, 2, FractalSpecs::new_mandelbrot_with_defaults(ONE), vec![Vector2 { x: ONE, y: -ONE }]);
    assert!(!v.start_coord_anim(3));
    assert!(v.start_coord_anim(0));
    assert!(!v.start_coord_anim(0));
    for _ in 0..200 {
        v.update();
    }
    assert!(v.position_animator.value == Vector2 { x: ONE, y: -ONE });
    assert!(*v.position_animator.anim() == VectorAnim::Still);
    v.width_animator.value = ONE;
    v.anim_to_home();
    for _ in 0..200 {
        v.update();
    }
    assert!(v.position_animator.value == Vector2 { x: 0, y: 0 });
    assert_eq!(v.width_animator.value, 4 * ONE);
    v.stop_anims();
    assert!(v.coord_index.is_none());
}

#[test]
fn non_positive_width_is_clamped() {
    let mut v = View::new(4, 2, FractalSpecs::new_mandelbrot_with_defaults(ONE), vec![]);
    v.width_animator.value = -5;
    v.calculate(Rotation::identity());
    // a width of one unit step: every cell samples a point next to the origin
    assert_eq!(v.matrix.get(0, 0), 500);
}

#[test]
fn pan_adds_to_velocity_and_replaces_jump() {
    let mut v = View::new(4, 2, FractalSpecs::new_mandelbrot_with_defaults(ONE), vec![Vector2 { x: ONE, y: ONE }]);
    assert!(v.start_coord_anim(0));
    v.pan(Vector2 { x: 10, y: -20 }, ONE);
    assert!(
        *v.position_animator.anim()
            == VectorAnim::VelocityWithRotation {
                velocity: Vector2 { x: 10, y: -20 },
                rotation: Rotation::identity(),
                friction: ONE
            }
    );
    assert!(v.coord_index.is_none());
    v.pan(Vector2 { x: 5, y: 0 }, ONE / 2);
    assert!(
        *v.position_animator.anim()
            == VectorAnim::VelocityWithRotation {
                velocity: Vector2 { x: 15, y: -20 },
                rotation: Rotation::identity(),
                friction: ONE
            }
    );
    v.update();
    assert!(v.position_animator.value == Vector2 { x: 15, y: -20 });
}

#[test]
fn zoom_and_rotate_accumulate() {
    let mut v = View::new(4, 2, FractalSpecs::new_mandelbrot_with_defaults(ONE), vec![]);
    v.zoom(-ONE / 8, ONE / 2);
    v.zoom(-ONE / 8, ONE / 2);
    assert!(*v.width_animator.anim() == Anim::ScaleVelocity { scale_velocity: -ONE / 4, friction: ONE / 2, epsilon: None });
    v.update();
    assert_eq!(v.width_animator.value, 3 * ONE);
    v.rotate(7, ONE);
    v.rotate(7, ONE);
    v.update();
    assert_eq!(v.rotation_animator.value, 14);
}

#[test]
fn velocity_with_rotation_turns_each_step() {
    let quarter = Rotation { cos: 0, sin: ONE };
    let mut a = VectorAnimator::new(
        Vector2 { x: 0, y: 0 },
        VectorAnim::VelocityWithRotation { velocity: Vector2 { x: ONE, y: 0 }, rotation: quarter, friction: ONE / 2 },
    );
    a.update();
    assert!(a.value == Vector2 { x: 0, y: ONE });
    a.update();
    assert!(a.value == Vector2 { x: -ONE / 2, y: ONE });
    assert!(
        *a.anim()
            == VectorAnim::VelocityWithRotation { velocity: Vector2 { x: -ONE / 4, y: 0 }, rotation: quarter, friction: ONE / 2 }
    );
}

#[test]
fn vector_target_snaps_within_epsilon() {
    let t = Vector2 { x: 300, y: -400 };
    let mut a = VectorAnimator::new(
        Vector2 { x: 0, y: 0 },
        VectorAnim::Target { target: t, coefficient: ONE / 2, epsilon: Some(100) },
    );
    a.update();
    assert!(a.value == Vector2 { x: 150, y: -200 });
    a.update();
    assert!(a.value == Vector2 { x: 225, y: -300 });
    // distance after the next easing is 37.5 + 50 -> 62.5 < 100: snap
    a.update();
    assert!(a.value == t);
    assert!(*a.anim() == VectorAnim::Still);
}

#[test]
fn julia_boundary_point_escapes_at_once() {
    let seed = FixedComplex { re: 0, im: 0 };
    // |z| = 2 exactly: the escape test is |z| >= 2, as for Mandelbrot
    assert_eq!(FractalCalc::get_value(&julia_specs(seed, 500), 2 * ONE, 0), 0);
    assert_eq!(FractalCalc::get_value(&julia_specs(seed, 1), 2 * ONE, 0), 0);
    assert_eq!(FractalCalc::get_value(&julia_specs(seed, 500), 0, -2 * ONE), 0);
}

#[test]
fn tiny_width_keeps_positive_height_and_steps() {
    let s = FractalSpecs::new_mandelbrot_with_defaults(ONE);
    assert_eq!(FractalCalc::get_height(&s, 65536, 1, 1), 1);
    assert!(FractalCalc::get_height(&s, 80, 24, ONE) <= FractalCalc::get_height(&s, 80, 24, 2 * ONE));
    // a width of one unit over 4 columns: neighbouring cells still differ by one step
    let specs = mandel_specs(5);
    let mut m: Matrix<u16> = Matrix::new(4, 1, 0);
    FractalCalc::write_matrix(&specs, Vector2 { x: 2 * ONE, y: 0 }, 1, Rotation::identity(), &mut m);
    for ix in 0..4 {
        let x = 2 * ONE + (2 * ix as i64 - 4) / 2;
        assert_eq!(m.get(ix, 0), FractalCalc::get_value(&specs, x, 0));
    }
}

#[test]
fn mandelbrot_grid_is_mirror_symmetric() {
    let specs = mandel_specs(80);
    let (w, h) = (7usize, 6usize);
    let mut m: Matrix<u16> = Matrix::new(w, h, 0);
    FractalCalc::write_matrix(&specs, Vector2 { x: -ONE / 2, y: 0 }, 3 * ONE, Rotation::identity(), &mut m);
    for iy in 1..h {
        for ix in 0..w {
            assert_eq!(m.get(ix, iy), m.get(ix, h - iy));
        }
    }
    assert_eq!(
        FractalCalc::get_value(&specs, -ONE / 4, ONE / 3 + 7),
        FractalCalc::get_value(&specs, -ONE / 4, -(ONE / 3 + 7))
    );
}

#[test]
fn reset_ends_jump_so_it_can_start_again() {
    let mut v = View::new(4, 2, FractalSpecs::new_mandelbrot_with_defaults(ONE), vec![Vector2 { x: ONE, y: 0 }]);
    assert!(v.start_coord_anim(0));
    v.anim_to_home();
    assert!(v.coord_index.is_none());
    assert!(v.start_coord_anim(0));
    v.zoom(1, ONE);
    assert!(v.coord_index.is_none());
}

#[test]
fn update_steps_only_the_shown_view() {
    let mut v = two_views(4, 2);
    v.vec[0].rotate(9, ONE);
    v.vec[1].rotate(9, ONE);
    v.update();
    assert_eq!(v.vec[0].rotation_animator.value, 9);
    assert_eq!(v.vec[1].rotation_animator.value, 0);
}

#[test]
fn new_views_start_without_crossfade() {
    let mut v = two_views(4, 2);
    assert_eq!(v.index, 0);
    assert_eq!(v.last_index, 0);
    assert_eq!(v.crossfade.value, ONE);
    assert!(*v.crossfade.anim() == Anim::Still);
    v.update();
    assert_eq!(v.crossfade.value, 0);
    assert!(*v.crossfade.anim() == Anim::Still);
}

#[test]
fn crossfade_takes_twenty_steps() {
    let mut v = two_views(4, 2);
    v.switch_to_next();
    for k in 1..20 {
        v.update();
        assert_eq!(v.crossfade.value, k * 214748365);
    }
    v.update();
    assert!(*v.crossfade.anim() == Anim::Still);
    assert_eq!(v.crossfade.value, 0);
}

#[test]
fn mandelbrot_far_point_escapes_after_one_step() {
    assert_eq!(FractalCalc::get_value(&mandel_specs(500), -3 * ONE, ONE), 1);
    assert_eq!(FractalCalc::get_value(&mandel_specs(500), 0, 2 * ONE), 1);
    assert_eq!(FractalCalc::get_value(&mandel_specs(0), 0, 2 * ONE), 0);
}

#[test]
fn julia_zero_seed_small_points_never_escape() {
    let seed = FixedComplex { re: 0, im: 0 };
    let h = ONE / 2;
    for (x, y) in [(h, 0), (0, -h), (h * 7 / 10, h * 7 / 10), (-h / 3, h / 5)] {
        assert_eq!(FractalCalc::get_value(&julia_specs(seed, 300), x, y), 300);
    }
}

#[test]
fn velocity_stays_within_its_bound() {
    let (v, f) = (1000i64, 3 * ONE / 4);
    let mut a = Animator::new(50, Anim::Velocity { velocity: v, friction: f, epsilon: Some(1) });
    for _ in 0..100 {
        a.update();
        // |value - start| <= |v| / (1 - f) = 4000
        assert!((a.value - 50) as i128 * (ONE - f) as i128 <= v as i128 * ONE as i128);
    }
    assert!(*a.anim() == Anim::Still);
}
