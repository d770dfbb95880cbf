use vstd::prelude::*;
use vstd::view::View as SpecView;
use crate::animator::{saturate, saturate_exec, step_vec, Anim, Animator, VectorAnim, VectorAnimator};
use crate::fixed::{Rotation, Vector2, COORD_LIMIT, FIX_ONE};
use crate::fractal::{
    cell_value, type_in_range, FractalCalc, FractalSpecs, MAX_GRID_SIDE,
};
use crate::grid::{blend_cell, Matrix};

verus! {

/// The crossfade's rate: the blend factor grows by a twentieth each step,
/// rounded up so that twenty steps reach 1.
pub const CROSSFADE_RATE: i64 = 214748365;

/// The easing coefficient of preset jumps and of the return home.
pub const TARGET_COEF: i64 = 858993459;

/// The threshold under which a jump or the return home snaps to its target.
pub const TARGET_EPSILON: i64 = 4294967;

/// The viewport width used when the animated one is not positive.
pub const MIN_WIDTH: i64 = 1;

/// The width the evaluator is handed for an animated width `w`.
pub open spec fn usable_width(w: int) -> int {
    if w < MIN_WIDTH {
        MIN_WIDTH as int
    } else if w > COORD_LIMIT {
        COORD_LIMIT as int
    } else {
        w
    }
}

pub open spec fn grid_size_ok(w: int, h: int) -> bool {
    0 < w <= MAX_GRID_SIDE && 0 < h <= MAX_GRID_SIDE && w * h <= usize::MAX
}

/// One fractal set on screen: its specs, the animated camera over it, and the
/// grid of values last computed for it.
pub struct View {
    pub specs: FractalSpecs,
    pub position_animator: VectorAnimator,
    pub width_animator: Animator,
    pub rotation_animator: Animator,
    pub matrix: Matrix<u16>,
    /// The preset points that jumps aim at.
    pub coords: Vec<Vector2>,
    /// The preset last jumped to, while the jump is on.
    pub coord_index: Option<usize>,
}

impl View {
    pub open spec fn wf(&self) -> bool {
        &&& self.specs.element_ar > 0
        &&& type_in_range(self.specs.fractal_type)
        &&& self.position_animator.wf()
        &&& self.width_animator.wf()
        &&& self.rotation_animator.wf()
        &&& self.matrix.wf()
        &&& grid_size_ok(self.matrix.spec_width() as int, self.matrix.spec_height() as int)
    }

    /// A view of `specs` at its home viewport, with a grid of `w * h` cells.
    pub fn new(w: usize, h: usize, specs: FractalSpecs, coords: Vec<Vector2>) -> (r: View)
        requires
            grid_size_ok(w as int, h as int),
            specs.element_ar > 0,
            type_in_range(specs.fractal_type),
        ensures
            r.wf(),
            r.specs == specs,
            r.matrix.spec_width() == w,
            r.matrix.spec_height() == h,
            r.position_animator.value == specs.default_center,
            r.position_animator.anim == VectorAnim::Still,
            r.width_animator.value == specs.default_width,
            r.width_animator.anim == Anim::Still,
            r.rotation_animator.value == 0,
            r.rotation_animator.anim == Anim::Still,
            forall|i: int| 0 <= i < r.matrix.cells().len() ==> r.matrix.cells()[i] == 0,
            r.coords@ == coords@,
            r.coord_index.is_none(),
    {
        View {
            specs,
            position_animator: VectorAnimator::new(specs.default_center, VectorAnim::Still),
            width_animator: Animator::new(specs.default_width, Anim::Still),
            rotation_animator: Animator::new(0, Anim::Still),
            matrix: Matrix::new(w, h, 0),
            coords,
            coord_index: None,
        }
    }

    /// Advances each of the camera's motions by one step.
    pub fn update(&mut self)
        requires
            old(self).wf(),
        ensures
            final(self).wf(),
            final(self).specs == old(self).specs,
            final(self).matrix == old(self).matrix,
            final(self).coord_index == old(self).coord_index,
            final(self).coords@ == old(self).coords@,
            (final(self).position_animator.value, final(self).position_animator.anim) == step_vec(
                old(self).position_animator.value, old(self).position_animator.anim),
            (final(self).width_animator.value as int, final(self).width_animator.anim)
                == crate::animator::step(old(self).width_animator.value as int,
                old(self).width_animator.anim),
            (final(self).rotation_animator.value as int, final(self).rotation_animator.anim)
                == crate::animator::step(old(self).rotation_animator.value as int,
                old(self).rotation_animator.anim),
    {
        self.position_animator.update();
        self.width_animator.update();
        self.rotation_animator.update();
    }

    /// Recomputes the grid from the camera. The rotation is the cosine and
    /// sine of the animated angle; a width out of range is brought into it.
    pub fn calculate(&mut self, rotation: Rotation)
        requires
            old(self).wf(),
            rotation.wf(),
        ensures
            final(self).wf(),
            final(self).specs == old(self).specs,
            final(self).position_animator == old(self).position_animator,
            final(self).width_animator == old(self).width_animator,
            final(self).rotation_animator == old(self).rotation_animator,
            final(self).coord_index == old(self).coord_index,
            final(self).coords@ == old(self).coords@,
            final(self).matrix.same_shape(&old(self).matrix),
            forall|ix: int, iy: int|
                0 <= ix < final(self).matrix.spec_width() && 0 <= iy
                    < final(self).matrix.spec_height() ==> final(self).matrix.cell(ix, iy) as nat
                    == cell_value(
                    old(self).specs,
                    old(self).position_animator.value,
                    usable_width(old(self).width_animator.value as int),
                    rotation,
                    final(self).matrix.spec_width() as int,
                    final(self).matrix.spec_height() as int,
                    ix,
                    iy,
                ),
    {
        let w = self.width_animator.value;
        let width = if w < MIN_WIDTH {
            MIN_WIDTH
        } else if w > COORD_LIMIT {
            COORD_LIMIT
        } else {
            w
        };
        let center = self.position_animator.value;
        FractalCalc::write_matrix(&self.specs, center, width, rotation, &mut self.matrix);
    }

    /// Rebuilds the grid at `w * h` cells; the old cells are dropped.
    pub fn set_matrix_size(&mut self, w: usize, h: usize)
        requires
            old(self).wf(),
            grid_size_ok(w as int, h as int),
        ensures
            final(self).wf(),
            final(self).matrix.spec_width() == w,
            final(self).matrix.spec_height() == h,
            forall|i: int| 0 <= i < final(self).matrix.cells().len() ==> final(self).matrix.cells()[i] == 0,
            final(self).specs == old(self).specs,
            final(self).position_animator == old(self).position_animator,
            final(self).width_animator == old(self).width_animator,
            final(self).rotation_animator == old(self).rotation_animator,
            final(self).coords@ == old(self).coords@,
            final(self).coord_index == old(self).coord_index,
    {
        self.matrix = Matrix::new(w, h, 0);
    }

    /// Ends a preset jump, if one is on.
    pub fn stop_coord_anim(&mut self)
        requires
            old(self).wf(),
        ensures
            final(self).wf(),
            final(self).coord_index.is_none(),
            final(self).specs == old(self).specs,
            final(self).matrix == old(self).matrix,
            final(self).coords@ == old(self).coords@,
            final(self).position_animator == old(self).position_animator,
            final(self).width_animator == old(self).width_animator,
            final(self).rotation_animator == old(self).rotation_animator,
    {
        self.coord_index = None;
    }

    /// Stops every motion of the camera; the values stay where they are.
    pub fn stop_anims(&mut self)
        requires
            old(self).wf(),
        ensures
            final(self).wf(),
            final(self).position_animator == (VectorAnimator {
                anim: VectorAnim::Still,
                ..old(self).position_animator
            }),
            final(self).width_animator == (Animator { anim: Anim::Still, ..old(self).width_animator }),
            final(self).rotation_animator == (Animator {
                anim: Anim::Still,
                ..old(self).rotation_animator
            }),
            final(self).coord_index.is_none(),
            final(self).specs == old(self).specs,
            final(self).matrix == old(self).matrix,
            final(self).coords@ == old(self).coords@,
    {
        self.position_animator.set_anim(VectorAnim::Still);
        self.width_animator.set_anim(Anim::Still);
        self.rotation_animator.set_anim(Anim::Still);
        self.stop_coord_anim();
    }

    /// Sends the camera back to the home viewport: center, width and an
    /// unrotated lattice, each eased toward. A preset jump under way ends.
    pub fn anim_to_home(&mut self)
        requires
            old(self).wf(),
        ensures
            final(self).wf(),
            final(self).position_animator == (VectorAnimator {
                anim: point_target(old(self).specs.default_center),
                ..old(self).position_animator
            }),
            final(self).width_animator == (Animator {
                anim: home_target(old(self).specs.default_width),
                ..old(self).width_animator
            }),
            final(self).rotation_animator == (Animator {
                anim: home_target(0),
                ..old(self).rotation_animator
            }),
            final(self).specs == old(self).specs,
            final(self).matrix == old(self).matrix,
            final(self).coord_index.is_none(),
            final(self).coords@ == old(self).coords@,
    {
        self.position_animator.set_anim(point_target_exec(self.specs.default_center));
        self.width_animator.set_anim(home_target_exec(self.specs.default_width));
        self.rotation_animator.set_anim(home_target_exec(0));
        self.coord_index = None;
    }

    /// Pans: pushes the position by `increment` per step. The push adds to
    /// the velocity of a pan under way, keeping its rotation and friction;
    /// any other motion, a jump included, is replaced by a pan without
    /// rotation that decays by `friction`.
    pub fn pan(&mut self, increment: Vector2, friction: i64)
        requires
            old(self).wf(),
            0 <= friction <= FIX_ONE,
        ensures
            final(self).wf(),
            final(self).position_animator == (VectorAnimator {
                anim: panned(old(self).position_animator.anim, increment, friction),
                ..old(self).position_animator
            }),
            final(self).coord_index.is_none(),
            final(self).specs == old(self).specs,
            final(self).matrix == old(self).matrix,
            final(self).width_animator == old(self).width_animator,
            final(self).rotation_animator == old(self).rotation_animator,
            final(self).coords@ == old(self).coords@,
    {
        match self.position_animator.anim {
            VectorAnim::VelocityWithRotation { velocity, .. } => {
                let v = Vector2 {
                    x: saturate_exec(velocity.x as i128 + increment.x as i128),
                    y: saturate_exec(velocity.y as i128 + increment.y as i128),
                };
                self.position_animator.set_vwr_velocity(v);
            },
            _ => {
                self.position_animator.set_anim(
                    VectorAnim::VelocityWithRotation {
                        velocity: increment,
                        rotation: Rotation::identity(),
                        friction,
                    },
                );
            },
        }
        self.coord_index = None;
    }

    /// Rotates: adds `increment` to the angular velocity, decaying by `friction`.
    pub fn rotate(&mut self, increment: i64, friction: i64)
        requires
            old(self).wf(),
            0 <= friction <= FIX_ONE,
        ensures
            final(self).wf(),
            final(self).rotation_animator == (Animator {
                anim: pushed(old(self).rotation_animator.anim, increment as int, friction),
                ..old(self).rotation_animator
            }),
            final(self).specs == old(self).specs,
            final(self).matrix == old(self).matrix,
            final(self).position_animator == old(self).position_animator,
            final(self).width_animator == old(self).width_animator,
            final(self).coords@ == old(self).coords@,
            final(self).coord_index == old(self).coord_index,
    {
        let a = pushed_exec(self.rotation_animator.anim, increment, friction);
        self.rotation_animator.set_anim(a);
    }

    /// Zooms: adds `increment` to the width's scale velocity, decaying by
    /// `friction`; a negative increment narrows the viewport. A preset jump
    /// under way ends.
    pub fn zoom(&mut self, increment: i64, friction: i64)
        requires
            old(self).wf(),
            0 <= friction <= FIX_ONE,
        ensures
            final(self).wf(),
            final(self).width_animator == (Animator {
                anim: Anim::ScaleVelocity {
                    scale_velocity: saturate(
                        current_scale_velocity(old(self).width_animator.anim) + increment,
                    ) as i64,
                    friction,
                    epsilon: None,
                },
                ..old(self).width_animator
            }),
            final(self).specs == old(self).specs,
            final(self).matrix == old(self).matrix,
            final(self).position_animator == old(self).position_animator,
            final(self).rotation_animator == old(self).rotation_animator,
            final(self).coord_index.is_none(),
            final(self).coords@ == old(self).coords@,
    {
        let current: i64 = match self.width_animator.anim {
            Anim::ScaleVelocity { scale_velocity, .. } => scale_velocity,
            _ => 0,
        };
        let sv = saturate_exec(current as i128 + increment as i128);
        self.width_animator.set_anim(Anim::ScaleVelocity { scale_velocity: sv, friction, epsilon: None });
        self.coord_index = None;
    }

    /// Starts a jump to preset `index`: the position eases toward it. Returns
    /// false, and changes nothing, when that jump is already on or there is
    /// no such preset.
    pub fn start_coord_anim(&mut self, index: usize) -> (r: bool)
        requires
            old(self).wf(),
        ensures
            final(self).wf(),
            r == (index < old(self).coords@.len() && old(self).coord_index != Some(index)),
            !r ==> final(self).position_animator == old(self).position_animator
                && final(self).coord_index == old(self).coord_index,
            r ==> final(self).coord_index == Some(index) && final(self).position_animator == (
            VectorAnimator {
                anim: point_target(old(self).coords@[index as int]),
                ..old(self).position_animator
            }),
            final(self).specs == old(self).specs,
            final(self).matrix == old(self).matrix,
            final(self).width_animator == old(self).width_animator,
            final(self).rotation_animator == old(self).rotation_animator,
            final(self).coords@ == old(self).coords@,
    {
        if index >= self.coords.len() {
            return false;
        }
        if let Some(i) = self.coord_index {
            if i == index {
                return false;
            }
        }
        let p = self.coords[index];
        self.position_animator.set_anim(point_target_exec(p));
        self.coord_index = Some(index);
        true
    }
}

/// The velocity a motion already has, or 0 for any other motion.
pub open spec fn current_velocity(a: Anim) -> int {
    match a {
        Anim::Velocity { velocity, .. } => velocity as int,
        _ => 0,
    }
}

/// The scale velocity a motion already has, or 0 for any other motion.
pub open spec fn current_scale_velocity(a: Anim) -> int {
    match a {
        Anim::ScaleVelocity { scale_velocity, .. } => scale_velocity as int,
        _ => 0,
    }
}

/// The motion after a push of `increment` with `friction`: a velocity motion
/// adds to its velocity; any other motion, a target one included, is replaced.
pub open spec fn pushed(a: Anim, increment: int, friction: i64) -> Anim {
    Anim::Velocity {
        velocity: saturate(current_velocity(a) + increment) as i64,
        friction,
        epsilon: None,
    }
}

fn pushed_exec(a: Anim, increment: i64, friction: i64) -> (r: Anim)
    requires
        0 <= friction <= FIX_ONE,
    ensures
        r == pushed(a, increment as int, friction),
        r.wf(),
{
    let current: i64 = match a {
        Anim::Velocity { velocity, .. } => velocity,
        _ => 0,
    };
    Anim::Velocity {
        velocity: saturate_exec(current as i128 + increment as i128),
        friction,
        epsilon: None,
    }
}

/// The position's motion after a pan by `increment`.
pub open spec fn panned(a: VectorAnim, increment: Vector2, friction: i64) -> VectorAnim {
    match a {
        VectorAnim::VelocityWithRotation { velocity, rotation, friction: f } => {
            VectorAnim::VelocityWithRotation {
                velocity: Vector2 {
                    x: saturate(velocity.x + increment.x) as i64,
                    y: saturate(velocity.y + increment.y) as i64,
                },
                rotation,
                friction: f,
            }
        },
        _ => VectorAnim::VelocityWithRotation {
            velocity: increment,
            rotation: Rotation { cos: FIX_ONE, sin: 0 },
            friction,
        },
    }
}

/// The easing motion toward the point `t` used by jumps and the return home.
pub open spec fn point_target(t: Vector2) -> VectorAnim {
    VectorAnim::Target { target: t, coefficient: TARGET_COEF, epsilon: Some(TARGET_EPSILON) }
}

fn point_target_exec(t: Vector2) -> (r: VectorAnim)
    ensures
        r == point_target(t),
        r.wf(),
{
    VectorAnim::Target { target: t, coefficient: TARGET_COEF, epsilon: Some(TARGET_EPSILON) }
}

/// The easing motion toward `t` used by jumps and the return home.
pub open spec fn home_target(t: i64) -> Anim {
    Anim::Target { target: t, coefficient: TARGET_COEF, epsilon: Some(TARGET_EPSILON) }
}

fn home_target_exec(t: i64) -> (r: Anim)
    ensures
        r == home_target(t),
        r.wf(),
{
    Anim::Target { target: t, coefficient: TARGET_COEF, epsilon: Some(TARGET_EPSILON) }
}

/// `new` is `old` after one step of each of its camera's motions.
pub open spec fn view_stepped(new: View, old: View) -> bool {
    &&& (new.position_animator.value, new.position_animator.anim) == step_vec(
        old.position_animator.value,
        old.position_animator.anim,
    )
    &&& (new.width_animator.value as int, new.width_animator.anim) == crate::animator::step(
        old.width_animator.value as int,
        old.width_animator.anim,
    )
    &&& (new.rotation_animator.value as int, new.rotation_animator.anim) == crate::animator::step(
        old.rotation_animator.value as int,
        old.rotation_animator.anim,
    )
    &&& new.specs == old.specs
    &&& new.matrix == old.matrix
    &&& new.coords@ == old.coords@
    &&& new.coord_index == old.coord_index
}

/// `new` is `old` with every motion of its camera stopped and no jump on.
pub open spec fn view_stopped(new: View, old: View) -> bool {
    &&& new.position_animator == (VectorAnimator { anim: VectorAnim::Still, ..old.position_animator })
    &&& new.width_animator == (Animator { anim: Anim::Still, ..old.width_animator })
    &&& new.rotation_animator == (Animator { anim: Anim::Still, ..old.rotation_animator })
    &&& new.coord_index.is_none()
    &&& new.specs == old.specs
    &&& new.matrix == old.matrix
    &&& new.coords@ == old.coords@
}

/// `new` and `old` have the same specs, camera, presets and jump.
pub open spec fn same_camera(new: View, old: View) -> bool {
    &&& new.specs == old.specs
    &&& new.position_animator == old.position_animator
    &&& new.width_animator == old.width_animator
    &&& new.rotation_animator == old.rotation_animator
    &&& new.coords@ == old.coords@
    &&& new.coord_index == old.coord_index
}

/// The crossfade's ramp: a constant-rate rise with no friction.
pub open spec fn ramp() -> Anim {
    Anim::Velocity { velocity: CROSSFADE_RATE, friction: FIX_ONE, epsilon: None }
}

/// One step of the crossfade: its motion, then the stop once it reaches 1.
pub open spec fn crossfade_step(value: int, anim: Anim) -> (int, Anim) {
    let s = crate::animator::step(value, anim);
    if s.0 >= FIX_ONE {
        (0, Anim::Still)
    } else {
        s
    }
}

pub open spec fn crossfade_steps(value: int, anim: Anim, n: nat) -> (int, Anim)
    decreases n,
{
    if n == 0 {
        (value, anim)
    } else {
        let s = crossfade_step(value, anim);
        crossfade_steps(s.0, s.1, (n - 1) as nat)
    }
}

/// The index after `i` in a list of `len` views, wrapping to the first.
pub open spec fn next_index(i: int, len: int) -> int {
    (i + 1) % len
}

/// The views on offer, which one is shown, and the crossfade from the one
/// shown before.
pub struct Views {
    pub vec: Vec<View>,
    pub index: usize,
    pub last_index: usize,
    pub crossfade: Animator,
    pub crossfade_matrix: Matrix<u16>,
    pub view_width: usize,
    pub view_height: usize,
}

impl Views {
    pub open spec fn wf(&self) -> bool {
        &&& self.vec@.len() > 0
        &&& self.index < self.vec@.len()
        &&& self.last_index < self.vec@.len()
        &&& grid_size_ok(self.view_width as int, self.view_height as int)
        &&& forall|i: int|
            0 <= i < self.vec@.len() ==> {
                &&& (#[trigger] self.vec@[i]).wf()
                &&& self.vec@[i].matrix.spec_width() == self.view_width
                &&& self.vec@[i].matrix.spec_height() == self.view_height
            }
        &&& self.crossfade_matrix.wf()
        &&& self.crossfade_matrix.spec_width() == self.view_width
        &&& self.crossfade_matrix.spec_height() == self.view_height
        &&& 0 <= self.crossfade.value <= FIX_ONE
        &&& (self.crossfade.anim == Anim::Still || self.crossfade.anim == ramp())
    }

    /// Whether a crossfade is on.
    pub open spec fn crossfading(&self) -> bool {
        self.crossfade.anim != Anim::Still
    }

    /// A set of views, all with grids of `w * h` cells, showing the first.
    pub fn new(w: usize, h: usize, vec: Vec<View>) -> (r: Views)
        requires
            grid_size_ok(w as int, h as int),
            vec@.len() > 0,
            forall|i: int|
                0 <= i < vec@.len() ==> {
                    &&& (#[trigger] vec@[i]).wf()
                    &&& vec@[i].matrix.spec_width() == w
                    &&& vec@[i].matrix.spec_height() == h
                },
        ensures
            r.wf(),
            r.vec@ == vec@,
            r.index == 0,
            r.last_index == 0,
            r.crossfade == (Animator { value: FIX_ONE, anim: Anim::Still }),
            !r.crossfading(),
    {
        Views {
            vec,
            index: 0,
            last_index: 0,
            crossfade: Animator::new(FIX_ONE, Anim::Still),
            crossfade_matrix: Matrix::new(w, h, 0),
            view_width: w,
            view_height: h,
        }
    }

    /// The view shown.
    pub fn get(&self) -> (r: &View)
        requires
            self.wf(),
        ensures
            *r == self.vec@[self.index as int],
    {
        &self.vec[self.index]
    }

    /// Stops the shown view's motion, then shows the next view (after the
    /// last, the first) and starts the crossfade from the one shown before.
    pub fn switch_to_next(&mut self)
        requires
            old(self).wf(),
        ensures
            final(self).wf(),
            final(self).vec@.len() == old(self).vec@.len(),
            final(self).last_index == old(self).index,
            final(self).index == next_index(old(self).index as int, old(self).vec@.len() as int),
            final(self).crossfade.value == 0,
            final(self).crossfade.anim == ramp(),
            final(self).view_width == old(self).view_width,
            final(self).view_height == old(self).view_height,
            final(self).crossfade_matrix == old(self).crossfade_matrix,
            view_stopped(final(self).vec@[old(self).index as int], old(self).vec@[old(self).index as int]),
            forall|k: int|
                0 <= k < old(self).vec@.len() && k != old(self).index ==> final(self).vec@[k]
                    == old(self).vec@[k],
    {
        let i = self.index;
        let mut v = self.vec.remove(i);
        v.stop_anims();
        self.vec.insert(i, v);
        assert forall|k: int| 0 <= k < self.vec@.len() implies {
            &&& (#[trigger] self.vec@[k]).wf()
            &&& self.vec@[k].matrix.spec_width() == self.view_width
            &&& self.vec@[k].matrix.spec_height() == self.view_height
        } by {
            if k != i {
                assert(self.vec@[k] == old(self).vec@[k]);
            }
        }
        self.last_index = i;
        let n = self.vec.len();
        proof {
            if i + 1 < n {
                vstd::arithmetic::div_mod::lemma_small_mod((i + 1) as nat, n as nat);
            } else {
                vstd::arithmetic::div_mod::lemma_mod_self_0(n as int);
            }
        }
        self.index = if i + 1 >= n {
            0
        } else {
            i + 1
        };
        self.crossfade = Animator::new(
            0,
            Anim::Velocity { velocity: CROSSFADE_RATE, friction: FIX_ONE, epsilon: None },
        );
    }

    /// Advances the shown view's motion and the crossfade by one step.
    pub fn update(&mut self)
        requires
            old(self).wf(),
        ensures
            final(self).wf(),
            final(self).index == old(self).index,
            final(self).last_index == old(self).last_index,
            final(self).vec@.len() == old(self).vec@.len(),
            (final(self).crossfade.value as int, final(self).crossfade.anim) == crossfade_step(
                old(self).crossfade.value as int,
                old(self).crossfade.anim,
            ),
            view_stepped(final(self).vec@[old(self).index as int], old(self).vec@[old(self).index as int]),
            forall|k: int|
                0 <= k < old(self).vec@.len() && k != old(self).index ==> final(self).vec@[k]
                    == old(self).vec@[k],
            final(self).crossfade_matrix == old(self).crossfade_matrix,
            final(self).view_width == old(self).view_width,
            final(self).view_height == old(self).view_height,
    {
        let i = self.index;
        let mut v = self.vec.remove(i);
        v.update();
        self.vec.insert(i, v);
        assert forall|k: int| 0 <= k < self.vec@.len() implies {
            &&& (#[trigger] self.vec@[k]).wf()
            &&& self.vec@[k].matrix.spec_width() == self.view_width
            &&& self.vec@[k].matrix.spec_height() == self.view_height
        } by {
            if k != i {
                assert(self.vec@[k] == old(self).vec@[k]);
            }
        }
        proof {
            lemma_ramp_keeps_rate();
        }
        self.crossfade.update();
        if self.crossfade.value >= FIX_ONE {
            self.crossfade.value = 0;
            self.crossfade.set_anim(Anim::Still);
        }
    }

    /// Recomputes the shown view's grid; see `View::calculate`.
    pub fn calculate(&mut self, rotation: Rotation)
        requires
            old(self).wf(),
            rotation.wf(),
        ensures
            final(self).wf(),
            final(self).index == old(self).index,
            final(self).last_index == old(self).last_index,
            final(self).crossfade == old(self).crossfade,
            final(self).crossfade_matrix == old(self).crossfade_matrix,
            final(self).view_width == old(self).view_width,
            final(self).view_height == old(self).view_height,
            final(self).vec@.len() == old(self).vec@.len(),
            same_camera(final(self).vec@[old(self).index as int], old(self).vec@[old(self).index as int]),
            forall|k: int|
                0 <= k < old(self).vec@.len() && k != old(self).index ==> final(self).vec@[k]
                    == old(self).vec@[k],
            forall|ix: int, iy: int|
                0 <= ix < final(self).view_width && 0 <= iy < final(self).view_height
                    ==> final(self).vec@[final(self).index as int].matrix.cell(ix, iy) as nat
                    == cell_value(
                    old(self).vec@[old(self).index as int].specs,
                    old(self).vec@[old(self).index as int].position_animator.value,
                    usable_width(old(self).vec@[old(self).index as int].width_animator.value as int),
                    rotation,
                    final(self).view_width as int,
                    final(self).view_height as int,
                    ix,
                    iy,
                ),
    {
        let i = self.index;
        let mut v = self.vec.remove(i);
        v.calculate(rotation);
        self.vec.insert(i, v);
        assert forall|k: int| 0 <= k < self.vec@.len() implies {
            &&& (#[trigger] self.vec@[k]).wf()
            &&& self.vec@[k].matrix.spec_width() == self.view_width
            &&& self.vec@[k].matrix.spec_height() == self.view_height
        } by {
            if k != i {
                assert(self.vec@[k] == old(self).vec@[k]);
            }
        }
    }

    /// While a crossfade is on, blends the grid of the view shown before into
    /// that of the view shown, by the crossfade's progress, into the scratch grid.
    pub fn composite(&mut self)
        requires
            old(self).wf(),
        ensures
            final(self).wf(),
            final(self).vec@ == old(self).vec@,
            final(self).index == old(self).index,
            final(self).last_index == old(self).last_index,
            final(self).crossfade == old(self).crossfade,
            final(self).view_width == old(self).view_width,
            final(self).view_height == old(self).view_height,
            !old(self).crossfading() ==> final(self).crossfade_matrix == old(self).crossfade_matrix,
            old(self).crossfading() ==> forall|k: int|
                0 <= k < final(self).crossfade_matrix.cells().len()
                    ==> final(self).crossfade_matrix.cells()[k] as int == blend_cell(
                    old(self).crossfade.value as int,
                    old(self).vec@[old(self).last_index as int].matrix.cells()[k] as int,
                    old(self).vec@[old(self).index as int].matrix.cells()[k] as int,
                ),
    {
        if self.crossfade.anim != Anim::Still {
            let t = self.crossfade.value;
            Matrix::interpolate(
                t,
                &self.vec[self.last_index].matrix,
                &self.vec[self.index].matrix,
                &mut self.crossfade_matrix,
            );
        }
    }

    /// The grid to show: the blend while a crossfade is on, else the shown
    /// view's own grid.
    pub fn output(&self) -> (r: &Matrix<u16>)
        requires
            self.wf(),
        ensures
            self.crossfading() ==> *r == self.crossfade_matrix,
            !self.crossfading() ==> *r == self.vec@[self.index as int].matrix,
    {
        if self.crossfade.anim != Anim::Still {
            &self.crossfade_matrix
        } else {
            &self.vec[self.index].matrix
        }
    }

    /// Rebuilds every view's grid, and the scratch grid, at `w * h` cells.
    pub fn set_size(&mut self, w: usize, h: usize)
        requires
            old(self).wf(),
            grid_size_ok(w as int, h as int),
        ensures
            final(self).wf(),
            final(self).view_width == w,
            final(self).view_height == h,
            final(self).vec@.len() == old(self).vec@.len(),
            final(self).index == old(self).index,
            final(self).last_index == old(self).last_index,
            final(self).crossfade == old(self).crossfade,
            forall|i: int|
                0 <= i < final(self).vec@.len() ==> {
                    &&& (#[trigger] final(self).vec@[i]).matrix.spec_width() == w
                    &&& final(self).vec@[i].matrix.spec_height() == h
                    &&& forall|k: int|
                        0 <= k < final(self).vec@[i].matrix.cells().len()
                            ==> final(self).vec@[i].matrix.cells()[k] == 0
                    &&& same_camera(final(self).vec@[i], old(self).vec@[i])
                },
            final(self).crossfade_matrix.spec_width() == w,
            final(self).crossfade_matrix.spec_height() == h,
    {
        let n = self.vec.len();
        let mut j: usize = 0;
        while j < n
            invariant
                j <= n,
                n == self.vec@.len(),
                n == old(self).vec@.len(),
                grid_size_ok(w as int, h as int),
                forall|i: int|
                    0 <= i < n ==> (#[trigger] self.vec@[i]).wf() && same_camera(
                        self.vec@[i],
                        old(self).vec@[i],
                    ),
                forall|i: int|
                    0 <= i < j ==> {
                        &&& (#[trigger] self.vec@[i]).matrix.spec_width() == w
                        &&& self.vec@[i].matrix.spec_height() == h
                        &&& forall|k: int|
                            0 <= k < self.vec@[i].matrix.cells().len()
                                ==> self.vec@[i].matrix.cells()[k] == 0
                    },
                old(self).wf(),
                self.index == old(self).index,
                self.last_index == old(self).last_index,
                self.crossfade == old(self).crossfade,
                self.crossfade_matrix == old(self).crossfade_matrix,
                self.view_width == old(self).view_width,
                self.view_height == old(self).view_height,
            decreases n - j,
        {
            let mut v = self.vec.remove(j);
            v.set_matrix_size(w, h);
            self.vec.insert(j, v);
            j = j + 1;
        }
        self.view_width = w;
        self.view_height = h;
        self.crossfade_matrix = Matrix::new(w, h, 0);
    }
}

/// Two switches in a row show the view two places on (wrapping), and the
/// crossfade they start ends: from its start, 20 steps bring it to rest at 0.
pub proof fn lemma_two_switches(i: int, len: int)
    requires
        0 <= i < len,
    ensures
        next_index(next_index(i, len), len) == (i + 2) % len,
        crossfade_steps(0, ramp(), 20) == (0int, Anim::Still),
{
    assert(next_index(next_index(i, len), len) == (i + 2) % len) by {
        if i + 1 < len {
            vstd::arithmetic::div_mod::lemma_small_mod((i + 1) as nat, len as nat);
        } else {
            vstd::arithmetic::div_mod::lemma_mod_self_0(len);
            vstd::arithmetic::div_mod::lemma_mod_add_multiples_vanish(1, len);
        }
    }
    lemma_crossfade_completes(0);
}

proof fn lemma_ramp_keeps_rate()
    ensures
        crate::animator::trunc_mul(CROSSFADE_RATE as int, FIX_ONE as int) == CROSSFADE_RATE,
{
    crate::fixed::lemma_fix_trunc_exact(CROSSFADE_RATE as int);
    assert(CROSSFADE_RATE * FIX_ONE == FIX_ONE * CROSSFADE_RATE);
}

proof fn lemma_crossfade_completes(k: nat)
    requires
        k <= 19,
    ensures
        crossfade_steps(k * CROSSFADE_RATE, ramp(), (20 - k) as nat) == (0int, Anim::Still),
    decreases 19 - k,
{
    let v = k * CROSSFADE_RATE;
    lemma_ramp_keeps_rate();
    let s = crossfade_step(v, ramp());
    if k == 19 {
        assert(s == (0int, Anim::Still));
        assert(crossfade_steps(0, Anim::Still, 0) == (0int, Anim::Still));
    } else {
        assert(s == ((k + 1) * CROSSFADE_RATE, ramp()));
        lemma_crossfade_completes(k + 1);
    }
}

proof fn lemma_crossfade_still_stays(n: nat)
    ensures
        crossfade_steps(0, Anim::Still, n) == (0int, Anim::Still),
    decreases n,
{
    if n > 0 {
        lemma_crossfade_still_stays((n - 1) as nat);
    }
}

proof fn lemma_crossfade_steps_split(value: int, anim: Anim, a: nat, b: nat)
    ensures
        crossfade_steps(value, anim, a + b) == ({
            let m = crossfade_steps(value, anim, a);
            crossfade_steps(m.0, m.1, b)
        }),
    decreases a,
{
    if a > 0 {
        let s = crossfade_step(value, anim);
        lemma_crossfade_steps_split(s.0, s.1, (a - 1) as nat, b);
        assert((a + b - 1) as nat == (a - 1) as nat + b);
    }
}

/// However many steps follow a switch, once there are 20 or more the
/// crossfade is at rest at 0.
pub proof fn lemma_crossfade_rests(n: nat)
    requires
        n >= 20,
    ensures
        crossfade_steps(0, ramp(), n) == (0int, Anim::Still),
{
    lemma_crossfade_completes(0);
    lemma_crossfade_steps_split(0, ramp(), 20, (n - 20) as nat);
    lemma_crossfade_still_stays((n - 20) as nat);
}

} // verus!
