//! The 3D engine's own state and decisions: the camera pose and which way it
//! steps for the keys held, and which domino a click selects.

use vstd::prelude::*;
use crate::scalar::{
    Matrix4, Point3, Scalar, Vector2, Vector3, GREATEST_BITS, ONE_BITS, TWO_BITS, ZERO_BITS,
};

pub mod canvas;

verus! {

/// Bit pattern of the field of view: 60 degrees in radians.
pub const FOV_BITS: u32 = 0x3F86_0A92;

/// Bit pattern of `0.02`, the length of one camera step in world units.
pub const CAMERA_STEP_BITS: u32 = 0x3CA3_D70A;

/// Bit pattern of `0.003`, the radians by which the view turns per pixel dragged.
pub const DRAG_SENSITIVITY_BITS: u32 = 0x3B44_9BA6;

/// Bit pattern of `0.1`, the distance of the near clipping plane.
pub const NEAR_PLANE_BITS: u32 = 0x3DCC_CCCD;

/// Bit pattern of `100.0`, the distance of the far clipping plane.
pub const FAR_PLANE_BITS: u32 = 0x42C8_0000;

/// Bit pattern of `-0.035`, the least local x of a domino's box.
pub const BOX_MIN_X_BITS: u32 = 0xBD0F_5C29;

/// Bit pattern of `0.035`, the greatest local x of a domino's box.
pub const BOX_MAX_X_BITS: u32 = 0x3D0F_5C29;

/// Bit pattern of `0.0`, the least local y of a domino's box.
pub const BOX_MIN_Y_BITS: u32 = 0x0000_0000;

/// Bit pattern of `0.14`, the greatest local y of a domino's box.
pub const BOX_MAX_Y_BITS: u32 = 0x3E0F_5C29;

/// Bit pattern of `-0.01`, the least local z of a domino's box.
pub const BOX_MIN_Z_BITS: u32 = 0xBC23_D70A;

/// Bit pattern of `0.01`, the greatest local z of a domino's box.
pub const BOX_MAX_Z_BITS: u32 = 0x3C23_D70A;

/// The per-frame bundle of matrices that the camera yields.
#[derive(Clone, Copy, PartialEq, Eq, Debug, Structural)]
pub struct RenderMatrices {
    pub perspective: Matrix4,
    pub view: Matrix4,
}

/// The inputs that move the camera, each held or not during a frame.
#[derive(Clone, Copy, PartialEq, Eq, Debug, Structural)]
pub struct MovementKeys {
    pub forward: bool,
    pub back: bool,
    pub left: bool,
    pub right: bool,
    /// The modifier that raises the camera.
    pub up: bool,
    /// The modifier that lowers the camera.
    pub down: bool,
}

/// A direction in which the camera steps.
#[derive(Clone, Copy, PartialEq, Eq, Debug, Structural)]
pub enum Axis {
    /// The look direction with its vertical part set to zero.
    Ahead,
    /// The unit vector to the right of the look direction.
    Right,
    /// The world's up direction.
    Up,
}

/// One step of the fixed length along an axis, or against it.
#[derive(Clone, Copy, PartialEq, Eq, Debug, Structural)]
pub struct Step {
    pub axis: Axis,
    /// Whether the step goes along the axis; else it goes against it.
    pub along: bool,
}

/// The step `Step { axis, along }` where `held`, else no step.
pub open spec fn step_if(held: bool, axis: Axis, along: bool) -> Seq<Step> {
    if held {
        seq![Step { axis, along }]
    } else {
        Seq::empty()
    }
}

/// The steps that the camera takes in a frame in which `keys` are held, in the
/// order in which they are applied: one for each held input.
pub open spec fn steps_of(keys: MovementKeys) -> Seq<Step> {
    step_if(keys.back, Axis::Ahead, false) + step_if(keys.forward, Axis::Ahead, true) + step_if(
        keys.right,
        Axis::Right,
        true,
    ) + step_if(keys.left, Axis::Right, false) + step_if(keys.up, Axis::Up, true) + step_if(
        keys.down,
        Axis::Up,
        false,
    )
}

/// What `step` adds to the count of steps along `axis`: 1 or -1 where it is
/// a step on that axis, else 0.
pub open spec fn signed(step: Step, axis: Axis) -> int {
    if step.axis != axis {
        0
    } else if step.along {
        1
    } else {
        -1
    }
}

/// The steps of `steps` along `axis` less those against it.
pub open spec fn net_steps(steps: Seq<Step>, axis: Axis) -> int
    decreases steps.len(),
{
    if steps.len() == 0 {
        0
    } else {
        net_steps(steps.drop_last(), axis) + signed(steps.last(), axis)
    }
}

/// The net steps along `axis` over the frames `frames`, each given by the keys
/// held in it.
pub open spec fn net_steps_over(frames: Seq<MovementKeys>, axis: Axis) -> int
    decreases frames.len(),
{
    if frames.len() == 0 {
        0
    } else {
        net_steps_over(frames.drop_last(), axis) + net_steps(steps_of(frames.last()), axis)
    }
}

/// 1 where `held`, else 0.
pub open spec fn count(held: bool) -> int {
    if held {
        1
    } else {
        0
    }
}

/// The keys of a frame in which forward is held and nothing else.
pub open spec fn forward_only() -> MovementKeys {
    MovementKeys { forward: true, back: false, left: false, right: false, up: false, down: false }
}

/// A domino as a click tests it: a box of fixed local extent, placed and
/// turned by the domino's model matrix.
#[derive(Clone, Copy, PartialEq, Eq, Debug, Structural)]
pub struct OrientedBox {
    /// The box's local origin in world space.
    pub center: Point3,
    /// The box's local x axis in world space.
    pub axis_x: Vector3,
    /// The box's local y axis in world space.
    pub axis_y: Vector3,
    /// The box's local z axis in world space.
    pub axis_z: Vector3,
    /// The least local coordinates of the box.
    pub min: Point3,
    /// The greatest local coordinates of the box.
    pub max: Point3,
}

impl OrientedBox {
    /// The box of the domino with the model matrix `model`: its origin is the
    /// matrix's translation column, its axes are the first three columns, each
    /// without its fourth entry, and its extent is that of every domino.
    pub open spec fn spec_of_model(model: Matrix4) -> OrientedBox {
        OrientedBox {
            center: Point3 { x: model.w.x, y: model.w.y, z: model.w.z },
            axis_x: Vector3 { x: model.x.x, y: model.x.y, z: model.x.z },
            axis_y: Vector3 { x: model.y.x, y: model.y.y, z: model.y.z },
            axis_z: Vector3 { x: model.z.x, y: model.z.y, z: model.z.z },
            min: Point3 {
                x: Scalar { bits: BOX_MIN_X_BITS },
                y: Scalar { bits: BOX_MIN_Y_BITS },
                z: Scalar { bits: BOX_MIN_Z_BITS },
            },
            max: Point3 {
                x: Scalar { bits: BOX_MAX_X_BITS },
                y: Scalar { bits: BOX_MAX_Y_BITS },
                z: Scalar { bits: BOX_MAX_Z_BITS },
            },
        }
    }

    /// The box of the domino with the model matrix `model`.
    #[verifier::when_used_as_spec(spec_of_model)]
    pub fn of_model(model: Matrix4) -> (b: OrientedBox)
        ensures
            b == OrientedBox::spec_of_model(model),
    {
        OrientedBox {
            center: Point3 { x: model.w.x, y: model.w.y, z: model.w.z },
            axis_x: Vector3 { x: model.x.x, y: model.x.y, z: model.x.z },
            axis_y: Vector3 { x: model.y.x, y: model.y.y, z: model.y.z },
            axis_z: Vector3 { x: model.z.x, y: model.z.y, z: model.z.z },
            min: Point3 {
                x: Scalar { bits: BOX_MIN_X_BITS },
                y: Scalar { bits: BOX_MIN_Y_BITS },
                z: Scalar { bits: BOX_MIN_Z_BITS },
            },
            max: Point3 {
                x: Scalar { bits: BOX_MAX_X_BITS },
                y: Scalar { bits: BOX_MAX_Y_BITS },
                z: Scalar { bits: BOX_MAX_Z_BITS },
            },
        }
    }
}

/// The two ray parameters at which a ray crosses the two planes of one of a
/// box's slabs, in no order.
#[derive(Clone, Copy, PartialEq, Eq, Debug, Structural)]
pub struct Crossing {
    pub first: Scalar,
    pub second: Scalar,
}

/// A ray's crossings of the three slabs of a box.
#[derive(Clone, Copy, PartialEq, Eq, Debug, Structural)]
pub struct Crossings {
    pub x: Crossing,
    pub y: Crossing,
    pub z: Crossing,
}

/// The ray parameters from `t_min` to `t_max`.
#[derive(Clone, Copy, PartialEq, Eq, Debug, Structural)]
pub struct Interval {
    pub t_min: Scalar,
    pub t_max: Scalar,
}

impl Crossing {
    /// The lesser of the two parameters, where the ray enters the slab.
    pub open spec fn entry(self) -> Scalar {
        if self.second.spec_lt(self.first) {
            self.second
        } else {
            self.first
        }
    }

    /// The greater of the two parameters, where the ray leaves the slab.
    pub open spec fn exit(self) -> Scalar {
        if self.second.spec_lt(self.first) {
            self.first
        } else {
            self.second
        }
    }

    /// Neither parameter is a NaN.
    pub open spec fn is_ordered(self) -> bool {
        !self.first.is_nan() && !self.second.is_nan()
    }
}

impl Interval {
    /// The parameters of the whole ray: from 0 to the greatest finite number.
    pub open spec fn spec_whole() -> Interval {
        Interval { t_min: Scalar { bits: ZERO_BITS }, t_max: Scalar { bits: GREATEST_BITS } }
    }

    /// The interval cut down to the slab of `crossing`: it ends at the slab's
    /// exit where that is less than its end, and starts at the slab's entry
    /// where that is greater than its start.
    pub open spec fn spec_narrowed(self, crossing: Crossing) -> Interval {
        Interval {
            t_min: if self.t_min.spec_lt(crossing.entry()) {
                crossing.entry()
            } else {
                self.t_min
            },
            t_max: if crossing.exit().spec_lt(self.t_max) {
                crossing.exit()
            } else {
                self.t_max
            },
        }
    }

    /// The interval holds no parameter: its end is less than its start.
    pub open spec fn spec_is_empty(self) -> bool {
        self.t_max.spec_lt(self.t_min)
    }

    /// The parameters of the whole ray.
    #[verifier::when_used_as_spec(spec_whole)]
    pub fn whole() -> (interval: Interval)
        ensures
            interval == Interval::spec_whole(),
    {
        Interval { t_min: Scalar { bits: ZERO_BITS }, t_max: Scalar { bits: GREATEST_BITS } }
    }

    /// The interval cut down to the slab of `crossing`.
    #[verifier::when_used_as_spec(spec_narrowed)]
    pub fn narrowed(self, crossing: Crossing) -> (interval: Interval)
        ensures
            interval == self.spec_narrowed(crossing),
    {
        let mut t1 = crossing.first;
        let mut t2 = crossing.second;
        if t2.lt(t1) {
            let tmp = t1;
            t1 = t2;
            t2 = tmp;
        }
        let mut interval = self;
        if t2.lt(interval.t_max) {
            interval.t_max = t2;
        }
        if interval.t_min.lt(t1) {
            interval.t_min = t1;
        }
        interval
    }

    /// Whether the interval holds no parameter.
    #[verifier::when_used_as_spec(spec_is_empty)]
    pub fn is_empty(self) -> (empty: bool)
        ensures
            empty == self.spec_is_empty(),
    {
        self.t_max.lt(self.t_min)
    }
}

/// The slab method: a ray with the given crossings hits the box if the whole
/// ray, cut down to one slab after the other, is empty after none of them.
pub open spec fn ray_hits(crossings: Crossings) -> bool {
    let after_x = Interval::spec_whole().spec_narrowed(crossings.x);
    let after_y = after_x.spec_narrowed(crossings.y);
    let after_z = after_y.spec_narrowed(crossings.z);
    !after_x.spec_is_empty() && !after_y.spec_is_empty() && !after_z.spec_is_empty()
}

/// The greater of two ranks.
pub open spec fn later(a: int, b: int) -> int {
    if a < b {
        b
    } else {
        a
    }
}

/// The lesser of two ranks.
pub open spec fn earlier(a: int, b: int) -> int {
    if b < a {
        b
    } else {
        a
    }
}

/// Where the ray is inside all three slabs at last: at the latest of its three
/// entries, or at its start, 0, if it has entered them all before.
pub open spec fn last_entry(crossings: Crossings) -> int {
    later(
        0,
        later(
            crossings.x.entry().rank(),
            later(crossings.y.entry().rank(), crossings.z.entry().rank()),
        ),
    )
}

/// Where the ray leaves the first of the three slabs: at the earliest of its
/// three exits, or at the greatest finite number if it leaves none before.
pub open spec fn first_exit(crossings: Crossings) -> int {
    earlier(
        GREATEST_BITS as int,
        earlier(
            crossings.x.exit().rank(),
            earlier(crossings.y.exit().rank(), crossings.z.exit().rank()),
        ),
    )
}

/// Where no crossing is a NaN, the slab method finds a hit exactly if the ray
/// is inside all three slabs at once somewhere: if it has entered the last
/// slab no later than it leaves the first.
pub proof fn lemma_ray_hits_where_slabs_overlap(crossings: Crossings)
    requires
        crossings.x.is_ordered(),
        crossings.y.is_ordered(),
        crossings.z.is_ordered(),
    ensures
        ray_hits(crossings) <==> last_entry(crossings) <= first_exit(crossings),
{
    let whole = Interval::spec_whole();
    let after_x = whole.spec_narrowed(crossings.x);
    let after_y = after_x.spec_narrowed(crossings.y);
    let after_z = after_y.spec_narrowed(crossings.z);
    assert(whole.t_min.rank() == 0 && !whole.t_min.is_nan());
    assert(whole.t_max.rank() == GREATEST_BITS as int && !whole.t_max.is_nan());
    assert(after_x.t_min.rank() == later(0, crossings.x.entry().rank()));
    assert(after_x.t_max.rank() == earlier(GREATEST_BITS as int, crossings.x.exit().rank()));
    assert(after_y.t_min.rank() == later(after_x.t_min.rank(), crossings.y.entry().rank()));
    assert(after_y.t_max.rank() == earlier(after_x.t_max.rank(), crossings.y.exit().rank()));
    assert(after_z.t_min.rank() == later(after_y.t_min.rank(), crossings.z.entry().rank()));
    assert(after_z.t_max.rank() == earlier(after_y.t_max.rank(), crossings.z.exit().rank()));
}

/// Whether a ray with the given crossings hits the box.
pub fn slab_test(crossings: &Crossings) -> (hit: bool)
    ensures
        hit == ray_hits(*crossings),
{
    let after_x = Interval::whole().narrowed(crossings.x);
    if after_x.is_empty() {
        return false;
    }
    let after_y = after_x.narrowed(crossings.y);
    if after_y.is_empty() {
        return false;
    }
    let after_z = after_y.narrowed(crossings.z);
    !after_z.is_empty()
}

/// The box of entry `j` of `model_mats` is missed by the ray whose crossings
/// `cross` computes.
pub open spec fn misses<F: Fn(&OrientedBox) -> Crossings>(
    cross: F,
    model_mats: Seq<(u32, Matrix4)>,
    j: int,
) -> bool {
    exists|c: Crossings|
        #[trigger] call_ensures(cross, (&OrientedBox::spec_of_model(model_mats[j].1),), c)
            && !ray_hits(c)
}

/// The box of entry `i` of `model_mats` is hit by the ray whose crossings
/// `cross` computes.
pub open spec fn hits<F: Fn(&OrientedBox) -> Crossings>(
    cross: F,
    model_mats: Seq<(u32, Matrix4)>,
    i: int,
) -> bool {
    exists|c: Crossings|
        #[trigger] call_ensures(cross, (&OrientedBox::spec_of_model(model_mats[i].1),), c)
            && ray_hits(c)
}

/// `selection` is what a click selects among `model_mats` for the ray whose
/// crossings `cross` computes: the id of the first entry whose box is hit, or
/// nothing where every box is missed. Entries after the first hit are not
/// tested.
pub open spec fn picks<F: Fn(&OrientedBox) -> Crossings>(
    cross: F,
    model_mats: Seq<(u32, Matrix4)>,
    selection: Option<u32>,
) -> bool {
    match selection {
        Some(id) => exists|i: int|
            0 <= i < model_mats.len() && model_mats[i].0 == id && #[trigger] hits(cross, model_mats, i)
                && forall|j: int| 0 <= j < i ==> #[trigger] misses(cross, model_mats, j),
        None => forall|j: int| 0 <= j < model_mats.len() ==> #[trigger] misses(cross, model_mats, j),
    }
}

/// The engine's state: where the camera is, where it looks, and which domino
/// is selected.
#[derive(Clone, Copy, PartialEq, Eq, Debug, Structural)]
pub struct UI3d {
    pub cam_pos: Point3,
    /// Yaw in `x` and pitch in `y`, in radians.
    pub cam_angle: Vector2,
    pub fov: Scalar,
    pub selected_domino_id: Option<u32>,
}

impl UI3d {
    /// The engine's state at start: the camera at (1, 2, 2) with yaw and pitch
    /// 0, a field of view of 60 degrees, and nothing selected.
    pub open spec fn spec_new() -> UI3d {
        UI3d {
            cam_pos: Point3 {
                x: Scalar { bits: ONE_BITS },
                y: Scalar { bits: TWO_BITS },
                z: Scalar { bits: TWO_BITS },
            },
            cam_angle: Vector2 { x: Scalar { bits: ZERO_BITS }, y: Scalar { bits: ZERO_BITS } },
            fov: Scalar { bits: FOV_BITS },
            selected_domino_id: None,
        }
    }

    /// This state with `selection` as its selection.
    pub open spec fn with_selection(self, selection: Option<u32>) -> UI3d {
        UI3d { selected_domino_id: selection, ..self }
    }

    /// The engine's state at start.
    #[verifier::when_used_as_spec(spec_new)]
    pub fn new() -> (ui: UI3d)
        ensures
            ui == UI3d::spec_new(),
    {
        UI3d {
            cam_pos: Point3 {
                x: Scalar { bits: ONE_BITS },
                y: Scalar { bits: TWO_BITS },
                z: Scalar { bits: TWO_BITS },
            },
            cam_angle: Vector2 { x: Scalar { bits: ZERO_BITS }, y: Scalar { bits: ZERO_BITS } },
            fov: Scalar { bits: FOV_BITS },
            selected_domino_id: None,
        }
    }

    /// The steps that the camera takes in a frame in which `keys` are held.
    /// The caller moves the camera by each in turn.
    pub fn camera_steps(keys: &MovementKeys) -> (steps: Vec<Step>)
        ensures
            steps@ == steps_of(*keys),
    {
        let mut steps: Vec<Step> = Vec::new();
        if keys.back {
            steps.push(Step { axis: Axis::Ahead, along: false });
        }
        if keys.forward {
            steps.push(Step { axis: Axis::Ahead, along: true });
        }
        if keys.right {
            steps.push(Step { axis: Axis::Right, along: true });
        }
        if keys.left {
            steps.push(Step { axis: Axis::Right, along: false });
        }
        if keys.up {
            steps.push(Step { axis: Axis::Up, along: true });
        }
        if keys.down {
            steps.push(Step { axis: Axis::Up, along: false });
        }
        assert(steps@ =~= steps_of(*keys));
        steps
    }

    /// A click: tests the boxes of `model_mats` in order against the click's
    /// ray, whose crossings of a box's slabs `cross` computes, and selects the
    /// first domino whose box is hit. Where no box is hit, nothing is selected
    /// after it.
    pub fn get_clicked_ray_obb_intersection<F: Fn(&OrientedBox) -> Crossings>(
        &mut self,
        model_mats: &Vec<(u32, Matrix4)>,
        cross: F,
    )
        requires
            forall|j: int|
                0 <= j < model_mats@.len() ==> call_requires(
                    cross,
                    (&OrientedBox::spec_of_model(#[trigger] model_mats@[j].1),),
                ),
        ensures
            picks(cross, model_mats@, final(self).selected_domino_id),
            *final(self) == old(self).with_selection(final(self).selected_domino_id),
    {
        let mut selection: Option<u32> = None;
        let mut i: usize = 0;
        while i < model_mats.len()
            invariant_except_break
                i <= model_mats.len(),
                selection is None,
                forall|j: int| 0 <= j < i ==> #[trigger] misses(cross, model_mats@, j),
            invariant
                forall|j: int|
                    0 <= j < model_mats@.len() ==> call_requires(
                        cross,
                        (&OrientedBox::spec_of_model(#[trigger] model_mats@[j].1),),
                    ),
            ensures
                picks(cross, model_mats@, selection),
            decreases model_mats.len() - i,
        {
            let (id, model) = model_mats[i];
            let b = OrientedBox::of_model(model);
            let crossings = cross(&b);
            if slab_test(&crossings) {
                selection = Some(id);
                assert(hits(cross, model_mats@, i as int));
                break;
            }
            assert(misses(cross, model_mats@, i as int));
            i += 1;
        }
        self.selected_domino_id = selection;
    }
}

/// Appending one step adds its sign to the net count.
proof fn lemma_net_steps_push(steps: Seq<Step>, step: Step, axis: Axis)
    ensures
        net_steps(steps.push(step), axis) == net_steps(steps, axis) + signed(step, axis),
{
    assert(steps.push(step).drop_last() =~= steps);
}

/// Appending the step of an input adds it to the net count if the input is held.
proof fn lemma_net_steps_step_if(steps: Seq<Step>, held: bool, on: Axis, along: bool, axis: Axis)
    ensures
        net_steps(steps + step_if(held, on, along), axis) == net_steps(steps, axis) + (if held {
            signed(Step { axis: on, along }, axis)
        } else {
            0
        }),
{
    if held {
        assert(steps + step_if(held, on, along) =~= steps.push(Step { axis: on, along }));
        lemma_net_steps_push(steps, Step { axis: on, along }, axis);
    } else {
        assert(steps + step_if(held, on, along) =~= steps);
    }
}

/// Simultaneous inputs accumulate: in one frame the camera makes, along each
/// axis, one step for the input that moves along it, if held, less one for
/// the input that moves against it, if held.
pub proof fn lemma_steps_accumulate(keys: MovementKeys)
    ensures
        net_steps(steps_of(keys), Axis::Ahead) == count(keys.forward) - count(keys.back),
        net_steps(steps_of(keys), Axis::Right) == count(keys.right) - count(keys.left),
        net_steps(steps_of(keys), Axis::Up) == count(keys.up) - count(keys.down),
{
    let s0 = Seq::<Step>::empty();
    let s1 = s0 + step_if(keys.back, Axis::Ahead, false);
    let s2 = s1 + step_if(keys.forward, Axis::Ahead, true);
    let s3 = s2 + step_if(keys.right, Axis::Right, true);
    let s4 = s3 + step_if(keys.left, Axis::Right, false);
    let s5 = s4 + step_if(keys.up, Axis::Up, true);
    let s6 = s5 + step_if(keys.down, Axis::Up, false);
    assert(s1 =~= step_if(keys.back, Axis::Ahead, false));
    assert(s6 == steps_of(keys));
    assert forall|axis: Axis|
        net_steps(s6, axis) == (if keys.back {
            signed(Step { axis: Axis::Ahead, along: false }, axis)
        } else {
            0
        }) + (if keys.forward {
            signed(Step { axis: Axis::Ahead, along: true }, axis)
        } else {
            0
        }) + (if keys.right {
            signed(Step { axis: Axis::Right, along: true }, axis)
        } else {
            0
        }) + (if keys.left {
            signed(Step { axis: Axis::Right, along: false }, axis)
        } else {
            0
        }) + (if keys.up {
            signed(Step { axis: Axis::Up, along: true }, axis)
        } else {
            0
        }) + (if keys.down {
            signed(Step { axis: Axis::Up, along: false }, axis)
        } else {
            0
        }) by {
        lemma_net_steps_step_if(s0, keys.back, Axis::Ahead, false, axis);
        lemma_net_steps_step_if(s1, keys.forward, Axis::Ahead, true, axis);
        lemma_net_steps_step_if(s2, keys.right, Axis::Right, true, axis);
        lemma_net_steps_step_if(s3, keys.left, Axis::Right, false, axis);
        lemma_net_steps_step_if(s4, keys.up, Axis::Up, true, axis);
        lemma_net_steps_step_if(s5, keys.down, Axis::Up, false, axis);
    }
}

/// Movement does not depend on the frame rate: over any number of frames in
/// which forward is held and nothing else, the camera makes one step ahead
/// per frame and none along another axis.
pub proof fn lemma_forward_steps_add_up(frames: Seq<MovementKeys>)
    requires
        forall|i: int| 0 <= i < frames.len() ==> frames[i] == forward_only(),
    ensures
        net_steps_over(frames, Axis::Ahead) == frames.len(),
        net_steps_over(frames, Axis::Right) == 0,
        net_steps_over(frames, Axis::Up) == 0,
    decreases frames.len(),
{
    if frames.len() > 0 {
        let rest = frames.drop_last();
        assert forall|i: int| 0 <= i < rest.len() implies rest[i] == forward_only() by {
            assert(rest[i] == frames[i]);
        }
        lemma_forward_steps_add_up(rest);
        lemma_steps_accumulate(frames.last());
    }
}

} // verus!
