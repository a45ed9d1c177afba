//! What is submitted to the graphics layer each frame: the per-instance
//! buffer and how its attributes are bound, the shared uniforms, and the draws.

use vstd::prelude::*;
use crate::scalar::{Matrix4, Point3, Scalar, Vector4, MINUS_ONE_BITS, TWO_BITS, ZERO_BITS};
use crate::simulator::{ids_of, Domino, Pose, Simulator};
use crate::ui_3d::RenderMatrices;

verus! {

/// The numbers of one instance in the buffer: 16 of the model matrix, 16 of
/// the rotation matrix, and the id.
pub const SCALARS_PER_INSTANCE: usize = 33;

/// The bytes from one instance to the next in the buffer.
pub const INSTANCE_STRIDE: i32 = 132;

/// The bytes from one vertex to the next in a vertex buffer: a position and a
/// normal of three numbers each.
pub const VERTEX_STRIDE: i32 = 24;

/// The first attribute slot of the model matrix. Its columns take this slot and
/// the next three, those of the rotation matrix the four after, the id the
/// slot after those.
pub const INSTANCE_LOCATION: u32 = 3;

/// The vertices of a draw: the 12 triangles of a box.
pub const VERTEX_COUNT: i32 = 36;

/// The name of the uniform that holds the view matrix.
pub const VIEW_MAT: &'static str = "view_mat";

/// The name of the uniform that holds the projection matrix.
pub const PERSPECTIVE_MAT: &'static str = "perspective_mat";

/// The name of the uniform that holds the light's position.
pub const LIGHT_POS: &'static str = "lightPos";

/// The name of the uniform that holds the camera's position.
pub const CAM_POS: &'static str = "camPos";

/// The name of the uniform that holds the selected id.
pub const SELECTED_ID: &'static str = "selected_id";

/// How the shading stage fetches one attribute from a buffer.
#[derive(Clone, Copy, PartialEq, Eq, Debug, Structural)]
pub struct AttributeBinding {
    /// The attribute slot.
    pub slot: u32,
    /// How many numbers the attribute has.
    pub components: i32,
    /// The bytes from one element's attribute to the next element's.
    pub stride: i32,
    /// The bytes from an element's start to its attribute.
    pub offset: i32,
    /// 0 where the attribute advances with each vertex, 1 where it advances
    /// with each instance.
    pub divisor: u32,
}

/// The values of the uniforms that every draw of a frame shares.
#[derive(Clone, Copy, PartialEq, Eq, Debug, Structural)]
pub struct Uniforms {
    pub light_pos: Point3,
    pub view_mat: Matrix4,
    pub perspective_mat: Matrix4,
    pub cam_pos: Point3,
    /// The selected id as a number, or -1 where nothing is selected. The
    /// shading stage recolours the instance whose id attribute equals it.
    pub selected_id: Scalar,
}

/// One draw of 12 triangles.
#[derive(Clone, Copy, PartialEq, Eq, Debug, Structural)]
pub enum Draw {
    /// `instances` copies of the vertices from `first` on, `count` of them.
    Instanced { first: i32, count: i32, instances: i32 },
    /// The vertices from `first` on, `count` of them, once.
    Arrays { first: i32, count: i32 },
}

/// What one object submits in a frame: the uniforms, then the draw.
#[derive(Clone, Copy, PartialEq, Eq, Debug, Structural)]
pub struct Pass {
    pub uniforms: Uniforms,
    pub draw: Draw,
}

/// The per-instance buffer of a frame and the bindings of its attributes.
pub struct InstanceUpload {
    pub data: Vec<Scalar>,
    pub attributes: Vec<AttributeBinding>,
}

/// What a frame submits: the per-instance data, then the passes of the
/// dominoes, of the light marker and of the ground plane, in this order.
pub struct Frame {
    pub instances: InstanceUpload,
    pub dominoes: Pass,
    pub light: Pass,
    pub ground: Pass,
}

/// A drawable object: one that is drawn in many instances, of which it keeps
/// the count, or one that is drawn once.
#[derive(Clone, Copy, PartialEq, Eq, Debug, Structural)]
pub enum Renderable {
    Instanced { render_count: usize },
    Single,
}

/// The three objects of the scene's picture: the dominoes, drawn in
/// instances, and the light marker and the ground plane, each drawn once.
pub struct Canvas {
    domino_obj: Renderable,
    light_obj: Renderable,
    ground_obj: Renderable,
}

/// The light's position: the point (0, 2, 0) above the scene.
pub open spec fn light_position() -> Point3 {
    Point3 { x: Scalar { bits: ZERO_BITS }, y: Scalar { bits: TWO_BITS }, z: Scalar { bits: ZERO_BITS } }
}

/// The selected id as the uniform holds it: the id as a number, or -1 where
/// nothing is selected.
pub open spec fn selected_id_uniform(selected_id: Option<u32>) -> Scalar {
    match selected_id {
        Some(id) => Scalar::spec_from_u32(id),
        None => Scalar { bits: MINUS_ONE_BITS },
    }
}

/// The uniforms of a frame with the given matrices, positions and selection.
pub open spec fn uniforms_of(
    render_mats: RenderMatrices,
    cam_pos: Point3,
    light_pos: Point3,
    selected_id: Option<u32>,
) -> Uniforms {
    Uniforms {
        light_pos,
        view_mat: render_mats.view,
        perspective_mat: render_mats.perspective,
        cam_pos,
        selected_id: selected_id_uniform(selected_id),
    }
}

/// The draw of an object: of all its instances at once where it is
/// instanced, and else of the one object.
pub open spec fn draw_of(object: Renderable) -> Draw {
    match object {
        Renderable::Instanced { render_count } => Draw::Instanced {
            first: 0,
            count: 36,
            instances: render_count as i32,
        },
        Renderable::Single => Draw::Arrays { first: 0, count: 36 },
    }
}

/// `model_mats` and `rot_mats` are what `transform` makes of the dominoes of
/// `scene`: one entry each per domino, in the order of the scene, the domino's
/// id beside its model matrix.
pub open spec fn transforms_of<F: Fn(&Pose) -> (Matrix4, Matrix4)>(
    transform: F,
    scene: Seq<Domino>,
    model_mats: Seq<(u32, Matrix4)>,
    rot_mats: Seq<Matrix4>,
) -> bool {
    &&& model_mats.len() == scene.len()
    &&& rot_mats.len() == scene.len()
    &&& forall|i: int|
        0 <= i < scene.len() ==> (#[trigger] model_mats[i]).0 == scene[i].id && call_ensures(
            transform,
            (&scene[i].pose,),
            (model_mats[i].1, rot_mats[i]),
        )
}

/// The ids of `model_mats`, in its order.
pub open spec fn model_ids(model_mats: Seq<(u32, Matrix4)>) -> Seq<u32> {
    Seq::new(model_mats.len(), |i: int| model_mats[i].0)
}

/// `frame` is what is submitted for the instances `model_mats` and `rot_mats`
/// under the given matrices, camera position and selection.
pub open spec fn is_frame_of(
    frame: Frame,
    model_mats: Seq<(u32, Matrix4)>,
    rot_mats: Seq<Matrix4>,
    render_mats: RenderMatrices,
    cam_pos: Point3,
    selected_id: Option<u32>,
) -> bool {
    let uniforms = uniforms_of(render_mats, cam_pos, light_position(), selected_id);
    &&& frame.instances.data@ == packed(model_mats, rot_mats)
    &&& frame.instances.attributes@ == instance_attributes_of(INSTANCE_LOCATION)
    &&& frame.dominoes == Pass {
        uniforms,
        draw: Draw::Instanced { first: 0, count: 36, instances: model_mats.len() as i32 },
    }
    &&& frame.light == Pass { uniforms, draw: Draw::Arrays { first: 0, count: 36 } }
    &&& frame.ground == Pass { uniforms, draw: Draw::Arrays { first: 0, count: 36 } }
}

/// The numbers of one instance, in buffer order: the model matrix and the
/// rotation matrix, each column after column, and then the id as a number.
pub open spec fn instance_record(id: u32, model: Matrix4, rotation: Matrix4) -> Seq<Scalar> {
    model.entries() + rotation.entries() + seq![Scalar::spec_from_u32(id)]
}

/// How many instances a buffer of `model_mats` and `rot_mats` holds: as many as
/// both lists have.
pub open spec fn instance_count(model_mats: Seq<(u32, Matrix4)>, rot_mats: Seq<Matrix4>) -> nat {
    if model_mats.len() <= rot_mats.len() {
        model_mats.len()
    } else {
        rot_mats.len()
    }
}

/// The per-instance buffer for `model_mats` and `rot_mats`: the record of
/// instance 0, then that of instance 1, and so on.
pub open spec fn packed(model_mats: Seq<(u32, Matrix4)>, rot_mats: Seq<Matrix4>) -> Seq<Scalar> {
    Seq::new(
        33 * instance_count(model_mats, rot_mats),
        |k: int| instance_record(model_mats[k / 33].0, model_mats[k / 33].1, rot_mats[k / 33])[k % 33],
    )
}

/// Binding `k` of the nine per-instance attributes from the slot `location` on:
/// four numbers each for the eight matrix columns, one for the id, each 16
/// bytes after the one before and advancing once per instance.
pub open spec fn instance_attribute(location: u32, k: int) -> AttributeBinding {
    AttributeBinding {
        slot: (location + k) as u32,
        components: if k < 8 {
            4
        } else {
            1
        },
        stride: 132,
        offset: (16 * k) as i32,
        divisor: 1,
    }
}

/// The bindings of the per-instance attributes from the slot `location` on.
pub open spec fn instance_attributes_of(location: u32) -> Seq<AttributeBinding> {
    Seq::new(9, |k: int| instance_attribute(location, k))
}

/// The bindings of the two per-vertex attributes: the position in slot 0 and
/// the normal in slot 1, three numbers each.
pub open spec fn vertex_attributes_of() -> Seq<AttributeBinding> {
    seq![
        AttributeBinding { slot: 0, components: 3, stride: 24, offset: 0, divisor: 0 },
        AttributeBinding { slot: 1, components: 3, stride: 24, offset: 12, divisor: 0 },
    ]
}

/// What the shading stage fetches from `buffer` for `instance` under
/// `binding`: the binding's count of numbers from where the instance's
/// attribute starts. There is nothing to fetch where the binding does not
/// advance per instance, does not start on a whole number, or reaches past
/// the end of the buffer.
pub open spec fn fetched(buffer: Seq<Scalar>, instance: nat, binding: AttributeBinding) -> Option<
    Seq<Scalar>,
> {
    let start = (instance * binding.stride + binding.offset) / 4;
    if binding.divisor == 1 && binding.stride >= 0 && binding.offset >= 0 && binding.components >= 0
        && binding.stride % 4 == 0 && binding.offset % 4 == 0 && start + binding.components
        <= buffer.len() {
        Some(buffer.subrange(start, start + binding.components))
    } else {
        None
    }
}

/// Appends the four entries of `column` to `buffer`.
fn push_column(buffer: &mut Vec<Scalar>, column: Vector4)
    ensures
        final(buffer)@ == old(buffer)@ + column.entries(),
{
    buffer.push(column.x);
    buffer.push(column.y);
    buffer.push(column.z);
    buffer.push(column.w);
    assert(buffer@ =~= old(buffer)@ + column.entries());
}

/// Appends the sixteen entries of `matrix`, column after column, to `buffer`.
fn push_matrix(buffer: &mut Vec<Scalar>, matrix: &Matrix4)
    ensures
        final(buffer)@ == old(buffer)@ + matrix.entries(),
{
    push_column(buffer, matrix.x);
    push_column(buffer, matrix.y);
    push_column(buffer, matrix.z);
    push_column(buffer, matrix.w);
    assert(buffer@ =~= old(buffer)@ + matrix.entries());
}

/// The per-instance buffer for the model matrices with their ids and the
/// rotation matrices: for each instance 16 + 16 + 1 numbers, instances in the
/// order of the lists.
pub fn pack_instances(model_mats: &Vec<(u32, Matrix4)>, rot_mats: &Vec<Matrix4>) -> (buffer: Vec<
    Scalar,
>)
    ensures
        buffer@ == packed(model_mats@, rot_mats@),
{
    let count = if model_mats.len() <= rot_mats.len() {
        model_mats.len()
    } else {
        rot_mats.len()
    };
    let mut buffer: Vec<Scalar> = Vec::new();
    let mut i: usize = 0;
    while i < count
        invariant
            i <= count,
            count == instance_count(model_mats@, rot_mats@),
            buffer@.len() == 33 * i,
            forall|k: int|
                0 <= k < 33 * i ==> buffer@[k] == instance_record(
                    model_mats@[k / 33].0,
                    model_mats@[k / 33].1,
                    rot_mats@[k / 33],
                )[k % 33],
        decreases count - i,
    {
        let ghost before = buffer@;
        let (id, model) = model_mats[i];
        let rotation = rot_mats[i];
        push_matrix(&mut buffer, &model);
        push_matrix(&mut buffer, &rotation);
        buffer.push(Scalar::from_u32(id));
        proof {
            let record = instance_record(id, model, rotation);
            assert(buffer@ =~= before + record);
            assert(record.len() == 33);
            assert forall|k: int| 0 <= k < 33 * (i + 1) implies buffer@[k] == instance_record(
                model_mats@[k / 33].0,
                model_mats@[k / 33].1,
                rot_mats@[k / 33],
            )[k % 33] by {
                if k >= 33 * i {
                    assert(k / 33 == i);
                    assert(k % 33 == k - 33 * i);
                    assert(buffer@[k] == record[k - 33 * i]);
                } else {
                    assert(buffer@[k] == before[k]);
                }
            }
        }
        i += 1;
    }
    assert(buffer@ =~= packed(model_mats@, rot_mats@));
    buffer
}

/// The bindings of the nine per-instance attributes from the slot `location`
/// on, in slot order.
pub fn instance_attributes(location: u32) -> (bindings: Vec<AttributeBinding>)
    requires
        location + 8 <= u32::MAX,
    ensures
        bindings@ == instance_attributes_of(location),
{
    let mut bindings: Vec<AttributeBinding> = Vec::new();
    let mut k: u32 = 0;
    while k < 9
        invariant
            k <= 9,
            location + 8 <= u32::MAX,
            bindings@.len() == k,
            forall|j: int| 0 <= j < k ==> bindings@[j] == instance_attribute(location, j),
        decreases 9 - k,
    {
        let components: i32 = if k < 8 {
            4
        } else {
            1
        };
        let offset: i32 = 16 * (k as i32);
        bindings.push(
            AttributeBinding { slot: location + k, components, stride: INSTANCE_STRIDE, offset, divisor: 1 },
        );
        k += 1;
    }
    assert(bindings@ =~= instance_attributes_of(location));
    bindings
}

/// The bindings of the two per-vertex attributes of every vertex buffer.
pub fn vertex_attributes() -> (bindings: Vec<AttributeBinding>)
    ensures
        bindings@ == vertex_attributes_of(),
{
    let mut bindings: Vec<AttributeBinding> = Vec::new();
    bindings.push(
        AttributeBinding { slot: 0, components: 3, stride: VERTEX_STRIDE, offset: 0, divisor: 0 },
    );
    bindings.push(
        AttributeBinding { slot: 1, components: 3, stride: VERTEX_STRIDE, offset: 12, divisor: 0 },
    );
    assert(bindings@ =~= vertex_attributes_of());
    bindings
}

/// What the shading stage fetches from `buffer` for `instance` under
/// `binding`, or `None` where there is nothing to fetch.
pub fn read_attribute(buffer: &Vec<Scalar>, instance: usize, binding: &AttributeBinding) -> (read:
    Option<Vec<Scalar>>)
    ensures
        read is Some <==> fetched(buffer@, instance as nat, *binding) is Some,
        read matches Some(numbers) ==> numbers@ == fetched(buffer@, instance as nat, *binding)->0,
{
    if binding.divisor != 1 || binding.stride < 0 || binding.offset < 0 || binding.components < 0
        || binding.stride % 4 != 0 || binding.offset % 4 != 0 {
        return None;
    }
    let stride = (binding.stride / 4) as usize;
    let offset = (binding.offset / 4) as usize;
    let components = binding.components as usize;
    let len = buffer.len();
    proof {
        assert(instance * binding.stride + binding.offset == 4 * (instance * stride + offset))
            by (nonlinear_arith)
            requires
                binding.stride == 4 * stride,
                binding.offset == 4 * offset,
        ;
        assert(instance * stride >= 0) by (nonlinear_arith);
        if stride != 0 {
            vstd::arithmetic::div_mod::lemma_fundamental_div_mod(len as int, stride as int);
            vstd::arithmetic::div_mod::lemma_mod_bound(len as int, stride as int);
        }
    }
    // The start is instance * stride + offset; it is compared with the length
    // step by step, so that no product or sum leaves the range of the type.
    if stride != 0 && instance > len / stride {
        proof {
            assert(instance * stride > len) by (nonlinear_arith)
                requires
                    instance >= len / stride + 1,
                    stride > 0,
                    len == stride * (len / stride) + len % stride,
                    len % stride < stride,
            ;
        }
        return None;
    }
    proof {
        if stride != 0 {
            assert(instance * stride <= len) by (nonlinear_arith)
                requires
                    instance <= len / stride,
                    stride > 0,
                    len == stride * (len / stride) + len % stride,
                    len % stride >= 0,
            ;
        } else {
            assert(instance * stride == 0) by (nonlinear_arith)
                requires
                    stride == 0,
            ;
        }
    }
    let base = instance * stride;
    if offset > len - base {
        return None;
    }
    let start = base + offset;
    if components > len - start {
        return None;
    }
    let mut numbers: Vec<Scalar> = Vec::new();
    let mut j: usize = 0;
    while j < components
        invariant
            j <= components,
            buffer@.len() == len,
            start + components <= buffer@.len(),
            numbers@ == buffer@.subrange(start as int, start + j),
        decreases components - j,
    {
        numbers.push(buffer[start + j]);
        assert(numbers@ =~= buffer@.subrange(start as int, start + j + 1));
        j += 1;
    }
    Some(numbers)
}

impl Renderable {
    /// Whether the object is drawn in instances.
    pub fn is_instanced(&self) -> (instanced: bool)
        ensures
            instanced <==> *self is Instanced,
    {
        match self {
            Renderable::Instanced { .. } => true,
            Renderable::Single => false,
        }
    }

    /// The uniforms that the object sets before its draw.
    pub fn fill_vbo(
        &self,
        render_mats: &RenderMatrices,
        cam_pos: Point3,
        light_pos: Point3,
        selected_id: Option<u32>,
    ) -> (uniforms: Uniforms)
        ensures
            uniforms == uniforms_of(*render_mats, cam_pos, light_pos, selected_id),
    {
        let selected = match selected_id {
            Some(id) => Scalar::from_u32(id),
            None => Scalar { bits: MINUS_ONE_BITS },
        };
        Uniforms {
            light_pos,
            view_mat: render_mats.view,
            perspective_mat: render_mats.perspective,
            cam_pos,
            selected_id: selected,
        }
    }

    /// The per-instance data of an instanced object for the given instances,
    /// of which the object then keeps the count.
    pub fn fill_i_vbo(&mut self, model_mats: &Vec<(u32, Matrix4)>, rot_mats: &Vec<Matrix4>) -> (upload:
        InstanceUpload)
        requires
            *old(self) is Instanced,
        ensures
            *final(self) == (Renderable::Instanced { render_count: model_mats@.len() as usize }),
            upload.data@ == packed(model_mats@, rot_mats@),
            upload.attributes@ == instance_attributes_of(INSTANCE_LOCATION),
    {
        *self = Renderable::Instanced { render_count: model_mats.len() };
        InstanceUpload {
            data: pack_instances(model_mats, rot_mats),
            attributes: instance_attributes(INSTANCE_LOCATION),
        }
    }

    /// What the object submits in a frame.
    pub fn paint(
        &self,
        render_mats: &RenderMatrices,
        cam_pos: Point3,
        light_pos: Point3,
        selected_id: Option<u32>,
    ) -> (pass: Pass)
        requires
            *self matches Renderable::Instanced { render_count } ==> render_count <= i32::MAX,
        ensures
            pass.uniforms == uniforms_of(*render_mats, cam_pos, light_pos, selected_id),
            pass.draw == draw_of(*self),
    {
        let uniforms = self.fill_vbo(render_mats, cam_pos, light_pos, selected_id);
        let draw = match self {
            Renderable::Instanced { render_count } => Draw::Instanced {
                first: 0,
                count: VERTEX_COUNT,
                instances: *render_count as i32,
            },
            Renderable::Single => Draw::Arrays { first: 0, count: VERTEX_COUNT },
        };
        Pass { uniforms, draw }
    }
}

impl Canvas {
    #[verifier::type_invariant]
    spec fn inv(self) -> bool {
        &&& self.domino_obj is Instanced
        &&& self.light_obj is Single
        &&& self.ground_obj is Single
    }

    /// How many instances the dominoes were last submitted in.
    pub closed spec fn spec_render_count(&self) -> usize {
        self.domino_obj->render_count
    }

    /// The three objects before the first frame: no instance counted yet.
    pub fn new() -> (canvas: Canvas)
        ensures
            canvas.spec_render_count() == 0,
    {
        Canvas {
            domino_obj: Renderable::Instanced { render_count: 0 },
            light_obj: Renderable::Single,
            ground_obj: Renderable::Single,
        }
    }

    /// The object of the dominoes: instanced, with the count of the last frame.
    pub fn domino_obj(&self) -> (object: Renderable)
        ensures
            object == (Renderable::Instanced { render_count: self.spec_render_count() }),
    {
        proof {
            use_type_invariant(self);
        }
        self.domino_obj
    }

    /// The object of the light marker, which is drawn once.
    pub fn light_obj(&self) -> (object: Renderable)
        ensures
            object == Renderable::Single,
    {
        proof {
            use_type_invariant(self);
        }
        self.light_obj
    }

    /// The object of the ground plane, which is drawn once.
    pub fn ground_obj(&self) -> (object: Renderable)
        ensures
            object == Renderable::Single,
    {
        proof {
            use_type_invariant(self);
        }
        self.ground_obj
    }

    /// For each domino of the scene, in the order of the scene, its id with
    /// its model matrix, and its rotation matrix, as `transform` gives the two
    /// for the domino's pose.
    pub fn get_model_mats_list<F: Fn(&Pose) -> (Matrix4, Matrix4)>(
        simulator: &Simulator,
        transform: &F,
    ) -> (lists: (Vec<(u32, Matrix4)>, Vec<Matrix4>))
        requires
            forall|i: int|
                0 <= i < simulator@.len() ==> call_requires(
                    *transform,
                    (&(#[trigger] simulator@[i]).pose,),
                ),
        ensures
            transforms_of(*transform, simulator@, lists.0@, lists.1@),
            model_ids(lists.0@) == ids_of(simulator@),
            lists.0@.len() == lists.1@.len(),
    {
        let dominos = simulator.dominos();
        let mut model_mats: Vec<(u32, Matrix4)> = Vec::new();
        let mut rot_mats: Vec<Matrix4> = Vec::new();
        let mut i: usize = 0;
        while i < dominos.len()
            invariant
                i <= dominos.len(),
                dominos@ == simulator@,
                forall|j: int|
                    0 <= j < simulator@.len() ==> call_requires(
                        *transform,
                        (&(#[trigger] simulator@[j]).pose,),
                    ),
                transforms_of(*transform, simulator@.take(i as int), model_mats@, rot_mats@),
            decreases dominos.len() - i,
        {
            let d = &dominos[i];
            let (model, rotation) = transform(&d.pose);
            let ghost before_models = model_mats@;
            let ghost before_rots = rot_mats@;
            model_mats.push((d.id, model));
            rot_mats.push(rotation);
            proof {
                let upto = simulator@.take(i as int + 1);
                assert forall|j: int| 0 <= j < upto.len() implies (#[trigger] model_mats@[j]).0
                    == upto[j].id && call_ensures(
                    *transform,
                    (&upto[j].pose,),
                    (model_mats@[j].1, rot_mats@[j]),
                ) by {
                    if j < i {
                        assert(before_models[j] == model_mats@[j]);
                        assert(simulator@.take(i as int)[j] == upto[j]);
                    }
                }
            }
            i += 1;
        }
        assert(simulator@.take(i as int) =~= simulator@);
        assert(model_ids(model_mats@) =~= ids_of(simulator@));
        (model_mats, rot_mats)
    }

    /// What a frame submits for the scene: the per-instance data of all its
    /// dominoes, then the passes of the dominoes, of the light marker and of
    /// the ground plane, all under the same uniforms.
    pub fn paint<F: Fn(&Pose) -> (Matrix4, Matrix4)>(
        &mut self,
        render_mats: RenderMatrices,
        cam_pos: Point3,
        selected_id: Option<u32>,
        simulator: &Simulator,
        transform: &F,
    ) -> (frame: Frame)
        requires
            simulator@.len() <= i32::MAX,
            forall|i: int|
                0 <= i < simulator@.len() ==> call_requires(
                    *transform,
                    (&(#[trigger] simulator@[i]).pose,),
                ),
        ensures
            exists|model_mats: Seq<(u32, Matrix4)>, rot_mats: Seq<Matrix4>|
                transforms_of(*transform, simulator@, model_mats, rot_mats) && #[trigger] is_frame_of(
                    frame,
                    model_mats,
                    rot_mats,
                    render_mats,
                    cam_pos,
                    selected_id,
                ),
            final(self).spec_render_count() == simulator@.len(),
    {
        proof {
            use_type_invariant(&*self);
        }
        let light_pos = Point3 {
            x: Scalar { bits: ZERO_BITS },
            y: Scalar { bits: TWO_BITS },
            z: Scalar { bits: ZERO_BITS },
        };
        let (model_mats, rot_mats) = Canvas::get_model_mats_list(simulator, transform);
        let mut domino_obj = self.domino_obj;
        let instances = domino_obj.fill_i_vbo(&model_mats, &rot_mats);
        self.domino_obj = domino_obj;
        let dominoes = self.domino_obj.paint(&render_mats, cam_pos, light_pos, selected_id);
        let light = self.light_obj.paint(&render_mats, cam_pos, light_pos, selected_id);
        let ground = self.ground_obj.paint(&render_mats, cam_pos, light_pos, selected_id);
        let frame = Frame { instances, dominoes, light, ground };
        assert(is_frame_of(frame, model_mats@, rot_mats@, render_mats, cam_pos, selected_id));
        frame
    }
}

/// What attribute `k` of the nine per-instance attributes is for an instance
/// with the given id and matrices: a column of the model matrix for 0 to 3, a
/// column of the rotation matrix for 4 to 7, and the id as a number for 8.
pub open spec fn attribute_of(id: u32, model: Matrix4, rotation: Matrix4, k: int) -> Seq<Scalar> {
    if k < 4 {
        model.spec_column(k).entries()
    } else if k < 8 {
        rotation.spec_column(k - 4).entries()
    } else {
        seq![Scalar::spec_from_u32(id)]
    }
}

/// Reading the buffer back gives what was packed: for every instance, in the
/// order of the lists, each of the nine attributes as the shading stage
/// fetches it is the matrix column or the id that went in, and the instance's
/// part of the buffer is its 16 + 16 + 1 numbers.
pub proof fn lemma_read_back(
    model_mats: Seq<(u32, Matrix4)>,
    rot_mats: Seq<Matrix4>,
    location: u32,
    i: int,
    k: int,
)
    requires
        0 <= i < instance_count(model_mats, rot_mats),
        0 <= k < 9,
    ensures
        packed(model_mats, rot_mats).len() == 33 * instance_count(model_mats, rot_mats),
        packed(model_mats, rot_mats).subrange(33 * i, 33 * i + 33) == instance_record(
            model_mats[i].0,
            model_mats[i].1,
            rot_mats[i],
        ),
        fetched(packed(model_mats, rot_mats), i as nat, instance_attribute(location, k)) == Some(
            attribute_of(model_mats[i].0, model_mats[i].1, rot_mats[i], k),
        ),
{
    let buffer = packed(model_mats, rot_mats);
    let id = model_mats[i].0;
    let model = model_mats[i].1;
    let rotation = rot_mats[i];
    let record = instance_record(id, model, rotation);
    assert(record.len() == 33);
    assert forall|j: int| 0 <= j < 33 implies buffer[33 * i + j] == record[j] by {
        assert((33 * i + j) / 33 == i);
        assert((33 * i + j) % 33 == j);
    }
    assert(buffer.subrange(33 * i, 33 * i + 33) =~= record);
    let binding = instance_attribute(location, k);
    let start = (i * binding.stride + binding.offset) / 4;
    assert(start == 33 * i + 4 * k);
    let expected = attribute_of(id, model, rotation, k);
    assert(expected.len() == binding.components);
    assert forall|j: int| 0 <= j < expected.len() implies buffer[start + j] == expected[j] by {
        assert(buffer[33 * i + (4 * k + j)] == record[4 * k + j]);
        if k < 4 {
            assert((4 * k + j) / 4 == k);
            assert((4 * k + j) % 4 == j);
        } else if k < 8 {
            assert((4 * k + j - 16) / 4 == k - 4);
            assert((4 * k + j - 16) % 4 == j);
        }
    }
    assert(buffer.subrange(start, start + binding.components) =~= expected);
}

/// The highlight is exact while ids stay below 2^24: the selected-id uniform
/// equals the id attribute of an instance exactly where that instance is the
/// selected one, and where nothing is selected it equals that of no instance.
pub proof fn lemma_highlight_exact(selected_id: Option<u32>, id: u32)
    requires
        id < 0x100_0000,
        selected_id matches Some(s) ==> s < 0x100_0000,
    ensures
        selected_id_uniform(selected_id) == Scalar::spec_from_u32(id) <==> selected_id == Some(id),
{
    crate::rounding::lemma_from_u32_exact(id);
    match selected_id {
        Some(s) => {
            crate::rounding::lemma_from_u32_exact(s);
            if Scalar::spec_from_u32(s) == Scalar::spec_from_u32(id) {
                crate::rounding::lemma_represents_one_value(
                    Scalar::spec_from_u32(id),
                    s as nat,
                    id as nat,
                );
            }
        },
        None => {
            assert(MINUS_ONE_BITS as nat / 0x80_0000 == 383);
        },
    }
}

} // verus!
