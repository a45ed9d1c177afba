use domino_simulator::scalar::{Matrix4, Point3, Scalar, Vector4};
use domino_simulator::simulator::{Pose, Simulator};
use domino_simulator::ui_3d::canvas::{
    instance_attributes, pack_instances, read_attribute, vertex_attributes, AttributeBinding, Canvas,
    Draw, Renderable, CAM_POS, INSTANCE_LOCATION, INSTANCE_STRIDE, LIGHT_POS, PERSPECTIVE_MAT,
    SCALARS_PER_INSTANCE, SELECTED_ID, VERTEX_COUNT, VERTEX_STRIDE, VIEW_MAT,
};
use domino_simulator::ui_3d::RenderMatrices;

fn s(x: f32) -> Scalar {
    Scalar::from_bits(x.to_bits())
}

fn n(x: Scalar) -> f32 {
    f32::from_bits(x.to_bits())
}

/// The matrix whose entry `k` in column-major order is `base + k`.
fn counting(base: f32) -> Matrix4 {
    let col = |c: f32| Vector4 {
        x: s(base + 4.0 * c),
        y: s(base + 4.0 * c + 1.0),
        z: s(base + 4.0 * c + 2.0),
        w: s(base + 4.0 * c + 3.0),
    };
    Matrix4 { x: col(0.0), y: col(1.0), z: col(2.0), w: col(3.0) }
}

fn point(x: f32, y: f32, z: f32) -> Point3 {
    Point3 { x: s(x), y: s(y), z: s(z) }
}

fn matrices() -> RenderMatrices {
    RenderMatrices { perspective: counting(500.0), view: counting(700.0) }
}

/// A stand-in for the transform: the model matrix counts from the position's
/// x, the rotation matrix from the yaw.
fn stand_in(pose: &Pose) -> (Matrix4, Matrix4) {
    (counting(n(pose.position.x) * 1000.0), counting(n(pose.rotation_y)))
}

#[test]
fn uniform_names_are_those_of_the_shading_stage() {
    assert_eq!(VIEW_MAT, "view_mat");
    assert_eq!(PERSPECTIVE_MAT, "perspective_mat");
    assert_eq!(LIGHT_POS, "lightPos");
    assert_eq!(CAM_POS, "camPos");
    assert_eq!(SELECTED_ID, "selected_id");
}

#[test]
fn layout_constants() {
    assert_eq!(SCALARS_PER_INSTANCE, 33);
    assert_eq!(INSTANCE_STRIDE, 16 * 4 * 2 + 4);
    assert_eq!(INSTANCE_LOCATION, 3);
    assert_eq!(VERTEX_STRIDE, 6 * 4);
    assert_eq!(VERTEX_COUNT, 12 * 3);
}

#[test]
fn buffer_interleaves_model_rotation_and_id() {
    let models = vec![(7u32, counting(100.0)), (2u32, counting(300.0))];
    let rots = vec![counting(200.0), counting(400.0)];
    let buffer = pack_instances(&models, &rots);
    assert_eq!(buffer.len(), 66);
    let numbers: Vec<f32> = buffer.iter().map(|x| n(*x)).collect();
    let mut expected: Vec<f32> = Vec::new();
    for k in 0..16 {
        expected.push(100.0 + k as f32);
    }
    for k in 0..16 {
        expected.push(200.0 + k as f32);
    }
    expected.push(7.0);
    for k in 0..16 {
        expected.push(300.0 + k as f32);
    }
    for k in 0..16 {
        expected.push(400.0 + k as f32);
    }
    expected.push(2.0);
    assert_eq!(numbers, expected);
}

#[test]
fn buffer_holds_as_many_instances_as_both_lists_have() {
    let models = vec![(7u32, counting(100.0)), (2u32, counting(300.0))];
    let rots = vec![counting(200.0)];
    assert_eq!(pack_instances(&models, &rots).len(), 33);
    assert_eq!(pack_instances(&models, &vec![]).len(), 0);
    assert_eq!(pack_instances(&vec![], &rots).len(), 0);
}

#[test]
fn instance_attributes_take_slots_three_to_eleven() {
    let bindings = instance_attributes(INSTANCE_LOCATION);
    assert_eq!(bindings.len(), 9);
    for (k, b) in bindings.iter().enumerate() {
        assert_eq!(b.slot, 3 + k as u32);
        assert_eq!(b.stride, 132);
        assert_eq!(b.offset, 16 * k as i32);
        assert_eq!(b.divisor, 1);
        assert_eq!(b.components, if k < 8 { 4 } else { 1 });
    }
    assert_eq!(bindings[8].slot, 11);
    assert_eq!(instance_attributes(20)[0].slot, 20);
    assert_eq!(instance_attributes(u32::MAX - 8)[8].slot, u32::MAX);
}

#[test]
fn vertex_attributes_are_position_and_normal() {
    assert_eq!(
        vertex_attributes(),
        vec![
            AttributeBinding { slot: 0, components: 3, stride: 24, offset: 0, divisor: 0 },
            AttributeBinding { slot: 1, components: 3, stride: 24, offset: 12, divisor: 0 },
        ]
    );
}

#[test]
fn reading_back_gives_what_was_packed() {
    let models = vec![(7u32, counting(100.0)), (2u32, counting(300.0)), (16_777_215u32, counting(900.0))];
    let rots = vec![counting(200.0), counting(400.0), counting(1000.0)];
    let buffer = pack_instances(&models, &rots);
    let bindings = instance_attributes(INSTANCE_LOCATION);
    for (i, ((id, model), rot)) in models.iter().zip(rots.iter()).enumerate() {
        for k in 0..4 {
            let c = model.column(k);
            assert_eq!(read_attribute(&buffer, i, &bindings[k]), Some(vec![c.x, c.y, c.z, c.w]));
            let c = rot.column(k);
            assert_eq!(read_attribute(&buffer, i, &bindings[4 + k]), Some(vec![c.x, c.y, c.z, c.w]));
        }
        assert_eq!(read_attribute(&buffer, i, &bindings[8]), Some(vec![s(*id as f32)]));
    }
    assert_eq!(read_attribute(&buffer, 3, &bindings[0]), None);
    assert_eq!(read_attribute(&buffer, usize::MAX, &bindings[0]), None);
}

#[test]
fn nothing_is_read_under_a_binding_that_does_not_fit() {
    let buffer = pack_instances(&vec![(1u32, counting(0.0))], &vec![counting(50.0)]);
    let fits = AttributeBinding { slot: 3, components: 4, stride: 132, offset: 116, divisor: 1 };
    assert_eq!(
        read_attribute(&buffer, 0, &fits),
        Some(vec![s(63.0), s(64.0), s(65.0), s(1.0)])
    );
    let past_end = AttributeBinding { offset: 120, ..fits };
    assert_eq!(read_attribute(&buffer, 0, &past_end), None);
    let per_vertex = AttributeBinding { divisor: 0, ..fits };
    assert_eq!(read_attribute(&buffer, 0, &per_vertex), None);
    let unaligned = AttributeBinding { offset: 2, ..fits };
    assert_eq!(read_attribute(&buffer, 0, &unaligned), None);
    let negative = AttributeBinding { offset: -4, ..fits };
    assert_eq!(read_attribute(&buffer, 0, &negative), None);
    let still = AttributeBinding { stride: 0, offset: 0, ..fits };
    assert_eq!(
        read_attribute(&buffer, 1_000_000, &still),
        Some(vec![s(0.0), s(1.0), s(2.0), s(3.0)])
    );
    let empty = AttributeBinding { components: 0, offset: 132, ..fits };
    assert_eq!(read_attribute(&buffer, 0, &empty), Some(vec![]));
}

#[test]
fn uniforms_carry_matrices_positions_and_selection() {
    let object = Renderable::Single;
    let mats = matrices();
    let u = object.fill_vbo(&mats, point(1.0, 2.0, 3.0), point(0.0, 2.0, 0.0), Some(5));
    assert_eq!(u.view_mat, mats.view);
    assert_eq!(u.perspective_mat, mats.perspective);
    assert_eq!(u.cam_pos, point(1.0, 2.0, 3.0));
    assert_eq!(u.light_pos, point(0.0, 2.0, 0.0));
    assert_eq!(n(u.selected_id), 5.0);
    let u = object.fill_vbo(&mats, point(1.0, 2.0, 3.0), point(0.0, 2.0, 0.0), None);
    assert_eq!(n(u.selected_id), -1.0);
    let instanced = Renderable::Instanced { render_count: 3 };
    let u = instanced.fill_vbo(&mats, point(1.0, 2.0, 3.0), point(0.0, 2.0, 0.0), Some(0));
    assert_eq!(n(u.selected_id), 0.0);
}

#[test]
fn objects_draw_once_or_in_instances() {
    let mats = matrices();
    assert!(!Renderable::Single.is_instanced());
    assert!(Renderable::Instanced { render_count: 0 }.is_instanced());
    let pass = Renderable::Single.paint(&mats, point(0.0, 0.0, 0.0), point(0.0, 2.0, 0.0), None);
    assert_eq!(pass.draw, Draw::Arrays { first: 0, count: 36 });
    let pass = Renderable::Instanced { render_count: 12 }.paint(
        &mats,
        point(0.0, 0.0, 0.0),
        point(0.0, 2.0, 0.0),
        Some(1),
    );
    assert_eq!(pass.draw, Draw::Instanced { first: 0, count: 36, instances: 12 });
    assert_eq!(n(pass.uniforms.selected_id), 1.0);
}

#[test]
fn instanced_object_counts_its_instances() {
    let mut object = Renderable::Instanced { render_count: 0 };
    let models = vec![(7u32, counting(100.0)), (2u32, counting(300.0))];
    let rots = vec![counting(200.0), counting(400.0)];
    let upload = object.fill_i_vbo(&models, &rots);
    assert_eq!(object, Renderable::Instanced { render_count: 2 });
    assert_eq!(upload.data, pack_instances(&models, &rots));
    assert_eq!(upload.attributes, instance_attributes(3));
}

#[test]
fn model_list_follows_the_scene_order() {
    let mut scene = Simulator::new();
    scene.delete_domino(1);
    scene.create_domino();
    let (models, rots) = Canvas::get_model_mats_list(&scene, &stand_in);
    let ids: Vec<u32> = models.iter().map(|m| m.0).collect();
    assert_eq!(ids, vec![0, 2, 3, 4]);
    assert_eq!(rots.len(), 4);
    for (i, d) in scene.dominos().iter().enumerate() {
        let (model, rot) = stand_in(&d.pose);
        assert_eq!(models[i], (d.id, model));
        assert_eq!(rots[i], rot);
    }
}

#[test]
fn model_list_of_an_empty_scene_is_empty() {
    let (models, rots) = Canvas::get_model_mats_list(&Simulator::empty(), &stand_in);
    assert!(models.is_empty());
    assert!(rots.is_empty());
}

#[test]
fn frame_submits_instances_then_three_passes() {
    let mut canvas = Canvas::new();
    assert_eq!(canvas.domino_obj(), Renderable::Instanced { render_count: 0 });
    assert_eq!(canvas.light_obj(), Renderable::Single);
    assert_eq!(canvas.ground_obj(), Renderable::Single);
    let scene = Simulator::new();
    let mats = matrices();
    let frame = canvas.paint(mats, point(1.0, 2.0, 2.0), Some(3), &scene, &stand_in);
    assert_eq!(canvas.domino_obj(), Renderable::Instanced { render_count: 4 });
    let (models, rots) = Canvas::get_model_mats_list(&scene, &stand_in);
    assert_eq!(frame.instances.data, pack_instances(&models, &rots));
    assert_eq!(frame.instances.data.len(), 4 * 33);
    assert_eq!(frame.instances.attributes, instance_attributes(3));
    assert_eq!(frame.dominoes.draw, Draw::Instanced { first: 0, count: 36, instances: 4 });
    assert_eq!(frame.light.draw, Draw::Arrays { first: 0, count: 36 });
    assert_eq!(frame.ground.draw, Draw::Arrays { first: 0, count: 36 });
    for pass in [frame.dominoes, frame.light, frame.ground] {
        assert_eq!(pass.uniforms.view_mat, mats.view);
        assert_eq!(pass.uniforms.perspective_mat, mats.perspective);
        assert_eq!(pass.uniforms.cam_pos, point(1.0, 2.0, 2.0));
        assert_eq!(pass.uniforms.light_pos, point(0.0, 2.0, 0.0));
        assert_eq!(n(pass.uniforms.selected_id), 3.0);
    }
    let frame = canvas.paint(mats, point(1.0, 2.0, 2.0), None, &Simulator::empty(), &stand_in);
    assert_eq!(canvas.domino_obj(), Renderable::Instanced { render_count: 0 });
    assert!(frame.instances.data.is_empty());
    assert_eq!(frame.dominoes.draw, Draw::Instanced { first: 0, count: 36, instances: 0 });
    assert_eq!(n(frame.light.uniforms.selected_id), -1.0);
}
