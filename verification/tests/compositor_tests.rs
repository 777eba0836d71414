use liver::compositor::{
    blend_recipe, ordered, plan_frame, BlendMode, DirtyFlags, Drawable, DrawStep, StencilTest,
    Vert,
};
use liver::fixed::SCALE;

fn drawable(index: usize, order: i32, visible: bool, masks: Vec<i32>, inverted: bool) -> Drawable {
    Drawable::new(
        index,
        &vec![[0, 0], [1, 1], [2, 2]],
        &vec![[9, 9], [8, 8], [7, 7]],
        vec![0, 1, 2],
        visible,
        order,
        false,
        false,
        inverted,
        masks,
        0,
        SCALE,
    )
}

#[test]
fn blend_recipes_resolve_from_static_flags() {
    let add = blend_recipe(true, false);
    assert_eq!(add.mode, BlendMode::Additive);
    assert_eq!(add.constant_color, [0, 0, 0, SCALE]);
    let mult = blend_recipe(false, true);
    assert_eq!(mult.mode, BlendMode::Multiplicative);
    assert_eq!(mult.constant_color, [SCALE, SCALE, SCALE, SCALE]);
    let normal = blend_recipe(false, false);
    assert_eq!(normal.mode, BlendMode::Normal);
    assert_eq!(normal.constant_color, [0, 0, 0, 0]);
    // additive wins when both flags are set
    assert_eq!(blend_recipe(true, true).mode, BlendMode::Additive);
}

#[test]
fn construction_zips_positions_and_texture_coordinates() {
    let d = drawable(5, 0, true, Vec::new(), false);
    assert_eq!(d.vertices.len(), 3);
    assert_eq!(d.vertices[1], Vert { position: [1, 1], texture_uv: [8, 8] });
    assert_eq!(d.index, 5);
}

#[test]
fn ordering_is_stable_for_equal_render_orders() {
    let ds = vec![
        drawable(0, 5, true, Vec::new(), false),
        drawable(1, 1, true, Vec::new(), false),
        drawable(2, 5, true, Vec::new(), false),
    ];
    let ord = ordered(&ds);
    assert_eq!(ord, vec![1, 0, 2]);
}

#[test]
fn dirty_flags_gate_every_refresh() {
    let mut d = drawable(0, 3, true, Vec::new(), false);
    let new_pos = vec![[4, 4]];
    let new_uv = vec![[5, 5]];
    let no_flags = DirtyFlags {
        vertices_changed: false,
        order_changed: false,
        visibility_changed: false,
        opacity_changed: false,
        blend_color_changed: false,
    };
    d.update(&new_pos, &new_uv, 9, false, 0, [0, 0, 0, SCALE], no_flags);
    assert_eq!(d.order, 3);
    assert!(d.visible);
    assert_eq!(d.opacity, SCALE);
    assert_eq!(d.vertices.len(), 3);
    assert_eq!(d.blend.constant_color, [0, 0, 0, 0]);
    let all_flags = DirtyFlags {
        vertices_changed: true,
        order_changed: true,
        visibility_changed: true,
        opacity_changed: true,
        blend_color_changed: true,
    };
    d.update(&new_pos, &new_uv, 9, false, 7, [0, 0, 0, SCALE], all_flags);
    assert_eq!(d.blend.constant_color, [0, 0, 0, SCALE]);
    assert_eq!(d.order, 9);
    assert!(!d.visible);
    assert_eq!(d.opacity, 7);
    assert_eq!(
        d.vertices,
        vec![Vert { position: [4, 4], texture_uv: [5, 5] }]
    );
}

#[test]
fn masked_drawable_draws_behind_its_stencil() {
    // a drawable masked by the drawable with stable index 2, not inverted:
    // it must only be drawn where that mask wrote stencil value 1
    let ds = vec![
        drawable(0, 0, true, vec![2], false),
        drawable(1, 1, true, Vec::new(), false),
        drawable(2, 2, true, Vec::new(), false),
    ];
    let (ord, plan) = plan_frame(&ds);
    assert_eq!(ord, vec![0, 1, 2]);
    assert_eq!(
        plan,
        vec![
            DrawStep::ClearStencil,
            DrawStep::WriteMask { mask: 2 },
            DrawStep::Draw { target: 0, stencil: StencilTest::IfEqual { reference: 1 } },
            DrawStep::Draw { target: 1, stencil: StencilTest::Always },
            DrawStep::Draw { target: 2, stencil: StencilTest::Always },
        ]
    );
}

#[test]
fn inverted_mask_tests_for_stencil_zero() {
    let ds = vec![
        drawable(0, 0, true, vec![1], true),
        drawable(1, 1, true, Vec::new(), false),
    ];
    let (_, plan) = plan_frame(&ds);
    assert_eq!(plan[2], DrawStep::Draw { target: 0, stencil: StencilTest::IfEqual { reference: 0 } });
}

#[test]
fn missing_mask_indices_are_skipped_not_fatal() {
    let ds = vec![
        drawable(0, 0, true, vec![42, 1], false),
        drawable(1, 1, true, Vec::new(), false),
    ];
    let (_, plan) = plan_frame(&ds);
    assert_eq!(
        plan,
        vec![
            DrawStep::ClearStencil,
            DrawStep::WriteMask { mask: 1 },
            DrawStep::Draw { target: 0, stencil: StencilTest::IfEqual { reference: 1 } },
            DrawStep::Draw { target: 1, stencil: StencilTest::Always },
        ]
    );
}

#[test]
fn invisible_drawables_are_skipped_entirely() {
    let ds = vec![
        drawable(0, 0, false, vec![1], false),
        drawable(1, 1, true, Vec::new(), false),
    ];
    let (_, plan) = plan_frame(&ds);
    assert_eq!(
        plan,
        vec![DrawStep::Draw { target: 1, stencil: StencilTest::Always }]
    );
}
