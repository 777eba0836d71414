//! The compositor: per-frame ordering, masking and blending of drawable
//! mesh parts.
//!
//! Geometry is carried as raw 32-bit patterns — the compositor copies
//! vertices, it never computes on them. Each frame the drawables are
//! stably ordered by render order, dirty-flagged fields are refreshed
//! from the external snapshot, and a draw plan is laid out: stencil
//! masks are written before a masked drawable, invisible drawables are
//! skipped entirely.

use vstd::prelude::*;

verus! {

use crate::fixed::SCALE;

/// One mesh vertex: position and texture coordinates as raw 32-bit
/// float patterns.
#[derive(Debug, Copy, Clone, PartialEq, Eq)]
pub struct Vert {
    pub position: [u32; 2],
    pub texture_uv: [u32; 2],
}

impl Vert {
    pub fn new(position: [u32; 2], texture_uv: [u32; 2]) -> (r: Vert)
        ensures
            r.position == position,
            r.texture_uv == texture_uv,
    {
        Vert { position, texture_uv }
    }
}

/// How a drawable is blended over what is already in the frame.
#[derive(Debug, Copy, Clone, PartialEq, Eq, Structural)]
pub enum BlendMode {
    /// Standard alpha-over.
    Normal,
    /// Premultiplied-alpha-style additive blend.
    Additive,
    /// Multiply blend.
    Multiplicative,
}

/// A drawable's blend recipe, resolved once at construction from its
/// static flags: the mode and the constant blend color that goes with
/// it, components in `SCALE` units.
#[derive(Debug, Copy, Clone, PartialEq, Eq)]
pub struct BlendRecipe {
    pub mode: BlendMode,
    pub constant_color: [i64; 4],
}

/// Blend mode from the two static flags; additive wins over
/// multiplicative.
pub open spec fn spec_blend_mode(additive: bool, multiplicative: bool) -> BlendMode {
    if additive {
        BlendMode::Additive
    } else if multiplicative {
        BlendMode::Multiplicative
    } else {
        BlendMode::Normal
    }
}

/// Constant blend color of a mode: opaque black for additive, white for
/// multiplicative, transparent black otherwise.
pub open spec fn spec_blend_color(mode: BlendMode) -> [i64; 4] {
    match mode {
        BlendMode::Additive => [0, 0, 0, SCALE],
        BlendMode::Multiplicative => [SCALE, SCALE, SCALE, SCALE],
        BlendMode::Normal => [0, 0, 0, 0],
    }
}

/// Resolve the blend recipe of a drawable from its static flags.
pub fn blend_recipe(additive: bool, multiplicative: bool) -> (r: BlendRecipe)
    ensures
        r.mode == spec_blend_mode(additive, multiplicative),
        r.constant_color == spec_blend_color(r.mode),
{
    if additive {
        BlendRecipe { mode: BlendMode::Additive, constant_color: [0, 0, 0, SCALE] }
    } else if multiplicative {
        BlendRecipe {
            mode: BlendMode::Multiplicative,
            constant_color: [SCALE, SCALE, SCALE, SCALE],
        }
    } else {
        BlendRecipe { mode: BlendMode::Normal, constant_color: [0, 0, 0, 0] }
    }
}

/// Which fields of a drawable the external snapshot reports as changed
/// this frame.
#[derive(Debug, Copy, Clone, PartialEq, Eq, Structural)]
pub struct DirtyFlags {
    pub vertices_changed: bool,
    pub order_changed: bool,
    pub visibility_changed: bool,
    pub opacity_changed: bool,
    pub blend_color_changed: bool,
}

/// One renderable mesh part: geometry, render state and mask references,
/// refreshed in place each frame.
#[derive(Debug, Clone)]
pub struct Drawable {
    pub index: usize,
    pub vertices: Vec<Vert>,
    pub indices: Vec<u16>,
    pub visible: bool,
    pub blend: BlendRecipe,
    pub order: i32,
    pub mask_inverted: bool,
    pub masks: Vec<i32>,
    pub texture_index: usize,
    pub opacity: i64,
}

impl Drawable {
    /// Build a drawable from the external snapshot's plain values; the
    /// blend recipe is resolved once here from the static flags.
    pub fn new(
        index: usize,
        positions: &Vec<[u32; 2]>,
        uvs: &Vec<[u32; 2]>,
        indices: Vec<u16>,
        visible: bool,
        order: i32,
        additive: bool,
        multiplicative: bool,
        mask_inverted: bool,
        masks: Vec<i32>,
        texture_index: usize,
        opacity: i64,
    ) -> (r: Drawable)
        requires
            positions@.len() == uvs@.len(),
        ensures
            r.index == index,
            r.vertices@.len() == positions@.len(),
            forall|i: int|
                0 <= i < positions@.len() ==> r.vertices@[i] == (Vert {
                    position: positions@[i],
                    texture_uv: uvs@[i],
                }),
            r.indices == indices,
            r.visible == visible,
            r.order == order,
            r.blend.mode == spec_blend_mode(additive, multiplicative),
            r.blend.constant_color == spec_blend_color(r.blend.mode),
            r.mask_inverted == mask_inverted,
            r.masks == masks,
            r.texture_index == texture_index,
            r.opacity == opacity,
    {
        let n = positions.len();
        let mut vertices: Vec<Vert> = Vec::new();
        let mut i: usize = 0;
        while i < n
            invariant
                n == positions@.len(),
                n == uvs@.len(),
                0 <= i <= n,
                vertices@.len() == i,
                forall|k: int|
                    0 <= k < i ==> vertices@[k] == (Vert {
                        position: positions@[k],
                        texture_uv: uvs@[k],
                    }),
            decreases n - i,
        {
            vertices.push(Vert { position: positions[i], texture_uv: uvs[i] });
            i += 1;
        }
        let blend = blend_recipe(additive, multiplicative);
        Drawable {
            index,
            vertices,
            indices,
            visible,
            blend,
            order,
            mask_inverted,
            masks,
            texture_index,
            opacity,
        }
    }

    /// Refresh only the fields flagged dirty from the snapshot; every
    /// other field keeps its value.
    pub fn update(
        &mut self,
        positions: &Vec<[u32; 2]>,
        uvs: &Vec<[u32; 2]>,
        order: i32,
        visible: bool,
        opacity: i64,
        blend_color: [i64; 4],
        flags: DirtyFlags,
    )
        requires
            positions@.len() == uvs@.len(),
        ensures
            final(self).index == old(self).index,
            final(self).indices == old(self).indices,
            final(self).blend.mode == old(self).blend.mode,
            final(self).blend.constant_color == if flags.blend_color_changed {
                blend_color
            } else {
                old(self).blend.constant_color
            },
            final(self).mask_inverted == old(self).mask_inverted,
            final(self).masks == old(self).masks,
            final(self).texture_index == old(self).texture_index,
            flags.vertices_changed ==> {
                &&& final(self).vertices@.len() == positions@.len()
                &&& forall|i: int|
                    0 <= i < positions@.len() ==> final(self).vertices@[i] == (Vert {
                        position: positions@[i],
                        texture_uv: uvs@[i],
                    })
            },
            !flags.vertices_changed ==> final(self).vertices == old(self).vertices,
            final(self).order == if flags.order_changed {
                order
            } else {
                old(self).order
            },
            final(self).visible == if flags.visibility_changed {
                visible
            } else {
                old(self).visible
            },
            final(self).opacity == if flags.opacity_changed {
                opacity
            } else {
                old(self).opacity
            },
    {
        if flags.vertices_changed {
            let n = positions.len();
            let mut vertices: Vec<Vert> = Vec::new();
            let mut i: usize = 0;
            while i < n
                invariant
                    n == positions@.len(),
                    n == uvs@.len(),
                    0 <= i <= n,
                    vertices@.len() == i,
                    forall|k: int|
                        0 <= k < i ==> vertices@[k] == (Vert {
                            position: positions@[k],
                            texture_uv: uvs@[k],
                        }),
                decreases n - i,
            {
                vertices.push(Vert { position: positions[i], texture_uv: uvs[i] });
                i += 1;
            }
            self.vertices = vertices;
        }
        if flags.order_changed {
            self.order = order;
        }
        if flags.visibility_changed {
            self.visible = visible;
        }
        if flags.opacity_changed {
            self.opacity = opacity;
        }
        if flags.blend_color_changed {
            self.blend.constant_color = blend_color;
        }
    }
}

/// Positions into `drawables`, stably sorted by ascending render order:
/// a permutation of all positions, non-descending in `order`, and ties
/// keep their prior relative order.
pub fn ordered(drawables: &Vec<Drawable>) -> (r: Vec<usize>)
    ensures
        r@.len() == drawables@.len(),
        forall|i: int| 0 <= i < r@.len() ==> (#[trigger] r@[i]) < drawables@.len(),
        forall|i: int, j: int| 0 <= i < j < r@.len() ==> r@[i] != r@[j],
        forall|i: int, j: int|
            0 <= i < j < r@.len() ==> drawables@[r@[i] as int].order <= drawables@[
                r@[j] as int
            ].order,
        forall|i: int, j: int|
            0 <= i < j < r@.len() && drawables@[r@[i] as int].order == drawables@[
                r@[j] as int
            ].order ==> r@[i] < r@[j],
{
    let n = drawables.len();
    let mut r: Vec<usize> = Vec::new();
    let mut k: usize = 0;
    while k < n
        invariant
            n == drawables@.len(),
            0 <= k <= n,
            r@.len() == k,
            forall|i: int| 0 <= i < r@.len() ==> (#[trigger] r@[i]) < k,
            forall|i: int, j: int| 0 <= i < j < r@.len() ==> r@[i] != r@[j],
            forall|i: int, j: int|
                0 <= i < j < r@.len() ==> drawables@[r@[i] as int].order <= drawables@[
                    r@[j] as int
                ].order,
            forall|i: int, j: int|
                0 <= i < j < r@.len() && drawables@[r@[i] as int].order == drawables@[
                    r@[j] as int
                ].order ==> r@[i] < r@[j],
        decreases n - k,
    {
        let key = drawables[k].order;
        let mut p: usize = r.len();
        while p > 0 && drawables[r[p - 1]].order > key
            invariant
                n == drawables@.len(),
                k < n,
                r@.len() == k,
                forall|i: int| 0 <= i < r@.len() ==> (#[trigger] r@[i]) < k,
                key == drawables@[k as int].order,
                0 <= p <= r@.len(),
                forall|m: int| p <= m < r@.len() ==> drawables@[r@[m] as int].order > key,
            decreases p,
        {
            p = p - 1;
        }
        let ghost pre = r@;
        r.insert(p, k);
        proof {
            assert forall|i: int, j: int| 0 <= i < j < r@.len() implies r@[i] != r@[j] by {
                assert(r@ == pre.insert(p as int, k as usize));
            }
        }
        k += 1;
    }
    r
}

/// Stencil rule a drawable is drawn with.
#[derive(Debug, Copy, Clone, PartialEq, Eq, Structural)]
pub enum StencilTest {
    /// Every fragment passes; drawables without masks use this.
    Always,
    /// Only fragments where the stencil holds `reference` pass.
    IfEqual { reference: u8 },
}

/// One step of a frame's draw plan, over positions into the drawable
/// vector.
#[derive(Debug, Copy, Clone, PartialEq, Eq, Structural)]
pub enum DrawStep {
    /// Clear the stencil buffer before a masked drawable.
    ClearStencil,
    /// Render drawable `mask` into the stencil only: color writes
    /// disabled, stencil operation Replace, reference value 1.
    WriteMask { mask: usize },
    /// Draw drawable `target` under the given stencil rule.
    Draw { target: usize, stencil: StencilTest },
}

/// First drawable whose stable external index is `want`, from position
/// `j` on.
pub open spec fn spec_find_index(ds: Seq<Drawable>, want: i32, j: int) -> Option<int>
    decreases ds.len() - j,
{
    if j < 0 || j >= ds.len() {
        None
    } else if want >= 0 && ds[j].index == want as usize {
        Some(j)
    } else {
        spec_find_index(ds, want, j + 1)
    }
}

/// Stencil-write steps for a mask list: one per mask index that resolves
/// to a drawable; a missing index is skipped, never fatal.
pub open spec fn spec_mask_steps(ds: Seq<Drawable>, masks: Seq<i32>, k: int) -> Seq<DrawStep>
    decreases masks.len() - k,
{
    if k < 0 || k >= masks.len() {
        Seq::empty()
    } else {
        let rest = spec_mask_steps(ds, masks, k + 1);
        match spec_find_index(ds, masks[k], 0) {
            Some(j) => seq![DrawStep::WriteMask { mask: j as usize }] + rest,
            None => rest,
        }
    }
}

/// Draw steps for the drawables at positions `ord[p..]`, in that order:
/// invisible drawables are skipped entirely; a masked drawable clears
/// the stencil, writes its masks, and draws testing the stencil against
/// 1, or against 0 when its mask sense is inverted.
pub open spec fn spec_draw_steps(ds: Seq<Drawable>, ord: Seq<usize>, p: int) -> Seq<DrawStep>
    decreases ord.len() - p,
{
    if p < 0 || p >= ord.len() {
        Seq::empty()
    } else {
        let d = ds[ord[p] as int];
        let rest = spec_draw_steps(ds, ord, p + 1);
        if !d.visible {
            rest
        } else if d.masks.len() > 0 {
            seq![DrawStep::ClearStencil] + spec_mask_steps(ds, d.masks@, 0) + seq![
                DrawStep::Draw {
                    target: ord[p],
                    stencil: StencilTest::IfEqual {
                        reference: if d.mask_inverted {
                            0
                        } else {
                            1
                        },
                    },
                },
            ] + rest
        } else {
            seq![DrawStep::Draw { target: ord[p], stencil: StencilTest::Always }] + rest
        }
    }
}

/// Position of the drawable with stable external index `want`, if any.
pub fn find_index(drawables: &Vec<Drawable>, want: i32) -> (r: Option<usize>)
    ensures
        r matches Some(j) ==> j < drawables@.len() && spec_find_index(drawables@, want, 0)
            == Some(j as int),
        r is None ==> spec_find_index(drawables@, want, 0) is None,
{
    let n = drawables.len();
    let mut j: usize = 0;
    while j < n
        invariant
            n == drawables@.len(),
            0 <= j <= n,
            spec_find_index(drawables@, want, 0) == spec_find_index(drawables@, want, j as int),
        decreases n - j,
    {
        if want >= 0 && drawables[j].index == want as usize {
            return Some(j);
        }
        j += 1;
    }
    None
}

/// Lay out the draw steps for `drawables` visited in the positions of
/// `ord`.
pub fn draw_steps(drawables: &Vec<Drawable>, ord: &Vec<usize>) -> (r: Vec<DrawStep>)
    requires
        forall|i: int| 0 <= i < ord@.len() ==> (#[trigger] ord@[i]) < drawables@.len(),
    ensures
        r@ == spec_draw_steps(drawables@, ord@, 0),
{
    let mut plan: Vec<DrawStep> = Vec::new();
    let n = ord.len();
    let mut p: usize = 0;
    while p < n
        invariant
            n == ord@.len(),
            0 <= p <= n,
            forall|i: int| 0 <= i < ord@.len() ==> (#[trigger] ord@[i]) < drawables@.len(),
            spec_draw_steps(drawables@, ord@, 0) == plan@ + spec_draw_steps(
                drawables@,
                ord@,
                p as int,
            ),
        decreases n - p,
    {
        let target = ord[p];
        let d = &drawables[target];
        let ghost plan0 = plan@;
        if d.visible {
            if d.masks.len() > 0 {
                plan.push(DrawStep::ClearStencil);
                let m = d.masks.len();
                let mut k: usize = 0;
                while k < m
                    invariant
                        m == d.masks@.len(),
                        0 <= k <= m,
                        d == drawables@[ord@[p as int] as int],
                        spec_mask_steps(drawables@, d.masks@, 0) == plan@.skip(
                            plan0.len() as int + 1,
                        ) + spec_mask_steps(drawables@, d.masks@, k as int),
                        plan@.len() >= plan0.len() + 1,
                        plan@.take(plan0.len() as int + 1) == plan0.push(DrawStep::ClearStencil),
                    decreases m - k,
                {
                    let ghost mid = plan@;
                    match find_index(drawables, d.masks[k]) {
                        Some(j) => {
                            plan.push(DrawStep::WriteMask { mask: j });
                            proof {
                                assert(plan@.take(plan0.len() as int + 1) =~= mid.take(
                                    plan0.len() as int + 1,
                                ));
                                assert(plan@.skip(plan0.len() as int + 1) =~= mid.skip(
                                    plan0.len() as int + 1,
                                ).push(DrawStep::WriteMask { mask: j }));
                                assert(mid.skip(plan0.len() as int + 1).push(
                                    DrawStep::WriteMask { mask: j },
                                ) =~= mid.skip(plan0.len() as int + 1) + seq![
                                    DrawStep::WriteMask { mask: j },
                                ]);
                                assert(mid.skip(plan0.len() as int + 1) + (seq![
                                    DrawStep::WriteMask { mask: j },
                                ] + spec_mask_steps(drawables@, d.masks@, k + 1)) =~= (mid.skip(
                                    plan0.len() as int + 1,
                                ) + seq![DrawStep::WriteMask { mask: j }]) + spec_mask_steps(
                                    drawables@,
                                    d.masks@,
                                    k + 1,
                                ));
                            }
                        },
                        None => {},
                    }
                    k += 1;
                }
                let reference: u8 = if d.mask_inverted {
                    0
                } else {
                    1
                };
                let ghost before_draw = plan@;
                plan.push(DrawStep::Draw { target, stencil: StencilTest::IfEqual { reference } });
                proof {
                    assert(spec_mask_steps(drawables@, d.masks@, m as int)
                        =~= Seq::<DrawStep>::empty());
                    assert(before_draw.skip(plan0.len() as int + 1) + Seq::<DrawStep>::empty()
                        =~= before_draw.skip(plan0.len() as int + 1));
                    assert(spec_mask_steps(drawables@, d.masks@, 0) == before_draw.skip(
                        plan0.len() as int + 1,
                    ));
                    assert forall|i: int| 0 <= i < plan0.len() + 1 implies before_draw[i]
                        == plan0.push(DrawStep::ClearStencil)[i] by {
                        assert(before_draw.take(plan0.len() as int + 1)[i] == before_draw[i]);
                    }
                    assert forall|q: int|
                        0 <= q < before_draw.len() - (plan0.len() + 1) implies before_draw[
                        plan0.len() + 1 + q
                    ] == spec_mask_steps(drawables@, d.masks@, 0)[q] by {
                        assert(before_draw.skip(plan0.len() as int + 1)[q] == before_draw[
                            plan0.len() + 1 + q
                        ]);
                    }
                    assert(plan@ =~= plan0 + (seq![DrawStep::ClearStencil] + spec_mask_steps(
                        drawables@,
                        d.masks@,
                        0,
                    ) + seq![
                        DrawStep::Draw {
                            target: ord@[p as int],
                            stencil: StencilTest::IfEqual { reference },
                        },
                    ]));
                    assert(spec_draw_steps(drawables@, ord@, 0) =~= plan@ + spec_draw_steps(
                        drawables@,
                        ord@,
                        p + 1,
                    ));
                }
            } else {
                plan.push(DrawStep::Draw { target, stencil: StencilTest::Always });
                proof {
                    assert(plan@ =~= plan0 + seq![
                        DrawStep::Draw { target: ord@[p as int], stencil: StencilTest::Always },
                    ]);
                    assert(spec_draw_steps(drawables@, ord@, 0) =~= plan@ + spec_draw_steps(
                        drawables@,
                        ord@,
                        p + 1,
                    ));
                }
            }
        }
        p += 1;
    }
    proof {
        assert(plan@ + spec_draw_steps(drawables@, ord@, n as int) =~= plan@);
    }
    plan
}

/// Order the drawables stably by render order and lay out the frame's
/// draw plan over them.
pub fn plan_frame(drawables: &Vec<Drawable>) -> (r: (Vec<usize>, Vec<DrawStep>))
    ensures
        r.0@.len() == drawables@.len(),
        forall|i: int| 0 <= i < r.0@.len() ==> (#[trigger] r.0@[i]) < drawables@.len(),
        forall|i: int, j: int| 0 <= i < j < r.0@.len() ==> r.0@[i] != r.0@[j],
        forall|i: int, j: int|
            0 <= i < j < r.0@.len() ==> drawables@[r.0@[i] as int].order <= drawables@[
                r.0@[j] as int
            ].order,
        forall|i: int, j: int|
            0 <= i < j < r.0@.len() && drawables@[r.0@[i] as int].order == drawables@[
                r.0@[j] as int
            ].order ==> r.0@[i] < r.0@[j],
        r.1@ == spec_draw_steps(drawables@, r.0@, 0),
{
    let ord = ordered(drawables);
    let plan = draw_steps(drawables, &ord);
    (ord, plan)
}

} // verus!
