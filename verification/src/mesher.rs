//! Greedy meshing.
//!
//! The mesher sweeps a voxel grid along the three principal axes, in
//! both directions, six passes in all.  For each slice of a sweep it
//! builds a 2D mask of exposed faces over the other two axes, merges
//! the mask into maximal rectangles (row-major, width before height),
//! and emits one quad per merged rectangle whose material the catalog
//! treats as opaque.  The output is a pure function of the grid
//! snapshot and the catalog.

use vstd::prelude::*;
use crate::block::{AIR, BlockData, BlockRegistry, Material, spec_opaque};
use crate::chunk::VoxelGrid;
use crate::mesh::{ChunkMesh, Side, Vertex, VoxelFace};

verus! {

/// The extent of the grid along axis `d` (0 = x, 1 = y, 2 = z).
pub open spec fn axis_len(grid: &VoxelGrid, d: int) -> int {
    if d == 1 {
        grid.spec_height()
    } else {
        grid.spec_width()
    }
}

/// The extent of the grid along axis `d`.
pub fn axis_len_of(grid: &VoxelGrid, d: usize) -> (r: usize)
    requires
        grid.wf(),
        d < 3,
    ensures
        r == axis_len(grid, d as int),
{
    if d == 1 {
        grid.height()
    } else {
        grid.width()
    }
}

/// The first mask axis of sweep axis `d`: the next axis in cyclic
/// order.  Mask cells run along it first (row-major).
pub open spec fn u_axis(d: int) -> int {
    if d == 0 {
        1
    } else if d == 1 {
        2
    } else {
        0
    }
}

/// The second mask axis of sweep axis `d`: the remaining axis.
pub open spec fn v_axis(d: int) -> int {
    if d == 0 {
        2
    } else if d == 1 {
        0
    } else {
        1
    }
}

/// The block position with `s` on sweep axis `d`, `i` on the first
/// mask axis and `j` on the second, as an `(x, y, z)` triple.
pub open spec fn sweep_pos(d: int, s: int, i: int, j: int) -> (int, int, int) {
    if d == 0 {
        (s, i, j)
    } else if d == 1 {
        (j, s, i)
    } else {
        (i, j, s)
    }
}

/// The material at the sweep position, out-of-range positions reading
/// as air.
pub open spec fn block_at(grid: &VoxelGrid, d: int, s: int, i: int, j: int) -> Material {
    let (x, y, z) = sweep_pos(d, s, i, j);
    grid.spec_block(x, y, z)
}

/// The side a sweep meshes: the back pass of an axis faces its
/// negative direction, the front pass its positive direction.
pub open spec fn sweep_side(d: int, back_face: bool) -> Side {
    if d == 0 {
        if back_face {
            Side::West
        } else {
            Side::East
        }
    } else if d == 1 {
        if back_face {
            Side::Bottom
        } else {
            Side::Top
        }
    } else {
        if back_face {
            Side::South
        } else {
            Side::North
        }
    }
}

/// One cell of the face mask of slice `s` of a sweep: the two blocks
/// that meet between slice `s` and slice `s + 1` are compared, and a
/// face is recorded unless both exist and hold the same material.  The
/// back pass records the far block's material, the front pass the near
/// block's; a missing block (outside the grid) on the recorded side
/// leaves the cell empty.
pub open spec fn mask_cell(
    grid: &VoxelGrid,
    d: int,
    back_face: bool,
    s: int,
    i: int,
    j: int,
) -> Option<Material> {
    let near_in = s >= 0;
    let far_in = s < axis_len(grid, d) - 1;
    let near = block_at(grid, d, s, i, j);
    let far = block_at(grid, d, s + 1, i, j);
    if near_in && far_in && near == far {
        None
    } else if back_face {
        if far_in {
            Some(far)
        } else {
            None
        }
    } else {
        if near_in {
            Some(near)
        } else {
            None
        }
    }
}

/// The face mask of slice `s`: `axis_len(u) * axis_len(v)` cells in
/// row-major order, rows running along the first mask axis.
pub open spec fn mask_seq(grid: &VoxelGrid, d: int, back_face: bool, s: int) -> Seq<
    Option<Material>,
> {
    let lu = axis_len(grid, u_axis(d));
    let lv = axis_len(grid, v_axis(d));
    Seq::new((lu * lv) as nat, |n: int| mask_cell(grid, d, back_face, s, n % lu, n / lu))
}

/// Builds the face mask of slice `s` of a sweep.
pub fn compute_mask(grid: &VoxelGrid, d: usize, back_face: bool, s: i32) -> (r: Vec<
    Option<Material>,
>)
    requires
        grid.wf(),
        d < 3,
        -1 <= s <= axis_len(grid, d as int) - 1,
    ensures
        r@ == mask_seq(grid, d as int, back_face, s as int),
{
    let u = if d == 0 {
        1
    } else if d == 1 {
        2
    } else {
        0
    };
    let v = if d == 0 {
        2
    } else if d == 1 {
        0
    } else {
        1
    };
    let lu = axis_len_of(grid, u);
    let lv = axis_len_of(grid, v);
    let len_d = axis_len_of(grid, d);
    proof {
        assert(lu * lv <= 0x10000) by (nonlinear_arith)
            requires
                lu <= 256,
                lv <= 256,
        ;
    }

    let mut r: Vec<Option<Material>> = Vec::new();
    let mut j: usize = 0;
    while j < lv
        invariant
            grid.wf(),
            d < 3,
            -1 <= s <= axis_len(grid, d as int) - 1,
            u == u_axis(d as int),
            v == v_axis(d as int),
            lu == axis_len(grid, u_axis(d as int)),
            lv == axis_len(grid, v_axis(d as int)),
            len_d == axis_len(grid, d as int),
            lu * lv <= 0x10000,
            0 <= j <= lv,
            r@.len() == j * lu,
            forall|t: int| 0 <= t < r@.len()
                ==> r@[t] == mask_cell(grid, d as int, back_face, s as int, t % (lu as int), t / (
            lu as int)),
        decreases lv - j,
    {
        let mut i: usize = 0;
        while i < lu
            invariant
                grid.wf(),
                d < 3,
                -1 <= s <= axis_len(grid, d as int) - 1,
                u == u_axis(d as int),
                v == v_axis(d as int),
                lu == axis_len(grid, u_axis(d as int)),
                lv == axis_len(grid, v_axis(d as int)),
                len_d == axis_len(grid, d as int),
                lu * lv <= 0x10000,
                0 <= j < lv,
                0 <= i <= lu,
                r@.len() == j * lu + i,
                forall|t: int| 0 <= t < r@.len()
                    ==> r@[t] == mask_cell(grid, d as int, back_face, s as int, t % (lu as int), t
                    / (lu as int)),
            decreases lu - i,
        {
            let (nx, ny, nz) = sweep_pos_of(d, s, i as i32, j as i32);
            let (fx, fy, fz) = sweep_pos_of(d, s + 1, i as i32, j as i32);
            let near = grid.block_or_air(nx, ny, nz);
            let far = grid.block_or_air(fx, fy, fz);
            let near_in = s >= 0;
            let far_in = s < len_d as i32 - 1;
            let cell: Option<Material> = if near_in && far_in && near == far {
                None
            } else if back_face {
                if far_in {
                    Some(far)
                } else {
                    None
                }
            } else {
                if near_in {
                    Some(near)
                } else {
                    None
                }
            };
            proof {
                let t = j * lu + i;
                assert(t % (lu as int) == i as int && t / (lu as int) == j as int)
                    by (nonlinear_arith)
                    requires
                        0 <= i < lu,
                        0 <= j,
                        t == j * lu + i,
                ;
                assert(j * lu + i < 0x10000) by (nonlinear_arith)
                    requires
                        0 <= i < lu,
                        0 <= j < lv,
                        lu * lv <= 0x10000,
                ;
            }
            r.push(cell);
            i = i + 1;
        }
        proof {
            assert((j + 1) * lu == j * lu + lu) by (nonlinear_arith);
        }
        j = j + 1;
    }
    proof {
        assert(lv * lu == lu * lv) by (nonlinear_arith);
        assert(r@ =~= mask_seq(grid, d as int, back_face, s as int));
    }
    r
}

/// The block position with `s` on sweep axis `d`, `i` on the first
/// mask axis and `j` on the second.
fn sweep_pos_of(d: usize, s: i32, i: i32, j: i32) -> (r: (i32, i32, i32))
    requires
        d < 3,
    ensures
        (r.0 as int, r.1 as int, r.2 as int) == sweep_pos(d as int, s as int, i as int, j as int),
{
    if d == 0 {
        (s, i, j)
    } else if d == 1 {
        (j, s, i)
    } else {
        (i, j, s)
    }
}

} // verus!

verus! {

/// A maximal rectangle merged out of a face mask: its lower corner
/// `(i, j)` in mask coordinates, its extent `w` along the first mask
/// axis and `h` along the second, and the material all its cells hold.
#[derive(Copy, Clone, Eq, PartialEq, Structural, Debug)]
pub struct MaskRect {
    pub i: usize,
    pub j: usize,
    pub w: usize,
    pub h: usize,
    pub material: Material,
}

/// The width the greedy merge gives a rectangle seeded at cell `n` in
/// column `i` with material `m`, having already grown to `w`: the run
/// extends while the next cell of the row holds the same face.
pub open spec fn width_from(
    mask: Seq<Option<Material>>,
    lu: int,
    i: int,
    n: int,
    m: Material,
    w: int,
) -> int
    decreases lu - i - w,
{
    if i + w < lu && 0 <= n + w < mask.len() && mask[n + w] == Some(m) {
        width_from(mask, lu, i, n, m, w + 1)
    } else {
        w
    }
}

/// The greedy width is at least the width already grown.
pub proof fn lemma_width_from_ge(
    mask: Seq<Option<Material>>,
    lu: int,
    i: int,
    n: int,
    m: Material,
    w: int,
)
    ensures
        width_from(mask, lu, i, n, m, w) >= w,
    decreases lu - i - w,
{
    if i + w < lu && 0 <= n + w < mask.len() && mask[n + w] == Some(m) {
        lemma_width_from_ge(mask, lu, i, n, m, w + 1);
    }
}

/// The greedy width never runs past the end of the mask.
pub proof fn lemma_width_from_le(
    mask: Seq<Option<Material>>,
    lu: int,
    i: int,
    n: int,
    m: Material,
    w: int,
)
    requires
        n + w <= mask.len(),
    ensures
        n + width_from(mask, lu, i, n, m, w) <= mask.len(),
    decreases lu - i - w,
{
    if i + w < lu && 0 <= n + w < mask.len() && mask[n + w] == Some(m) {
        lemma_width_from_le(mask, lu, i, n, m, w + 1);
    }
}

/// Whether row `h` above the seed cell `n` matches material `m` over a
/// full width `w`, every cell in range.
pub open spec fn row_matches(
    mask: Seq<Option<Material>>,
    lu: int,
    n: int,
    h: int,
    w: int,
    m: Material,
) -> bool {
    forall|t: int|
        n + h * lu <= t < n + h * lu + w ==> 0 <= t < mask.len() && mask[t] == Some(m)
}

/// The height the greedy merge gives a rectangle of width `w` seeded
/// at cell `n` in row `j`, having already grown to `h`: rows are added
/// while every cell of the next row matches.
pub open spec fn height_from(
    mask: Seq<Option<Material>>,
    lu: int,
    lv: int,
    j: int,
    n: int,
    m: Material,
    w: int,
    h: int,
) -> int
    decreases lv - j - h,
{
    if j + h < lv && row_matches(mask, lu, n, h, w, m) {
        height_from(mask, lu, lv, j, n, m, w, h + 1)
    } else {
        h
    }
}

/// Whether flat index `t` lies inside the rectangle of width `w` and
/// height `h` whose lower corner is cell `n`, rows being `lu` cells
/// long.
pub open spec fn rect_covers(lu: int, n: int, w: int, h: int, t: int) -> bool {
    t >= n && (t - n) % lu < w && (t - n) / lu < h
}

/// The mask after the cells of a merged rectangle are consumed.
pub open spec fn clear_rect(
    mask: Seq<Option<Material>>,
    lu: int,
    n: int,
    w: int,
    h: int,
) -> Seq<Option<Material>> {
    Seq::new(
        mask.len(),
        |t: int|
            if rect_covers(lu, n, w, h, t) {
                None
            } else {
                mask[t]
            },
    )
}

/// The rectangles the greedy merge produces from cell `n` on: the mask
/// is scanned in row-major order; each seed cell grows a maximal run
/// to the right, then downward row by row, and the rectangle's cells
/// are consumed before the scan continues past the seed's run.
pub open spec fn merge_from(
    mask: Seq<Option<Material>>,
    lu: int,
    lv: int,
    n: int,
) -> Seq<MaskRect>
    decreases mask.len() - n,
    via merge_from_decreases
{
    if n < 0 || n >= mask.len() {
        Seq::empty()
    } else {
        match mask[n] {
            None => merge_from(mask, lu, lv, n + 1),
            Some(m) => {
                let i = n % lu;
                let j = n / lu;
                let w = width_from(mask, lu, i, n, m, 1);
                let h = height_from(mask, lu, lv, j, n, m, w, 1);
                seq![
                    MaskRect {
                        i: i as usize,
                        j: j as usize,
                        w: w as usize,
                        h: h as usize,
                        material: m,
                    },
                ] + merge_from(clear_rect(mask, lu, n, w, h), lu, lv, n + w)
            }
        }
    }
}

#[via_fn]
proof fn merge_from_decreases(mask: Seq<Option<Material>>, lu: int, lv: int, n: int) {
    if 0 <= n < mask.len() {
        match mask[n] {
            Some(m) => {
                let i = n % lu;
                let w = width_from(mask, lu, i, n, m, 1);
                let h = height_from(mask, lu, lv, n / lu, n, m, w, 1);
                lemma_width_from_ge(mask, lu, i, n, m, 1);
                lemma_width_from_le(mask, lu, i, n, m, 1);
                assert(w >= 1);
                assert(n + w <= mask.len());
                assert(clear_rect(mask, lu, n, w, h).len() == mask.len());
            }
            None => {}
        }
    }
}

/// The greedy merge of a whole mask.
pub open spec fn merge_mask(mask: Seq<Option<Material>>, lu: int, lv: int) -> Seq<MaskRect> {
    merge_from(mask, lu, lv, 0)
}

/// Whether row `h` above the seed cell `n` matches material `m` over
/// width `w`.
fn row_ok(
    mask: &Vec<Option<Material>>,
    lu: usize,
    lv: usize,
    i: usize,
    j: usize,
    n: usize,
    h: usize,
    w: usize,
    m: Material,
) -> (r: bool)
    requires
        1 <= lu,
        lu * lv <= 0x10000,
        mask@.len() == lu * lv,
        n == j * lu + i,
        0 <= i,
        i + w <= lu,
        j + h < lv,
        1 <= w,
    ensures
        r == row_matches(mask@, lu as int, n as int, h as int, w as int, m),
{
    proof {
        assert(n + h * lu + w <= lu * lv) by (nonlinear_arith)
            requires
                n == j * lu + i,
                i + w <= lu,
                j + h < lv,
                1 <= lu,
                0 <= i,
                0 <= j,
                0 <= h,
        ;
        assert(h * lu <= 0x10000);
    }
    let start = n + h * lu;
    let mut k: usize = 0;
    while k < w
        invariant
            start == n + h * lu,
            start + w <= mask@.len(),
            start + w <= 0x20000,
            0 <= k <= w,
            forall|t: int| start <= t < start + k ==> mask@[t] == Some(m),
        decreases w - k,
    {
        if !(matches!(mask[start + k], Some(x) if x == m)) {
            return false;
        }
        k = k + 1;
    }
    true
}

/// Merges a face mask into greedy rectangles.  Besides equalling the
/// greedy merge, every returned rectangle lies inside the mask and has
/// positive extent.
pub fn merge_rects(mask: Vec<Option<Material>>, lu: usize, lv: usize) -> (r: Vec<MaskRect>)
    requires
        1 <= lu,
        1 <= lv,
        lu * lv <= 0x10000,
        mask@.len() == lu * lv,
    ensures
        r@ == merge_mask(mask@, lu as int, lv as int),
        forall|k: int| 0 <= k < r@.len() ==> {
            &&& (#[trigger] r@[k]).i + r@[k].w <= lu
            &&& r@[k].j + r@[k].h <= lv
            &&& 1 <= r@[k].w
            &&& 1 <= r@[k].h
        },
{
    let ghost orig = mask@;
    let total = lu * lv;
    let mut cur = mask;
    let mut rects: Vec<MaskRect> = Vec::new();
    let mut n: usize = 0;
    while n < total
        invariant
            1 <= lu,
            1 <= lv,
            total == lu * lv,
            total <= 0x10000,
            cur@.len() == total,
            0 <= n <= total,
            merge_from(orig, lu as int, lv as int, 0) == rects@ + merge_from(
                cur@,
                lu as int,
                lv as int,
                n as int,
            ),
            forall|k: int| 0 <= k < rects@.len() ==> {
                &&& (#[trigger] rects@[k]).i + rects@[k].w <= lu
                &&& rects@[k].j + rects@[k].h <= lv
                &&& 1 <= rects@[k].w
                &&& 1 <= rects@[k].h
            },
        decreases total - n,
    {
        let cell = cur[n];
        match cell {
            None => {
                proof {
                    assert(merge_from(cur@, lu as int, lv as int, n as int) == merge_from(
                        cur@,
                        lu as int,
                        lv as int,
                        n as int + 1,
                    ));
                }
                n = n + 1;
            }
            Some(m) => {
                let i = n % lu;
                let j = n / lu;
                proof {
                    assert(i == n as int % (lu as int) && j == n as int / (lu as int));
                    assert(i < lu && j < lv && n == j * lu + i) by (nonlinear_arith)
                        requires
                            1 <= lu,
                            1 <= lv,
                            0 <= n < lu * lv,
                            i == n % lu,
                            j == n / lu,
                    ;
                    assert(j * lu + lu <= total) by (nonlinear_arith)
                        requires
                            total == lu * lv,
                            0 <= j < lv,
                            1 <= lu,
                    ;
                }

                // Grow the run to the right.
                let mut w: usize = 1;
                while i + w < lu && matches!(cur[n + w], Some(x) if x == m)
                    invariant
                        1 <= lu,
                        cur@.len() == total,
                        n == j * lu + i,
                        j * lu + lu <= total,
                        0 <= i,
                        1 <= w,
                        i + w <= lu,
                        width_from(cur@, lu as int, i as int, n as int, m, w as int)
                            == width_from(cur@, lu as int, i as int, n as int, m, 1),
                    decreases lu - i - w,
                {
                    w = w + 1;
                }
                proof {
                    assert(width_from(cur@, lu as int, i as int, n as int, m, w as int)
                        == w as int);
                }

                // Grow the rectangle downward row by row.
                let mut h: usize = 1;
                while j + h < lv && row_ok(&cur, lu, lv, i, j, n, h, w, m)
                    invariant
                        1 <= lu,
                        1 <= lv,
                        cur@.len() == total,
                        total == lu * lv,
                        total <= 0x10000,
                        n == j * lu + i,
                        j * lu + lu <= total,
                        0 <= i,
                        i + w <= lu,
                        1 <= w,
                        1 <= h,
                        j + h <= lv,
                        height_from(cur@, lu as int, lv as int, j as int, n as int, m, w as int,
                            h as int,
                        ) == height_from(cur@, lu as int, lv as int, j as int, n as int, m,
                            w as int, 1),
                    decreases lv - j - h,
                {
                    h = h + 1;
                }
                proof {
                    assert(height_from(cur@, lu as int, lv as int, j as int, n as int, m,
                        w as int, h as int) == h as int);
                }

                let ghost before = cur@;

                // Consume the rectangle's cells.
                let mut t: usize = 0;
                while t < total
                    invariant
                        1 <= lu,
                        cur@.len() == total,
                        before.len() == total,
                        0 <= t <= total,
                        0 <= n,
                        forall|p: int| 0 <= p < t ==> cur@[p] == clear_rect(before, lu as int,
                            n as int, w as int, h as int)[p],
                        forall|p: int| t <= p < total ==> cur@[p] == before[p],
                    decreases total - t,
                {
                    let covered = t >= n && (t - n) % lu < w && (t - n) / lu < h;
                    proof {
                        assert(covered == rect_covers(lu as int, n as int, w as int, h as int,
                            t as int));
                    }
                    if covered {
                        cur.set(t, None);
                    }
                    t = t + 1;
                }
                proof {
                    assert(cur@ =~= clear_rect(before, lu as int, n as int, w as int, h as int));
                }

                let rect = MaskRect { i, j, w, h, material: m };
                let ghost rects_before = rects@;
                rects.push(rect);
                proof {
                    let tail = merge_from(cur@, lu as int, lv as int, n as int + w as int);
                    assert(merge_from(before, lu as int, lv as int, n as int) == seq![rect]
                        + tail);
                    assert(rects_before + (seq![rect] + tail) =~= rects@ + tail);
                }
                n = n + w;
            }
        }
    }
    proof {
        assert(merge_from(cur@, lu as int, lv as int, n as int) == Seq::<MaskRect>::empty());
        assert(rects@ + Seq::<MaskRect>::empty() =~= rects@);
    }
    rects
}

} // verus!

verus! {

/// One merged quad of the mesh: its four corners in chunk-relative
/// block units, its extent in blocks, the side it faces, the material
/// that shows on it, and whether it came from a back pass.
#[derive(Copy, Clone, Eq, PartialEq, Structural, Debug)]
pub struct Quad {
    pub bottom_left: Vertex,
    pub top_left: Vertex,
    pub top_right: Vertex,
    pub bottom_right: Vertex,
    pub width: i32,
    pub height: i32,
    pub side: Side,
    pub material: Material,
    pub back_face: bool,
}

/// The vertex with `p` on sweep axis `d`, `i` on the first mask axis
/// and `j` on the second.
pub open spec fn vertex_at(d: int, p: int, i: int, j: int) -> Vertex {
    let (x, y, z) = sweep_pos(d, p, i, j);
    Vertex { x: x as i32, y: y as i32, z: z as i32 }
}

/// The quad a merged rectangle of slice `s` becomes.  The quad lies in
/// the plane `s + 1`, one step past the slice's near block, and its
/// corners follow the rectangle: width along the first mask axis,
/// height along the second.
pub open spec fn quad_of_rect(d: int, back_face: bool, s: int, r: MaskRect) -> Quad {
    let p = s + 1;
    let i = r.i as int;
    let j = r.j as int;
    let w = r.w as int;
    let h = r.h as int;
    Quad {
        bottom_left: vertex_at(d, p, i, j),
        top_left: vertex_at(d, p, i + w, j),
        top_right: vertex_at(d, p, i + w, j + h),
        bottom_right: vertex_at(d, p, i, j + h),
        width: w as i32,
        height: h as i32,
        side: sweep_side(d, back_face),
        material: r.material,
        back_face,
    }
}

/// Whether a merged rectangle of the given material produces a quad:
/// air never does, and other materials do exactly when the catalog
/// treats them as opaque (an unregistered id falls back to opaque).
pub open spec fn emit_quad(blocks: Seq<BlockData>, m: Material) -> bool {
    m != AIR && spec_opaque(blocks, m)
}

/// The quads emitted for the merged rectangles from position `k` on.
pub open spec fn emit_from(
    rects: Seq<MaskRect>,
    blocks: Seq<BlockData>,
    d: int,
    back_face: bool,
    s: int,
    k: int,
) -> Seq<Quad>
    decreases rects.len() - k,
{
    if k < 0 || k >= rects.len() {
        Seq::empty()
    } else {
        let rest = emit_from(rects, blocks, d, back_face, s, k + 1);
        if emit_quad(blocks, rects[k].material) {
            seq![quad_of_rect(d, back_face, s, rects[k])] + rest
        } else {
            rest
        }
    }
}

/// The quads of one slice of a sweep: mask, merge, emit.
pub open spec fn slice_quads(
    grid: &VoxelGrid,
    blocks: Seq<BlockData>,
    d: int,
    back_face: bool,
    s: int,
) -> Seq<Quad> {
    let lu = axis_len(grid, u_axis(d));
    let lv = axis_len(grid, v_axis(d));
    emit_from(merge_mask(mask_seq(grid, d, back_face, s), lu, lv), blocks, d, back_face, s, 0)
}

/// The quads of the slices of a sweep from `s` on.  Slices run from
/// `-1` (the near boundary of the grid) to the far boundary.
pub open spec fn slices_from(
    grid: &VoxelGrid,
    blocks: Seq<BlockData>,
    d: int,
    back_face: bool,
    s: int,
) -> Seq<Quad>
    decreases axis_len(grid, d) - s,
{
    if s >= axis_len(grid, d) {
        Seq::empty()
    } else {
        slice_quads(grid, blocks, d, back_face, s) + slices_from(grid, blocks, d, back_face, s + 1)
    }
}

/// The quads of one pass (back or front) over the sweep axes from `d`
/// on.
pub open spec fn pass_quads(
    grid: &VoxelGrid,
    blocks: Seq<BlockData>,
    back_face: bool,
    d: int,
) -> Seq<Quad>
    decreases 3 - d,
{
    if d >= 3 {
        Seq::empty()
    } else {
        slices_from(grid, blocks, d, back_face, -1) + pass_quads(grid, blocks, back_face, d + 1)
    }
}

/// Every quad greedy meshing produces for a grid and a catalog, in
/// emission order: the back pass over the three axes, then the front
/// pass.
pub open spec fn greedy_quads_spec(grid: &VoxelGrid, blocks: Seq<BlockData>) -> Seq<Quad> {
    pass_quads(grid, blocks, true, 0) + pass_quads(grid, blocks, false, 0)
}

/// The side a sweep meshes.
fn side_of(d: usize, back_face: bool) -> (r: Side)
    requires
        d < 3,
    ensures
        r == sweep_side(d as int, back_face),
{
    if d == 0 {
        if back_face {
            Side::West
        } else {
            Side::East
        }
    } else if d == 1 {
        if back_face {
            Side::Bottom
        } else {
            Side::Top
        }
    } else {
        if back_face {
            Side::South
        } else {
            Side::North
        }
    }
}

/// Meshes one slice of a sweep, appending its quads.
fn mesh_slice(
    grid: &VoxelGrid,
    registry: &BlockRegistry,
    d: usize,
    back_face: bool,
    s: i32,
    quads: &mut Vec<Quad>,
)
    requires
        grid.wf(),
        d < 3,
        -1 <= s <= axis_len(grid, d as int) - 1,
    ensures
        final(quads)@ == old(quads)@ + slice_quads(grid, registry@, d as int, back_face, s as int),
{
    let u = if d == 0 {
        1
    } else if d == 1 {
        2
    } else {
        0
    };
    let v = if d == 0 {
        2
    } else if d == 1 {
        0
    } else {
        1
    };
    let lu = axis_len_of(grid, u);
    let lv = axis_len_of(grid, v);
    proof {
        assert(lu * lv <= 0x10000 && 1 <= lu * lv) by (nonlinear_arith)
            requires
                1 <= lu <= 256,
                1 <= lv <= 256,
        ;
    }
    let mask = compute_mask(grid, d, back_face, s);
    let rects = merge_rects(mask, lu, lv);
    let ghost blocks = registry@;
    let ghost all_rects = rects@;

    let total = rects.len();
    let mut k: usize = 0;
    while k < total
        invariant
            grid.wf(),
            d < 3,
            -1 <= s as int <= axis_len(grid, d as int) - 1,
            lu == axis_len(grid, u_axis(d as int)),
            lv == axis_len(grid, v_axis(d as int)),
            1 <= lu <= 256,
            1 <= lv <= 256,
            registry@ == blocks,
            rects@ == all_rects,
            total == rects@.len(),
            0 <= k <= total,
            forall|t: int| 0 <= t < rects@.len() ==> {
                &&& (#[trigger] rects@[t]).i + rects@[t].w <= lu
                &&& rects@[t].j + rects@[t].h <= lv
                &&& 1 <= rects@[t].w
                &&& 1 <= rects@[t].h
            },
            old(quads)@ + emit_from(all_rects, blocks, d as int, back_face, s as int, 0)
                == quads@ + emit_from(all_rects, blocks, d as int, back_face, s as int, k as int),
        decreases total - k,
    {
        let r = rects[k];
        let emit = r.material != crate::block::AIR && registry.material_opaque(r.material);
        if emit {
            let p = s + 1;
            let (blx, bly, blz) = sweep_pos_of(d, p, r.i as i32, r.j as i32);
            let (tlx, tly, tlz) = sweep_pos_of(d, p, (r.i + r.w) as i32, r.j as i32);
            let (trx, try_, trz) = sweep_pos_of(d, p, (r.i + r.w) as i32, (r.j + r.h) as i32);
            let (brx, bry, brz) = sweep_pos_of(d, p, r.i as i32, (r.j + r.h) as i32);
            let quad = Quad {
                bottom_left: Vertex { x: blx, y: bly, z: blz },
                top_left: Vertex { x: tlx, y: tly, z: tlz },
                top_right: Vertex { x: trx, y: try_, z: trz },
                bottom_right: Vertex { x: brx, y: bry, z: brz },
                width: r.w as i32,
                height: r.h as i32,
                side: side_of(d, back_face),
                material: r.material,
                back_face,
            };
            let ghost quads_before = quads@;
            quads.push(quad);
            proof {
                assert(quad == quad_of_rect(d as int, back_face, s as int, all_rects[k as int]));
                let rest = emit_from(all_rects, blocks, d as int, back_face, s as int, k as int
                    + 1);
                assert(emit_from(all_rects, blocks, d as int, back_face, s as int, k as int)
                    == seq![quad] + rest);
                assert(quads_before + (seq![quad] + rest) =~= quads@ + rest);
            }
        } else {
            proof {
                assert(emit_from(all_rects, blocks, d as int, back_face, s as int, k as int)
                    == emit_from(all_rects, blocks, d as int, back_face, s as int, k as int + 1));
            }
        }
        k = k + 1;
    }
    proof {
        assert(emit_from(all_rects, blocks, d as int, back_face, s as int, total as int)
            == Seq::<Quad>::empty());
        assert(quads@ + Seq::<Quad>::empty() =~= quads@);
    }
}

/// Meshes all slices of one sweep pass over axis `d`, appending their
/// quads.
fn mesh_direction(
    grid: &VoxelGrid,
    registry: &BlockRegistry,
    d: usize,
    back_face: bool,
    quads: &mut Vec<Quad>,
)
    requires
        grid.wf(),
        d < 3,
    ensures
        final(quads)@ == old(quads)@ + slices_from(grid, registry@, d as int, back_face, -1),
{
    let len_d = axis_len_of(grid, d);
    let mut s: i32 = -1;
    while s < len_d as i32
        invariant
            grid.wf(),
            d < 3,
            len_d == axis_len(grid, d as int),
            1 <= len_d <= 256,
            -1 <= s as int <= len_d,
            old(quads)@ + slices_from(grid, registry@, d as int, back_face, -1)
                == quads@ + slices_from(grid, registry@, d as int, back_face, s as int),
        decreases len_d - s,
    {
        let ghost quads_before = quads@;
        mesh_slice(grid, registry, d, back_face, s, quads);
        proof {
            let sq = slice_quads(grid, registry@, d as int, back_face, s as int);
            let rest = slices_from(grid, registry@, d as int, back_face, s as int + 1);
            assert(slices_from(grid, registry@, d as int, back_face, s as int) == sq + rest);
            assert(quads_before + (sq + rest) =~= quads@ + rest);
        }
        s = s + 1;
    }
    proof {
        assert(slices_from(grid, registry@, d as int, back_face, s as int)
            == Seq::<Quad>::empty());
        assert(quads@ + Seq::<Quad>::empty() =~= quads@);
    }
}

/// Runs greedy meshing over a grid and returns every emitted quad, in
/// emission order.
pub fn greedy_quads(grid: &VoxelGrid, registry: &BlockRegistry) -> (r: Vec<Quad>)
    requires
        grid.wf(),
    ensures
        r@ == greedy_quads_spec(grid, registry@),
{
    let mut quads: Vec<Quad> = Vec::new();
    mesh_direction(grid, registry, 0, true, &mut quads);
    mesh_direction(grid, registry, 1, true, &mut quads);
    mesh_direction(grid, registry, 2, true, &mut quads);
    mesh_direction(grid, registry, 0, false, &mut quads);
    mesh_direction(grid, registry, 1, false, &mut quads);
    mesh_direction(grid, registry, 2, false, &mut quads);
    proof {
        let b = registry@;
        assert(pass_quads(grid, b, true, 0) == slices_from(grid, b, 0, true, -1) + pass_quads(
            grid, b, true, 1));
        assert(pass_quads(grid, b, true, 1) == slices_from(grid, b, 1, true, -1) + pass_quads(
            grid, b, true, 2));
        assert(pass_quads(grid, b, true, 2) == slices_from(grid, b, 2, true, -1) + pass_quads(
            grid, b, true, 3));
        assert(pass_quads(grid, b, true, 3) == Seq::<Quad>::empty());
        assert(pass_quads(grid, b, false, 0) == slices_from(grid, b, 0, false, -1) + pass_quads(
            grid, b, false, 1));
        assert(pass_quads(grid, b, false, 1) == slices_from(grid, b, 1, false, -1) + pass_quads(
            grid, b, false, 2));
        assert(pass_quads(grid, b, false, 2) == slices_from(grid, b, 2, false, -1) + pass_quads(
            grid, b, false, 3));
        assert(pass_quads(grid, b, false, 3) == Seq::<Quad>::empty());
        assert(quads@ =~= greedy_quads_spec(grid, b));
    }
    quads
}

} // verus!

verus! {

/// Emission never yields more quads than there are rectangles left.
pub proof fn lemma_emit_from_len(
    rects: Seq<MaskRect>,
    blocks: Seq<BlockData>,
    d: int,
    back_face: bool,
    s: int,
    k: int,
)
    requires
        0 <= k <= rects.len(),
    ensures
        emit_from(rects, blocks, d, back_face, s, k).len() <= rects.len() - k,
    decreases rects.len() - k,
{
    if k < rects.len() {
        lemma_emit_from_len(rects, blocks, d, back_face, s, k + 1);
    }
}

/// The greedy merge never yields more rectangles than there are mask
/// cells left.
pub proof fn lemma_merge_from_len(mask: Seq<Option<Material>>, lu: int, lv: int, n: int)
    requires
        0 <= n <= mask.len(),
    ensures
        merge_from(mask, lu, lv, n).len() <= mask.len() - n,
    decreases mask.len() - n,
{
    if 0 <= n < mask.len() {
        match mask[n] {
            None => {
                lemma_merge_from_len(mask, lu, lv, n + 1);
            }
            Some(m) => {
                let i = n % lu;
                let w = width_from(mask, lu, i, n, m, 1);
                let h = height_from(mask, lu, lv, n / lu, n, m, w, 1);
                lemma_width_from_ge(mask, lu, i, n, m, 1);
                lemma_width_from_le(mask, lu, i, n, m, 1);
                lemma_merge_from_len(clear_rect(mask, lu, n, w, h), lu, lv, n + w);
            }
        }
    }
}

/// One slice yields at most one quad per mask cell.
pub proof fn lemma_slice_quads_len(
    grid: &VoxelGrid,
    blocks: Seq<BlockData>,
    d: int,
    back_face: bool,
    s: int,
)
    requires
        grid.wf(),
        0 <= d < 3,
    ensures
        slice_quads(grid, blocks, d, back_face, s).len() <= 0x10000,
{
    let lu = axis_len(grid, u_axis(d));
    let lv = axis_len(grid, v_axis(d));
    let mask = mask_seq(grid, d, back_face, s);
    assert(mask.len() == lu * lv);
    assert(lu * lv <= 0x10000) by (nonlinear_arith)
        requires
            1 <= lu <= 256,
            1 <= lv <= 256,
    ;
    lemma_merge_from_len(mask, lu, lv, 0);
    lemma_emit_from_len(merge_mask(mask, lu, lv), blocks, d, back_face, s, 0);
}

/// All slices of one sweep pass stay within one quad per mask cell per
/// slice.
pub proof fn lemma_slices_from_len(
    grid: &VoxelGrid,
    blocks: Seq<BlockData>,
    d: int,
    back_face: bool,
    s: int,
)
    requires
        grid.wf(),
        0 <= d < 3,
        -1 <= s <= axis_len(grid, d),
    ensures
        slices_from(grid, blocks, d, back_face, s).len() <= (axis_len(grid, d) - s) * 0x10000,
    decreases axis_len(grid, d) - s,
{
    if s >= axis_len(grid, d) {
    } else {
        lemma_slice_quads_len(grid, blocks, d, back_face, s);
        lemma_slices_from_len(grid, blocks, d, back_face, s + 1);
        assert((axis_len(grid, d) - s) * 0x10000 == (axis_len(grid, d) - s - 1) * 0x10000
            + 0x10000) by (nonlinear_arith);
    }
}

/// A whole sweep pass yields at most `3 * 257 * 0x10000` quads.
pub proof fn lemma_pass_quads_len(
    grid: &VoxelGrid,
    blocks: Seq<BlockData>,
    back_face: bool,
    d: int,
)
    requires
        grid.wf(),
        0 <= d <= 3,
    ensures
        pass_quads(grid, blocks, back_face, d).len() <= (3 - d) * 0x1010000,
    decreases 3 - d,
{
    if d >= 3 {
    } else {
        lemma_slices_from_len(grid, blocks, d, back_face, -1);
        lemma_pass_quads_len(grid, blocks, back_face, d + 1);
        assert((axis_len(grid, d) + 1) * 0x10000 <= 0x1010000) by (nonlinear_arith)
            requires
                1 <= axis_len(grid, d) <= 256,
        ;
        assert((3 - d) * 0x1010000 == (3 - d - 1) * 0x1010000 + 0x1010000) by (nonlinear_arith);
    }
}

/// Greedy meshing yields fewer than `2^27` quads, so every buffer
/// index of the mesh, including the 32-bit triangle indices, fits its
/// type.
pub proof fn lemma_greedy_quads_len(grid: &VoxelGrid, blocks: Seq<BlockData>)
    requires
        grid.wf(),
    ensures
        greedy_quads_spec(grid, blocks).len() <= 0x8000000,
{
    lemma_pass_quads_len(grid, blocks, true, 0);
    lemma_pass_quads_len(grid, blocks, false, 0);
}

/// The vertex positions of the quads from position `k` on.
pub open spec fn quads_positions(qs: Seq<Quad>, k: int) -> Seq<i32>
    decreases qs.len() - k,
{
    if k < 0 || k >= qs.len() {
        Seq::empty()
    } else {
        crate::mesh::quad_positions(
            qs[k].bottom_left,
            qs[k].top_left,
            qs[k].top_right,
            qs[k].bottom_right,
        ) + quads_positions(qs, k + 1)
    }
}

/// The triangle indices of the quads from position `k` on; quad `k`
/// owns vertices `4k .. 4k + 4`.
pub open spec fn quads_indices(qs: Seq<Quad>, k: int) -> Seq<u32>
    decreases qs.len() - k,
{
    if k < 0 || k >= qs.len() {
        Seq::empty()
    } else {
        crate::mesh::quad_indices((4 * k) as u32, qs[k].back_face) + quads_indices(qs, k + 1)
    }
}

/// The texture coordinates of the quads from position `k` on.
pub open spec fn quads_tex_coords(qs: Seq<Quad>, k: int) -> Seq<i32>
    decreases qs.len() - k,
{
    if k < 0 || k >= qs.len() {
        Seq::empty()
    } else {
        crate::mesh::quad_tex_coords(qs[k].width, qs[k].height) + quads_tex_coords(qs, k + 1)
    }
}

/// The normals of the quads from position `k` on.
pub open spec fn quads_normals(qs: Seq<Quad>, k: int) -> Seq<i32>
    decreases qs.len() - k,
{
    if k < 0 || k >= qs.len() {
        Seq::empty()
    } else {
        crate::mesh::quad_normals(qs[k].side) + quads_normals(qs, k + 1)
    }
}

/// The tile offsets of the quads from position `k` on.
pub open spec fn quads_tile_offsets(qs: Seq<Quad>, k: int) -> Seq<i32>
    decreases qs.len() - k,
{
    if k < 0 || k >= qs.len() {
        Seq::empty()
    } else {
        crate::mesh::quad_tile_offsets(qs[k].side) + quads_tile_offsets(qs, k + 1)
    }
}

/// Packs a sequence of quads into mesh buffers, one quad at a time.
pub fn build_chunk_mesh(quads: &Vec<Quad>) -> (mesh: ChunkMesh)
    requires
        quads@.len() <= 0x8000000,
    ensures
        mesh.wf(),
        mesh.spec_quad_count() == quads@.len(),
        mesh.spec_positions() == quads_positions(quads@, 0),
        mesh.spec_indices() == quads_indices(quads@, 0),
        mesh.spec_tex_coords() == quads_tex_coords(quads@, 0),
        mesh.spec_normals() == quads_normals(quads@, 0),
        mesh.spec_tile_offsets() == quads_tile_offsets(quads@, 0),
{
    let mut mesh = ChunkMesh::new();
    let total = quads.len();
    let mut k: usize = 0;
    while k < total
        invariant
            total == quads@.len(),
            total <= 0x8000000,
            0 <= k <= total,
            mesh.wf(),
            mesh.spec_quad_count() == k,
            quads_positions(quads@, 0) == mesh.spec_positions() + quads_positions(quads@,
                k as int),
            quads_indices(quads@, 0) == mesh.spec_indices() + quads_indices(quads@, k as int),
            quads_tex_coords(quads@, 0) == mesh.spec_tex_coords() + quads_tex_coords(quads@,
                k as int),
            quads_normals(quads@, 0) == mesh.spec_normals() + quads_normals(quads@, k as int),
            quads_tile_offsets(quads@, 0) == mesh.spec_tile_offsets() + quads_tile_offsets(
                quads@, k as int),
        decreases total - k,
    {
        let q = quads[k];
        let face = VoxelFace { side: q.side, material: q.material };
        let ghost mesh_before = mesh;
        mesh.add_quad(
            q.bottom_left,
            q.top_left,
            q.top_right,
            q.bottom_right,
            q.width,
            q.height,
            &face,
            q.back_face,
        );
        proof {
            let qsk = quads@[k as int];
            assert(quads_positions(quads@, k as int) == crate::mesh::quad_positions(
                qsk.bottom_left, qsk.top_left, qsk.top_right, qsk.bottom_right)
                + quads_positions(quads@, k as int + 1));
            assert(mesh_before.spec_positions() + (crate::mesh::quad_positions(qsk.bottom_left,
                qsk.top_left, qsk.top_right, qsk.bottom_right) + quads_positions(quads@, k as int
                + 1)) =~= mesh.spec_positions() + quads_positions(quads@, k as int + 1));
            assert(quads_indices(quads@, k as int) == crate::mesh::quad_indices((4 * k) as u32,
                qsk.back_face) + quads_indices(quads@, k as int + 1));
            assert(mesh_before.spec_current_index() == (4 * k) as u32);
            assert(mesh_before.spec_indices() + (crate::mesh::quad_indices((4 * k) as u32,
                qsk.back_face) + quads_indices(quads@, k as int + 1)) =~= mesh.spec_indices()
                + quads_indices(quads@, k as int + 1));
            assert(quads_tex_coords(quads@, k as int) == crate::mesh::quad_tex_coords(qsk.width,
                qsk.height) + quads_tex_coords(quads@, k as int + 1));
            assert(mesh_before.spec_tex_coords() + (crate::mesh::quad_tex_coords(qsk.width,
                qsk.height) + quads_tex_coords(quads@, k as int + 1)) =~= mesh.spec_tex_coords()
                + quads_tex_coords(quads@, k as int + 1));
            assert(quads_normals(quads@, k as int) == crate::mesh::quad_normals(qsk.side)
                + quads_normals(quads@, k as int + 1));
            assert(mesh_before.spec_normals() + (crate::mesh::quad_normals(qsk.side)
                + quads_normals(quads@, k as int + 1)) =~= mesh.spec_normals() + quads_normals(
                quads@, k as int + 1));
            assert(quads_tile_offsets(quads@, k as int) == crate::mesh::quad_tile_offsets(
                qsk.side) + quads_tile_offsets(quads@, k as int + 1));
            assert(mesh_before.spec_tile_offsets() + (crate::mesh::quad_tile_offsets(qsk.side)
                + quads_tile_offsets(quads@, k as int + 1)) =~= mesh.spec_tile_offsets()
                + quads_tile_offsets(quads@, k as int + 1));
        }
        k = k + 1;
    }
    proof {
        assert(quads_positions(quads@, total as int) == Seq::<i32>::empty());
        assert(mesh.spec_positions() + Seq::<i32>::empty() =~= mesh.spec_positions());
        assert(quads_indices(quads@, total as int) == Seq::<u32>::empty());
        assert(mesh.spec_indices() + Seq::<u32>::empty() =~= mesh.spec_indices());
        assert(quads_tex_coords(quads@, total as int) == Seq::<i32>::empty());
        assert(mesh.spec_tex_coords() + Seq::<i32>::empty() =~= mesh.spec_tex_coords());
        assert(quads_normals(quads@, total as int) == Seq::<i32>::empty());
        assert(mesh.spec_normals() + Seq::<i32>::empty() =~= mesh.spec_normals());
        assert(quads_tile_offsets(quads@, total as int) == Seq::<i32>::empty());
        assert(mesh.spec_tile_offsets() + Seq::<i32>::empty() =~= mesh.spec_tile_offsets());
    }
    mesh
}

/// Generates the mesh of a chunk by greedy meshing: the buffers hold
/// exactly the quads of [`greedy_quads_spec`], in emission order.  The
/// result is a pure function of the grid snapshot and the catalog, so
/// rebuilding an unchanged chunk reproduces its mesh exactly.
pub fn make_greedy_chunk_mesh(grid: &VoxelGrid, registry: &BlockRegistry) -> (mesh: ChunkMesh)
    requires
        grid.wf(),
    ensures
        mesh.wf(),
        mesh.spec_quad_count() == greedy_quads_spec(grid, registry@).len(),
        mesh.spec_positions() == quads_positions(greedy_quads_spec(grid, registry@), 0),
        mesh.spec_indices() == quads_indices(greedy_quads_spec(grid, registry@), 0),
        mesh.spec_tex_coords() == quads_tex_coords(greedy_quads_spec(grid, registry@), 0),
        mesh.spec_normals() == quads_normals(greedy_quads_spec(grid, registry@), 0),
        mesh.spec_tile_offsets() == quads_tile_offsets(greedy_quads_spec(grid, registry@), 0),
{
    let quads = greedy_quads(grid, registry);
    proof {
        lemma_greedy_quads_len(grid, registry@);
    }
    build_chunk_mesh(&quads)
}

} // verus!

verus! {

/// A mask whose cells from `n` on are all empty merges to nothing.
pub proof fn lemma_merge_all_none(mask: Seq<Option<Material>>, lu: int, lv: int, n: int)
    requires
        0 <= n,
        forall|t: int| n <= t < mask.len() ==> mask[t] is None,
    ensures
        merge_from(mask, lu, lv, n) == Seq::<MaskRect>::empty(),
    decreases mask.len() - n,
{
    if 0 <= n < mask.len() {
        lemma_merge_all_none(mask, lu, lv, n + 1);
    }
}

/// In a row filled with the same face, the greedy width runs to the
/// end of the row.
pub proof fn lemma_width_uniform(
    mask: Seq<Option<Material>>,
    lu: int,
    i: int,
    n: int,
    m: Material,
    w: int,
)
    requires
        1 <= w,
        i + w <= lu,
        forall|k: int| w <= k < lu - i ==> 0 <= n + k < mask.len() && #[trigger] mask[n + k] == Some(m),
    ensures
        width_from(mask, lu, i, n, m, w) == lu - i,
    decreases lu - i - w,
{
    if i + w < lu {
        lemma_width_uniform(mask, lu, i, n, m, w + 1);
    }
}

/// If every remaining row matches, the greedy height runs to the end
/// of the mask.
pub proof fn lemma_height_uniform(
    mask: Seq<Option<Material>>,
    lu: int,
    lv: int,
    j: int,
    n: int,
    m: Material,
    w: int,
    h: int,
)
    requires
        1 <= h,
        j + h <= lv,
        forall|hh: int| h <= hh < lv - j ==> #[trigger] row_matches(mask, lu, n, hh, w, m),
    ensures
        height_from(mask, lu, lv, j, n, m, w, h) == lv - j,
    decreases lv - j - h,
{
    if j + h < lv {
        lemma_height_uniform(mask, lu, lv, j, n, m, w, h + 1);
    }
}

/// A mask filled entirely with one face merges to a single rectangle
/// covering the whole mask.
pub proof fn lemma_merge_uniform(mask: Seq<Option<Material>>, lu: int, lv: int, m: Material)
    requires
        1 <= lu <= 0x10000,
        1 <= lv <= 0x10000,
        mask.len() == lu * lv,
        forall|t: int| 0 <= t < mask.len() ==> mask[t] == Some(m),
    ensures
        merge_mask(mask, lu, lv) == seq![
            MaskRect { i: 0, j: 0, w: lu as usize, h: lv as usize, material: m },
        ],
{
    assert(lu <= mask.len()) by (nonlinear_arith)
        requires
            1 <= lu,
            1 <= lv,
            mask.len() == lu * lv,
    ;
    assert(0int % lu == 0 && 0int / lu == 0);
    lemma_width_uniform(mask, lu, 0, 0, m, 1);
    let w = width_from(mask, lu, 0, 0, m, 1);
    assert(w == lu);
    assert forall|hh: int| 1 <= hh < lv implies row_matches(mask, lu, 0, hh, lu, m) by {
        assert(hh * lu + lu <= lv * lu) by (nonlinear_arith)
            requires
                1 <= hh < lv,
                1 <= lu,
        ;
        assert(lv * lu == lu * lv) by (nonlinear_arith);
        assert(0 <= hh * lu) by (nonlinear_arith)
            requires
                1 <= hh,
                1 <= lu,
        ;
    }
    lemma_height_uniform(mask, lu, lv, 0, 0, m, lu, 1);
    let h = height_from(mask, lu, lv, 0, 0, m, lu, 1);
    assert(h == lv);
    let cleared = clear_rect(mask, lu, 0, lu, lv);
    assert forall|t: int| 0 <= t < cleared.len() implies cleared[t] is None by {
        assert(t % lu < lu && t % lu >= 0 && t / lu >= 0) by (nonlinear_arith)
            requires
                1 <= lu,
                0 <= t,
        ;
        assert(t / lu < lv) by (nonlinear_arith)
            requires
                1 <= lu,
                0 <= t < lu * lv,
        ;
        assert(rect_covers(lu, 0, lu, lv, t));
    }
    lemma_merge_all_none(cleared, lu, lv, lu);
    assert(merge_from(cleared, lu, lv, 0 + lu) == Seq::<MaskRect>::empty());
    assert(merge_from(mask, lu, lv, 0) == seq![
        MaskRect { i: 0, j: 0, w: lu as usize, h: lv as usize, material: m },
    ] + Seq::<MaskRect>::empty());
    assert(seq![MaskRect { i: 0, j: 0, w: lu as usize, h: lv as usize, material: m }]
        + Seq::<MaskRect>::empty() =~= seq![
        MaskRect { i: 0, j: 0, w: lu as usize, h: lv as usize, material: m },
    ]);
}

/// Whether a grid holds material `m` in every cell.
pub open spec fn uniform_grid(grid: &VoxelGrid, m: Material) -> bool {
    forall|x: int, y: int, z: int|
        grid.in_bounds(x, y, z) ==> #[trigger] grid.spec_block(x, y, z) == m
}

/// In a uniform grid, a slice's mask is constant: the boundary slice
/// of a sweep holds the material everywhere, every other slice is
/// empty.  The boundary slice is `-1` for a back pass and the far end
/// for a front pass.
pub proof fn lemma_uniform_mask(
    grid: &VoxelGrid,
    d: int,
    back_face: bool,
    s: int,
    m: Material,
)
    requires
        grid.wf(),
        0 <= d < 3,
        -1 <= s <= axis_len(grid, d) - 1,
        uniform_grid(grid, m),
    ensures
        forall|n: int| 0 <= n < mask_seq(grid, d, back_face, s).len()
            ==> mask_seq(grid, d, back_face, s)[n] == (if (back_face && s == -1) || (!back_face
            && s == axis_len(grid, d) - 1) {
                Some(m)
            } else {
                None::<Material>
            }),
{
    let lu = axis_len(grid, u_axis(d));
    let lv = axis_len(grid, v_axis(d));
    assert forall|n: int| 0 <= n < mask_seq(grid, d, back_face, s).len()
        implies mask_seq(grid, d, back_face, s)[n] == (if (back_face && s == -1) || (!back_face
        && s == axis_len(grid, d) - 1) {
            Some(m)
        } else {
            None::<Material>
        }) by {
        let i = n % lu;
        let j = n / lu;
        assert(0 <= i < lu && 0 <= j < lv) by (nonlinear_arith)
            requires
                1 <= lu,
                1 <= lv,
                0 <= n < lu * lv,
                i == n % lu,
                j == n / lu,
        ;
        assert forall|ss: int| 0 <= ss < axis_len(grid, d) implies block_at(grid, d, ss, i, j)
            == m by {
            let (x, y, z) = sweep_pos(d, ss, i, j);
            assert(grid.in_bounds(x, y, z));
        }
        if s >= 0 {
            assert(block_at(grid, d, s, i, j) == m);
        }
        if s < axis_len(grid, d) - 1 {
            assert(block_at(grid, d, s + 1, i, j) == m);
        }
    }
}

/// The single quad a uniform grid's sweep emits: the whole boundary
/// face of the grid, merged into one rectangle.
pub open spec fn uniform_quad(grid: &VoxelGrid, d: int, back_face: bool, m: Material) -> Quad {
    let lu = axis_len(grid, u_axis(d));
    let lv = axis_len(grid, v_axis(d));
    let bs = if back_face {
        -1
    } else {
        axis_len(grid, d) - 1
    };
    quad_of_rect(
        d,
        back_face,
        bs,
        MaskRect { i: 0, j: 0, w: lu as usize, h: lv as usize, material: m },
    )
}

/// In a uniform grid, one slice of a sweep emits either the whole
/// boundary face (at the boundary slice, when the material is meshed)
/// or nothing.
pub proof fn lemma_uniform_slice(
    grid: &VoxelGrid,
    blocks: Seq<BlockData>,
    d: int,
    back_face: bool,
    s: int,
    m: Material,
)
    requires
        grid.wf(),
        0 <= d < 3,
        -1 <= s <= axis_len(grid, d) - 1,
        uniform_grid(grid, m),
    ensures
        slice_quads(grid, blocks, d, back_face, s) == (if emit_quad(blocks, m) && ((back_face
            && s == -1) || (!back_face && s == axis_len(grid, d) - 1)) {
            seq![uniform_quad(grid, d, back_face, m)]
        } else {
            Seq::<Quad>::empty()
        }),
{
    let lu = axis_len(grid, u_axis(d));
    let lv = axis_len(grid, v_axis(d));
    let mask = mask_seq(grid, d, back_face, s);
    assert(mask.len() == lu * lv);
    assert(1 <= lu * lv <= 0x10000) by (nonlinear_arith)
        requires
            1 <= lu <= 256,
            1 <= lv <= 256,
    ;
    lemma_uniform_mask(grid, d, back_face, s, m);
    if (back_face && s == -1) || (!back_face && s == axis_len(grid, d) - 1) {
        lemma_merge_uniform(mask, lu, lv, m);
        let rect = MaskRect { i: 0, j: 0, w: lu as usize, h: lv as usize, material: m };
        let rects = merge_mask(mask, lu, lv);
        assert(rects == seq![rect]);
        assert(rects[0] == rect);
        assert(emit_from(rects, blocks, d, back_face, s, 1) == Seq::<Quad>::empty());
        if emit_quad(blocks, m) {
            assert(emit_from(rects, blocks, d, back_face, s, 0) == seq![
                quad_of_rect(d, back_face, s, rect),
            ] + Seq::<Quad>::empty());
            assert(seq![quad_of_rect(d, back_face, s, rect)] + Seq::<Quad>::empty() =~= seq![
                quad_of_rect(d, back_face, s, rect),
            ]);
        }
    } else {
        lemma_merge_all_none(mask, lu, lv, 0);
        assert(emit_from(Seq::<MaskRect>::empty(), blocks, d, back_face, s, 0) == Seq::<
            Quad,
        >::empty());
    }
}

/// In a uniform grid, a sweep pass over one axis emits exactly the
/// boundary face, or nothing if the material is not meshed.
pub proof fn lemma_uniform_slices(
    grid: &VoxelGrid,
    blocks: Seq<BlockData>,
    d: int,
    back_face: bool,
    s: int,
    m: Material,
)
    requires
        grid.wf(),
        0 <= d < 3,
        -1 <= s <= axis_len(grid, d),
        uniform_grid(grid, m),
    ensures
        slices_from(grid, blocks, d, back_face, s) == (if emit_quad(blocks, m) && (if back_face {
            s <= -1
        } else {
            s <= axis_len(grid, d) - 1
        }) {
            seq![uniform_quad(grid, d, back_face, m)]
        } else {
            Seq::<Quad>::empty()
        }),
    decreases axis_len(grid, d) - s,
{
    if s >= axis_len(grid, d) {
    } else {
        lemma_uniform_slice(grid, blocks, d, back_face, s, m);
        lemma_uniform_slices(grid, blocks, d, back_face, s + 1, m);
        let sq = slice_quads(grid, blocks, d, back_face, s);
        let rest = slices_from(grid, blocks, d, back_face, s + 1);
        assert(slices_from(grid, blocks, d, back_face, s) == sq + rest);
        if sq == Seq::<Quad>::empty() {
            assert(sq + rest =~= rest);
        } else {
            assert(rest == Seq::<Quad>::empty());
            assert(sq + rest =~= sq);
        }
    }
}

/// In a uniform grid, greedy meshing emits exactly one quad per grid
/// face when the material is meshed — each the whole face, maximally
/// merged — and none otherwise.
pub proof fn lemma_uniform_grid_quads(grid: &VoxelGrid, blocks: Seq<BlockData>, m: Material)
    requires
        grid.wf(),
        uniform_grid(grid, m),
    ensures
        emit_quad(blocks, m) ==> greedy_quads_spec(grid, blocks) == seq![
            uniform_quad(grid, 0, true, m),
            uniform_quad(grid, 1, true, m),
            uniform_quad(grid, 2, true, m),
            uniform_quad(grid, 0, false, m),
            uniform_quad(grid, 1, false, m),
            uniform_quad(grid, 2, false, m),
        ],
        !emit_quad(blocks, m) ==> greedy_quads_spec(grid, blocks) == Seq::<Quad>::empty(),
        greedy_quads_spec(grid, blocks).len() == (if emit_quad(blocks, m) {
            6int
        } else {
            0int
        }),
{
    lemma_uniform_slices(grid, blocks, 0, true, -1, m);
    lemma_uniform_slices(grid, blocks, 1, true, -1, m);
    lemma_uniform_slices(grid, blocks, 2, true, -1, m);
    lemma_uniform_slices(grid, blocks, 0, false, -1, m);
    lemma_uniform_slices(grid, blocks, 1, false, -1, m);
    lemma_uniform_slices(grid, blocks, 2, false, -1, m);
    assert(pass_quads(grid, blocks, true, 3) == Seq::<Quad>::empty());
    assert(pass_quads(grid, blocks, true, 2) == slices_from(grid, blocks, 2, true, -1)
        + pass_quads(grid, blocks, true, 3));
    assert(pass_quads(grid, blocks, true, 1) == slices_from(grid, blocks, 1, true, -1)
        + pass_quads(grid, blocks, true, 2));
    assert(pass_quads(grid, blocks, true, 0) == slices_from(grid, blocks, 0, true, -1)
        + pass_quads(grid, blocks, true, 1));
    assert(pass_quads(grid, blocks, false, 3) == Seq::<Quad>::empty());
    assert(pass_quads(grid, blocks, false, 2) == slices_from(grid, blocks, 2, false, -1)
        + pass_quads(grid, blocks, false, 3));
    assert(pass_quads(grid, blocks, false, 1) == slices_from(grid, blocks, 1, false, -1)
        + pass_quads(grid, blocks, false, 2));
    assert(pass_quads(grid, blocks, false, 0) == slices_from(grid, blocks, 0, false, -1)
        + pass_quads(grid, blocks, false, 1));
    if emit_quad(blocks, m) {
        assert(greedy_quads_spec(grid, blocks) =~= seq![
            uniform_quad(grid, 0, true, m),
            uniform_quad(grid, 1, true, m),
            uniform_quad(grid, 2, true, m),
            uniform_quad(grid, 0, false, m),
            uniform_quad(grid, 1, false, m),
            uniform_quad(grid, 2, false, m),
        ]);
    } else {
        assert(greedy_quads_spec(grid, blocks) =~= Seq::<Quad>::empty());
    }
}

/// Law: a grid filled uniformly with one material the catalog meshes
/// as opaque produces exactly six quads, one per outer face of the
/// grid — the maximal merge.
pub proof fn lemma_uniform_grid_six_quads(
    grid: &VoxelGrid,
    blocks: Seq<BlockData>,
    m: Material,
)
    requires
        grid.wf(),
        uniform_grid(grid, m),
        m != AIR,
        spec_opaque(blocks, m),
    ensures
        greedy_quads_spec(grid, blocks).len() == 6,
{
    lemma_uniform_grid_quads(grid, blocks, m);
}

/// Law: a grid filled entirely with air produces no quads at all.
pub proof fn lemma_air_grid_no_quads(grid: &VoxelGrid, blocks: Seq<BlockData>)
    requires
        grid.wf(),
        uniform_grid(grid, AIR),
    ensures
        greedy_quads_spec(grid, blocks).len() == 0,
{
    lemma_uniform_grid_quads(grid, blocks, AIR);
}

/// Law: meshing is deterministic.  The mesh buffers are pinned to a
/// function of the grid and the catalog alone, so two meshes built
/// from the same unchanged grid are geometrically identical, buffer
/// for buffer.
pub proof fn lemma_remesh_reproduces(
    grid: &VoxelGrid,
    blocks: Seq<BlockData>,
    m1: ChunkMesh,
    m2: ChunkMesh,
)
    requires
        m1.spec_positions() == quads_positions(greedy_quads_spec(grid, blocks), 0),
        m1.spec_indices() == quads_indices(greedy_quads_spec(grid, blocks), 0),
        m1.spec_tex_coords() == quads_tex_coords(greedy_quads_spec(grid, blocks), 0),
        m1.spec_normals() == quads_normals(greedy_quads_spec(grid, blocks), 0),
        m1.spec_tile_offsets() == quads_tile_offsets(greedy_quads_spec(grid, blocks), 0),
        m2.spec_positions() == quads_positions(greedy_quads_spec(grid, blocks), 0),
        m2.spec_indices() == quads_indices(greedy_quads_spec(grid, blocks), 0),
        m2.spec_tex_coords() == quads_tex_coords(greedy_quads_spec(grid, blocks), 0),
        m2.spec_normals() == quads_normals(greedy_quads_spec(grid, blocks), 0),
        m2.spec_tile_offsets() == quads_tile_offsets(greedy_quads_spec(grid, blocks), 0),
    ensures
        m1.spec_positions() == m2.spec_positions(),
        m1.spec_indices() == m2.spec_indices(),
        m1.spec_tex_coords() == m2.spec_tex_coords(),
        m1.spec_normals() == m2.spec_normals(),
        m1.spec_tile_offsets() == m2.spec_tile_offsets(),
{
}

} // verus!

verus! {

/// The number of mask cells from `n` on that naive per-face meshing
/// would emit: one quad per exposed face whose material is meshed.
pub open spec fn count_emit_cells(
    mask: Seq<Option<Material>>,
    blocks: Seq<BlockData>,
    n: int,
) -> int
    decreases mask.len() - n,
{
    if n < 0 || n >= mask.len() {
        0
    } else {
        (match mask[n] {
            Some(m) => if emit_quad(blocks, m) {
                1int
            } else {
                0int
            },
            None => 0int,
        }) + count_emit_cells(mask, blocks, n + 1)
    }
}

/// Cell counts are never negative.
pub proof fn lemma_count_nonneg(mask: Seq<Option<Material>>, blocks: Seq<BlockData>, n: int)
    ensures
        count_emit_cells(mask, blocks, n) >= 0,
    decreases mask.len() - n,
{
    if 0 <= n < mask.len() {
        lemma_count_nonneg(mask, blocks, n + 1);
    }
}

/// Turning cells empty never raises the count.
pub proof fn lemma_count_pointwise_le(
    a: Seq<Option<Material>>,
    b: Seq<Option<Material>>,
    blocks: Seq<BlockData>,
    n: int,
)
    requires
        a.len() == b.len(),
        forall|t: int| 0 <= t < a.len() ==> #[trigger] a[t] == b[t] || a[t] is None,
    ensures
        count_emit_cells(a, blocks, n) <= count_emit_cells(b, blocks, n),
    decreases a.len() - n,
{
    if 0 <= n < a.len() {
        lemma_count_pointwise_le(a, b, blocks, n + 1);
    }
}

/// Empty cells contribute nothing: the count from `a` equals the
/// count from `b` when every cell in between is empty.
pub proof fn lemma_count_skip_none(
    mask: Seq<Option<Material>>,
    blocks: Seq<BlockData>,
    a: int,
    b: int,
)
    requires
        0 <= a <= b,
        forall|t: int| a <= t < b && t < mask.len() ==> #[trigger] mask[t] is None,
    ensures
        count_emit_cells(mask, blocks, a) == count_emit_cells(mask, blocks, b),
    decreases b - a,
{
    if a < b {
        lemma_count_skip_none(mask, blocks, a + 1, b);
    }
}

/// The greedy width never runs past the end of its row.
pub proof fn lemma_width_from_le_row(
    mask: Seq<Option<Material>>,
    lu: int,
    i: int,
    n: int,
    m: Material,
    w: int,
)
    requires
        i + w <= lu,
    ensures
        width_from(mask, lu, i, n, m, w) <= lu - i,
    decreases lu - i - w,
{
    if i + w < lu && 0 <= n + w < mask.len() && mask[n + w] == Some(m) {
        lemma_width_from_le_row(mask, lu, i, n, m, w + 1);
    }
}

/// The greedy height is at least the height already grown.
pub proof fn lemma_height_from_ge(
    mask: Seq<Option<Material>>,
    lu: int,
    lv: int,
    j: int,
    n: int,
    m: Material,
    w: int,
    h: int,
)
    ensures
        height_from(mask, lu, lv, j, n, m, w, h) >= h,
    decreases lv - j - h,
{
    if j + h < lv && row_matches(mask, lu, n, h, w, m) {
        lemma_height_from_ge(mask, lu, lv, j, n, m, w, h + 1);
    }
}

/// Emission from position `k + 1` of a sequence with one rectangle
/// prepended emits what position `k` of the tail emits.
pub proof fn lemma_emit_shift(
    head: MaskRect,
    rects: Seq<MaskRect>,
    blocks: Seq<BlockData>,
    d: int,
    back_face: bool,
    s: int,
    k: int,
)
    requires
        0 <= k,
    ensures
        emit_from(seq![head] + rects, blocks, d, back_face, s, k + 1) == emit_from(
            rects,
            blocks,
            d,
            back_face,
            s,
            k,
        ),
    decreases rects.len() - k,
{
    let cons = seq![head] + rects;
    if k >= rects.len() {
        assert(k + 1 >= cons.len());
    } else {
        lemma_emit_shift(head, rects, blocks, d, back_face, s, k + 1);
        assert(cons[k + 1] == rects[k]);
    }
}

/// Law core: the quads the greedy merge emits from a mask never
/// outnumber the cells naive per-face meshing would emit.
pub proof fn lemma_emit_le_cells(
    mask: Seq<Option<Material>>,
    blocks: Seq<BlockData>,
    lu: int,
    lv: int,
    d: int,
    back_face: bool,
    s: int,
    n: int,
)
    requires
        1 <= lu,
        0 <= n,
    ensures
        emit_from(merge_from(mask, lu, lv, n), blocks, d, back_face, s, 0).len()
            <= count_emit_cells(mask, blocks, n),
    decreases mask.len() - n,
{
    if n >= mask.len() {
        lemma_count_nonneg(mask, blocks, n);
    } else {
        match mask[n] {
            None => {
                lemma_emit_le_cells(mask, blocks, lu, lv, d, back_face, s, n + 1);
            }
            Some(m) => {
                let i = n % lu;
                let j = n / lu;
                let w = width_from(mask, lu, i, n, m, 1);
                let h = height_from(mask, lu, lv, j, n, m, w, 1);
                lemma_width_from_ge(mask, lu, i, n, m, 1);
                lemma_width_from_le(mask, lu, i, n, m, 1);
                assert(0 <= i < lu) by (nonlinear_arith)
                    requires
                        1 <= lu,
                        0 <= n,
                        i == n % lu,
                ;
                lemma_width_from_le_row(mask, lu, i, n, m, 1);
                lemma_height_from_ge(mask, lu, lv, j, n, m, w, 1);
                let cleared = clear_rect(mask, lu, n, w, h);
                let tail = merge_from(cleared, lu, lv, n + w);
                let rect = MaskRect {
                    i: i as usize,
                    j: j as usize,
                    w: w as usize,
                    h: h as usize,
                    material: m,
                };
                assert(merge_from(mask, lu, lv, n) == seq![rect] + tail);

                // The emitted quads: maybe one for this rectangle, then
                // those of the cleared mask.
                let cons = seq![rect] + tail;
                assert(cons[0] == rect);
                lemma_emit_shift(rect, tail, blocks, d, back_face, s, 0);
                assert(emit_from(cons, blocks, d, back_face, s, 1) == emit_from(tail, blocks, d,
                    back_face, s, 0));
                lemma_emit_le_cells(cleared, blocks, lu, lv, d, back_face, s, n + w);

                // The cleared row consumes this cell and the run to its
                // right, so the count from `n + w` skips only cells that
                // are now empty.
                assert forall|t: int| n + 1 <= t < n + w && t < cleared.len()
                    implies #[trigger] cleared[t] is None by {
                    assert((t - n) % lu == t - n && (t - n) / lu == 0) by (nonlinear_arith)
                        requires
                            1 <= lu,
                            0 < t - n < lu,
                    ;
                    assert(rect_covers(lu, n, w, h, t));
                }
                lemma_count_skip_none(cleared, blocks, n + 1, n + w);
                lemma_count_pointwise_le(cleared, mask, blocks, n + 1);
                assert(count_emit_cells(mask, blocks, n) == (if emit_quad(blocks, m) {
                    1int
                } else {
                    0int
                }) + count_emit_cells(mask, blocks, n + 1));
            }
        }
    }
}

/// The faces naive meshing would emit for one slice: one per mask
/// cell whose material is meshed.
pub open spec fn naive_slice_faces(
    grid: &VoxelGrid,
    blocks: Seq<BlockData>,
    d: int,
    back_face: bool,
    s: int,
) -> int {
    count_emit_cells(mask_seq(grid, d, back_face, s), blocks, 0)
}

/// The faces naive meshing would emit for the slices of a sweep from
/// `s` on.
pub open spec fn naive_slices_from(
    grid: &VoxelGrid,
    blocks: Seq<BlockData>,
    d: int,
    back_face: bool,
    s: int,
) -> int
    decreases axis_len(grid, d) - s,
{
    if s >= axis_len(grid, d) {
        0
    } else {
        naive_slice_faces(grid, blocks, d, back_face, s) + naive_slices_from(
            grid,
            blocks,
            d,
            back_face,
            s + 1,
        )
    }
}

/// The faces naive meshing would emit for one pass from axis `d` on.
pub open spec fn naive_pass_faces(
    grid: &VoxelGrid,
    blocks: Seq<BlockData>,
    back_face: bool,
    d: int,
) -> int
    decreases 3 - d,
{
    if d >= 3 {
        0
    } else {
        naive_slices_from(grid, blocks, d, back_face, -1) + naive_pass_faces(
            grid,
            blocks,
            back_face,
            d + 1,
        )
    }
}

/// The exposed unit faces naive per-face meshing would emit for a
/// grid: one quad (two triangles) per meshed mask cell over all six
/// sweep passes.
pub open spec fn naive_face_count(grid: &VoxelGrid, blocks: Seq<BlockData>) -> int {
    naive_pass_faces(grid, blocks, true, 0) + naive_pass_faces(grid, blocks, false, 0)
}

/// One slice's greedy quads never outnumber its naive faces.
pub proof fn lemma_slice_le_naive(
    grid: &VoxelGrid,
    blocks: Seq<BlockData>,
    d: int,
    back_face: bool,
    s: int,
)
    requires
        grid.wf(),
        0 <= d < 3,
    ensures
        slice_quads(grid, blocks, d, back_face, s).len() <= naive_slice_faces(
            grid,
            blocks,
            d,
            back_face,
            s,
        ),
{
    let lu = axis_len(grid, u_axis(d));
    let lv = axis_len(grid, v_axis(d));
    lemma_emit_le_cells(mask_seq(grid, d, back_face, s), blocks, lu, lv, d, back_face, s, 0);
}

/// A sweep's greedy quads never outnumber its naive faces.
pub proof fn lemma_slices_le_naive(
    grid: &VoxelGrid,
    blocks: Seq<BlockData>,
    d: int,
    back_face: bool,
    s: int,
)
    requires
        grid.wf(),
        0 <= d < 3,
    ensures
        slices_from(grid, blocks, d, back_face, s).len() <= naive_slices_from(
            grid,
            blocks,
            d,
            back_face,
            s,
        ),
    decreases axis_len(grid, d) - s,
{
    if s >= axis_len(grid, d) {
    } else {
        lemma_slice_le_naive(grid, blocks, d, back_face, s);
        lemma_slices_le_naive(grid, blocks, d, back_face, s + 1);
    }
}

/// A pass's greedy quads never outnumber its naive faces.
pub proof fn lemma_pass_le_naive(
    grid: &VoxelGrid,
    blocks: Seq<BlockData>,
    back_face: bool,
    d: int,
)
    requires
        grid.wf(),
        0 <= d <= 3,
    ensures
        pass_quads(grid, blocks, back_face, d).len() <= naive_pass_faces(
            grid,
            blocks,
            back_face,
            d,
        ),
    decreases 3 - d,
{
    if d >= 3 {
    } else {
        lemma_slices_le_naive(grid, blocks, d, back_face, -1);
        lemma_pass_le_naive(grid, blocks, back_face, d + 1);
    }
}

/// Law: merging never produces more geometry.  Greedy meshing emits
/// at most one quad per face that naive per-face meshing would emit,
/// so with two triangles per quad on both sides, the greedy triangle
/// count never exceeds the naive triangle count.
pub proof fn lemma_greedy_le_naive(grid: &VoxelGrid, blocks: Seq<BlockData>)
    requires
        grid.wf(),
    ensures
        greedy_quads_spec(grid, blocks).len() <= naive_face_count(grid, blocks),
{
    lemma_pass_le_naive(grid, blocks, true, 0);
    lemma_pass_le_naive(grid, blocks, false, 0);
}

} // verus!
