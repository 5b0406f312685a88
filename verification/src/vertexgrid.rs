//! Vertex grid: the per-tile geometry of the map.
//!
//! The grid owns a flat vertex sequence, six vertices (two triangles) per
//! tile. Positions are fixed at construction and never change; only the
//! texture coordinates and the palette index of a tile are rewritten. All
//! coordinates are kept as exact integers: a position is the grid corner
//! `(col, row)` a vertex sits on (the renderer maps corner `(col, row)` of
//! an `x_size * y_size` grid onto the clip-space square), and a texture
//! coordinate is an atlas-grid corner, in steps of `1 / atlas_size`.

use vstd::arithmetic::mul::lemma_mul_nonnegative;
use vstd::prelude::*;

verus! {

/// One vertex: a fixed position, a mutable texture coordinate, and a
/// mutable palette index.
#[derive(Clone, Copy, Debug, PartialEq)]
pub struct Vertex {
    pub position: (usize, usize),
    pub tex_coord: (usize, usize),
    pub palette_index: u32,
}

/// Index of the first of the six vertices of tile `(tx, ty)` in a grid
/// `rows` tiles wide.
pub open spec fn tile_first_vertex(rows: int, tx: int, ty: int) -> int {
    (ty * rows + tx) * 6
}

/// The six vertices of the quad at `base` sit on the corners of cell
/// `(tx, ty)`: triangle A is {bottom-left, top-left, bottom-right},
/// triangle B is {top-left, bottom-right, top-right}.
pub open spec fn quad_corners_at(vs: Seq<Vertex>, base: int, tx: int, ty: int) -> bool {
    &&& vs[base + 0].position.0 == tx && vs[base + 0].position.1 == ty
    &&& vs[base + 1].position.0 == tx && vs[base + 1].position.1 == ty + 1
    &&& vs[base + 2].position.0 == tx + 1 && vs[base + 2].position.1 == ty
    &&& vs[base + 3].position.0 == tx && vs[base + 3].position.1 == ty + 1
    &&& vs[base + 4].position.0 == tx + 1 && vs[base + 4].position.1 == ty
    &&& vs[base + 5].position.0 == tx + 1 && vs[base + 5].position.1 == ty + 1
}

/// The six texture coordinates of the quad at `base` sample exactly the
/// atlas cell `(ax, ay)`: top-left corner `(ax, ay)`, bottom-right corner
/// `(ax + 1, ay + 1)`, in steps of `1 / atlas_size`, each vertex taking
/// the UV corner that mirrors its position corner.
pub open spec fn quad_uvs_at(vs: Seq<Vertex>, base: int, ax: int, ay: int) -> bool {
    &&& vs[base + 0].tex_coord.0 == ax && vs[base + 0].tex_coord.1 == ay
    &&& vs[base + 1].tex_coord.0 == ax && vs[base + 1].tex_coord.1 == ay + 1
    &&& vs[base + 2].tex_coord.0 == ax + 1 && vs[base + 2].tex_coord.1 == ay
    &&& vs[base + 3].tex_coord.0 == ax && vs[base + 3].tex_coord.1 == ay + 1
    &&& vs[base + 4].tex_coord.0 == ax + 1 && vs[base + 4].tex_coord.1 == ay
    &&& vs[base + 5].tex_coord.0 == ax + 1 && vs[base + 5].tex_coord.1 == ay + 1
}

/// All six vertices of the quad at `base` carry palette index `p`.
pub open spec fn quad_palette_at(vs: Seq<Vertex>, base: int, p: u32) -> bool {
    &&& vs[base + 0].palette_index == p
    &&& vs[base + 1].palette_index == p
    &&& vs[base + 2].palette_index == p
    &&& vs[base + 3].palette_index == p
    &&& vs[base + 4].palette_index == p
    &&& vs[base + 5].palette_index == p
}

/// Struct that contains the vertices to be used for rendering, plus the
/// dirty flag that tells the renderer whether its cached copy of the
/// vertex buffer is still valid.
pub struct VertexGrid {
    vertices: Vec<Vertex>,
    row_len: usize,
    col_len: usize,
    atlas_size: usize,
    buffer_cached: bool,
}

impl VertexGrid {
    /// The vertex sequence, six per tile, row-major by tile.
    pub closed spec fn spec_vertices(&self) -> Seq<Vertex> {
        self.vertices@
    }

    /// Tiles per row.
    pub closed spec fn spec_row_len(&self) -> usize {
        self.row_len
    }

    /// Tiles per column.
    pub closed spec fn spec_col_len(&self) -> usize {
        self.col_len
    }

    /// Size of the atlas in textures per side; texture coordinates are
    /// corner indices of this grid.
    pub closed spec fn spec_atlas_size(&self) -> usize {
        self.atlas_size
    }

    /// Whether the renderer-facing snapshot is still valid (no mutator has
    /// run since `get_vertex_buffer` last built one).
    pub closed spec fn spec_buffer_cached(&self) -> bool {
        self.buffer_cached
    }

    pub open spec fn valid_tile(&self, tx: int, ty: int) -> bool {
        0 <= tx < self.spec_row_len() && 0 <= ty < self.spec_col_len()
    }

    /// Index of the first of the six vertices of tile `(tx, ty)`.
    pub open spec fn tile_base(&self, tx: int, ty: int) -> int {
        tile_first_vertex(self.spec_row_len() as int, tx, ty)
    }

    /// Same grid dimensions and atlas size.
    pub open spec fn same_config(&self, other: &VertexGrid) -> bool {
        &&& self.spec_row_len() == other.spec_row_len()
        &&& self.spec_col_len() == other.spec_col_len()
        &&& self.spec_atlas_size() == other.spec_atlas_size()
    }

    pub open spec fn wf(&self) -> bool {
        &&& self.spec_vertices().len() == self.spec_row_len() * self.spec_col_len() * 6
        &&& self.spec_row_len() * self.spec_col_len() * 6 <= usize::MAX
        &&& forall|tx: int, ty: int|
            self.valid_tile(tx, ty) ==> quad_corners_at(
                self.spec_vertices(),
                #[trigger] self.tile_base(tx, ty),
                tx,
                ty,
            )
    }
}

/// The six vertex slots of the tile starting at `base` keep their
/// position and palette, and every vertex outside them is untouched.
pub open spec fn only_uvs_changed(pre: Seq<Vertex>, post: Seq<Vertex>, base: int) -> bool {
    &&& post.len() == pre.len()
    &&& forall|j: int|
        base <= j < base + 6 ==> (#[trigger] post[j]).position == pre[j].position
            && post[j].palette_index == pre[j].palette_index
    &&& forall|j: int|
        0 <= j < pre.len() && !(base <= j < base + 6) ==> #[trigger] post[j] == pre[j]
}

/// The six vertex slots of the tile starting at `base` keep their
/// position and texture coordinate, and every vertex outside them is
/// untouched.
pub open spec fn only_palette_changed(pre: Seq<Vertex>, post: Seq<Vertex>, base: int) -> bool {
    &&& post.len() == pre.len()
    &&& forall|j: int|
        base <= j < base + 6 ==> (#[trigger] post[j]).position == pre[j].position
            && post[j].tex_coord == pre[j].tex_coord
    &&& forall|j: int|
        0 <= j < pre.len() && !(base <= j < base + 6) ==> #[trigger] post[j] == pre[j]
}

impl VertexGrid {
    /// The six vertices of one tile land inside the vertex buffer.
    proof fn lemma_tile_base_bound(&self, tx: int, ty: int)
        requires
            self.wf(),
            self.valid_tile(tx, ty),
        ensures
            0 <= self.tile_base(tx, ty),
            self.tile_base(tx, ty) + 6 <= self.spec_vertices().len(),
    {
        let rows = self.spec_row_len() as int;
        let cols = self.spec_col_len() as int;
        assert(0 <= (ty * rows + tx) * 6 && (ty * rows + tx) * 6 + 6 <= rows * cols * 6)
            by (nonlinear_arith)
            requires
                0 <= tx < rows,
                0 <= ty < cols,
        ;
    }

    /// Make a new 2D vertex grid of `x_size * y_size` tiles over an atlas
    /// of `atlas_size * atlas_size` textures. Positions tile the canonical
    /// square per the fixed corner order; texture coordinates and palette
    /// indices start at zero. A zero `x_size` or `y_size` yields an empty
    /// grid.
    pub fn new(x_size: usize, y_size: usize, atlas_size: usize) -> (r: Self)
        requires
            x_size * y_size * 6 <= usize::MAX,
        ensures
            r.wf(),
            r.spec_row_len() == x_size,
            r.spec_col_len() == y_size,
            r.spec_atlas_size() == atlas_size,
            !r.spec_buffer_cached(),
            r.spec_vertices().len() == x_size * y_size * 6,
            forall|j: int|
                0 <= j < r.spec_vertices().len() ==> (#[trigger] r.spec_vertices()[j]).tex_coord.0
                    == 0 && r.spec_vertices()[j].tex_coord.1 == 0
                    && r.spec_vertices()[j].palette_index == 0,
    {
        let mut vertices: Vec<Vertex> = Vec::new();
        let mut ty: usize = 0;
        while ty < y_size
            invariant
                x_size * y_size * 6 <= usize::MAX,
                ty <= y_size,
                vertices@.len() == (ty as int) * (x_size as int) * 6,
                forall|ax: int, ay: int|
                    0 <= ax < x_size && 0 <= ay < ty ==> quad_corners_at(
                        vertices@,
                        #[trigger] tile_first_vertex(x_size as int, ax, ay),
                        ax,
                        ay,
                    ),
                forall|j: int|
                    0 <= j < vertices@.len() ==> (#[trigger] vertices@[j]).tex_coord.0 == 0
                        && vertices@[j].tex_coord.1 == 0 && vertices@[j].palette_index == 0,
            decreases y_size - ty,
        {
            proof {
                lemma_mul_nonnegative(ty as int, x_size as int);
                assert((ty as int) * (x_size as int) * 6 + (x_size as int) * 6 <= (y_size as int)
                    * (x_size as int) * 6) by (nonlinear_arith)
                    requires
                        ty < y_size,
                        x_size >= 0,
                ;
                assert((y_size as int) * (x_size as int) * 6 == (x_size as int) * (y_size as int)
                    * 6) by (nonlinear_arith);
            }
            let mut tx: usize = 0;
            while tx < x_size
                invariant
                    x_size * y_size * 6 <= usize::MAX,
                    ty < y_size,
                    tx <= x_size,
                    vertices@.len() == ((ty as int) * (x_size as int) + tx as int) * 6,
                    ((ty as int) * (x_size as int) + (x_size as int)) * 6 <= usize::MAX,
                    forall|ax: int, ay: int|
                        0 <= ax < x_size && 0 <= ay < ty ==> quad_corners_at(
                            vertices@,
                            #[trigger] tile_first_vertex(x_size as int, ax, ay),
                            ax,
                            ay,
                        ),
                    forall|ax: int|
                        0 <= ax < tx ==> quad_corners_at(
                            vertices@,
                            #[trigger] tile_first_vertex(x_size as int, ax, ty as int),
                            ax,
                            ty as int,
                        ),
                    forall|j: int|
                        0 <= j < vertices@.len() ==> (#[trigger] vertices@[j]).tex_coord.0 == 0
                            && vertices@[j].tex_coord.1 == 0 && vertices@[j].palette_index == 0,
                decreases x_size - tx,
            {
                proof {
                    lemma_mul_nonnegative((ty as int) * (x_size as int) + tx as int, 6);
                    assert(((ty as int) * (x_size as int) + tx as int) * 6 + 6 == ((ty as int)
                        * (x_size as int) + (tx as int + 1)) * 6) by (nonlinear_arith);
                }
                let ghost prev = vertices@;
                vertices.push(
                    Vertex { position: (tx, ty), tex_coord: (0, 0), palette_index: 0 },
                );
                vertices.push(
                    Vertex { position: (tx, ty + 1), tex_coord: (0, 0), palette_index: 0 },
                );
                vertices.push(
                    Vertex { position: (tx + 1, ty), tex_coord: (0, 0), palette_index: 0 },
                );
                vertices.push(
                    Vertex { position: (tx, ty + 1), tex_coord: (0, 0), palette_index: 0 },
                );
                vertices.push(
                    Vertex { position: (tx + 1, ty), tex_coord: (0, 0), palette_index: 0 },
                );
                vertices.push(
                    Vertex { position: (tx + 1, ty + 1), tex_coord: (0, 0), palette_index: 0 },
                );
                proof {
                    let xs = x_size as int;
                    let lenp = prev.len() as int;
                    assert(forall|j: int| 0 <= j < prev.len() ==> vertices@[j] == prev[j]);
                    assert forall|ax: int, ay: int| 0 <= ax < x_size && 0 <= ay < ty implies
                        quad_corners_at(
                        vertices@,
                        #[trigger] tile_first_vertex(xs, ax, ay),
                        ax,
                        ay,
                    ) by {
                        assert(quad_corners_at(prev, tile_first_vertex(xs, ax, ay), ax, ay));
                        assert(0 <= (ay * xs + ax) * 6 && (ay * xs + ax) * 6 + 6 <= lenp)
                            by (nonlinear_arith)
                            requires
                                0 <= ax < xs,
                                0 <= ay < ty as int,
                                0 <= tx as int,
                                lenp == ((ty as int) * xs + tx as int) * 6,
                        ;
                    };
                    assert forall|ax: int| 0 <= ax < tx implies quad_corners_at(
                        vertices@,
                        #[trigger] tile_first_vertex(xs, ax, ty as int),
                        ax,
                        ty as int,
                    ) by {
                        assert(quad_corners_at(prev, tile_first_vertex(xs, ax, ty as int), ax, ty as int));
                        assert(0 <= ((ty as int) * xs + ax) * 6 && ((ty as int) * xs + ax) * 6 + 6
                            <= lenp) by (nonlinear_arith)
                            requires
                                0 <= ax < tx as int,
                                0 <= ty as int,
                                0 <= xs,
                                lenp == ((ty as int) * xs + tx as int) * 6,
                                tx as int <= xs,
                        ;
                    };
                    assert(quad_corners_at(
                        vertices@,
                        tile_first_vertex(xs, tx as int, ty as int),
                        tx as int,
                        ty as int,
                    ));
                }
                tx = tx + 1;
            }
            proof {
                assert(((ty as int) * (x_size as int) + (x_size as int)) * 6 == ((ty as int) + 1)
                    * (x_size as int) * 6) by (nonlinear_arith);
                assert forall|ax: int, ay: int|
                    0 <= ax < x_size && 0 <= ay < ty as int + 1 implies quad_corners_at(
                    vertices@,
                    #[trigger] tile_first_vertex(x_size as int, ax, ay),
                    ax,
                    ay,
                ) by {
                    if ay == ty as int {
                        assert(quad_corners_at(
                            vertices@,
                            tile_first_vertex(x_size as int, ax, ty as int),
                            ax,
                            ty as int,
                        ));
                    }
                };
            }
            ty = ty + 1;
        }
        let r = VertexGrid {
            vertices,
            row_len: x_size,
            col_len: y_size,
            atlas_size,
            buffer_cached: false,
        };
        proof {
            assert((y_size as int) * (x_size as int) * 6 == (x_size as int) * (y_size as int) * 6)
                by (nonlinear_arith);
            assert forall|tx: int, ty: int| r.valid_tile(tx, ty) implies quad_corners_at(
                r.spec_vertices(),
                #[trigger] r.tile_base(tx, ty),
                tx,
                ty,
            ) by {
                assert(quad_corners_at(
                    r.spec_vertices(),
                    tile_first_vertex(x_size as int, tx, ty),
                    tx,
                    ty,
                ));
            };
        }
        r
    }

    /// Sets the texture coordinates of tile `(tile_x, tile_y)` so its quad
    /// samples exactly the atlas cell `(tex_x, tex_y)`; no other vertex
    /// changes, and the cached renderer snapshot is invalidated.
    pub fn set_tile_texture(&mut self, tile_x: usize, tile_y: usize, tex_x: usize, tex_y: usize)
        requires
            old(self).wf(),
            old(self).valid_tile(tile_x as int, tile_y as int),
            (tex_x as int) < old(self).spec_atlas_size(),
            (tex_y as int) < old(self).spec_atlas_size(),
        ensures
            final(self).wf(),
            final(self).same_config(old(self)),
            !final(self).spec_buffer_cached(),
            quad_uvs_at(
                final(self).spec_vertices(),
                old(self).tile_base(tile_x as int, tile_y as int),
                tex_x as int,
                tex_y as int,
            ),
            only_uvs_changed(
                old(self).spec_vertices(),
                final(self).spec_vertices(),
                old(self).tile_base(tile_x as int, tile_y as int),
            ),
    {
        proof {
            self.lemma_tile_base_bound(tile_x as int, tile_y as int);
            lemma_mul_nonnegative((tile_y as int) * (self.spec_row_len() as int), 6);
            lemma_mul_nonnegative(tile_y as int, self.spec_row_len() as int);
            assert(((tile_y as int) * (self.spec_row_len() as int)) * 6 + (tile_x as int) * 6
                == ((tile_y as int) * (self.spec_row_len() as int) + tile_x as int) * 6)
                by (nonlinear_arith);
        }
        let y_offset = tile_y * self.row_len * 6;
        let index = y_offset + tile_x * 6;

        let top_left = (tex_x, tex_y);
        let bottom_right = (tex_x + 1, tex_y + 1);

        let mut v0 = self.vertices[index];
        v0.tex_coord = (top_left.0, top_left.1);
        self.vertices[index] = v0;
        let mut v1 = self.vertices[index + 1];
        v1.tex_coord = (top_left.0, bottom_right.1);
        self.vertices[index + 1] = v1;
        let mut v2 = self.vertices[index + 2];
        v2.tex_coord = (bottom_right.0, top_left.1);
        self.vertices[index + 2] = v2;
        let mut v3 = self.vertices[index + 3];
        v3.tex_coord = (top_left.0, bottom_right.1);
        self.vertices[index + 3] = v3;
        let mut v4 = self.vertices[index + 4];
        v4.tex_coord = (bottom_right.0, top_left.1);
        self.vertices[index + 4] = v4;
        let mut v5 = self.vertices[index + 5];
        v5.tex_coord = (bottom_right.0, bottom_right.1);
        self.vertices[index + 5] = v5;

        // Invalidate the renderer's snapshot.
        self.buffer_cached = false;
        proof {
            self.lemma_wf_after_tile_update(old(self), tile_x as int, tile_y as int);
        }
    }

    /// Sets the palette index of all six vertices of tile
    /// `(tile_x, tile_y)`; no other vertex changes, and the cached
    /// renderer snapshot is invalidated.
    pub fn set_tile_palette(&mut self, tile_x: usize, tile_y: usize, palette_index: u32)
        requires
            old(self).wf(),
            old(self).valid_tile(tile_x as int, tile_y as int),
        ensures
            final(self).wf(),
            final(self).same_config(old(self)),
            !final(self).spec_buffer_cached(),
            quad_palette_at(
                final(self).spec_vertices(),
                old(self).tile_base(tile_x as int, tile_y as int),
                palette_index,
            ),
            only_palette_changed(
                old(self).spec_vertices(),
                final(self).spec_vertices(),
                old(self).tile_base(tile_x as int, tile_y as int),
            ),
    {
        proof {
            self.lemma_tile_base_bound(tile_x as int, tile_y as int);
            lemma_mul_nonnegative((tile_y as int) * (self.spec_row_len() as int), 6);
            lemma_mul_nonnegative(tile_y as int, self.spec_row_len() as int);
            assert(((tile_y as int) * (self.spec_row_len() as int)) * 6 + (tile_x as int) * 6
                == ((tile_y as int) * (self.spec_row_len() as int) + tile_x as int) * 6)
                by (nonlinear_arith);
        }
        let y_offset = tile_y * self.row_len * 6;
        let index = y_offset + tile_x * 6;

        let mut v0 = self.vertices[index];
        v0.palette_index = palette_index;
        self.vertices[index] = v0;
        let mut v1 = self.vertices[index + 1];
        v1.palette_index = palette_index;
        self.vertices[index + 1] = v1;
        let mut v2 = self.vertices[index + 2];
        v2.palette_index = palette_index;
        self.vertices[index + 2] = v2;
        let mut v3 = self.vertices[index + 3];
        v3.palette_index = palette_index;
        self.vertices[index + 3] = v3;
        let mut v4 = self.vertices[index + 4];
        v4.palette_index = palette_index;
        self.vertices[index + 4] = v4;
        let mut v5 = self.vertices[index + 5];
        v5.palette_index = palette_index;
        self.vertices[index + 5] = v5;

        // Invalidate the renderer's snapshot.
        self.buffer_cached = false;
        proof {
            self.lemma_wf_after_tile_update(old(self), tile_x as int, tile_y as int);
        }
    }

    /// A tile edit that leaves every position in place leaves the grid
    /// well-formed.
    proof fn lemma_wf_after_tile_update(&self, pre: &VertexGrid, tx: int, ty: int)
        requires
            pre.wf(),
            pre.valid_tile(tx, ty),
            self.same_config(pre),
            self.spec_vertices().len() == pre.spec_vertices().len(),
            forall|j: int|
                0 <= j < pre.spec_vertices().len() ==> (#[trigger] self.spec_vertices()[j]).position
                    == pre.spec_vertices()[j].position,
        ensures
            self.wf(),
    {
        assert forall|ax: int, ay: int| self.valid_tile(ax, ay) implies quad_corners_at(
            self.spec_vertices(),
            #[trigger] self.tile_base(ax, ay),
            ax,
            ay,
        ) by {
            pre.lemma_tile_base_bound(ax, ay);
            assert(quad_corners_at(pre.spec_vertices(), pre.tile_base(ax, ay), ax, ay));
        };
    }

    /// Hand out a copy of the whole vertex sequence for upload and mark
    /// the renderer's snapshot as current.
    pub fn get_vertex_buffer(&mut self) -> (r: Vec<Vertex>)
        ensures
            r@ == old(self).spec_vertices(),
            final(self).spec_vertices() == old(self).spec_vertices(),
            final(self).same_config(old(self)),
            final(self).spec_buffer_cached(),
    {
        let mut out: Vec<Vertex> = Vec::new();
        let mut j: usize = 0;
        while j < self.vertices.len()
            invariant
                *self == *old(self),
                j <= self.vertices@.len(),
                out@.len() == j,
                forall|t: int| 0 <= t < j ==> #[trigger] out@[t] == self.vertices@[t],
            decreases self.vertices@.len() - j,
        {
            out.push(self.vertices[j]);
            j = j + 1;
        }
        self.buffer_cached = true;
        proof {
            assert(out@ =~= old(self).spec_vertices());
        }
        out
    }

    /// Dirty/clean signal for the renderer: true while the snapshot that
    /// `get_vertex_buffer` last handed out still matches the vertices.
    pub fn is_buffer_cached(&self) -> (r: bool)
        ensures
            r == self.spec_buffer_cached(),
    {
        self.buffer_cached
    }
}

} // verus!
