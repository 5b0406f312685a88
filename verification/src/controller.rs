//! Composition root of the editing core: owns the texture atlas and the
//! vertex grid and routes each command coming out of the key state
//! machine to the structure it edits. No state of its own beyond the two
//! structures.

use crate::imagegen::{agrees_outside_tile, TextureAtlas};
use crate::keystate::Command;
use crate::vertexgrid::{
    only_palette_changed, only_uvs_changed, quad_palette_at, quad_uvs_at, VertexGrid,
};
use vstd::prelude::*;

verus! {

/// The command's coordinates lie inside the bounds of the structure it
/// targets.
pub open spec fn command_applicable(c: Command, grid: &VertexGrid, atlas: &TextureAtlas) -> bool {
    match c {
        Command::ModifyTilePalette { palette, x, y } => grid.valid_tile(x as int, y as int),
        Command::ModifyTileTexture { tex_x, tex_y, x, y } => grid.valid_tile(x as int, y as int)
            && (tex_x as int) < grid.spec_atlas_size() && (tex_y as int) < grid.spec_atlas_size(),
        Command::GenerateTexture { tex_x, tex_y } => (tex_x as int) < atlas.spec_atlas_size()
            && (tex_y as int) < atlas.spec_atlas_size(),
    }
}

/// Thin dispatcher over one atlas and one grid.
pub struct EditController {
    pub atlas: TextureAtlas,
    pub grid: VertexGrid,
}

impl EditController {
    pub open spec fn wf(&self) -> bool {
        self.atlas.wf() && self.grid.wf()
    }

    pub fn new(atlas: TextureAtlas, grid: VertexGrid) -> (r: Self)
        ensures
            r.atlas == atlas,
            r.grid == grid,
    {
        EditController { atlas, grid }
    }

    /// Apply one command: palette and texture-coordinate edits go to the
    /// grid, texture regeneration to the atlas; the other structure is
    /// left exactly as it was.
    pub fn apply(&mut self, c: Command)
        requires
            old(self).wf(),
            command_applicable(c, &old(self).grid, &old(self).atlas),
        ensures
            final(self).wf(),
            final(self).grid.same_config(&old(self).grid),
            final(self).atlas.same_config(&old(self).atlas),
            match c {
                Command::ModifyTilePalette { palette, x, y } => {
                    &&& final(self).atlas == old(self).atlas
                    &&& quad_palette_at(
                        final(self).grid.spec_vertices(),
                        old(self).grid.tile_base(x as int, y as int),
                        palette,
                    )
                    &&& only_palette_changed(
                        old(self).grid.spec_vertices(),
                        final(self).grid.spec_vertices(),
                        old(self).grid.tile_base(x as int, y as int),
                    )
                    &&& !final(self).grid.spec_buffer_cached()
                },
                Command::ModifyTileTexture { tex_x, tex_y, x, y } => {
                    &&& final(self).atlas == old(self).atlas
                    &&& quad_uvs_at(
                        final(self).grid.spec_vertices(),
                        old(self).grid.tile_base(x as int, y as int),
                        tex_x as int,
                        tex_y as int,
                    )
                    &&& only_uvs_changed(
                        old(self).grid.spec_vertices(),
                        final(self).grid.spec_vertices(),
                        old(self).grid.tile_base(x as int, y as int),
                    )
                    &&& !final(self).grid.spec_buffer_cached()
                },
                Command::GenerateTexture { tex_x, tex_y } => {
                    &&& final(self).grid == old(self).grid
                    &&& agrees_outside_tile(
                        &old(self).atlas,
                        &final(self).atlas,
                        tex_x as int,
                        tex_y as int,
                    )
                },
            },
    {
        match c {
            Command::ModifyTilePalette { palette, x, y } => {
                self.grid.set_tile_palette(x, y, palette)
            },
            Command::ModifyTileTexture { tex_x, tex_y, x, y } => {
                self.grid.set_tile_texture(x, y, tex_x, tex_y)
            },
            Command::GenerateTexture { tex_x, tex_y } => {
                self.atlas.generate_tile_tex(tex_x, tex_y)
            },
        }
    }
}

} // verus!
