use tilemap_core::vertexgrid::VertexGrid;

#[test]
fn new_grid_positions_tile_the_square() {
    let mut grid = VertexGrid::new(2, 2, 2);
    let buffer = grid.get_vertex_buffer();
    assert_eq!(buffer.len(), 2 * 2 * 6);
    // Tile (1, 1) starts at (1 * 2 + 1) * 6 = 18, corners per the fixed
    // order: bottom-left, top-left, bottom-right, top-left, bottom-right,
    // top-right.
    let expected = [(1, 1), (1, 2), (2, 1), (1, 2), (2, 1), (2, 2)];
    for k in 0..6 {
        assert_eq!(buffer[18 + k].position, expected[k]);
    }
    // Tile (0, 0) starts at 0.
    let expected = [(0, 0), (0, 1), (1, 0), (0, 1), (1, 0), (1, 1)];
    for k in 0..6 {
        assert_eq!(buffer[k].position, expected[k]);
    }
}

#[test]
fn new_grid_starts_uv_and_palette_zero() {
    let mut grid = VertexGrid::new(4, 4, 2);
    let buffer = grid.get_vertex_buffer();
    for vertex in buffer.iter() {
        assert_eq!(vertex.tex_coord, (0, 0));
        assert_eq!(vertex.palette_index, 0);
    }
}

#[test]
fn zero_sized_grid_is_empty() {
    let mut grid = VertexGrid::new(0, 5, 2);
    assert_eq!(grid.get_vertex_buffer().len(), 0);
    let mut grid = VertexGrid::new(5, 0, 2);
    assert_eq!(grid.get_vertex_buffer().len(), 0);
}

#[test]
fn set_tile_texture_writes_exactly_six_uvs() {
    let mut grid = VertexGrid::new(4, 4, 2);
    grid.set_tile_texture(1, 0, 1, 0);
    let buffer = grid.get_vertex_buffer();
    // Tile (1, 0) starts at 6. In steps of 1/atlas_size, its quad samples
    // the atlas cell with top-left (1, 0) and bottom-right (2, 1).
    let expected = [(1, 0), (1, 1), (2, 0), (1, 1), (2, 0), (2, 1)];
    for k in 0..6 {
        assert_eq!(buffer[6 + k].tex_coord, expected[k]);
    }
    // No other vertex moved off the initial zero UV, and positions and
    // palettes are untouched everywhere.
    for (j, vertex) in buffer.iter().enumerate() {
        if !(6..12).contains(&j) {
            assert_eq!(vertex.tex_coord, (0, 0));
        }
        assert_eq!(vertex.palette_index, 0);
    }
}

#[test]
fn set_tile_palette_writes_exactly_six_indices() {
    let mut grid = VertexGrid::new(4, 4, 2);
    grid.set_tile_palette(2, 3, 3);
    let buffer = grid.get_vertex_buffer();
    // Tile (2, 3) starts at (3 * 4 + 2) * 6 = 84.
    for (j, vertex) in buffer.iter().enumerate() {
        let expected = if (84..90).contains(&j) { 3 } else { 0 };
        assert_eq!(vertex.palette_index, expected);
        assert_eq!(vertex.tex_coord, (0, 0));
    }
}

#[test]
fn mutators_invalidate_the_cached_buffer() {
    let mut grid = VertexGrid::new(4, 4, 2);
    assert!(!grid.is_buffer_cached());
    let _ = grid.get_vertex_buffer();
    assert!(grid.is_buffer_cached());
    grid.set_tile_palette(0, 0, 1);
    assert!(!grid.is_buffer_cached());
    let _ = grid.get_vertex_buffer();
    assert!(grid.is_buffer_cached());
    grid.set_tile_texture(0, 0, 1, 1);
    assert!(!grid.is_buffer_cached());
}
