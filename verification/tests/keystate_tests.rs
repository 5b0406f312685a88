use tilemap_core::controller::EditController;
use tilemap_core::imagegen::TextureAtlas;
use tilemap_core::keystate::{Command, Key, KeyState};
use tilemap_core::vertexgrid::VertexGrid;

#[test]
fn tile_select_then_palette_key_emits_palette_command() {
    let mut state = KeyState::new();
    // E is bound to tile position (2, 1).
    let (next, command) = state.process_key(Key::E);
    assert_eq!(next, KeyState::TileSelect(2, 1));
    assert!(command.is_none());
    let mut state = next;
    // U is bound to palette index 2.
    let (next, command) = state.process_key(Key::U);
    assert_eq!(next, KeyState::Neutral);
    assert_eq!(command, Some(Command::ModifyTilePalette { palette: 2, x: 2, y: 1 }));
}

#[test]
fn tex_select_then_confirm_emits_generate_command() {
    let mut state = KeyState::new();
    // H is bound to atlas position (1, 0).
    let (next, command) = state.process_key(Key::H);
    assert_eq!(next, KeyState::TexSelect(1, 0));
    assert!(command.is_none());
    let mut state = next;
    let (next, command) = state.process_key(Key::Return);
    assert_eq!(next, KeyState::Neutral);
    assert_eq!(command, Some(Command::GenerateTexture { tex_x: 1, tex_y: 0 }));
}

#[test]
fn unrecognized_key_discards_a_pending_selection() {
    let mut state = KeyState::TileSelect(0, 0);
    let (next, command) = state.process_key(Key::Other);
    assert_eq!(next, KeyState::Neutral);
    assert!(command.is_none());
    // The selection is gone: pressing a palette key now does nothing.
    let mut state = next;
    let (next, command) = state.process_key(Key::T);
    assert_eq!(next, KeyState::Neutral);
    assert!(command.is_none());
}

#[test]
fn tile_select_then_atlas_key_emits_texture_command() {
    let mut state = KeyState::TileSelect(3, 2);
    // J is bound to atlas position (0, 1).
    let (next, command) = state.process_key(Key::J);
    assert_eq!(next, KeyState::Neutral);
    assert_eq!(command, Some(Command::ModifyTileTexture { tex_x: 0, tex_y: 1, x: 3, y: 2 }));
}

#[test]
fn every_neutral_binding_matches_the_table() {
    let tile_keys = [
        (Key::Key1, (0, 0)),
        (Key::Key2, (1, 0)),
        (Key::Key3, (2, 0)),
        (Key::Key4, (3, 0)),
        (Key::Q, (0, 1)),
        (Key::W, (1, 1)),
        (Key::E, (2, 1)),
        (Key::R, (3, 1)),
        (Key::A, (0, 2)),
        (Key::S, (1, 2)),
        (Key::D, (2, 2)),
        (Key::F, (3, 2)),
        (Key::Z, (0, 3)),
        (Key::X, (1, 3)),
        (Key::C, (2, 3)),
        (Key::V, (3, 3)),
    ];
    for &(key, (x, y)) in tile_keys.iter() {
        let mut state = KeyState::new();
        let (next, command) = state.process_key(key);
        assert_eq!(next, KeyState::TileSelect(x, y));
        assert!(command.is_none());
    }
    let atlas_keys = [
        (Key::G, (0, 0)),
        (Key::H, (1, 0)),
        (Key::J, (0, 1)),
        (Key::K, (1, 1)),
    ];
    for &(key, (x, y)) in atlas_keys.iter() {
        let mut state = KeyState::new();
        let (next, command) = state.process_key(key);
        assert_eq!(next, KeyState::TexSelect(x, y));
        assert!(command.is_none());
    }
    // Keys that select nothing from Neutral leave the machine in Neutral.
    for key in [Key::T, Key::Y, Key::U, Key::I, Key::Return, Key::Other] {
        let mut state = KeyState::new();
        let (next, command) = state.process_key(key);
        assert_eq!(next, KeyState::Neutral);
        assert!(command.is_none());
    }
}

#[test]
fn controller_routes_commands_to_grid_and_atlas() {
    let atlas = TextureAtlas::new(2, 8, 2);
    let grid = VertexGrid::new(4, 4, 2);
    let mut controller = EditController::new(atlas, grid);

    controller.apply(Command::ModifyTilePalette { palette: 3, x: 1, y: 2 });
    let buffer = controller.grid.get_vertex_buffer();
    // Tile (1, 2) starts at (2 * 4 + 1) * 6 = 54.
    for (j, vertex) in buffer.iter().enumerate() {
        let expected = if (54..60).contains(&j) { 3 } else { 0 };
        assert_eq!(vertex.palette_index, expected);
    }

    controller.apply(Command::ModifyTileTexture { tex_x: 1, tex_y: 1, x: 0, y: 0 });
    let buffer = controller.grid.get_vertex_buffer();
    let expected = [(1, 1), (1, 2), (2, 1), (1, 2), (2, 1), (2, 2)];
    for k in 0..6 {
        assert_eq!(buffer[k].tex_coord, expected[k]);
    }

    controller.apply(Command::GenerateTexture { tex_x: 0, tex_y: 0 });
    for gy in 0..16 {
        for gx in 0..16 {
            let texel = controller.atlas.read_texel(gx, gy);
            if gx < 8 && gy < 8 {
                assert!(texel <= 0x3);
            } else {
                // Texels outside the regenerated tile keep their value.
                assert_eq!(texel, 0);
            }
        }
    }
}
