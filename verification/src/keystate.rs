//! State machine that turns raw key presses into editing commands.
//!
//! The protocol has two stages: first a key selects a target (a tile of the
//! grid, or a texture slot of the atlas), then a second key chooses the
//! action. Any unrecognized key in a selecting state cancels the selection,
//! so the machine always settles back to `Neutral` after at most one press.

use vstd::prelude::*;

verus! {

/// A key press, reduced to the set of keys the editing protocol knows.
/// The input layer maps whatever key identifiers it receives onto these;
/// every key outside the bindings below maps to `Other`.
#[derive(Clone, Copy, Debug, PartialEq, Eq, Structural)]
pub enum Key {
    Key1,
    Key2,
    Key3,
    Key4,
    Q,
    W,
    E,
    R,
    A,
    S,
    D,
    F,
    Z,
    X,
    C,
    V,
    G,
    H,
    J,
    K,
    T,
    Y,
    U,
    I,
    Return,
    Other,
}

/// Command to alter visual data.
#[derive(Clone, Copy, Debug, PartialEq, Eq, Structural)]
pub enum Command {
    ModifyTilePalette { palette: u32, x: usize, y: usize },
    ModifyTileTexture { tex_x: usize, tex_y: usize, x: usize, y: usize },
    GenerateTexture { tex_x: usize, tex_y: usize },
}

/// State machine to track key input and react accordingly.
#[derive(Clone, Copy, Debug, PartialEq, Eq, Structural)]
pub enum KeyState {
    Neutral,
    TileSelect(usize, usize),
    TexSelect(usize, usize),
}

/// The 16 tile-position keys, each bound to a cell of the 4x4 tile grid.
pub open spec fn tile_key_binding(k: Key) -> Option<(usize, usize)> {
    match k {
        Key::Key1 => Some((0, 0)),
        Key::Key2 => Some((1, 0)),
        Key::Key3 => Some((2, 0)),
        Key::Key4 => Some((3, 0)),
        Key::Q => Some((0, 1)),
        Key::W => Some((1, 1)),
        Key::E => Some((2, 1)),
        Key::R => Some((3, 1)),
        Key::A => Some((0, 2)),
        Key::S => Some((1, 2)),
        Key::D => Some((2, 2)),
        Key::F => Some((3, 2)),
        Key::Z => Some((0, 3)),
        Key::X => Some((1, 3)),
        Key::C => Some((2, 3)),
        Key::V => Some((3, 3)),
        _ => None,
    }
}

/// The 4 atlas-position keys, each bound to a slot of the 2x2 atlas.
pub open spec fn atlas_key_binding(k: Key) -> Option<(usize, usize)> {
    match k {
        Key::G => Some((0, 0)),
        Key::H => Some((1, 0)),
        Key::J => Some((0, 1)),
        Key::K => Some((1, 1)),
        _ => None,
    }
}

/// The 4 palette keys, each bound to a palette index.
pub open spec fn palette_key_binding(k: Key) -> Option<u32> {
    match k {
        Key::T => Some(0),
        Key::Y => Some(1),
        Key::U => Some(2),
        Key::I => Some(3),
        _ => None,
    }
}

/// The key that confirms a pending texture regeneration.
pub open spec fn is_confirm_key(k: Key) -> bool {
    k == Key::Return
}

/// The full transition table: from a state and a key press to the next
/// state and the command to carry out, if any. Total over every state and
/// key; every key that a selecting state does not recognize cancels the
/// selection.
pub open spec fn spec_transition(s: KeyState, k: Key) -> (KeyState, Option<Command>) {
    match s {
        KeyState::Neutral => match tile_key_binding(k) {
            Some(p) => (KeyState::TileSelect(p.0, p.1), None),
            None => match atlas_key_binding(k) {
                Some(p) => (KeyState::TexSelect(p.0, p.1), None),
                None => (KeyState::Neutral, None),
            },
        },
        KeyState::TileSelect(x, y) => match palette_key_binding(k) {
            Some(palette) => (
                KeyState::Neutral,
                Some(Command::ModifyTilePalette { palette, x, y }),
            ),
            None => match atlas_key_binding(k) {
                Some(p) => (
                    KeyState::Neutral,
                    Some(Command::ModifyTileTexture { tex_x: p.0, tex_y: p.1, x, y }),
                ),
                None => (KeyState::Neutral, None),
            },
        },
        KeyState::TexSelect(x, y) => if is_confirm_key(k) {
            (KeyState::Neutral, Some(Command::GenerateTexture { tex_x: x, tex_y: y }))
        } else {
            (KeyState::Neutral, None)
        },
    }
}

impl KeyState {
    pub fn new() -> (s: Self)
        ensures
            s == KeyState::Neutral,
    {
        KeyState::Neutral
    }

    /// Feed one key press to the machine. Returns the next state and the
    /// command it triggers, if any; the caller installs the next state.
    pub fn process_key(&mut self, k: Key) -> (r: (KeyState, Option<Command>))
        ensures
            r == spec_transition(*old(self), k),
            *final(self) == *old(self),
    {
        match *self {
            KeyState::Neutral => match k {
                Key::Key1 => (KeyState::TileSelect(0, 0), None),
                Key::Key2 => (KeyState::TileSelect(1, 0), None),
                Key::Key3 => (KeyState::TileSelect(2, 0), None),
                Key::Key4 => (KeyState::TileSelect(3, 0), None),
                Key::Q => (KeyState::TileSelect(0, 1), None),
                Key::W => (KeyState::TileSelect(1, 1), None),
                Key::E => (KeyState::TileSelect(2, 1), None),
                Key::R => (KeyState::TileSelect(3, 1), None),
                Key::A => (KeyState::TileSelect(0, 2), None),
                Key::S => (KeyState::TileSelect(1, 2), None),
                Key::D => (KeyState::TileSelect(2, 2), None),
                Key::F => (KeyState::TileSelect(3, 2), None),
                Key::Z => (KeyState::TileSelect(0, 3), None),
                Key::X => (KeyState::TileSelect(1, 3), None),
                Key::C => (KeyState::TileSelect(2, 3), None),
                Key::V => (KeyState::TileSelect(3, 3), None),
                Key::G => (KeyState::TexSelect(0, 0), None),
                Key::H => (KeyState::TexSelect(1, 0), None),
                Key::J => (KeyState::TexSelect(0, 1), None),
                Key::K => (KeyState::TexSelect(1, 1), None),
                _ => (KeyState::Neutral, None),
            },
            KeyState::TileSelect(x, y) => match k {
                Key::T => (
                    KeyState::Neutral,
                    Some(Command::ModifyTilePalette { palette: 0, x, y }),
                ),
                Key::Y => (
                    KeyState::Neutral,
                    Some(Command::ModifyTilePalette { palette: 1, x, y }),
                ),
                Key::U => (
                    KeyState::Neutral,
                    Some(Command::ModifyTilePalette { palette: 2, x, y }),
                ),
                Key::I => (
                    KeyState::Neutral,
                    Some(Command::ModifyTilePalette { palette: 3, x, y }),
                ),
                Key::G => (
                    KeyState::Neutral,
                    Some(Command::ModifyTileTexture { tex_x: 0, tex_y: 0, x, y }),
                ),
                Key::H => (
                    KeyState::Neutral,
                    Some(Command::ModifyTileTexture { tex_x: 1, tex_y: 0, x, y }),
                ),
                Key::J => (
                    KeyState::Neutral,
                    Some(Command::ModifyTileTexture { tex_x: 0, tex_y: 1, x, y }),
                ),
                Key::K => (
                    KeyState::Neutral,
                    Some(Command::ModifyTileTexture { tex_x: 1, tex_y: 1, x, y }),
                ),
                _ => (KeyState::Neutral, None),
            },
            KeyState::TexSelect(x, y) => match k {
                Key::Return => (
                    KeyState::Neutral,
                    Some(Command::GenerateTexture { tex_x: x, tex_y: y }),
                ),
                _ => (KeyState::Neutral, None),
            },
        }
    }
}

/// The protocol never gets stuck: from either selecting state, every key
/// press whatsoever — recognized or not — resolves the machine back to
/// `Neutral`, so a pending selection lasts at most one further press.
pub proof fn lemma_selection_resolves(s: KeyState, k: Key)
    requires
        s != KeyState::Neutral,
    ensures
        spec_transition(s, k).0 == KeyState::Neutral,
{
}

/// The transition table is total and sound for given bounds: whatever state
/// the machine is in, every command it ever emits carries coordinates inside
/// the 4x4 tile grid, the 2x2 atlas, and the 4-entry palette.
pub proof fn lemma_commands_in_bounds(s: KeyState, k: Key)
    requires
        key_state_in_bounds(s),
    ensures
        key_state_in_bounds(spec_transition(s, k).0),
        command_in_bounds(spec_transition(s, k).1),
{
}

/// A machine state whose pending selection, if any, lies inside the 4x4
/// tile grid and the 2x2 atlas. `Neutral` holds trivially, and every state
/// the bindings can produce satisfies it.
pub open spec fn key_state_in_bounds(s: KeyState) -> bool {
    match s {
        KeyState::Neutral => true,
        KeyState::TileSelect(x, y) => x < 4 && y < 4,
        KeyState::TexSelect(x, y) => x < 2 && y < 2,
    }
}

/// No command, or one whose coordinates lie inside the 4x4 tile grid, the
/// 2x2 atlas, and the 4-entry palette.
pub open spec fn command_in_bounds(c: Option<Command>) -> bool {
    match c {
        None => true,
        Some(Command::ModifyTilePalette { palette, x, y }) => palette < 4 && x < 4 && y < 4,
        Some(Command::ModifyTileTexture { tex_x, tex_y, x, y }) =>
            tex_x < 2 && tex_y < 2 && x < 4 && y < 4,
        Some(Command::GenerateTexture { tex_x, tex_y }) => tex_x < 2 && tex_y < 2,
    }
}

} // verus!
