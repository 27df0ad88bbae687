//! Component data carried by simulated game objects.

use vstd::prelude::*;

verus! {

/// Identifies the rendering layer a position belongs to.
pub type ZLevelID = &'static str;

/// Identifies the sprite a visible object is drawn with.
pub type SpriteID = u64;

/// Marks a game object as visible to clients, drawn with the given sprite.
pub struct Visible {
    pub sprite: SpriteID,
}

/// A position on the tile grid.
pub struct PositionTiled {
    pub x: u32,
    pub y: u32,
    pub z_level: ZLevelID,
}

/// A player camera: how far it sees, and its viewport offset.
pub struct Camera {
    pub view_range: u16,
    pub offset: (u32, u32),
}

} // verus!
