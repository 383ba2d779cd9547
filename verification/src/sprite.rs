//! Where the sprites lie on a sprite sheet, as a sheet's description gives it.

use std::collections::HashMap;
use vstd::prelude::*;

verus! {

/// The size of a sprite and the gap between two sprites, both in pixels
/// across and down.
#[derive(Debug, Clone, Copy, Default, PartialEq, Eq)]
pub struct AddSpriteOptions {
    pub gap: (u32, u32),
    pub size: (u32, u32),
}

/// A rectangle of pixels: left, top, width and height.
#[derive(Debug, Clone, Copy, Default, PartialEq, Eq, Structural)]
pub struct SpriteRect(pub u32, pub u32, pub u32, pub u32);

/// One sprite of a sheet: its name, the cell of the sheet it lies in, and
/// its size and gap where they differ from those of the sheet.
#[derive(Debug, Default)]
pub struct SpriteConfig {
    pub name: String,
    pub pos: (u32, u32),
    pub options: AddSpriteOptions,
}

/// The sprites of each sheet and the size and gap that each sheet uses where
/// a sprite names none.
#[derive(Debug, Default)]
pub struct SpriteSheetConfig {
    pub sprites: HashMap<String, Vec<SpriteConfig>>,
    pub defaults: HashMap<String, AddSpriteOptions>,
}

impl SpriteConfig {
    /// The size and gap of this sprite: its own, or those of its sheet where
    /// it gives no size.
    pub fn effective_options(&self, sheet_defaults: &AddSpriteOptions) -> (options: AddSpriteOptions)
        ensures
            options == if self.options.size == (0u32, 0u32) {
                *sheet_defaults
            } else {
                self.options
            },
    {
        if self.options.size.0 == 0 && self.options.size.1 == 0 {
            *sheet_defaults
        } else {
            self.options
        }
    }
}

} // verus!
