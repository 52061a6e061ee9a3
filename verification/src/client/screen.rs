//! Screen metrics that the engine reports to the client (`SCREENINFO`).

use vstd::prelude::*;

verus! {

/// The screen size, flags and console font metrics.
pub struct ScreenInfo {
    pub width: i32,
    pub height: i32,
    pub flags: i32,
    pub char_height: i32,
    pub char_widths: [i16; 256],
}

/// The sprite resolution for a screen size: 2560 above 2560x1600, 1280
/// from 1280 wide and above 720 high, 640 from 640 wide, 320 below.
pub open spec fn spec_sprite_resolution(width: i32, height: i32) -> u32 {
    if width > 2560 && height > 1600 {
        2560
    } else if width >= 1280 && height > 720 {
        1280
    } else if width >= 640 {
        640
    } else {
        320
    }
}

/// The HUD scale for a screen size, on the same steps as the sprite
/// resolution: 4, 3, 2 or 1.
pub open spec fn spec_scale(width: i32, height: i32) -> u32 {
    if width > 2560 && height > 1600 {
        4
    } else if width >= 1280 && height > 720 {
        3
    } else if width >= 640 {
        2
    } else {
        1
    }
}

impl Default for ScreenInfo {
    /// A screen info with every value 0, for the engine to fill in.
    fn default() -> (r: ScreenInfo)
        ensures
            r.width == 0 && r.height == 0 && r.flags == 0 && r.char_height == 0,
            forall|i: int| 0 <= i < 256 ==> #[trigger] r.char_widths@[i] == 0,
    {
        ScreenInfo { width: 0, height: 0, flags: 0, char_height: 0, char_widths: [0i16; 256] }
    }
}

impl ScreenInfo {
    /// The screen width.
    pub fn width(&self) -> (r: i32)
        ensures
            r == self.width,
    {
        self.width
    }

    /// The screen height.
    pub fn height(&self) -> (r: i32)
        ensures
            r == self.height,
    {
        self.height
    }

    /// The screen width and height.
    pub fn size(&self) -> (r: (i32, i32))
        ensures
            r == (self.width, self.height),
    {
        (self.width, self.height)
    }

    /// The screen flags.
    pub fn flags(&self) -> (r: i32)
        ensures
            r == self.flags,
    {
        self.flags
    }

    /// The height of a console character.
    pub fn char_height(&self) -> (r: i32)
        ensures
            r == self.char_height,
    {
        self.char_height
    }

    /// The widths of the console characters, one per byte value.
    pub fn char_widths(&self) -> (r: &[i16; 256])
        ensures
            r == &self.char_widths,
    {
        &self.char_widths
    }

    /// The width of console character `c`.
    pub fn char_width(&self, c: u8) -> (r: i16)
        ensures
            r == self.char_widths@[c as int],
    {
        self.char_widths[c as usize]
    }

    /// The resolution of the HUD sprites to load for this screen.
    pub fn sprite_resolution(&self) -> (r: u32)
        ensures
            r == spec_sprite_resolution(self.width, self.height),
    {
        let (width, height) = self.size();
        if width > 2560 && height > 1600 {
            2560
        } else if width >= 1280 && height > 720 {
            1280
        } else if width >= 640 {
            640
        } else {
            320
        }
    }

    /// The scale of the HUD for this screen.
    pub fn scale(&self) -> (r: u32)
        ensures
            r == spec_scale(self.width, self.height),
    {
        let (width, height) = self.size();
        if width > 2560 && height > 1600 {
            4
        } else if width >= 1280 && height > 720 {
            3
        } else if width >= 640 {
            2
        } else {
            1
        }
    }
}

/// The HUD scale and the sprite resolution step together: 1, 2, 3 and 4
/// go with 320, 640, 1280 and 2560; and neither shrinks when the screen
/// grows.
pub proof fn lemma_scale_follows_resolution(w1: i32, h1: i32, w2: i32, h2: i32)
    ensures
        spec_scale(w1, h1) == match spec_sprite_resolution(w1, h1) {
            2560 => 4u32,
            1280 => 3u32,
            640 => 2u32,
            _ => 1u32,
        },
        w1 <= w2 && h1 <= h2 ==> spec_sprite_resolution(w1, h1) <= spec_sprite_resolution(w2, h2),
        w1 <= w2 && h1 <= h2 ==> spec_scale(w1, h1) <= spec_scale(w2, h2),
{
}

} // verus!
