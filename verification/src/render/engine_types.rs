//! Values that the renderer exchanges with the engine: who renders a frame,
//! the geometry of the software frame buffer, and the errors of image and
//! visibility requests.

use vstd::prelude::*;

verus! {

/// Who renders a frame.
#[derive(Copy, Clone, Debug, PartialEq, Eq, Structural)]
pub enum Renderer {
    Engine,
    Client,
}

impl Renderer {
    /// The renderer that a `GL_RenderFrame` result names: 1 is the client,
    /// 0 and any unexpected value the engine.
    pub fn from_render_frame_result(n: i32) -> (r: Renderer)
        ensures
            r == if n == 1 {
                Renderer::Client
            } else {
                Renderer::Engine
            },
    {
        match n {
            0 => Renderer::Engine,
            1 => Renderer::Client,
            _ => Renderer::Engine,
        }
    }
}

/// The software frame buffer: its size in pixels, the row stride in
/// pixels, the bytes per pixel and the colour channel masks.
pub struct SwBuffer {
    pub width: i32,
    pub height: i32,
    pub stride: u32,
    pub bpp: u32,
    pub r_mask: u32,
    pub g_mask: u32,
    pub b_mask: u32,
}

impl SwBuffer {
    /// An empty buffer.
    pub fn new() -> (r: SwBuffer)
        ensures
            r.width == 0 && r.height == 0 && r.stride == 0 && r.bpp == 0,
            r.r_mask == 0 && r.g_mask == 0 && r.b_mask == 0,
    {
        SwBuffer { width: 0, height: 0, stride: 0, bpp: 0, r_mask: 0, g_mask: 0, b_mask: 0 }
    }

    /// The width in pixels.
    pub fn width(&self) -> (r: usize)
        ensures
            r == self.width as usize,
    {
        self.width as usize
    }

    /// The height in pixels.
    pub fn height(&self) -> (r: usize)
        ensures
            r == self.height as usize,
    {
        self.height as usize
    }

    /// The row stride in pixels.
    pub fn stride(&self) -> (r: usize)
        ensures
            r == self.stride as usize,
    {
        self.stride as usize
    }

    /// The bytes per pixel.
    pub fn bpp(&self) -> (r: usize)
        ensures
            r == self.bpp as usize,
    {
        self.bpp as usize
    }

    /// The red channel mask.
    pub fn r_mask(&self) -> (r: u32)
        ensures
            r == self.r_mask,
    {
        self.r_mask
    }

    /// The green channel mask.
    pub fn g_mask(&self) -> (r: u32)
        ensures
            r == self.g_mask,
    {
        self.g_mask
    }

    /// The blue channel mask.
    pub fn b_mask(&self) -> (r: u32)
        ensures
            r == self.b_mask,
    {
        self.b_mask
    }

    /// The sizes of the buffer in bytes fit a `usize`.
    pub open spec fn sizes_fit(&self) -> bool {
        &&& (self.stride as usize) * (self.bpp as usize) <= usize::MAX
        &&& (self.width as usize) * (self.bpp as usize) <= usize::MAX
        &&& (self.stride as usize) * (self.bpp as usize) * (self.height as usize) <= usize::MAX
        &&& (self.stride as usize) * (self.height as usize) <= usize::MAX
    }

    /// The row stride in bytes.
    pub fn stride_bytes(&self) -> (r: usize)
        requires
            self.sizes_fit(),
        ensures
            r == (self.stride as usize) * (self.bpp as usize),
    {
        self.stride() * self.bpp()
    }

    /// The bytes of the pixels of one row.
    pub fn row_bytes(&self) -> (r: usize)
        requires
            self.sizes_fit(),
        ensures
            r == (self.width as usize) * (self.bpp as usize),
    {
        self.width() * self.bpp()
    }

    /// The size of the buffer in bytes.
    pub fn len_bytes(&self) -> (r: usize)
        requires
            self.sizes_fit(),
        ensures
            r == (self.stride as usize) * (self.bpp as usize) * (self.height as usize),
    {
        self.stride_bytes() * self.height()
    }

    /// The buffer holds no pixel.
    pub fn is_empty(&self) -> (r: bool)
        ensures
            r == (self.stride == 0 || self.width == 0 || self.height == 0),
    {
        self.stride == 0 || self.width == 0 || self.height == 0
    }

    /// The size of the buffer in pixels, stride included.
    pub fn len(&self) -> (r: usize)
        requires
            self.sizes_fit(),
        ensures
            r == (self.stride as usize) * (self.height as usize),
    {
        self.stride() * self.height()
    }

    /// A lock of the buffer for a frame of `width` by `height` pixels is
    /// granted when the engine gives the buffer's memory and the size is
    /// the buffer's own.
    pub fn lock_granted(&self, width: i32, height: i32, data_available: bool) -> (r: bool)
        ensures
            r == (data_available && width == self.width && height == self.height),
    {
        data_available && width == self.width && height == self.height
    }
}

/// Saving an image failed.
#[derive(Copy, Clone, Debug, PartialEq, Eq, Structural)]
pub struct SaveImageError;

impl SaveImageError {
    /// The error's message.
    pub fn message(&self) -> (r: &'static str)
        ensures
            r == "failed to save an image",
    {
        "failed to save an image"
    }
}

/// The buffer given for a potentially visible set is too small.
#[derive(Copy, Clone, Debug, PartialEq, Eq, Structural)]
pub struct FatPvsError;

impl FatPvsError {
    /// The error's message.
    pub fn message(&self) -> (r: &'static str)
        ensures
            r == "The buffer size must be greater or equal to {MAX_MAP_LEAFS_BYTES}",
    {
        "The buffer size must be greater or equal to {MAX_MAP_LEAFS_BYTES}"
    }
}

/// Checks the buffer given for a potentially visible set: it must hold at
/// least `min_len` bytes (`MAX_MAP_LEAFS_BYTES`).
pub fn check_fat_pvs_buffer(len: usize, min_len: usize) -> (r: Result<(), FatPvsError>)
    ensures
        r is Err <==> len < min_len,
{
    if len < min_len {
        Err(FatPvsError)
    } else {
        Ok(())
    }
}

} // verus!
