//! Texture ids and pixel formats of the renderer interface.

use vstd::prelude::*;

verus! {

/// A valid texture id: never 0 (the engine's "no texture").
#[derive(Copy, Clone, Debug, PartialEq, Eq, Structural)]
pub struct TextureId {
    raw: u32,
}

impl TextureId {
    /// The id's value.
    pub closed spec fn spec_raw(&self) -> u32 {
        self.raw
    }

    #[verifier::type_invariant]
    spec fn nonzero(&self) -> bool {
        self.raw != 0
    }

    /// The id for an engine texture number, if it is not 0.
    pub fn new(raw: i32) -> (r: Option<TextureId>)
        ensures
            r is Some <==> raw != 0,
            r matches Some(t) ==> t.spec_raw() == raw as u32,
    {
        let v = raw as u32;
        assert(v == 0 <==> raw == 0) by (bit_vector)
            requires
                v == raw as u32,
        ;
        if v != 0 {
            Some(TextureId { raw: v })
        } else {
            None
        }
    }

    /// The id for an engine texture number that the caller knows is not 0.
    pub fn new_unchecked(raw: i32) -> (r: TextureId)
        requires
            raw != 0,
        ensures
            r.spec_raw() == raw as u32,
    {
        let v = raw as u32;
        assert(v != 0) by (bit_vector)
            requires
                v == raw as u32,
                raw != 0,
        ;
        TextureId { raw: v }
    }

    /// The id's value.
    pub fn raw(&self) -> (r: u32)
        ensures
            r == self.spec_raw(),
            r != 0,
    {
        proof {
            use_type_invariant(self);
        }
        self.raw
    }

    /// The engine texture number of an optional id: 0 for none.
    pub fn to_ffi(id: Option<TextureId>) -> (r: i32)
        ensures
            r == match id {
                Some(t) => t.spec_raw() as i32,
                None => 0i32,
            },
    {
        match id {
            Some(t) => t.raw() as i32,
            None => 0,
        }
    }
}

/// Reading an engine texture number as an optional id and writing it back
/// gives the number again, and an id survives the way back too.
pub proof fn lemma_texture_id_round_trip(raw: i32, t: TextureId)
    ensures
        (raw as u32) as i32 == raw,
        raw != 0 ==> raw as u32 != 0,
        (t.spec_raw() as i32) as u32 == t.spec_raw(),
{
    assert((raw as u32) as i32 == raw) by (bit_vector);
    assert(raw != 0 ==> raw as u32 != 0) by (bit_vector);
    let v = t.spec_raw();
    assert((v as i32) as u32 == v) by (bit_vector);
}

/// The pixel format of an image.
#[derive(Copy, Clone, Debug, PartialEq, Eq, Structural)]
pub enum PixelFormat {
    /// An unknown pixel format.
    Unknown,
    /// Inflated palette (768 bytes).
    Indexed24,
    /// Deflated palette (1024 bytes).
    Indexed32,
    /// Normal RGBA buffer.
    Rgba32,
    /// Big endian RGBA (MacOS).
    Bgra32,
    /// Uncompressed dds or another 24-bit image.
    Rgb24,
    /// Big-endian RGB (MacOS).
    Bgr24,
    Luminance,
    /// s3tc DXT1/BC1 format.
    Dxt1,
    /// s3tc DXT3/BC2 format.
    Dxt3,
    /// s3tc DXT5/BC3 format.
    Dxt5,
    /// latc ATI2N/BC5 format.
    Ati2,
    Bc4Signed,
    Bc4Unsigned,
    Bc5Signed,
    Bc5Unsigned,
    /// bptc BC6H signed FP16 format.
    Bc6hSigned,
    /// bptc BC6H unsigned FP16 format.
    Bc6hUnsigned,
    /// bptc BC7 format.
    Bc7Unorm,
    Bc7Srgb,
    /// Raw KTX2 data, used for yet unsupported KTX2 subformats.
    Ktx2Raw,
}

/// The formats that store plain pixels.
pub open spec fn spec_is_raw(f: PixelFormat) -> bool {
    matches!(f, PixelFormat::Rgba32 | PixelFormat::Bgra32 | PixelFormat::Rgb24 | PixelFormat::Bgr24 | PixelFormat::Luminance)
}

/// The block-compressed formats.
pub open spec fn spec_is_compressed(f: PixelFormat) -> bool {
    matches!(
        f,
        PixelFormat::Dxt1 | PixelFormat::Dxt3 | PixelFormat::Dxt5 | PixelFormat::Ati2
            | PixelFormat::Bc4Signed | PixelFormat::Bc4Unsigned | PixelFormat::Bc5Signed
            | PixelFormat::Bc5Unsigned | PixelFormat::Bc6hSigned | PixelFormat::Bc6hUnsigned
            | PixelFormat::Bc7Unorm | PixelFormat::Bc7Srgb | PixelFormat::Ktx2Raw
    )
}

impl PixelFormat {
    /// The format stores plain pixels.
    pub fn is_raw(&self) -> (r: bool)
        ensures
            r == spec_is_raw(*self),
    {
        match self {
            PixelFormat::Rgba32 | PixelFormat::Bgra32 | PixelFormat::Rgb24 | PixelFormat::Bgr24
            | PixelFormat::Luminance => true,
            _ => false,
        }
    }

    /// The format is block-compressed.
    pub fn is_compressed(&self) -> (r: bool)
        ensures
            r == spec_is_compressed(*self),
    {
        match self {
            PixelFormat::Dxt1 | PixelFormat::Dxt3 | PixelFormat::Dxt5 | PixelFormat::Ati2
            | PixelFormat::Bc4Signed | PixelFormat::Bc4Unsigned | PixelFormat::Bc5Signed
            | PixelFormat::Bc5Unsigned | PixelFormat::Bc6hSigned | PixelFormat::Bc6hUnsigned
            | PixelFormat::Bc7Unorm | PixelFormat::Bc7Srgb | PixelFormat::Ktx2Raw => true,
            _ => false,
        }
    }
}

/// No format is both plain and compressed; the paletted formats and the
/// unknown format are neither.
pub proof fn lemma_pixel_format_kinds(f: PixelFormat)
    ensures
        !(spec_is_raw(f) && spec_is_compressed(f)),
        matches!(f, PixelFormat::Unknown | PixelFormat::Indexed24 | PixelFormat::Indexed32) ==> !spec_is_raw(f) && !spec_is_compressed(f),
{
}

} // verus!
