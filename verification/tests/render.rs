use xash3d::render::engine::RefEngine;
use xash3d::render::engine_types::{
    check_fat_pvs_buffer, FatPvsError, Renderer, SaveImageError, SwBuffer,
};
use xash3d::render::texture::{PixelFormat, TextureId};

#[test]
fn texture_ids() {
    assert!(TextureId::new(0).is_none());
    let t = TextureId::new(5).unwrap();
    assert_eq!(t.raw(), 5);
    assert_eq!(TextureId::to_ffi(Some(t)), 5);
    assert_eq!(TextureId::to_ffi(None), 0);
    let n = TextureId::new(-1).unwrap();
    assert_eq!(n.raw(), u32::MAX);
    assert_eq!(TextureId::to_ffi(Some(n)), -1);
    assert_eq!(TextureId::new_unchecked(6).raw(), 6);
    assert_eq!(TextureId::to_ffi(TextureId::new(123)), 123);
}

#[test]
fn pixel_formats() {
    assert!(PixelFormat::Rgba32.is_raw());
    assert!(PixelFormat::Luminance.is_raw());
    assert!(!PixelFormat::Dxt1.is_raw());
    assert!(PixelFormat::Dxt1.is_compressed());
    assert!(PixelFormat::Ktx2Raw.is_compressed());
    assert!(!PixelFormat::Indexed24.is_raw());
    assert!(!PixelFormat::Indexed24.is_compressed());
    assert!(!PixelFormat::Unknown.is_compressed());
}

#[test]
fn renderer_from_frame_result() {
    assert_eq!(Renderer::from_render_frame_result(0), Renderer::Engine);
    assert_eq!(Renderer::from_render_frame_result(1), Renderer::Client);
    assert_eq!(Renderer::from_render_frame_result(7), Renderer::Engine);
}

#[test]
fn software_buffer_geometry() {
    let b = SwBuffer { width: 640, height: 480, stride: 648, bpp: 2, r_mask: 0xf800, g_mask: 0x07e0, b_mask: 0x001f };
    assert_eq!(b.width(), 640);
    assert_eq!(b.height(), 480);
    assert_eq!(b.stride(), 648);
    assert_eq!(b.bpp(), 2);
    assert_eq!(b.stride_bytes(), 1296);
    assert_eq!(b.row_bytes(), 1280);
    assert_eq!(b.len_bytes(), 1296 * 480);
    assert_eq!(b.len(), 648 * 480);
    assert!(!b.is_empty());
    assert_eq!((b.r_mask(), b.g_mask(), b.b_mask()), (0xf800, 0x07e0, 0x001f));
    assert!(b.lock_granted(640, 480, true));
    assert!(!b.lock_granted(640, 480, false));
    assert!(!b.lock_granted(641, 480, true));
    let e = SwBuffer::new();
    assert!(e.is_empty());
    assert_eq!(e.len_bytes(), 0);
}

#[test]
fn error_messages() {
    assert_eq!(SaveImageError.message(), "failed to save an image");
    assert_eq!(
        FatPvsError.message(),
        "The buffer size must be greater or equal to {MAX_MAP_LEAFS_BYTES}"
    );
    assert_eq!(check_fat_pvs_buffer(10, 16), Err(FatPvsError));
    assert_eq!(check_fat_pvs_buffer(16, 16), Ok(()));
}

#[test]
fn ref_engine_table() {
    let e = RefEngine::new(&(1u32, 2u32));
    assert_eq!(*e.raw(), (1, 2));
}
