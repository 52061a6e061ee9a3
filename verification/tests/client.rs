use xash3d::client::collections::TempEntityList;
use xash3d::client::efx::EfxApi;
use xash3d::client::screen::ScreenInfo;
use xash3d::client::sprite::{
    slices_equal, sprite_path, DigitSprites, Sprite, SpriteHandle, SpriteInfo, SpriteList,
    Sprites, WRect,
};

fn rect(left: i32, top: i32, right: i32, bottom: i32) -> WRect {
    WRect { left, right, top, bottom }
}

fn info(name: &str, sprite: &str, res: i32, rc: WRect) -> SpriteInfo {
    SpriteInfo { name: name.as_bytes().to_vec(), sprite: sprite.as_bytes().to_vec(), res, rect: rc }
}

#[test]
fn sprite_handles() {
    assert!(SpriteHandle::new(0).is_none());
    let h = SpriteHandle::new(7).unwrap();
    assert_eq!(h.raw(), 7);
    assert_eq!(SpriteHandle::new(-3).unwrap().raw(), -3);
}

#[test]
fn sprite_size() {
    let s = Sprite::new(SpriteHandle::new(1).unwrap(), rect(10, 20, 34, 44));
    assert_eq!(s.width(), 24);
    assert_eq!(s.height(), 24);
    assert_eq!(s.size(), (24, 24));
    assert_eq!(s.rect(), rect(10, 20, 34, 44));
    assert_eq!(s.handle().raw(), 1);
}

fn list() -> SpriteList {
    SpriteList::new(vec![
        info("number_0", "640hud7", 640, rect(0, 0, 20, 24)),
        info("number_0", "320hud2", 320, rect(0, 0, 12, 16)),
        info("number_1", "640hud7", 640, rect(20, 0, 40, 24)),
        info("number_1", "640hud8", 640, rect(40, 0, 60, 24)),
        info("number_1", "2560hud", 2560, rect(0, 0, 80, 96)),
        info("cross", "crosshairs", 320, rect(0, 0, 24, 24)),
    ])
}

#[test]
fn sprite_list_find() {
    let l = list();
    assert_eq!(l.len(), 6);
    // the highest resolution up to the one asked for
    assert_eq!(l.find(b"number_0", 1280).unwrap().res, 640);
    assert_eq!(l.find(b"number_0", 320).unwrap().res, 320);
    assert!(l.find(b"number_0", 100).is_none());
    // of equal resolutions the last one
    assert_eq!(l.find(b"number_1", 640).unwrap().sprite, b"640hud8");
    assert_eq!(l.find_index(b"number_1", 640), Some(3));
    assert_eq!(l.find(b"number_1", 4000).unwrap().res, 2560);
    assert!(l.find(b"missing", 4000).is_none());
    assert!(l.matches_resolution(0, 640));
    assert!(!l.matches_resolution(1, 640));
    assert_eq!(l.as_slice().len(), 6);
}

#[test]
fn sprite_paths() {
    assert_eq!(sprite_path(b"640hud7"), b"sprites/640hud7.spr".to_vec());
    assert_eq!(sprite_path(b""), b"sprites/.spr".to_vec());
    assert!(slices_equal(b"abc", b"abc"));
    assert!(!slices_equal(b"abc", b"abd"));
    assert!(!slices_equal(b"abc", b"ab"));
}

#[test]
fn sprites_load_and_find() {
    let l = list();
    // entry 3 matches but failed to load
    let handles: Vec<Option<SpriteHandle>> = (0..l.len())
        .map(|i| if l.matches_resolution(i, 640) && i != 3 { SpriteHandle::new(i as i32 + 1) } else { None })
        .collect();
    let s = Sprites::load_from_list(640, &l, &handles);
    assert_eq!(s.len(), 2);
    assert_eq!(s.get(0).0, b"number_0");
    assert_eq!(s.get(1).0, b"number_1");
    assert_eq!(s.find_index(b"number_1"), Some(1));
    assert_eq!(s.find(b"number_1").unwrap().handle().raw(), 3);
    assert!(s.find(b"cross").is_none());
    let mut s2 = Sprites::new();
    assert_eq!(s2.len(), 0);
    s2.reload_from_list(320, &l, &vec![SpriteHandle::new(9); 6]);
    assert_eq!(s2.len(), 2);
    assert_eq!(s2.find(b"cross").unwrap().width(), 24);
}

#[test]
fn digit_sprites() {
    let l = list();
    let handles = vec![SpriteHandle::new(5); l.len()];
    let s = Sprites::load_from_list(640, &l, &handles);
    let d = DigitSprites::from_sprites(&s);
    assert_eq!(d.width(), 20);
    assert_eq!(d.height(), 24);
    assert_eq!(d.get_by_char('0').unwrap().rect(), rect(0, 0, 20, 24));
    assert_eq!(d.get_by_char('1').unwrap().rect(), rect(20, 0, 40, 24));
    assert!(d.get_by_char('2').is_none());
    assert!(d.get_by_char('x').is_none());
    let empty = DigitSprites::new();
    assert_eq!(empty.width(), 0);
    assert!(empty.get_by_char('0').is_none());
}

fn screen(width: i32, height: i32) -> ScreenInfo {
    let mut widths = [8i16; 256];
    widths[b'i' as usize] = 3;
    ScreenInfo { width, height, flags: 0, char_height: 14, char_widths: widths }
}

#[test]
fn screen_resolution_and_scale() {
    assert_eq!(screen(3840, 2160).sprite_resolution(), 2560);
    assert_eq!(screen(3840, 2160).scale(), 4);
    assert_eq!(screen(2560, 1600).sprite_resolution(), 1280);
    assert_eq!(screen(2560, 1600).scale(), 3);
    assert_eq!(screen(1280, 721).sprite_resolution(), 1280);
    assert_eq!(screen(1280, 720).sprite_resolution(), 640);
    assert_eq!(screen(1280, 720).scale(), 2);
    assert_eq!(screen(640, 480).sprite_resolution(), 640);
    assert_eq!(screen(639, 480).sprite_resolution(), 320);
    assert_eq!(screen(639, 480).scale(), 1);
    let s = screen(800, 600);
    assert_eq!(s.size(), (800, 600));
    assert_eq!(s.char_width(b'i'), 3);
    assert_eq!(s.char_width(b'W'), 8);
    assert_eq!(s.char_height(), 14);
    assert_eq!(s.flags(), 0);
}

#[test]
fn temp_entities_retain() {
    let mut l = TempEntityList::from_raw_parts(vec![1, 2, 3, 4, 5], vec![10, 11]);
    assert!(!l.is_empty());
    let mut seen = Vec::new();
    l.retain_mut(|e: &mut i32| {
        seen.push(*e);
        *e % 2 == 1
    });
    // the test runs once on each entity, from the head
    assert_eq!(seen, vec![1, 2, 3, 4, 5]);
    assert_eq!(l.active(), &vec![1, 3, 5]);
    // released entities go to the head of the free list, the last first
    assert_eq!(l.free(), &vec![4, 2, 10, 11]);
    // the test may change the entities it keeps and those it releases
    l.retain_mut(|e: &mut i32| {
        *e *= 10;
        *e != 30
    });
    assert_eq!(l.active(), &vec![10, 50]);
    assert_eq!(l.free(), &vec![30, 4, 2, 10, 11]);
    l.retain_mut(|_| false);
    assert!(l.active().is_empty());
    // the list keeps its head slot, so it does not count as empty
    assert!(!l.is_empty());
    let (active, free) = l.into_parts();
    assert!(active.is_empty());
    assert_eq!(free, vec![50, 10, 30, 4, 2, 10, 11]);
}

#[test]
fn efx_table() {
    let table = [1u8, 2, 3];
    let e = EfxApi::new(&table);
    assert_eq!(e.raw(), &[1u8, 2, 3]);
}

#[test]
fn screen_default_is_zero() {
    let s = ScreenInfo::default();
    assert_eq!(s.size(), (0, 0));
    assert_eq!(s.flags(), 0);
    assert_eq!(s.char_height(), 0);
    assert_eq!(s.char_widths().len(), 256);
    assert_eq!(s.char_width(b'W'), 0);
}

#[test]
fn screen_char_widths() {
    let s = screen(640, 480);
    assert_eq!(s.char_width(b'i'), 3);
    assert_eq!(s.char_width(b'm'), 8);
    assert_eq!(s.char_widths()[b'i' as usize], 3);
}

#[test]
fn digit_sprites_measure_the_first_wide_digit() {
    let l = SpriteList::new(vec![
        // a sprite that is not a digit may be of any size
        info("huge", "huge", 640, rect(i32::MIN, 0, i32::MAX, 1)),
        // a digit of width 0 is measured, then the next one too
        info("number_3", "n", 640, rect(5, 5, 5, 9)),
        info("number_7", "n", 640, rect(0, 0, 12, 16)),
        // measured no more once a width is found
        info("number_9", "n", 640, rect(i32::MIN, 0, i32::MAX, 1)),
    ]);
    let handles = vec![SpriteHandle::new(1); l.len()];
    let s = Sprites::load_from_list(640, &l, &handles);
    let d = DigitSprites::from_sprites(&s);
    assert_eq!((d.width(), d.height()), (12, 16));
    assert_eq!(d.get_by_char('3').unwrap().rect(), rect(5, 5, 5, 9));
    assert_eq!(d.get_by_char('9').unwrap().rect(), rect(i32::MIN, 0, i32::MAX, 1));
    assert!(d.get_by_char('0').is_none());
}
