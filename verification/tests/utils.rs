use xash3d::allocator::System as CrateSystem;
use xash3d::cell::{Sync, SyncOnceCell};
use xash3d::math::{copysign_bits, copysignf_bits, fabs_bits, fabsf_bits, sign, signf};
use xash3d::utils::allocator::{AllocMethod, System};
use xash3d::utils::array_from_slice;
use xash3d::utils::ignore_case::{compare_ignore_case, CaseOrder};
use xash3d::utils::logger::{
    console_line, level_filter_for_developer, level_prefix, Level, LevelFilter, LINE_SIZE,
};
use xash3d::client::input::key_code;

#[test]
fn arrays_from_slices() {
    let a: [u8; 3] = array_from_slice(&[1, 2, 3, 4]);
    assert_eq!(a, [1, 2, 3]);
    let b: [i32; 0] = array_from_slice(&[]);
    assert_eq!(b, []);
    let c: [u16; 2] = array_from_slice(&[7, 8]);
    assert_eq!(c, [7, 8]);
}

#[test]
fn ignore_case_order() {
    assert_eq!(compare_ignore_case(b"abc", b"ABC"), CaseOrder::Equal);
    assert_eq!(compare_ignore_case(b"abc", b"abd"), CaseOrder::Less);
    assert_eq!(compare_ignore_case(b"ABD", b"abc"), CaseOrder::Greater);
    assert_eq!(compare_ignore_case(b"ab", b"abc"), CaseOrder::Less);
    assert_eq!(compare_ignore_case(b"abc", b"AB"), CaseOrder::Greater);
    assert_eq!(compare_ignore_case(b"", b""), CaseOrder::Equal);
    // '_' (0x5f) sorts before the folded 'a' (0x61)
    assert_eq!(compare_ignore_case(b"_", b"A"), CaseOrder::Less);
}

#[test]
fn utf8_and_integers() {
    assert_eq!(key_code(b"12"), 12);
    assert_eq!(key_code(b"\xc3\x28"), 0);
    assert_eq!(key_code(b"2147483647"), i32::MAX);
    assert_eq!(key_code(b"-2147483648"), i32::MIN);
    assert_eq!(key_code(b"2147483648"), 0);
    assert_eq!(key_code(b"+"), 0);
    assert_eq!(key_code(b"1 "), 0);
}

#[test]
fn allocators() {
    let s = System::new();
    assert_eq!(s.alloc_method(1), AllocMethod::Malloc);
    assert_eq!(s.alloc_method(2), AllocMethod::Malloc);
    assert_eq!(s.alloc_method(4), AllocMethod::Aligned);
    assert_eq!(s.alloc_method(16), AllocMethod::Aligned);
    let c = CrateSystem::new();
    assert_eq!(c.alloc_method(4, 8), AllocMethod::Malloc);
    assert_eq!(c.alloc_method(8, 8), AllocMethod::Aligned);
    assert_eq!(c.alloc_method_windows(2), AllocMethod::Malloc);
    assert_eq!(c.alloc_method_windows(8), AllocMethod::Aligned);
}

#[test]
fn cells() {
    let mut c = Sync::new(5);
    assert_eq!(*c.get(), 5);
    c.set(6);
    *c.get_mut() += 1;
    assert_eq!(c.into_inner(), 7);
    let mut o: SyncOnceCell<i32> = SyncOnceCell::new();
    assert!(o.get().is_none());
    assert_eq!(o.set(1), Ok(()));
    assert_eq!(o.set(2), Err(2));
    assert_eq!(o.get(), Some(&1));
    assert_eq!(*o.get_or_init(|| 9), 1);
    assert_eq!(o.take(), Some(1));
    assert!(o.get().is_none());
    assert_eq!(*o.get_or_init(|| 9), 9);
    assert_eq!(o.get(), Some(&9));
}

#[test]
fn sign_bits() {
    assert_eq!(sign(), 0x8000_0000_0000_0000);
    assert_eq!(signf(), 0x8000_0000);
    let neg = (-2.5f64).to_bits();
    assert_eq!(f64::from_bits(fabs_bits(neg)), 2.5);
    assert_eq!(f32::from_bits(fabsf_bits((-1.5f32).to_bits())), 1.5);
    assert_eq!(f64::from_bits(copysign_bits(3.0f64.to_bits(), (-0.0f64).to_bits())), -3.0);
    assert_eq!(f32::from_bits(copysignf_bits((-3.0f32).to_bits(), 1.0f32.to_bits())), 3.0);
}

#[test]
fn logger_settings() {
    assert_eq!(level_filter_for_developer(2), LevelFilter::Trace);
    assert_eq!(level_filter_for_developer(1), LevelFilter::Debug);
    assert_eq!(level_filter_for_developer(0), LevelFilter::Info);
    assert_eq!(level_filter_for_developer(5), LevelFilter::Info);
    assert_eq!(level_prefix(Level::Error), "^1Error:^7 ");
    assert_eq!(level_prefix(Level::Warn), "^3Warning:^7 ");
    assert_eq!(level_prefix(Level::Info), "");
    assert_eq!(level_prefix(Level::Debug), "^4Debug:^7 ");
    assert_eq!(level_prefix(Level::Trace), "^6Trace:^7 ");
}

#[test]
fn console_lines() {
    assert_eq!(console_line(b"^3Warning:^7 ", b"low ammo"), b"^3Warning:^7 low ammo\n\0".to_vec());
    assert_eq!(console_line(b"", b""), b"\n\0".to_vec());
    // NUL bytes inside the message are left out
    assert_eq!(console_line(b"", b"a\0b"), b"ab\n\0".to_vec());
    // a long message is cut so that the line fits the buffer
    let long = vec![b'x'; LINE_SIZE + 10];
    let line = console_line(b"", &long);
    assert_eq!(line.len(), LINE_SIZE);
    assert_eq!(line[LINE_SIZE - 1], 0);
    assert!(line[..LINE_SIZE - 1].iter().all(|&b| b == b'x'));
}
