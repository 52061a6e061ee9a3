use xash3d::utils::str::CStrTemp;

fn with_nul(src: &str) -> Vec<u8> {
    let mut v = src.as_bytes().to_vec();
    v.push(0);
    v
}

fn test<const N: usize>(src: &str, stack: bool) {
    let s = CStrTemp::<N>::new(src);
    assert_eq!(s.is_stack(), stack);
    assert_eq!(s.is_heap(), !stack);
    assert_eq!(s.as_bytes_with_null(), with_nul(src).as_slice());
    let bytes = s.as_bytes_with_null();
    assert_eq!(bytes.iter().position(|&b| b == 0), Some(src.len()));
}

#[test]
fn compat_str() {
    test::<8>("0123456", true);
    test::<7>("0123456", false);
}

#[test]
fn empty_string_fits_any_buffer() {
    test::<1>("", true);
    test::<512>("", true);
}

#[test]
fn long_string_goes_to_the_heap() {
    let long = "a".repeat(600);
    test::<512>(&long, false);
    test::<601>(&long, true);
    test::<600>(&long, false);
}
