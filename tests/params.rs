use rtwasm::params::{Params, ParamsError};

fn opt(s: &str) -> Option<String> {
    Some(String::from(s))
}

#[test]
fn absent_options_take_defaults() {
    let p = Params::from_options(None, None, None, None, None).unwrap();
    assert_eq!((p.nx, p.ny, p.ns, p.random_seed), (200, 100, 100, 0));
    assert_eq!(p.output, "output.png");
}

#[test]
fn given_options_are_read() {
    let p = Params::from_options(opt("10"), opt("+20"), opt("5"), opt("42"), opt("a.png")).unwrap();
    assert_eq!((p.nx, p.ny, p.ns, p.random_seed), (10, 20, 5, 42));
    assert_eq!(p.output, "a.png");
    assert!(p.is_valid());
}

#[test]
fn bad_numbers_name_their_option() {
    let e = |x, y, s, r| Params::from_options(x, y, s, r, None).err();
    assert_eq!(e(opt("ten"), None, None, None), Some(ParamsError::BadNumber('x')));
    assert_eq!(e(None, opt("-3"), None, None), Some(ParamsError::BadNumber('y')));
    assert_eq!(e(None, None, opt(""), None), Some(ParamsError::BadNumber('s')));
    assert_eq!(e(None, None, None, opt("1.5")), Some(ParamsError::BadNumber('r')));
    assert_eq!(e(opt("4294967296"), None, None, None), Some(ParamsError::BadNumber('x')));
    assert_eq!(e(opt("x"), opt("y"), None, None), Some(ParamsError::BadNumber('x')));
}

#[test]
fn seed_takes_the_full_u64_range() {
    let p = Params::from_options(None, None, None, opt("18446744073709551615"), None).unwrap();
    assert_eq!(p.random_seed, u64::MAX);
}

#[test]
fn empty_image_is_rejected() {
    let r = Params::from_options(opt("0"), None, None, None, None);
    assert_eq!(r.err(), Some(ParamsError::EmptyImage));
    let r = Params::from_options(None, opt("0"), None, None, None);
    assert_eq!(r.err(), Some(ParamsError::EmptyImage));
}

#[test]
fn zero_samples_are_rejected() {
    let r = Params::from_options(None, None, opt("0"), None, None);
    assert_eq!(r.err(), Some(ParamsError::NoSamples));
}

#[test]
fn image_too_large_is_rejected() {
    let r = Params::from_options(opt("65536"), opt("65536"), None, None, None);
    assert_eq!(r.err(), Some(ParamsError::TooLarge));
    // 3 * 37837 * 37838 = 4295029218, just above u32::MAX
    let r = Params::from_options(opt("37837"), opt("37838"), None, None, None);
    assert_eq!(r.err(), Some(ParamsError::TooLarge));
    // 3 * 37837 * 37837 = 4294915707, just below it
    let p = Params::from_options(opt("37837"), opt("37837"), None, None, None).unwrap();
    assert!(p.is_valid());
}

#[test]
fn new_keeps_its_arguments() {
    let p = Params::new(10, 10, 5, 0, String::from("benchmark.png"));
    assert_eq!((p.nx, p.ny, p.ns, p.random_seed), (10, 10, 5, 0));
    assert_eq!(p.output, "benchmark.png");
}

#[test]
fn validity_of_new_params() {
    assert!(Params::new(200, 100, 100, 0, String::new()).is_valid());
    assert!(!Params::new(0, 100, 100, 0, String::new()).is_valid());
    assert!(!Params::new(200, 0, 100, 0, String::new()).is_valid());
    assert!(!Params::new(200, 100, 0, 0, String::new()).is_valid());
    assert!(!Params::new(u32::MAX, u32::MAX, 1, 0, String::new()).is_valid());
}

#[test]
fn pixels_go_from_top_row_down_left_to_right() {
    let p = Params::new(3, 2, 1, 0, String::new());
    assert_eq!(p.pixel_count(), 6);
    let order: Vec<(u32, u32)> = (0..6).map(|k| p.pixel(k)).collect();
    assert_eq!(order, vec![(0, 1), (1, 1), (2, 1), (0, 0), (1, 0), (2, 0)]);
}

#[test]
fn every_pixel_is_produced_once() {
    let p = Params::new(7, 5, 1, 0, String::new());
    let mut seen = vec![false; 35];
    for k in 0..p.pixel_count() {
        let (i, j) = p.pixel(k);
        assert!(i < 7 && j < 5);
        let idx = (j * 7 + i) as usize;
        assert!(!seen[idx]);
        seen[idx] = true;
    }
    assert!(seen.iter().all(|&s| s));
}
