use simulacra::keys::repeat_key;
use simulacra::payload::{parse_size, parse_window_size, size_payload, window_payload};

#[test]
fn a_size_is_written_as_two_numbers() {
    assert_eq!(size_payload(1400, 560), "1400 560");
    assert_eq!(size_payload(-7, 0), "-7 0");
    assert_eq!(size_payload(i32::MIN, i32::MAX), "-2147483648 2147483647");
    assert_eq!(window_payload(0, 4_294_967_295), "0 4294967295");
}

#[test]
fn a_size_is_split_at_its_first_space() {
    assert_eq!(parse_size("3 4"), Some((3, 4)));
    assert_eq!(parse_size("+3 4"), Some((3, 4)));
    assert_eq!(parse_size("3 4 5"), None);
    assert_eq!(parse_size("3\t4"), None, "only a space splits a size");
    assert_eq!(parse_size("2147483648 4"), None);
    assert_eq!(parse_size("2147483647 1"), Some((i32::MAX, 1)));
}

#[test]
fn a_window_is_two_words() {
    assert_eq!(parse_window_size("3 4"), Some((3, 4)));
    assert_eq!(parse_window_size("4294967296 4"), None);
    assert_eq!(parse_window_size("+3 4"), Some((3, 4)));
    assert_eq!(parse_window_size("-3 4"), None);
}

#[test]
fn a_tapped_key_fires_once() {
    let mut held = 0;
    assert!(repeat_key(&mut held, true, 5, 3));
    assert!(!repeat_key(&mut held, false, 5, 3));
    let fired = (0..12).filter(|_| repeat_key(&mut held, true, 5, 3)).count();
    assert_eq!(fired, 1 + 3, "down, then ticks 5, 8 and 11");
}
