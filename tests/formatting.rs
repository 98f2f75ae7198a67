use shadow_core::formatting::c_string_preview;

#[test]
fn preview_stops_at_zero_byte() {
    assert_eq!(c_string_preview(b"hello\0world"), (b"hello".to_vec(), false));
    assert_eq!(c_string_preview(b""), (Vec::new(), false));
    assert_eq!(c_string_preview(b"\0abc"), (Vec::new(), false));
}

#[test]
fn preview_cuts_long_strings() {
    let mut exact = vec![b'a'; 40];
    exact.push(0);
    assert_eq!(c_string_preview(&exact), (vec![b'a'; 40], false));
    let long = vec![b'b'; 41];
    assert_eq!(c_string_preview(&long), (vec![b'b'; 40], true));
}

#[test]
fn preview_limits_unprintable_bytes() {
    let spaces = vec![b' '; 20];
    assert_eq!(c_string_preview(&spaces), (vec![b' '; 12], true));
    let mixed = b"a\nb\tc\0".to_vec();
    assert_eq!(c_string_preview(&mixed), (b"a\nb\tc".to_vec(), false));
}
