use quilt_painter::color::{parse_color, Rgb};

#[test]
fn named_black() {
    assert_eq!(parse_color("black"), Some(Rgb { r: 0, g: 0, b: 0 }));
}

#[test]
fn named_sky() {
    assert_eq!(parse_color("sky"), Some(Rgb { r: 128, g: 178, b: 255 }));
}

#[test]
fn named_debug() {
    assert_eq!(parse_color("debug"), Some(Rgb { r: 255, g: 0, b: 255 }));
}

#[test]
fn triplet_plain() {
    assert_eq!(parse_color("255,128,7"), Some(Rgb { r: 255, g: 128, b: 7 }));
}

#[test]
fn triplet_with_spaces() {
    assert_eq!(parse_color(" 10 , 20 , 30 "), Some(Rgb { r: 10, g: 20, b: 30 }));
}

#[test]
fn triplet_bad_entry_reads_as_zero() {
    assert_eq!(parse_color("300,xyz,7"), Some(Rgb { r: 0, g: 0, b: 7 }));
}

#[test]
fn triplet_wrong_arity_falls_back_to_black() {
    assert_eq!(parse_color("1,2"), Some(Rgb { r: 0, g: 0, b: 0 }));
    assert_eq!(parse_color("1,2,3,4"), Some(Rgb { r: 0, g: 0, b: 0 }));
}

#[test]
fn triplet_with_plus_sign() {
    assert_eq!(parse_color("+1,2,3"), Some(Rgb { r: 1, g: 2, b: 3 }));
}

#[test]
fn hex_lowercase() {
    assert_eq!(parse_color("ff00aa"), Some(Rgb { r: 255, g: 0, b: 170 }));
}

#[test]
fn hex_uppercase_with_hash() {
    assert_eq!(parse_color("#FF00AA"), Some(Rgb { r: 255, g: 0, b: 170 }));
}

#[test]
fn hex_many_hashes() {
    assert_eq!(parse_color("##ff00aa"), Some(Rgb { r: 255, g: 0, b: 170 }));
}

#[test]
fn hex_wrong_length_rejected() {
    assert_eq!(parse_color("fff"), None);
    assert_eq!(parse_color("fffffff"), None);
}

#[test]
fn hex_bad_digit_rejected() {
    assert_eq!(parse_color("gg0000"), None);
}

#[test]
fn empty_triplet_entries_read_as_zero() {
    assert_eq!(parse_color(",,"), Some(Rgb { r: 0, g: 0, b: 0 }));
    assert_eq!(parse_color(",7,8"), Some(Rgb { r: 0, g: 7, b: 8 }));
}

#[test]
fn hex_with_plus_reads_single_digit() {
    assert_eq!(parse_color("+f0201"), Some(Rgb { r: 15, g: 2, b: 1 }));
}

#[test]
fn plain_word_rejected() {
    assert_eq!(parse_color("teal"), None);
    assert_eq!(parse_color(""), None);
}
