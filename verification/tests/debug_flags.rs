use quilt_painter::color::Rgb;
use quilt_painter::debug::{parse_debug_flags, CliDebugFlags, DebugFlags, NullDebugFlags};

#[test]
fn parses_each_key() {
    let (flags, warnings) =
        parse_debug_flags("heightmap=zero,texture=zbuffer,startpt=ff0000,endpt=00ff00");
    assert!(flags.zero_heightmap);
    assert_eq!(flags.texture_mode.as_deref(), Some("zbuffer"));
    assert_eq!(flags.start_point_color, Some(Rgb { r: 255, g: 0, b: 0 }));
    assert_eq!(flags.end_point_color, Some(Rgb { r: 0, g: 255, b: 0 }));
    assert!(warnings.is_empty());
}

#[test]
fn unknown_key_draws_a_warning() {
    let (flags, warnings) = parse_debug_flags("foo=bar,texture=heightmap");
    assert_eq!(flags.texture_mode.as_deref(), Some("heightmap"));
    assert_eq!(warnings, vec!["foo=bar".to_string()]);
}

#[test]
fn heightmap_needs_value_zero() {
    let (flags, warnings) = parse_debug_flags("heightmap=one");
    assert!(!flags.zero_heightmap);
    assert_eq!(warnings, vec!["heightmap=one".to_string()]);
}

#[test]
fn entry_without_equals_is_silently_ignored() {
    let (flags, warnings) = parse_debug_flags("zbuffer");
    assert!(!flags.zero_heightmap);
    assert!(flags.texture_mode.is_none());
    assert!(warnings.is_empty());
}

#[test]
fn later_entries_override_earlier_ones() {
    let (flags, warnings) = parse_debug_flags("texture=heightmap,texture=zbuffer");
    assert_eq!(flags.texture_mode.as_deref(), Some("zbuffer"));
    assert!(warnings.is_empty());
}

#[test]
fn startpt_with_bad_color_stays_unset() {
    let (flags, warnings) = parse_debug_flags("startpt=nope");
    assert_eq!(flags.start_point_color, None);
    assert!(warnings.is_empty());
}

#[test]
fn cli_flags_getters_report_fields() {
    let (flags, _) = parse_debug_flags("heightmap=zero,texture=zbuffer");
    assert!(flags.zero_heightmap());
    assert_eq!(flags.texture_mode(), Some("zbuffer"));
    assert_eq!(flags.start_point_color(), None);
    assert_eq!(flags.end_point_color(), None);
}

#[test]
fn default_flags_are_all_off() {
    let flags = CliDebugFlags::default();
    assert!(!flags.zero_heightmap());
    assert!(flags.texture_mode().is_none());
    assert!(flags.start_point_color().is_none());
    assert!(flags.end_point_color().is_none());
}

#[test]
fn null_flags_are_all_off() {
    let flags = NullDebugFlags;
    assert!(!flags.zero_heightmap());
    assert!(flags.texture_mode().is_none());
    assert!(flags.start_point_color().is_none());
    assert!(flags.end_point_color().is_none());
}
