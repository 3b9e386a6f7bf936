use quilt_painter::quilt::{
    get_quilt_settings, resolve_quilt_settings, view_dimensions, ConfigError, QuiltSettings,
};

#[test]
fn preset_by_alias() {
    let s = get_quilt_settings("go").unwrap();
    assert_eq!(s, QuiltSettings { columns: 10, rows: 6, resolution: (4092, 4092) });
}

#[test]
fn preset_by_full_name() {
    let s = get_quilt_settings("Looking Glass Portrait").unwrap();
    assert_eq!(s, QuiltSettings { columns: 8, rows: 6, resolution: (3360, 3360) });
    assert_eq!(get_quilt_settings("portrait"), Some(s));
}

#[test]
fn preset_with_quote_in_name() {
    let s = get_quilt_settings("Looking Glass 16\" Portrait").unwrap();
    assert_eq!(s, QuiltSettings { columns: 11, rows: 6, resolution: (5995, 6000) });
    assert_eq!(get_quilt_settings("16p"), Some(s));
}

#[test]
fn preset_unknown_device() {
    assert_eq!(get_quilt_settings("Looking Glass 99"), None);
    assert_eq!(get_quilt_settings(""), None);
}

#[test]
fn resolve_with_device() {
    let r = resolve_quilt_settings(&Some("65".to_string()), None, None, None, None);
    assert_eq!(r, Ok(QuiltSettings { columns: 8, rows: 9, resolution: (8192, 8192) }));
}

#[test]
fn resolve_with_unknown_device() {
    let r = resolve_quilt_settings(&Some("nope".to_string()), Some(1), Some(1), Some(1), Some(1));
    assert_eq!(r, Err(ConfigError::UnknownDevice));
}

#[test]
fn resolve_custom_settings() {
    let r = resolve_quilt_settings(&None, Some(4), Some(2), Some(800), Some(600));
    assert_eq!(r, Ok(QuiltSettings { columns: 4, rows: 2, resolution: (800, 600) }));
}

#[test]
fn resolve_reports_first_missing_number() {
    assert_eq!(
        resolve_quilt_settings(&None, None, Some(2), Some(800), Some(600)),
        Err(ConfigError::MissingColumns)
    );
    assert_eq!(
        resolve_quilt_settings(&None, Some(4), None, Some(800), Some(600)),
        Err(ConfigError::MissingRows)
    );
    assert_eq!(
        resolve_quilt_settings(&None, Some(4), Some(2), None, Some(600)),
        Err(ConfigError::MissingWidth)
    );
    assert_eq!(
        resolve_quilt_settings(&None, Some(4), Some(2), Some(800), None),
        Err(ConfigError::MissingHeight)
    );
}

#[test]
fn view_dimensions_truncate() {
    let s = QuiltSettings { columns: 3, rows: 2, resolution: (10, 7) };
    assert_eq!(view_dimensions(&s), (3, 3));
}
