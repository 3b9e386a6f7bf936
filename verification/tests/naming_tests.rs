use quilt_painter::naming::{
    generate_nonunique_simple_name, generate_simple_name, get_processing_status,
    m3u_playlist_contents, ProcessingStatus,
};

#[test]
fn simple_name_drops_extension_and_punctuation() {
    assert_eq!(generate_nonunique_simple_name("photo_01.jpg"), "photo01");
    assert_eq!(generate_nonunique_simple_name("my pic (2).png"), "mypic2");
}

#[test]
fn simple_name_uses_final_path_component() {
    assert_eq!(generate_nonunique_simple_name("/some/dir/sunset.jpeg"), "sunset");
}

#[test]
fn simple_name_keeps_hidden_file_prefix() {
    // A leading dot marks a hidden file, not an extension.
    assert_eq!(generate_nonunique_simple_name(".hidden"), "hidden");
}

#[test]
fn simple_name_caps_at_32_characters() {
    let long = "abcdefghijklmnopqrstuvwxyz0123456789.png";
    let name = generate_nonunique_simple_name(long);
    assert_eq!(name.len(), 32);
    assert_eq!(name, "abcdefghijklmnopqrstuvwxyz012345");
}

#[test]
fn simple_name_of_empty_path_is_empty() {
    assert_eq!(generate_nonunique_simple_name(""), "");
}

#[test]
fn counted_name_appends_two_digit_suffix() {
    assert_eq!(generate_simple_name("photo.jpg", 0), "photo");
    assert_eq!(generate_simple_name("photo.jpg", 5), "photo_05");
    assert_eq!(generate_simple_name("photo.jpg", 42), "photo_42");
    assert_eq!(generate_simple_name("photo.jpg", 123), "photo_123");
}

#[test]
fn processing_status_reads_ledger_row() {
    assert_eq!(
        get_processing_status(&Some("success".to_string())),
        ProcessingStatus::Processed
    );
    assert_eq!(
        get_processing_status(&Some("error".to_string())),
        ProcessingStatus::NeedsReprocessing
    );
    assert_eq!(get_processing_status(&None), ProcessingStatus::NotProcessed);
}

#[test]
fn playlist_lists_entries_in_order() {
    let names = vec!["a.png".to_string(), "b.png".to_string()];
    assert_eq!(m3u_playlist_contents(&names), "a.png\nb.png\n");
    assert_eq!(m3u_playlist_contents(&Vec::new()), "");
}
