use quilt_painter::captions::{draw_caption, CaptionConfig, Position};
use quilt_painter::color::Rgb;
use quilt_painter::images::PixelImage;

#[test]
fn caption_config_new_keeps_fields() {
    let c = CaptionConfig::new(Some("hello".to_string()), 16, Position::TopLeft);
    assert_eq!(c.text.as_deref(), Some("hello"));
    assert_eq!(c.size, 16);
    assert_eq!(c.position, Position::TopLeft);
}

#[test]
fn caption_default_position_is_bottom_center() {
    assert_eq!(Position::default(), Position::BottomCenter);
    let c = CaptionConfig::default();
    assert!(c.text.is_none());
    assert_eq!(c.position, Position::BottomCenter);
}

#[test]
fn draw_caption_leaves_view_unchanged() {
    let red = Rgb { r: 255, g: 0, b: 0 };
    let mut view = PixelImage::new(2, 2, red);
    view.put_pixel(1, 0, Rgb { r: 0, g: 0, b: 255 });
    let caption = CaptionConfig::new(Some("label".to_string()), 12, Position::TopCenter);
    let out = draw_caption(view, caption);
    assert_eq!(out.dimensions(), (2, 2));
    assert_eq!(out.get_pixel(1, 0), Rgb { r: 0, g: 0, b: 255 });
    assert_eq!(out.get_pixel(0, 0), red);
}
