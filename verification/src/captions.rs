//! Caption configuration: an optional text overlay drawn on each view after
//! rendering. This build draws no text, so applying a caption leaves the
//! view untouched.

use vstd::prelude::*;
use crate::images::PixelImage;

verus! {

/// Where on the view a caption is placed.
#[derive(Debug, Clone, Copy, PartialEq, Eq, Structural)]
pub enum Position {
    TopLeft,
    TopCenter,
    TopRight,
    BottomLeft,
    BottomCenter,
}

impl Default for Position {
    fn default() -> (r: Self)
        ensures
            r == Position::BottomCenter,
    {
        Position::BottomCenter
    }
}

/// The caption to draw on each view: its text, font size in pixels, and
/// placement.
#[derive(Debug)]
pub struct CaptionConfig {
    pub text: Option<String>,
    pub size: u32,
    pub position: Position,
}

impl Clone for CaptionConfig {
    fn clone(&self) -> (r: Self)
        ensures
            match (&r.text, &self.text) {
                (Some(a), Some(b)) => a@ == b@,
                (None, None) => true,
                _ => false,
            },
            r.size == self.size,
            r.position == self.position,
    {
        CaptionConfig {
            text: match &self.text {
                Some(t) => Some(t.clone()),
                None => None,
            },
            size: self.size,
            position: self.position,
        }
    }
}

impl Default for CaptionConfig {
    fn default() -> (r: Self)
        ensures
            r.text is None,
            r.size == 0,
            r.position == Position::BottomCenter,
    {
        CaptionConfig { text: None, size: 0, position: Position::BottomCenter }
    }
}

impl CaptionConfig {
    pub fn new(text: Option<String>, size: u32, position: Position) -> (r: Self)
        ensures
            r.text == text,
            r.size == size,
            r.position == position,
    {
        CaptionConfig { text, size, position }
    }
}

/// Applies a caption to a rendered view. Text drawing is not compiled into
/// this build, so the view comes back unchanged whatever the caption says.
pub fn draw_caption(view: PixelImage, _caption: CaptionConfig) -> (r: PixelImage)
    ensures
        r == view,
{
    view
}

} // verus!
