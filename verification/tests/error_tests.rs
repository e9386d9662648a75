//! Tests of the display error type.

use neomacs_display::error::{DisplayError, DisplayResult};

#[test]
fn display_init_failed() {
    let err = DisplayError::InitFailed("no GPU found".into());
    assert_eq!(err.message(), "Display engine initialization failed: no GPU found");
}

#[test]
fn display_backend() {
    let err = DisplayError::Backend("TTY not ready".into());
    assert_eq!(err.message(), "Backend error: TTY not ready");
}

#[test]
fn display_render() {
    let err = DisplayError::Render("out of memory".into());
    assert_eq!(err.message(), "Rendering error: out of memory");
}

#[test]
fn display_invalid_glyph() {
    let err = DisplayError::InvalidGlyph("missing codepoint".into());
    assert_eq!(err.message(), "Invalid glyph: missing codepoint");
}

#[test]
fn display_image_load() {
    let err = DisplayError::ImageLoad("corrupt PNG".into());
    assert_eq!(err.message(), "Image loading failed: corrupt PNG");
}

#[test]
fn display_video() {
    let err = DisplayError::Video("codec unsupported".into());
    assert_eq!(err.message(), "Video error: codec unsupported");
}

#[test]
fn display_webkit() {
    let err = DisplayError::WebKit("context failed".into());
    assert_eq!(err.message(), "WebKit error: context failed");
}

#[test]
fn display_font() {
    let err = DisplayError::Font("missing glyph".into());
    assert_eq!(err.message(), "Font error: missing glyph");
}

#[test]
fn display_ffi() {
    let err = DisplayError::Ffi("null pointer".into());
    assert_eq!(err.message(), "FFI error: null pointer");
}

#[test]
fn debug_format() {
    let err = DisplayError::Render("test".into());
    let debug = format!("{:?}", err);
    assert!(debug.contains("Render"));
    assert!(debug.contains("test"));
}

#[test]
fn display_result_ok() {
    let result: DisplayResult<i32> = Ok(42);
    assert_eq!(result.unwrap(), 42);
}

#[test]
fn display_result_err() {
    let result: DisplayResult<i32> = Err(DisplayError::Backend("fail".into()));
    assert!(result.is_err());
    assert_eq!(result.unwrap_err().message(), "Backend error: fail");
}

#[test]
fn variants_are_distinguishable() {
    let err = DisplayError::Font("x".into());
    assert!(matches!(err, DisplayError::Font(_)));
    assert!(!matches!(err, DisplayError::Ffi(_)));
    assert!(!matches!(err, DisplayError::Render(_)));
}
