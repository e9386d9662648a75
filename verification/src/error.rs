//! Error types of the display engine.

use vstd::prelude::*;
use crate::chars::string_push_str;

verus! {

/// Main error type for display operations.
#[derive(Debug, Clone, PartialEq)]
pub enum DisplayError {
    /// Display engine initialization failed.
    InitFailed(String),
    /// Backend error.
    Backend(String),
    /// Rendering error.
    Render(String),
    /// Invalid glyph.
    InvalidGlyph(String),
    /// Image loading failed.
    ImageLoad(String),
    /// Video error.
    Video(String),
    /// Web view error.
    WebKit(String),
    /// Font error.
    Font(String),
    /// Host-boundary error.
    Ffi(String),
}

/// The human-readable message of an error: a fixed prefix naming the
/// kind, then the detail it carries.
pub open spec fn spec_error_message(e: DisplayError) -> Seq<char> {
    match e {
        DisplayError::InitFailed(d) => "Display engine initialization failed: "@ + d@,
        DisplayError::Backend(d) => "Backend error: "@ + d@,
        DisplayError::Render(d) => "Rendering error: "@ + d@,
        DisplayError::InvalidGlyph(d) => "Invalid glyph: "@ + d@,
        DisplayError::ImageLoad(d) => "Image loading failed: "@ + d@,
        DisplayError::Video(d) => "Video error: "@ + d@,
        DisplayError::WebKit(d) => "WebKit error: "@ + d@,
        DisplayError::Font(d) => "Font error: "@ + d@,
        DisplayError::Ffi(d) => "FFI error: "@ + d@,
    }
}

impl DisplayError {
    /// Render the error as its message string.
    pub fn message(&self) -> (r: String)
        ensures
            r@ == spec_error_message(*self),
    {
        let (prefix, detail): (&str, &String) = match self {
            DisplayError::InitFailed(d) => ("Display engine initialization failed: ", d),
            DisplayError::Backend(d) => ("Backend error: ", d),
            DisplayError::Render(d) => ("Rendering error: ", d),
            DisplayError::InvalidGlyph(d) => ("Invalid glyph: ", d),
            DisplayError::ImageLoad(d) => ("Image loading failed: ", d),
            DisplayError::Video(d) => ("Video error: ", d),
            DisplayError::WebKit(d) => ("WebKit error: ", d),
            DisplayError::Font(d) => ("Font error: ", d),
            DisplayError::Ffi(d) => ("FFI error: ", d),
        };
        let mut out = prefix.to_owned();
        string_push_str(&mut out, detail.as_str());
        out
    }
}

/// Result alias for display operations.
pub type DisplayResult<T> = Result<T, DisplayError>;

} // verus!
