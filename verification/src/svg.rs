//! The option, warning and error types of SVG import and export.
use vstd::prelude::*;

verus! {

/// How to handle filled shapes during import.
#[derive(Clone, Copy, Debug, PartialEq, Eq, Structural)]
pub enum FillBehavior {
    /// Ignore filled shapes that have no stroke
    Ignore,
    /// Convert fill to outline stroke
    ConvertToOutline,
}

impl Default for FillBehavior {
    fn default() -> (r: Self)
        ensures
            r == FillBehavior::ConvertToOutline,
    {
        FillBehavior::ConvertToOutline
    }
}

/// Warnings generated during SVG import.
#[derive(Clone, Debug)]
pub enum ImportWarning {
    /// An element type that isn't supported
    UnsupportedElement { element: String, reason: String },
    /// Text conversion failed (font not found, etc.)
    TextConversionFailed { text: String, reason: String },
    /// A clip-path was skipped
    ClipPathSkipped { id: String, reason: String },
    /// A gradient was ignored
    GradientIgnored { id: String },
}

/// Errors of SVG import and export.
#[derive(Debug)]
pub enum SvgError {
    Io(std::io::Error),
    Parse(String),
}

impl SvgError {
    /// The error's message text.
    pub fn message(&self) -> (s: String)
        ensures
            match self {
                SvgError::Io(_) => s@.take(10) == "IO error: "@,
                SvgError::Parse(m) => s@ == "Parse error: "@ + m@,
            },
    {
        match self {
            SvgError::Io(e) => {
                let mut s = String::new();
                s.append("IO error: ");
                proof {
                    reveal_strlit("IO error: ");
                }
                let t = crate::ebb::io_error_text(e);
                s.append(t.as_str());
                assert(s@.take(10) == "IO error: "@);
                s
            },
            SvgError::Parse(m) => {
                let mut s = String::new();
                s.append("Parse error: ");
                s.append(m.as_str());
                s
            },
        }
    }
}

} // verus!
