use vstd::prelude::*;

verus! {

/// The kinds of failure that parsing a color string can end in.
#[derive(Debug, Clone, Copy, PartialEq, Eq, Structural, PartialOrd, Ord, Hash)]
pub enum ErrorKind {
    /// A hex literal with a bad length or a non-hex digit.
    InvalidHex,
    /// An `rgb()` / `rgba()` call with bad arguments.
    InvalidRgb,
    /// An `hsl()` / `hsla()` call with bad arguments.
    InvalidHsl,
    /// An unknown color function, or an unavailable one.
    InvalidFunction,
    /// A string that is not a `gradient(...)` expression.
    InvalidGradient,
    /// A gradient direction that is neither a keyword nor an angle.
    InvalidGradientCoordinates,
    /// A malformed `darken(...)` call.
    InvalidDarken,
    /// A malformed `lighten(...)` call.
    InvalidLighten,
    /// A theme entry that does not hold a color.
    InvalidThemeColor,
    /// A theme file that cannot be found or read.
    InvalidThemePath,
    /// Anything else.
    InvalidUnknown,
}

impl ErrorKind {
    /// A short description of the kind.
    pub open spec fn text(&self) -> Seq<char> {
        match self {
            ErrorKind::InvalidHex => "invalid hex format"@,
            ErrorKind::InvalidRgb => "invalid rgb format"@,
            ErrorKind::InvalidHsl => "invalid hsl format"@,
            ErrorKind::InvalidFunction => "invalid color function"@,
            ErrorKind::InvalidGradient => "invalid gradient format"@,
            ErrorKind::InvalidGradientCoordinates => "invalid gradient coordinates format"@,
            ErrorKind::InvalidDarken => "invalid darken format"@,
            ErrorKind::InvalidLighten => "invalid lighten format"@,
            ErrorKind::InvalidThemeColor => "invalid theme color"@,
            ErrorKind::InvalidThemePath => "invalid theme path"@,
            ErrorKind::InvalidUnknown => "invalid unknown format"@,
        }
    }

    /// A short description of the kind (see `text`).
    pub fn as_str(&self) -> (r: &'static str)
        ensures
            r@ == self.text(),
    {
        match self {
            ErrorKind::InvalidHex => "invalid hex format",
            ErrorKind::InvalidRgb => "invalid rgb format",
            ErrorKind::InvalidHsl => "invalid hsl format",
            ErrorKind::InvalidFunction => "invalid color function",
            ErrorKind::InvalidGradient => "invalid gradient format",
            ErrorKind::InvalidGradientCoordinates => "invalid gradient coordinates format",
            ErrorKind::InvalidDarken => "invalid darken format",
            ErrorKind::InvalidLighten => "invalid lighten format",
            ErrorKind::InvalidThemeColor => "invalid theme color",
            ErrorKind::InvalidThemePath => "invalid theme path",
            ErrorKind::InvalidUnknown => "invalid unknown format",
        }
    }
}

/// How an error reads: the kind's description, then the message in
/// parentheses when there is one.
pub open spec fn error_text(kind: ErrorKind, message: Seq<char>) -> Seq<char> {
    if message.len() == 0 {
        kind.text()
    } else {
        kind.text() + " ("@ + message + ")"@
    }
}

/// A parse failure: its kind and the text that caused it.
#[derive(Debug, Clone)]
pub struct Error {
    kind: ErrorKind,
    message: String,
}

impl Error {
    pub closed spec fn spec_kind(&self) -> ErrorKind {
        self.kind
    }

    pub closed spec fn spec_message(&self) -> Seq<char> {
        self.message@
    }

    /// Creates an error of the given kind carrying `message`.
    pub fn new(kind: ErrorKind, message: &str) -> (e: Error)
        ensures
            e.spec_kind() == kind,
            e.spec_message() == message@,
    {
        Error { kind, message: String::from_str(message) }
    }

    /// The kind of the error.
    pub fn kind(&self) -> (k: ErrorKind)
        ensures
            k == self.spec_kind(),
    {
        self.kind
    }

    /// The error as text (see `error_text`).
    pub fn to_text(&self) -> (r: String)
        ensures
            r@ == error_text(self.spec_kind(), self.spec_message()),
    {
        let mut out = String::from_str(self.kind.as_str());
        if crate::text::chars_of(self.message.as_str()).len() > 0 {
            out.append(" (");
            out.append(self.message.as_str());
            out.append(")");
        }
        out
    }

    /// The text that caused the error.
    pub fn message(&self) -> (m: String)
        ensures
            m@ == self.spec_message(),
    {
        self.message.clone()
    }
}

} // verus!
