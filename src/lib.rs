//! Parsing of CSS Color Module Level 4 color strings: named colors, hex
//! literals, `rgb()`, `hsl()`, `darken()`/`lighten()` and `gradient()`.
//!
//! Numbers are kept as fractions of integers, rounded to fifteen significant
//! digits. Colors given as hex, by name or by `rgb()` come out with exact
//! channels; hue-based forms and gradient angles come out as parsed
//! values for a floating-point back end to finish.
use vstd::prelude::*;

pub mod color;
pub mod error;
pub mod gradient;
pub mod named;
pub mod number;
pub mod path;
pub mod solid;
pub mod text;
pub mod theme;

pub use color::{Color, ColorValue, parse, parse_solid, parse_with_theme};
pub use error::{Error, ErrorKind};
pub use gradient::{
    Direction,
    Gradient,
    GradientCoordinates,
    gradient_from_matches,
    is_valid_angle,
    is_valid_direction,
    parse_coordinates,
    parse_gradient,
    parse_gradient_with_theme,
};
pub use number::{Angle, Number};
pub use path::clean;
pub use solid::{Channels, Solid, rgba16_to_rgba8, rgba8_to_rgba16};
pub use text::strip_string;
pub use theme::{Theme, ThemeColors, ThemeValue, parse_solid_with_theme};
