//! Output formats and colour themes, and the stylesheet each pair calls for.
use vstd::prelude::*;

verus! {

/// The file format that a diagram is written in.
#[derive(Debug, Clone, Copy, PartialEq, Eq)]
pub enum Format {
    Svg,
    Png,
}

/// The colour theme of a diagram.
#[derive(Debug, Clone, Copy, PartialEq, Eq)]
pub enum Theme {
    Light,
    Dark,
}

/// The renderer's built-in stylesheets. The render-safe ones use only the CSS
/// that rasterising supports.
#[derive(Debug, Clone, Copy, PartialEq, Eq)]
pub enum Stylesheet {
    Light,
    Dark,
    LightRendersafe,
    DarkRendersafe,
}

impl Theme {
    /// The stylesheet for this theme in format `fmt`: raster output takes the
    /// render-safe variant.
    pub fn to_stylesheet(&self, fmt: &Format) -> (r: Stylesheet)
        ensures
            r == match (*self, *fmt) {
                (Theme::Light, Format::Svg) => Stylesheet::Light,
                (Theme::Dark, Format::Svg) => Stylesheet::Dark,
                (Theme::Light, Format::Png) => Stylesheet::LightRendersafe,
                (Theme::Dark, Format::Png) => Stylesheet::DarkRendersafe,
            },
    {
        match (self, fmt) {
            (Theme::Light, Format::Svg) => Stylesheet::Light,
            (Theme::Dark, Format::Svg) => Stylesheet::Dark,
            (Theme::Light, Format::Png) => Stylesheet::LightRendersafe,
            (Theme::Dark, Format::Png) => Stylesheet::DarkRendersafe,
        }
    }
}

impl Format {
    /// The file extension of this format, without the dot.
    pub fn file_extension(&self) -> (r: &'static str)
        ensures
            r@ == (match *self {
                Format::Svg => "svg"@,
                Format::Png => "png"@,
            }),
    {
        match self {
            Format::Svg => "svg",
            Format::Png => "png",
        }
    }
}

} // verus!
