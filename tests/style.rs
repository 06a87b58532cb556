use railroad_dsl::{Format, Stylesheet, Theme};

#[test]
fn file_extensions() {
    assert_eq!(Format::Svg.file_extension(), "svg");
    assert_eq!(Format::Png.file_extension(), "png");
}

#[test]
fn raster_output_takes_render_safe_stylesheets() {
    assert_eq!(Theme::Light.to_stylesheet(&Format::Svg), Stylesheet::Light);
    assert_eq!(Theme::Dark.to_stylesheet(&Format::Svg), Stylesheet::Dark);
    assert_eq!(Theme::Light.to_stylesheet(&Format::Png), Stylesheet::LightRendersafe);
    assert_eq!(Theme::Dark.to_stylesheet(&Format::Png), Stylesheet::DarkRendersafe);
}
