use geo_svg::Color;

#[test]
fn test_named() {
    assert_eq!(Color::Named("red").render(), "red");
}

#[test]
fn test_rgb() {
    assert_eq!(Color::Rgb(255, 0, 0).render(), "rgb(255,0,0)");
}

#[test]
fn test_hex() {
    assert_eq!(Color::Hex(0xFF0000).render(), "#FF0000");
    assert_eq!(Color::Hex(0xFF).render(), "#0000FF");
}

#[test]
fn test_hsl() {
    assert_eq!(Color::Hsl(0, 100, 50).render(), "hsl(0,100%,50%)");
}

#[test]
fn hsl_wraps_hue_and_clamps_saturation_and_lightness() {
    assert_eq!(Color::Hsl(360, 150, 150).render(), "hsl(0,100%,100%)");
    assert_eq!(Color::Hsl(725, 99, 101).render(), "hsl(5,99%,100%)");
}

#[test]
fn hex_wider_than_six_digits_keeps_all_digits() {
    assert_eq!(Color::Hex(0x1ABCDEF0).render(), "#1ABCDEF0");
    assert_eq!(Color::Hex(0).render(), "#000000");
}
