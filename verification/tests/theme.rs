use x870e_lcd::renderer::ThemeColor;

#[test]
fn test_theme_color_presets() {
    assert_eq!(ThemeColor::parse("red"), Some(ThemeColor::RogRed));
    assert_eq!(ThemeColor::parse("cyan"), Some(ThemeColor::CyberCyan));
    assert_eq!(ThemeColor::parse("green"), Some(ThemeColor::MatrixGreen));
    assert_eq!(ThemeColor::parse("amber"), Some(ThemeColor::AmberGold));
    assert_eq!(ThemeColor::parse("purple"), Some(ThemeColor::NeonPurple));
}

#[test]
fn test_theme_color_hex_and_rgb_parsing() {
    assert_eq!(ThemeColor::parse("#FF3C3C"), Some(ThemeColor::Custom([255, 60, 60])));
    assert_eq!(ThemeColor::parse("00FF00"), Some(ThemeColor::Custom([0, 255, 0])));
    assert_eq!(ThemeColor::parse("255, 128, 64"), Some(ThemeColor::Custom([255, 128, 64])));
    assert_eq!(ThemeColor::parse("rgb(10, 20, 30)"), Some(ThemeColor::Custom([10, 20, 30])));
    assert_eq!(ThemeColor::parse("invalid"), None);
    assert_eq!(ThemeColor::parse("aébcd"), None);
}

#[test]
fn test_theme_color_properties() {
    let custom = ThemeColor::Custom([255, 128, 64]);
    assert_eq!(custom.rgb(), [255, 128, 64]);
    assert_eq!(custom.hex(), "#FF8040");
    assert_eq!(custom.accent_bgra(), [64, 128, 255, 255]);
}

#[test]
fn preset_names_ignore_case_and_whitespace() {
    assert_eq!(ThemeColor::parse("  ROG  "), Some(ThemeColor::RogRed));
    assert_eq!(ThemeColor::parse("CyberCyan"), Some(ThemeColor::CyberCyan));
    assert_eq!(ThemeColor::parse("\tMatrix\n"), Some(ThemeColor::MatrixGreen));
    assert_eq!(ThemeColor::parse("GOLD"), Some(ThemeColor::AmberGold));
    assert_eq!(ThemeColor::parse("neon"), Some(ThemeColor::NeonPurple));
}

#[test]
fn parse_edge_cases_follow_std_number_parsing() {
    assert_eq!(ThemeColor::parse("#+F+F+F"), Some(ThemeColor::Custom([15, 15, 15])));
    assert_eq!(ThemeColor::parse("#GG0000"), None);
    assert_eq!(ThemeColor::parse("256, 0, 0"), None);
    assert_eq!(ThemeColor::parse("+1,002, 3"), Some(ThemeColor::Custom([1, 2, 3])));
    assert_eq!(ThemeColor::parse("1, 2"), None);
    assert_eq!(ThemeColor::parse("1, 2, 3, 4"), None);
    assert_eq!(ThemeColor::parse("rgb(1,2,3"), None);
    assert_eq!(ThemeColor::parse(""), None);
}

#[test]
fn hex_code_and_labels() {
    assert_eq!(ThemeColor::RogRed.hex(), "#EE2222");
    assert_eq!(ThemeColor::AmberGold.label(), "Amber Gold");
    assert_eq!(ThemeColor::Custom([1, 2, 171]).label(), "Custom (#0102AB)");
    assert_eq!(ThemeColor::NeonPurple.bg_bgra(), [0x12, 0x10, 0x10, 0xff]);
    assert_eq!(ThemeColor::NeonPurple.card_bgra(), [0x24, 0x20, 0x20, 0xff]);
}

#[test]
fn hex_code_parses_back_for_every_preset() {
    for c in [
        ThemeColor::RogRed,
        ThemeColor::CyberCyan,
        ThemeColor::MatrixGreen,
        ThemeColor::AmberGold,
        ThemeColor::NeonPurple,
        ThemeColor::Custom([9, 200, 33]),
    ] {
        assert_eq!(ThemeColor::parse(&c.hex()), Some(ThemeColor::Custom(c.rgb())));
        let rgb = c.rgb();
        assert_eq!(c.accent_bgra(), [rgb[2], rgb[1], rgb[0], 0xff]);
    }
}

#[test]
fn theme_codes_parse_back_in_every_spelling() {
    for c in [
        ThemeColor::RogRed,
        ThemeColor::CyberCyan,
        ThemeColor::MatrixGreen,
        ThemeColor::AmberGold,
        ThemeColor::NeonPurple,
        ThemeColor::Custom([0, 7, 255]),
        ThemeColor::Custom([171, 205, 239]),
    ] {
        let [r, g, b] = c.rgb();
        let custom = Some(ThemeColor::Custom([r, g, b]));
        assert_eq!(ThemeColor::parse(&c.hex()), custom);
        assert_eq!(ThemeColor::parse(&c.hex().to_lowercase()), custom);
        assert_eq!(ThemeColor::parse(&format!("rgb({}, {}, {})", r, g, b)), custom);
    }
}
