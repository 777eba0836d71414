use liver::config::{
    eq_ignore_ascii, parse_bg_variant, parse_fit, parse_hex_color, parse_motion_id,
    parse_motion_list, parse_size, parse_u32, BgType, FitConfig, ModelConfig,
};

#[test]
fn fit_words_parse_case_insensitively() {
    assert_eq!(parse_fit("cover"), Some(FitConfig::Cover));
    assert_eq!(parse_fit("Cover"), Some(FitConfig::Cover));
    assert_eq!(parse_fit("CONTAIN"), Some(FitConfig::Contain));
    assert_eq!(parse_fit("stretch"), None);
}

#[test]
fn bg_variant_words_parse_case_insensitively() {
    assert_eq!(parse_bg_variant("color"), Some(BgType::Color));
    assert_eq!(parse_bg_variant("Image"), Some(BgType::Image));
    assert_eq!(parse_bg_variant("gradient"), None);
}

#[test]
fn ascii_case_comparison() {
    assert!(eq_ignore_ascii("CoVeR", "cOvEr"));
    assert!(!eq_ignore_ascii("cover", "covers"));
    assert!(!eq_ignore_ascii("cover", "coveq"));
}

#[test]
fn hex_colors_parse_with_default_alpha() {
    assert_eq!(parse_hex_color("FFA000"), Some([255, 160, 0, 255]));
    assert_eq!(parse_hex_color("00000080"), Some([0, 0, 0, 128]));
    assert_eq!(parse_hex_color("ffa000"), Some([255, 160, 0, 255]));
    assert_eq!(parse_hex_color("GG0000"), None);
    assert_eq!(parse_hex_color("12345"), None);
    assert_eq!(parse_hex_color(""), None);
}

#[test]
fn decimal_numbers_parse_within_range() {
    assert_eq!(parse_u32("0"), Some(0));
    assert_eq!(parse_u32("800"), Some(800));
    assert_eq!(parse_u32("4294967295"), Some(u32::MAX));
    assert_eq!(parse_u32("4294967296"), None);
    assert_eq!(parse_u32(""), None);
    assert_eq!(parse_u32("12ab"), None);
}

#[test]
fn window_sizes_parse_with_square_shorthand() {
    assert_eq!(parse_size("800x600"), Some([800, 600]));
    assert_eq!(parse_size("640"), Some([640, 640]));
    assert_eq!(parse_size("800x"), None);
    assert_eq!(parse_size("axb"), None);
}

#[test]
fn motion_identities_split_on_the_last_colon() {
    let (class, name) = parse_motion_id("idle");
    assert_eq!((class.as_str(), name.as_str()), ("", "idle"));
    let (class, name) = parse_motion_id("tap:wave");
    assert_eq!((class.as_str(), name.as_str()), ("tap", "wave"));
    let (class, name) = parse_motion_id("a:b:c");
    assert_eq!((class.as_str(), name.as_str()), ("b", "c"));
}

#[test]
fn motion_lists_split_on_commas() {
    let list = parse_motion_list("wave,tap:bow");
    assert_eq!(
        list,
        vec![
            ("".to_string(), "wave".to_string()),
            ("tap".to_string(), "bow".to_string()),
        ]
    );
}

#[test]
fn model_config_defaults_are_empty() {
    let c = ModelConfig::default();
    assert!(c.name.is_none());
    assert_eq!(c.path, "assets");
    assert!(c.motions.open.is_empty());
    assert!(c.motions.idle.is_none());
}
