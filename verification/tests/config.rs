use garshot::config::{
    config_path_in, expand_tilde, expand_tilde_in, general_settings_in, parse_color, Config, SelectionSettings,
};

#[test]
fn test_parse_color() {
    assert_eq!(parse_color("#ff6600"), Some(0xFF6600));
    assert_eq!(parse_color("ff6600"), Some(0xFF6600));
    assert_eq!(parse_color("#000000"), Some(0x000000));
    assert_eq!(parse_color("#ffffff"), Some(0xFFFFFF));
    assert_eq!(parse_color("invalid"), None);
}

#[test]
fn parse_color_edge_cases() {
    assert_eq!(parse_color("##00FF00"), None);
    assert_eq!(parse_color("#fff"), None);
    assert_eq!(parse_color("#ff66001"), None);
    assert_eq!(parse_color("+fffff"), None);
    assert_eq!(parse_color("+ff660"), None);
    assert_eq!(parse_color("#+ff660"), None);
    assert_eq!(parse_color("#00FF00"), Some(0x00FF00));
    assert_eq!(parse_color("AbCdEf"), Some(0xABCDEF));
    assert_eq!(parse_color("-fffff"), None);
    assert_eq!(parse_color("#gg0000"), None);
}

#[test]
fn test_default_config() {
    let config = Config::default();
    assert_eq!(config.general.format, "png");
    assert_eq!(config.selection.blur_radius, 15);
    assert!(config.naming.pattern.contains("screenshot"));
}

#[test]
fn default_settings_values() {
    let config = Config::default();
    assert_eq!(config.general.quality, 90);
    assert!(!config.general.include_cursor);
    assert!(config.general.save_dir.ends_with("/Screenshots"));
    assert_eq!(config.selection.line_color, "#ff6600");
    assert_eq!(config.selection.line_width, 2);
    assert_eq!(config.naming.pattern, "screenshot-%Y%m%d-%H%M%S");
}

#[test]
fn general_settings_save_dir_under_pictures() {
    assert_eq!(general_settings_in(Some("/home/u/Pictures".to_string())).save_dir, "/home/u/Pictures/Screenshots");
    assert_eq!(general_settings_in(None).save_dir, "./Screenshots");
}

#[test]
fn line_color_falls_back_to_orange() {
    let mut s = SelectionSettings::default();
    assert_eq!(s.line_color_u32(), 0xFF6600);
    s.line_color = "#00ff00".to_string();
    assert_eq!(s.line_color_u32(), 0x00FF00);
    s.line_color = "green".to_string();
    assert_eq!(s.line_color_u32(), 0xFF6600);
}

#[test]
fn test_expand_tilde() {
    let home = dirs::home_dir().unwrap().to_string_lossy().into_owned();
    let home_path = std::path::PathBuf::from(&home);

    let expanded = expand_tilde("~/Pictures/Screenshots");
    assert_eq!(expanded, home_path.join("Pictures/Screenshots").to_string_lossy());

    let expanded = expand_tilde("~");
    assert_eq!(expanded, home);

    let expanded = expand_tilde("/tmp/screenshots");
    assert_eq!(expanded, "/tmp/screenshots");

    let expanded = expand_tilde("screenshots");
    assert_eq!(expanded, "screenshots");

    let expanded = expand_tilde("/foo/~/bar");
    assert_eq!(expanded, "/foo/~/bar");
}

#[test]
fn expand_tilde_with_given_home() {
    assert_eq!(expand_tilde_in("~/a", Some("/h".to_string())), "/h/a");
    assert_eq!(expand_tilde_in("~/a", None), "./a");
    assert_eq!(expand_tilde_in("~", None), ".");
    assert_eq!(expand_tilde_in("~user/a", Some("/h".to_string())), "~user/a");
    assert_eq!(expand_tilde_in("~//abs", Some("/h".to_string())), "/abs");
}

#[test]
fn config_file_location() {
    assert_eq!(config_path_in(Some("/home/u/.config".to_string())), "/home/u/.config/garshot/config.toml");
    assert_eq!(config_path_in(None), "./garshot/config.toml");
}
