use cc_quadstat::theme::{
    default_theme, find_theme, get_theme, get_theme_from_config, theme_list_lines, themes,
};

#[test]
fn registry_holds_eight_named_themes() {
    let table = themes();
    assert_eq!(table.len(), 8);
    assert_eq!(table[0].key, "tokyo-night");
    assert_eq!(table[0].display, "Tokyo Night");
    assert_eq!(table[7].key, "default");
    let keys: Vec<&str> = table.iter().map(|e| e.key).collect();
    assert_eq!(
        keys,
        vec![
            "tokyo-night",
            "nord",
            "dracula",
            "gruvbox",
            "catppuccin",
            "monokai",
            "solarized",
            "default"
        ]
    );
}

#[test]
fn lookup_is_exact_and_case_sensitive() {
    assert!(find_theme("nord").is_some());
    assert!(find_theme("Nord").is_none());
    assert!(find_theme("").is_none());
    assert!(find_theme("no-such-theme").is_none());
}

#[test]
fn unknown_override_falls_back_to_default_theme() {
    // An unknown environment override never errors: the default theme wins.
    let t = get_theme("definitely-not-a-theme", "also-unknown");
    assert!(t == default_theme());
    assert!(default_theme() == find_theme("tokyo-night").unwrap());
}

#[test]
fn environment_override_beats_persisted_name() {
    let t = get_theme("nord", "dracula");
    assert!(t == find_theme("nord").unwrap());
    let t2 = get_theme("", "dracula");
    assert!(t2 == find_theme("dracula").unwrap());
}

#[test]
fn set_then_get_round_trip() {
    // What --set-theme persists is what the next render resolves: the stored
    // name, read back through the trimming config reader, picks that theme.
    let stored = "gruvbox";
    let read_back = get_theme_from_config(Some(stored));
    let t = get_theme("", read_back.as_str());
    assert!(t == find_theme("gruvbox").unwrap());
}

#[test]
fn config_reader_trims_and_defaults() {
    assert_eq!(get_theme_from_config(Some("  nord\n")), "nord");
    assert_eq!(get_theme_from_config(Some("monokai")), "monokai");
    assert_eq!(get_theme_from_config(None), "tokyo-night");
    assert_eq!(get_theme_from_config(Some("   \n")), "");
}

#[test]
fn listing_marks_the_active_theme() {
    let lines = theme_list_lines("dracula");
    assert_eq!(lines.len(), 8);
    assert_eq!(lines[0], "  tokyo-night - Tokyo Night");
    assert_eq!(lines[2], "* dracula - Dracula");
    assert_eq!(lines[5], "  monokai - Monokai");
}

#[test]
fn theme_colors_match_the_table() {
    let t = find_theme("tokyo-night").unwrap();
    assert_eq!(t.model.fg, 15);
    assert_eq!(t.model.bg, 57);
    assert_eq!(t.ctx_good.fg, 0);
    assert_eq!(t.ctx_good.bg, 78);
    let s = find_theme("solarized").unwrap();
    assert_eq!(s.ctx_bad.fg, 230);
    assert_eq!(s.ctx_bad.bg, 124);
}
