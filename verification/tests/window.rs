use felix::config::{default_config, ThemeColors, ThemeMode};
use felix::fs::browser::{FileEntry, FileTime, SortDirection, SortField};
use felix::ui::window::{
    config_from_settings, default_sidebar_items_for, enabled_tools, hex_color_panics, hex_to_color,
    pick_theme_colors, search_status, settings_form_from, directory_listed, search_text_changed,
    settings_saved, theme_color_updates, theme_mode_from_index, theme_mode_index,
    to_entry_view, visible_sidebar_items, history_stepped, ColorToken, NavState, Rgb, SettingsForm, SortState,
};

#[test]
fn navigation_history() {
    let mut nav = NavState::new("/home".to_string());
    assert_eq!(nav.current(), "/home");
    assert!(!nav.can_go_back());
    assert!(!nav.can_go_forward());
    assert_eq!(nav.go_back(), None);
    nav.navigate("/home/a".to_string());
    nav.navigate("/home/a/b".to_string());
    assert!(nav.can_go_back());
    assert_eq!(nav.go_back(), Some("/home/a".to_string()));
    assert!(nav.can_go_forward());
    assert_eq!(nav.go_forward(), Some("/home/a/b".to_string()));
    assert_eq!(nav.go_forward(), None);
    nav.go_back();
    nav.go_back();
    nav.navigate("/etc".to_string());
    assert_eq!(nav.current(), "/etc");
    assert!(!nav.can_go_forward());
    assert_eq!(nav.go_back(), Some("/home".to_string()));
}

#[test]
fn sort_requests_toggle() {
    let mut s = SortState::new();
    assert_eq!(s.status_message(), "Sorted by name ↑");
    assert!(s.request("name"));
    assert_eq!(s, SortState { field: SortField::Name, direction: SortDirection::Descending });
    assert_eq!(s.status_message(), "Sorted by name ↓");
    assert!(s.request("size"));
    assert_eq!(s, SortState { field: SortField::Size, direction: SortDirection::Ascending });
    assert!(!s.request("type"));
    assert_eq!(s, SortState { field: SortField::Size, direction: SortDirection::Ascending });
    assert!(s.request("modified"));
    assert!(s.request("modified"));
    assert_eq!(s.status_message(), "Sorted by modified ↓");
}

#[test]
fn search_status_lines() {
    assert_eq!(search_status(1, "foo"), "1 result for \"foo\"");
    assert_eq!(search_status(0, "foo"), "0 results for \"foo\"");
    assert_eq!(search_status(12, "a b"), "12 results for \"a b\"");
}

#[test]
fn theme_modes() {
    for m in [ThemeMode::System, ThemeMode::Light, ThemeMode::Dark] {
        assert_eq!(theme_mode_from_index(theme_mode_index(m)), m);
    }
    assert_eq!(theme_mode_index(ThemeMode::System), 0);
    assert_eq!(theme_mode_index(ThemeMode::Light), 1);
    assert_eq!(theme_mode_index(ThemeMode::Dark), 2);
    assert_eq!(theme_mode_from_index(7), ThemeMode::Dark);
    assert_eq!(theme_mode_from_index(-1), ThemeMode::Dark);
}

#[test]
fn hex_colors() {
    assert_eq!(hex_to_color("#58a6ff"), Some(Rgb { r: 0x58, g: 0xa6, b: 0xff }));
    assert_eq!(hex_to_color("58A6FF"), Some(Rgb { r: 0x58, g: 0xa6, b: 0xff }));
    assert_eq!(hex_to_color("##000000"), Some(Rgb { r: 0, g: 0, b: 0 }));
    assert_eq!(hex_to_color("+f+f+f"), Some(Rgb { r: 15, g: 15, b: 15 }));
    assert_eq!(hex_to_color("#fff"), None);
    assert_eq!(hex_to_color("#gg0000"), None);
    assert_eq!(hex_to_color("#-10000"), None);
    assert_eq!(hex_to_color("ééé"), None);
    assert!(!hex_color_panics("ééé"));
    assert!(hex_color_panics("aébcd"));
    assert!(hex_color_panics("ffaéb"));
    assert!(!hex_color_panics("ffaébc"));
    assert!(!hex_color_panics("gaébc"));
    assert!(!hex_color_panics("#58a6ff"));
}

/// The color the window parsed, with the same slicing as before.
fn reference_hex(hex: &str) -> Option<(u8, u8, u8)> {
    let hex = hex.trim_start_matches('#');
    if hex.len() == 6 {
        let r = u8::from_str_radix(&hex[0..2], 16).ok()?;
        let g = u8::from_str_radix(&hex[2..4], 16).ok()?;
        let b = u8::from_str_radix(&hex[4..6], 16).ok()?;
        Some((r, g, b))
    } else {
        None
    }
}

#[test]
fn hex_colors_agree_with_from_str_radix() {
    let samples = ["#123456", "abcdef", "ABCDEF", "+1+2+3", "++1234", "#12345", "1234567", "é1234", "ééé", "1234é", "#ffffff", "#+0+0+0", "0x1234", " 12345", "-11234"];
    for s in samples {
        assert!(!hex_color_panics(s), "{}", s);
        assert_eq!(hex_to_color(s).map(|c| (c.r, c.g, c.b)), reference_hex(s), "{}", s);
    }
}

#[test]
fn theme_updates_skip_bad_and_selected() {
    let mut colors = ThemeColors::default();
    colors.bg_window = Some("#010203".to_string());
    colors.bg_selected = Some("#ffffff".to_string());
    colors.border = Some("nope".to_string());
    colors.shadow_inspector = Some("0a0b0c".to_string());
    let updates = theme_color_updates(&colors);
    assert_eq!(updates, vec![
        (ColorToken::BgWindow, Rgb { r: 1, g: 2, b: 3 }),
        (ColorToken::ShadowInspector, Rgb { r: 10, g: 11, b: 12 }),
    ]);
}

#[test]
fn colors_for_modes() {
    let mut theme = default_config().theme;
    theme.light_colors.bg_window = Some("light".to_string());
    theme.dark_colors.bg_window = Some("dark".to_string());
    assert_eq!(pick_theme_colors(&theme, false).bg_window.as_deref(), Some("light"));
    assert_eq!(pick_theme_colors(&theme, true).bg_window.as_deref(), Some("dark"));
    theme.mode = ThemeMode::Dark;
    assert_eq!(pick_theme_colors(&theme, false).bg_window.as_deref(), Some("dark"));
    theme.mode = ThemeMode::Light;
    assert_eq!(pick_theme_colors(&theme, true).bg_window.as_deref(), Some("light"));
}

fn form() -> SettingsForm {
    SettingsForm {
        show_hidden: true,
        confirm_delete: false,
        page_size: 50,
        theme_mode: 2,
        accent_color: "#ff0000".to_string(),
        markdown_preview: false,
        pdf_preview: true,
        docx_preview: true,
        pptx_preview: false,
        show_devices: false,
        show_bookmarks: true,
        image_viewer: "feh".to_string(),
        video_viewer: "mpv".to_string(),
        pdf_viewer: "evince".to_string(),
    }
}

#[test]
fn settings_become_config() {
    let mut previous = default_config();
    previous.sidebar.favorites = vec!["/fav".to_string()];
    previous.ui.window_width = Some(800);
    previous.theme.dark_colors.border = Some("#000000".to_string());
    let c = config_from_settings(&form(), &previous, Some((300, true)));
    assert!(c.general.show_hidden);
    assert!(!c.general.confirm_delete);
    assert_eq!(c.general.page_size, 50);
    assert_eq!(c.theme.mode, ThemeMode::Dark);
    assert_eq!(c.theme.accent_color, "#ff0000");
    assert_eq!(c.theme.dark_colors, previous.theme.dark_colors);
    assert_eq!(c.tools.enabled, vec!["pdf".to_string(), "docx".to_string()]);
    assert_eq!(c.sidebar.favorites, vec!["/fav".to_string()]);
    assert!(!c.sidebar.show_devices);
    assert_eq!(c.ui.window_width, Some(800));
    assert_eq!(c.ui.sidebar_width, 300);
    assert!(c.ui.sidebar_collapsed);
    assert_eq!(c.viewers.pdf_viewer, "evince");
    let d = config_from_settings(&form(), &previous, None);
    assert_eq!(d.ui.sidebar_width, 220);
    assert!(!d.ui.sidebar_collapsed);
    assert_eq!(enabled_tools(true, true, true, true), vec!["markdown", "pdf", "docx", "pptx"]);
    assert!(enabled_tools(false, false, false, false).is_empty());
}

#[test]
fn sidebar_items() {
    let items = default_sidebar_items_for("/home/me");
    let names: Vec<&str> = items.iter().map(|i| i.name.as_str()).collect();
    assert_eq!(names, vec!["Home", "Desktop", "Documents", "Downloads", "Pictures", "Music", "Videos", "Root"]);
    assert_eq!(items[0].path, "/home/me");
    assert_eq!(items[1].path, "/home/me/Desktop");
    assert_eq!(items[7].path, "/");
    assert_eq!(items[7].section, "devices");
    let without_devices = visible_sidebar_items(items.clone(), false, true);
    assert_eq!(without_devices.len(), 7);
    assert!(without_devices.iter().all(|i| i.section != "devices"));
    let all = visible_sidebar_items(items.clone(), true, false);
    assert_eq!(all, items);
}

#[test]
fn entry_views() {
    let e = FileEntry {
        name: "a.rs".to_string(),
        path: "/x/a.rs".to_string(),
        is_dir: false,
        size: 2048,
        modified: Some(FileTime { secs: 0, nanos: 0 }),
    };
    let v = to_entry_view(&e, true);
    assert_eq!(v.name, "a.rs");
    assert_eq!(v.size, "2.0 KB");
    assert_eq!(v.modified, "1970-01-01 00:00");
    assert_eq!(v.icon, "🦀");
    assert!(v.selected);
}

#[test]
fn settings_open_and_save_unchanged() {
    let mut c = default_config();
    c.general.page_size = 250;
    c.theme.mode = ThemeMode::Light;
    c.ui.sidebar_width = 260;
    c.sidebar.favorites = vec!["/work".to_string()];
    let f = settings_form_from(&c);
    assert_eq!(f.page_size, 250);
    assert_eq!(f.theme_mode, 1);
    let saved = config_from_settings(&f, &c, Some((c.ui.sidebar_width, c.ui.sidebar_collapsed)));
    assert_eq!(saved, c);
}

fn file(name: &str, is_dir: bool) -> FileEntry {
    FileEntry { name: name.to_string(), path: format!("/d/{}", name), is_dir, size: 1, modified: None }
}

#[test]
fn listing_a_directory_updates_the_window() {
    let mut nav = NavState::new("/home".to_string());
    let mut cache = vec![file("old", false)];
    let mut selection = vec![0usize, 2];
    let mut anchor = Some(2usize);
    let listing = vec![file("b", false), file(".h", false), file("a", true)];
    let status = directory_listed(&mut nav, &mut cache, &mut selection, &mut anchor, "/d".to_string(),
        Ok(listing.clone()), false);
    assert_eq!(status, None);
    assert_eq!(nav.current(), "/d");
    assert!(nav.can_go_back());
    let names: Vec<&str> = cache.iter().map(|e| e.name.as_str()).collect();
    assert_eq!(names, vec!["a", "b"]);
    assert!(selection.is_empty());
    assert_eq!(anchor, None);
    let status = directory_listed(&mut nav, &mut cache, &mut selection, &mut anchor, "/e".to_string(),
        Ok(listing), true);
    assert_eq!(status, None);
    assert_eq!(cache.len(), 3);
    selection.push(1);
    let before = cache.clone();
    let status = directory_listed(&mut nav, &mut cache, &mut selection, &mut anchor, "/x".to_string(),
        Err("Not a directory: /x".to_string()), false);
    assert_eq!(status, Some("Error: Not a directory: /x".to_string()));
    assert_eq!(nav.current(), "/e");
    assert_eq!(cache, before);
    assert_eq!(selection, vec![1]);
}

#[test]
fn search_text_changes() {
    let cache = vec![file("a", true), file("b", false)];
    let v = search_text_changed("", &cache, Ok(vec![]));
    assert_eq!(v.status, "");
    let files = v.files.unwrap();
    assert_eq!(files.len(), 2);
    assert!(files.iter().all(|f| !f.selected));
    assert_eq!(files[0].name, "a");
    let v = search_text_changed("b", &cache, Ok(vec![file("b", false)]));
    assert_eq!(v.status, "1 result for \"b\"");
    assert_eq!(v.files.unwrap()[0].name, "b");
    let v = search_text_changed("q", &cache, Err("denied".to_string()));
    assert_eq!(v.files, None);
    assert_eq!(v.status, "Search error: denied");
}

#[test]
fn saving_settings() {
    let mut current = default_config();
    let new_cfg = config_from_settings(&form(), &current, Some((240, false)));
    let out = settings_saved(Err("disk full".to_string()), new_cfg.clone(), &mut current, "/home/me");
    assert_eq!(out.status, "Error saving config: disk full");
    assert!(!out.close_dialog);
    assert_eq!(out.relist_show_hidden, None);
    assert_eq!(current, default_config());
    let out = settings_saved(Ok(()), new_cfg.clone(), &mut current, "/home/me");
    assert_eq!(out.status, "Settings saved!");
    assert!(out.close_dialog);
    assert_eq!(out.relist_show_hidden, Some(true));
    assert_eq!(out.theme_mode, Some(2));
    assert_eq!(current, new_cfg);
    let sidebar = out.sidebar.unwrap();
    assert_eq!(sidebar.len(), 7);
    assert!(sidebar.iter().all(|i| i.section != "devices"));
}

#[test]
fn applying_theme_colors_twice_is_applying_once() {
    let mut colors = ThemeColors::default();
    colors.bg_window = Some("#010203".to_string());
    colors.border = Some("#040506".to_string());
    let updates = theme_color_updates(&colors);
    type Tokens = Vec<((ColorToken, bool), Rgb)>;
    fn set(tokens: &mut Tokens, key: (ColorToken, bool), c: Rgb) {
        match tokens.iter_mut().find(|(k, _)| *k == key) {
            Some(entry) => entry.1 = c,
            None => tokens.push((key, c)),
        }
    }
    let apply = |tokens: &mut Tokens| {
        for (t, c) in &updates {
            set(tokens, (*t, false), *c);
            set(tokens, (*t, true), *c);
        }
    };
    let mut once: Tokens = vec![((ColorToken::BgWindow, true), Rgb { r: 9, g: 9, b: 9 })];
    apply(&mut once);
    let mut twice = once.clone();
    apply(&mut twice);
    assert_eq!(once, twice);
    assert_eq!(once[0], ((ColorToken::BgWindow, true), Rgb { r: 1, g: 2, b: 3 }));
}

#[test]
fn back_then_forward_keeps_the_forward_path() {
    let mut nav = NavState::new("/h".to_string());
    let mut cache = Vec::new();
    let mut selection: Vec<usize> = Vec::new();
    let mut anchor = None;
    let home_listing = vec![file("x", false)];
    let a_listing = vec![file("b", false), file("a", false)];
    let status = directory_listed(&mut nav, &mut cache, &mut selection, &mut anchor, "/a".to_string(),
        Ok(a_listing.clone()), false);
    assert_eq!(status, None);
    assert_eq!(nav.current(), "/a");
    assert_eq!(nav.forward_target(), None);
    assert_eq!(nav.back_target(), Some("/h".to_string()));

    selection.push(0);
    anchor = Some(0);
    let status = history_stepped(&mut nav, &mut cache, &mut selection, &mut anchor, false,
        Ok(home_listing), false);
    assert_eq!(status, None);
    assert_eq!(nav.current(), "/h");
    assert!(nav.can_go_forward());
    assert_eq!(nav.forward_target(), Some("/a".to_string()));
    let names: Vec<&str> = cache.iter().map(|e| e.name.as_str()).collect();
    assert_eq!(names, vec!["x"]);
    assert!(selection.is_empty());
    assert_eq!(anchor, None);

    let status = history_stepped(&mut nav, &mut cache, &mut selection, &mut anchor, true,
        Ok(a_listing), false);
    assert_eq!(status, None);
    assert_eq!(nav.current(), "/a");
    assert!(nav.can_go_back());
    let names: Vec<&str> = cache.iter().map(|e| e.name.as_str()).collect();
    assert_eq!(names, vec!["a", "b"]);
}

#[test]
fn history_step_that_cannot_be_made_or_fails() {
    let mut nav = NavState::new("/h".to_string());
    let mut cache = vec![file("x", false)];
    let mut selection = vec![0usize];
    let mut anchor = Some(0usize);
    let status = history_stepped(&mut nav, &mut cache, &mut selection, &mut anchor, false,
        Ok(vec![file("y", false)]), false);
    assert_eq!(status, None);
    assert_eq!(nav.current(), "/h");
    assert_eq!(cache.len(), 1);
    assert_eq!(cache[0].name, "x");
    assert_eq!(selection, vec![0]);
    nav.navigate("/a".to_string());
    let status = history_stepped(&mut nav, &mut cache, &mut selection, &mut anchor, false,
        Err("Permission denied".to_string()), false);
    assert_eq!(status, Some("Error: Permission denied".to_string()));
    assert_eq!(nav.current(), "/a");
    assert_eq!(cache[0].name, "x");
    assert_eq!(anchor, Some(0));
}
