use felix::config::{
    config_dir, config_dir_from, config_path, config_path_from, default_accent_string, default_config,
    default_image_viewer, default_page_size, default_pdf_viewer, default_sidebar_width, default_theme_mode,
    default_true, default_video_viewer, init_action, theme_json_path, theme_toml_path, toml_config_path, BrandColors,
    InitAction, ThemeColors, ThemeFileColors, ThemeMode, UiConfig, ViewerConfig,
};

#[test]
fn default_config_values() {
    let c = default_config();
    assert!(!c.general.show_hidden);
    assert!(c.general.confirm_delete);
    assert_eq!(c.general.page_size, 100);
    assert_eq!(c.theme.mode, ThemeMode::System);
    assert_eq!(c.theme.accent_color, "#58a6ff");
    assert_eq!(c.theme.light_colors, ThemeColors::default());
    assert_eq!(c.tools.enabled, vec!["markdown".to_string(), "pdf".to_string()]);
    assert!(c.tools.markdown_preview && c.tools.pdf_preview);
    assert!(!c.tools.docx_preview && !c.tools.pptx_preview);
    assert!(c.sidebar.favorites.is_empty());
    assert!(c.sidebar.show_devices && c.sidebar.show_bookmarks);
    assert_eq!(c.ui.sidebar_width, 0);
    assert_eq!(c.ui.default_path, None);
    assert_eq!(c.viewers.image_viewer, "zathura");
    assert_eq!(c.viewers.video_viewer, "zathura");
    assert_eq!(c.viewers.pdf_viewer, "zathura");
}

#[test]
fn field_defaults() {
    assert!(default_true());
    assert_eq!(default_page_size(), 100);
    assert_eq!(default_theme_mode(), ThemeMode::System);
    assert_eq!(default_accent_string(), "#58a6ff");
    assert_eq!(default_sidebar_width(), 220);
    assert_eq!(default_image_viewer(), "zathura");
    assert_eq!(default_video_viewer(), "zathura");
    assert_eq!(default_pdf_viewer(), "zathura");
    let v = ViewerConfig::default();
    assert_eq!(v.pdf_viewer, "zathura");
    let ui = UiConfig::default();
    assert_eq!(ui.sidebar_width, 0);
    assert!(!ui.sidebar_collapsed);
    assert_eq!(ThemeFileColors::default().shadow, None);
    assert_eq!(BrandColors::default().primary, None);
}

#[test]
fn config_locations() {
    assert_eq!(config_dir_from(Some("/home/me/.config".to_string())), "/home/me/.config/felix");
    assert_eq!(config_dir_from(None), "~/.config/felix");
    assert_eq!(config_path_from(Some("/cfg/".to_string())), "/cfg/felix.config.yml");
    assert_eq!(config_path_from(None), "~/.config/felix.config.yml");
    assert!(config_dir().ends_with("/felix"));
    assert!(theme_toml_path().ends_with("/felix/theme.toml"));
    assert!(theme_json_path().ends_with("/felix/theme.json"));
    assert!(toml_config_path().ends_with("/felix/config.toml"));
    assert!(config_path().ends_with("/felix.config.yml"));
}

#[test]
fn config_paths_lie_under_a_directory() {
    let dir = config_dir();
    assert!(dir.len() > "/felix".len());
    assert_eq!(config_path().len() > "/felix.config.yml".len(), true);
    assert_eq!(theme_toml_path(), format!("{}/theme.toml", dir));
    assert_eq!(theme_json_path(), format!("{}/theme.json", dir));
    assert_eq!(toml_config_path(), format!("{}/config.toml", dir));
    let base = &dir[..dir.len() - "/felix".len()];
    assert_eq!(config_path(), format!("{}/felix.config.yml", base));
}

#[test]
fn startup_reads_or_writes_the_configuration() {
    assert_eq!(init_action(true, true), InitAction::Load);
    assert_eq!(init_action(true, false), InitAction::Load);
    assert_eq!(init_action(false, true), InitAction::CreateDefault);
    assert_eq!(init_action(false, false), InitAction::UseDefault);
}
