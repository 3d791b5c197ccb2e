//! The configuration: its shape, its defaults and where its files live.

use vstd::prelude::*;
use crate::path::{path_join, join};

verus! {

/// The whole configuration.
#[derive(Debug, Clone, PartialEq, Eq)]
pub struct Config {
    pub general: GeneralConfig,
    pub theme: ThemeConfig,
    pub tools: ToolsConfig,
    pub sidebar: SidebarConfig,
    pub ui: UiConfig,
    pub viewers: ViewerConfig,
}

/// General behaviour.
#[derive(Debug, Clone, PartialEq, Eq)]
pub struct GeneralConfig {
    pub show_hidden: bool,
    pub confirm_delete: bool,
    pub page_size: usize,
}

/// The value a missing flag takes.
pub fn default_true() -> (r: bool)
    ensures
        r,
{
    true
}

/// The page size a configuration without one takes.
pub fn default_page_size() -> (r: usize)
    ensures
        r == 100,
{
    100
}

/// Theme settings.
#[derive(Debug, Clone, PartialEq, Eq)]
pub struct ThemeConfig {
    pub mode: ThemeMode,
    pub accent_color: String,
    pub light_colors: ThemeColors,
    pub dark_colors: ThemeColors,
}

/// Colors that override the theme's own, each optional.
#[derive(Debug, Clone, PartialEq, Eq)]
pub struct ThemeColors {
    pub bg_window: Option<String>,
    pub bg_surface: Option<String>,
    pub bg_sidebar: Option<String>,
    pub bg_toolbar: Option<String>,
    pub bg_header: Option<String>,
    pub bg_status: Option<String>,
    pub bg_row_alt: Option<String>,
    pub bg_hover: Option<String>,
    pub bg_selected: Option<String>,
    pub bg_input: Option<String>,
    pub text_primary: Option<String>,
    pub text_secondary: Option<String>,
    pub text_tertiary: Option<String>,
    pub border: Option<String>,
    pub border_subtle: Option<String>,
    pub bg_tab_active: Option<String>,
    pub bg_tab_inactive: Option<String>,
    pub text_tab_active: Option<String>,
    pub text_tab_inactive: Option<String>,
    pub border_column: Option<String>,
    pub bg_column_active: Option<String>,
    pub bg_column_inactive: Option<String>,
    pub bg_inspector: Option<String>,
    pub border_inspector: Option<String>,
    pub shadow_inspector: Option<String>,
}

impl ThemeColors {
    /// Whether no color is set.
    pub open spec fn is_unset(&self) -> bool {
        &&& self.bg_window is None
        &&& self.bg_surface is None
        &&& self.bg_sidebar is None
        &&& self.bg_toolbar is None
        &&& self.bg_header is None
        &&& self.bg_status is None
        &&& self.bg_row_alt is None
        &&& self.bg_hover is None
        &&& self.bg_selected is None
        &&& self.bg_input is None
        &&& self.text_primary is None
        &&& self.text_secondary is None
        &&& self.text_tertiary is None
        &&& self.border is None
        &&& self.border_subtle is None
        &&& self.bg_tab_active is None
        &&& self.bg_tab_inactive is None
        &&& self.text_tab_active is None
        &&& self.text_tab_inactive is None
        &&& self.border_column is None
        &&& self.bg_column_active is None
        &&& self.bg_column_inactive is None
        &&& self.bg_inspector is None
        &&& self.border_inspector is None
        &&& self.shadow_inspector is None
    }
}

impl ThemeColors {
    /// A copy of the colors.
    pub fn duplicate(&self) -> (r: ThemeColors)
        ensures
            r == *self,
    {
        ThemeColors {
            bg_window: clone_opt(&self.bg_window),
            bg_surface: clone_opt(&self.bg_surface),
            bg_sidebar: clone_opt(&self.bg_sidebar),
            bg_toolbar: clone_opt(&self.bg_toolbar),
            bg_header: clone_opt(&self.bg_header),
            bg_status: clone_opt(&self.bg_status),
            bg_row_alt: clone_opt(&self.bg_row_alt),
            bg_hover: clone_opt(&self.bg_hover),
            bg_selected: clone_opt(&self.bg_selected),
            bg_input: clone_opt(&self.bg_input),
            text_primary: clone_opt(&self.text_primary),
            text_secondary: clone_opt(&self.text_secondary),
            text_tertiary: clone_opt(&self.text_tertiary),
            border: clone_opt(&self.border),
            border_subtle: clone_opt(&self.border_subtle),
            bg_tab_active: clone_opt(&self.bg_tab_active),
            bg_tab_inactive: clone_opt(&self.bg_tab_inactive),
            text_tab_active: clone_opt(&self.text_tab_active),
            text_tab_inactive: clone_opt(&self.text_tab_inactive),
            border_column: clone_opt(&self.border_column),
            bg_column_active: clone_opt(&self.bg_column_active),
            bg_column_inactive: clone_opt(&self.bg_column_inactive),
            bg_inspector: clone_opt(&self.bg_inspector),
            border_inspector: clone_opt(&self.border_inspector),
            shadow_inspector: clone_opt(&self.shadow_inspector),
        }
    }
}

/// A copy of an optional string.
pub fn clone_opt(o: &Option<String>) -> (r: Option<String>)
    ensures
        r == *o,
{
    match o {
        Some(s) => Some(s.clone()),
        None => None,
    }
}

/// A copy of a list of strings.
pub fn clone_strings(v: &Vec<String>) -> (r: Vec<String>)
    ensures
        r@ == v@,
{
    let mut r: Vec<String> = Vec::new();
    let mut i: usize = 0;
    while i < v.len()
        invariant
            i <= v@.len(),
            r@ == v@.take(i as int),
        decreases v@.len() - i,
    {
        r.push(v[i].clone());
        i = i + 1;
        assert(r@ =~= v@.take(i as int));
    }
    assert(v@.take(v@.len() as int) =~= v@);
    r
}

impl Default for ThemeColors {
    fn default() -> (r: Self)
        ensures
            r.is_unset(),
    {
        ThemeColors {
            bg_window: None,
            bg_surface: None,
            bg_sidebar: None,
            bg_toolbar: None,
            bg_header: None,
            bg_status: None,
            bg_row_alt: None,
            bg_hover: None,
            bg_selected: None,
            bg_input: None,
            text_primary: None,
            text_secondary: None,
            text_tertiary: None,
            border: None,
            border_subtle: None,
            bg_tab_active: None,
            bg_tab_inactive: None,
            text_tab_active: None,
            text_tab_inactive: None,
            border_column: None,
            bg_column_active: None,
            bg_column_inactive: None,
            bg_inspector: None,
            border_inspector: None,
            shadow_inspector: None,
        }
    }
}

/// The theme mode a configuration without one takes.
pub fn default_theme_mode() -> (r: ThemeMode)
    ensures
        r == ThemeMode::System,
{
    ThemeMode::System
}

/// The accent color a configuration without one takes.
pub fn default_accent_string() -> (r: String)
    ensures
        r@ == "#58a6ff"@,
{
    String::from_str("#58a6ff")
}

/// Light, dark, or as the system is set.
#[derive(Debug, Clone, Copy, PartialEq, Eq, Structural)]
pub enum ThemeMode {
    Light,
    Dark,
    System,
}

/// Which document tools are on.
#[derive(Debug, Clone, PartialEq, Eq)]
pub struct ToolsConfig {
    pub enabled: Vec<String>,
    pub markdown_preview: bool,
    pub pdf_preview: bool,
    pub docx_preview: bool,
    pub pptx_preview: bool,
}

/// What the sidebar shows.
#[derive(Debug, Clone, PartialEq, Eq)]
pub struct SidebarConfig {
    pub favorites: Vec<String>,
    pub show_devices: bool,
    pub show_bookmarks: bool,
}

/// Window geometry and sidebar state.
#[derive(Debug, Clone, PartialEq, Eq)]
pub struct UiConfig {
    pub default_path: Option<String>,
    pub window_width: Option<u32>,
    pub window_height: Option<u32>,
    pub sidebar_width: u32,
    pub sidebar_collapsed: bool,
}

impl Default for UiConfig {
    /// Every field empty, zero or off (a whole missing `ui` section).
    fn default() -> (r: Self)
        ensures
            r.default_path is None,
            r.window_width is None,
            r.window_height is None,
            r.sidebar_width == 0,
            !r.sidebar_collapsed,
    {
        UiConfig {
            default_path: None,
            window_width: None,
            window_height: None,
            sidebar_width: 0,
            sidebar_collapsed: false,
        }
    }
}

/// The sidebar width a `ui` section without one takes.
pub fn default_sidebar_width() -> (r: u32)
    ensures
        r == 220,
{
    220
}

/// The external programs that open images, videos and PDFs.
#[derive(Debug, Clone, PartialEq, Eq)]
pub struct ViewerConfig {
    pub image_viewer: String,
    pub video_viewer: String,
    pub pdf_viewer: String,
}

/// The image viewer a configuration without one takes.
pub fn default_image_viewer() -> (r: String)
    ensures
        r@ == "zathura"@,
{
    String::from_str("zathura")
}

/// The video viewer a configuration without one takes.
pub fn default_video_viewer() -> (r: String)
    ensures
        r@ == "zathura"@,
{
    String::from_str("zathura")
}

/// The PDF viewer a configuration without one takes.
pub fn default_pdf_viewer() -> (r: String)
    ensures
        r@ == "zathura"@,
{
    String::from_str("zathura")
}

impl Default for ViewerConfig {
    fn default() -> (r: Self)
        ensures
            r.image_viewer@ == "zathura"@,
            r.video_viewer@ == "zathura"@,
            r.pdf_viewer@ == "zathura"@,
    {
        ViewerConfig {
            image_viewer: default_image_viewer(),
            video_viewer: default_video_viewer(),
            pdf_viewer: default_pdf_viewer(),
        }
    }
}

/// The colors of one side (light or dark) of a theme file.
#[derive(Debug, Clone, PartialEq, Eq)]
pub struct ThemeFileColors {
    pub bg_window: Option<String>,
    pub bg_surface: Option<String>,
    pub bg_sidebar: Option<String>,
    pub bg_toolbar: Option<String>,
    pub bg_header: Option<String>,
    pub bg_status: Option<String>,
    pub bg_row_alt: Option<String>,
    pub bg_hover: Option<String>,
    pub bg_selected: Option<String>,
    pub bg_input: Option<String>,
    pub text_primary: Option<String>,
    pub text_secondary: Option<String>,
    pub text_tertiary: Option<String>,
    pub text_on_primary: Option<String>,
    pub border: Option<String>,
    pub border_subtle: Option<String>,
    pub shadow: Option<String>,
    pub bg_tab_active: Option<String>,
    pub bg_tab_inactive: Option<String>,
    pub text_tab_active: Option<String>,
    pub text_tab_inactive: Option<String>,
    pub border_column: Option<String>,
    pub bg_column_active: Option<String>,
    pub bg_column_inactive: Option<String>,
    pub bg_inspector: Option<String>,
    pub border_inspector: Option<String>,
    pub shadow_inspector: Option<String>,
}

impl ThemeFileColors {
    /// Whether no color is set.
    pub open spec fn is_unset(&self) -> bool {
        &&& self.bg_window is None
        &&& self.bg_surface is None
        &&& self.bg_sidebar is None
        &&& self.bg_toolbar is None
        &&& self.bg_header is None
        &&& self.bg_status is None
        &&& self.bg_row_alt is None
        &&& self.bg_hover is None
        &&& self.bg_selected is None
        &&& self.bg_input is None
        &&& self.text_primary is None
        &&& self.text_secondary is None
        &&& self.text_tertiary is None
        &&& self.text_on_primary is None
        &&& self.border is None
        &&& self.border_subtle is None
        &&& self.shadow is None
        &&& self.bg_tab_active is None
        &&& self.bg_tab_inactive is None
        &&& self.text_tab_active is None
        &&& self.text_tab_inactive is None
        &&& self.border_column is None
        &&& self.bg_column_active is None
        &&& self.bg_column_inactive is None
        &&& self.bg_inspector is None
        &&& self.border_inspector is None
        &&& self.shadow_inspector is None
    }
}

impl Default for ThemeFileColors {
    fn default() -> (r: Self)
        ensures
            r.is_unset(),
    {
        ThemeFileColors {
            bg_window: None,
            bg_surface: None,
            bg_sidebar: None,
            bg_toolbar: None,
            bg_header: None,
            bg_status: None,
            bg_row_alt: None,
            bg_hover: None,
            bg_selected: None,
            bg_input: None,
            text_primary: None,
            text_secondary: None,
            text_tertiary: None,
            text_on_primary: None,
            border: None,
            border_subtle: None,
            shadow: None,
            bg_tab_active: None,
            bg_tab_inactive: None,
            text_tab_active: None,
            text_tab_inactive: None,
            border_column: None,
            bg_column_active: None,
            bg_column_inactive: None,
            bg_inspector: None,
            border_inspector: None,
            shadow_inspector: None,
        }
    }
}

/// The brand colors of a theme file.
#[derive(Debug, Clone, PartialEq, Eq)]
pub struct BrandColors {
    pub primary: Option<String>,
    pub secondary: Option<String>,
    pub accent: Option<String>,
    pub primary_soft: Option<String>,
    pub primary_hover: Option<String>,
}

impl BrandColors {
    /// Whether no color is set.
    pub open spec fn is_unset(&self) -> bool {
        &&& self.primary is None
        &&& self.secondary is None
        &&& self.accent is None
        &&& self.primary_soft is None
        &&& self.primary_hover is None
    }
}

impl Default for BrandColors {
    fn default() -> (r: Self)
        ensures
            r.is_unset(),
    {
        BrandColors {
            primary: None,
            secondary: None,
            accent: None,
            primary_soft: None,
            primary_hover: None,
        }
    }
}

/// Whether `c` is the configuration written on first launch.
pub open spec fn is_default_config(c: Config) -> bool {
    &&& !c.general.show_hidden
    &&& c.general.confirm_delete
    &&& c.general.page_size == 100
    &&& c.theme.mode == ThemeMode::System
    &&& c.theme.accent_color@ == "#58a6ff"@
    &&& c.theme.light_colors.is_unset()
    &&& c.theme.dark_colors.is_unset()
    &&& c.tools.enabled@.map_values(|s: String| s@) == seq!["markdown"@, "pdf"@]
    &&& c.tools.markdown_preview
    &&& c.tools.pdf_preview
    &&& !c.tools.docx_preview
    &&& !c.tools.pptx_preview
    &&& c.sidebar.favorites@.len() == 0
    &&& c.sidebar.show_devices
    &&& c.sidebar.show_bookmarks
    &&& c.ui.default_path is None
    &&& c.ui.window_width is None
    &&& c.ui.window_height is None
    &&& c.ui.sidebar_width == 0
    &&& !c.ui.sidebar_collapsed
    &&& c.viewers.image_viewer@ == "zathura"@
    &&& c.viewers.video_viewer@ == "zathura"@
    &&& c.viewers.pdf_viewer@ == "zathura"@
}

/// The configuration written on first launch.
pub fn default_config() -> (r: Config)
    ensures
        is_default_config(r),
{
    let mut enabled: Vec<String> = Vec::new();
    enabled.push(String::from_str("markdown"));
    enabled.push(String::from_str("pdf"));
    let r = Config {
        general: GeneralConfig { show_hidden: false, confirm_delete: true, page_size: 100 },
        theme: ThemeConfig {
            mode: ThemeMode::System,
            accent_color: String::from_str("#58a6ff"),
            light_colors: ThemeColors::default(),
            dark_colors: ThemeColors::default(),
        },
        tools: ToolsConfig {
            enabled,
            markdown_preview: true,
            pdf_preview: true,
            docx_preview: false,
            pptx_preview: false,
        },
        sidebar: SidebarConfig { favorites: Vec::new(), show_devices: true, show_bookmarks: true },
        ui: UiConfig::default(),
        viewers: ViewerConfig::default(),
    };
    assert(r.tools.enabled@.map_values(|s: String| s@) =~= seq!["markdown"@, "pdf"@]);
    r
}

/// Where the configuration comes from at startup.
#[derive(Debug, Clone, Copy, PartialEq, Eq, Structural)]
pub enum InitAction {
    /// The file is read.
    Load,
    /// The defaults are used and nothing is written.
    UseDefault,
    /// The defaults are used and written to the file.
    CreateDefault,
}

/// Where the configuration comes from: the file when it exists; else the
/// defaults, which are written to the file when `create` is set (first
/// launch) and only used otherwise.
pub fn init_action(exists: bool, create: bool) -> (r: InitAction)
    ensures
        r == (if exists {
            InitAction::Load
        } else if create {
            InitAction::CreateDefault
        } else {
            InitAction::UseDefault
        }),
{
    if exists {
        InitAction::Load
    } else if create {
        InitAction::CreateDefault
    } else {
        InitAction::UseDefault
    }
}

/// Calls `dirs::config_dir`, which reads the environment, and gives the
/// path as a (lossily converted) string.  On Unix it is `$XDG_CONFIG_HOME`
/// when that is an absolute path (an empty one is not), and else the home
/// directory, which is never empty, joined with `.config`; so a directory
/// it reports is never empty.  Which directory that is depends on the
/// environment and is not claimed.
#[verifier::external_body]
fn dirs_config_dir() -> (r: Option<String>)
    ensures
        dir_reported(crate::path::opt_view(r)),
{
    dirs::config_dir().map(|p| p.to_string_lossy().into_owned())
}

/// What can be reported as the user's config directory: nothing, or a
/// non-empty path.
pub open spec fn dir_reported(user_dir: Option<Seq<char>>) -> bool {
    match user_dir {
        Some(d) => d.len() > 0,
        None => true,
    }
}

/// The directory that holds the configuration files: the user's config
/// directory, or `~/.config` when it is unknown.
pub open spec fn config_base(user_dir: Option<Seq<char>>) -> Seq<char> {
    match user_dir {
        Some(d) => d,
        None => "~/.config"@,
    }
}

fn base_of(user_dir: Option<String>) -> (r: String)
    ensures
        r@ == config_base(crate::path::opt_view(user_dir)),
{
    match user_dir {
        Some(d) => d,
        None => String::from_str("~/.config"),
    }
}

/// The felix directory under the given user config directory.
pub fn config_dir_from(user_dir: Option<String>) -> (r: String)
    ensures
        r@ == path_join(config_base(crate::path::opt_view(user_dir)), "felix"@),
{
    let base = base_of(user_dir);
    join(base.as_str(), "felix")
}

/// The felix directory under the user's config directory, or under
/// `~/.config` when that is unknown.
pub fn config_dir() -> (r: String)
    ensures
        exists|u: Option<Seq<char>>|
            dir_reported(u) && r@ == path_join(config_base(u), "felix"@),
{
    let u = dirs_config_dir();
    let ghost gu = crate::path::opt_view(u);
    let r = config_dir_from(u);
    assert(dir_reported(gu) && r@ == path_join(config_base(gu), "felix"@));
    r
}

/// A file of the felix config directory under the given user config
/// directory.
fn felix_file_from(user_dir: Option<String>, name: &str) -> (r: String)
    ensures
        r@ == path_join(path_join(config_base(crate::path::opt_view(user_dir)), "felix"@), name@),
{
    let dir = config_dir_from(user_dir);
    join(dir.as_str(), name)
}

/// Where a TOML theme is looked for.
pub fn theme_toml_path() -> (r: String)
    ensures
        exists|u: Option<Seq<char>>|
            dir_reported(u) && r@ == path_join(path_join(config_base(u), "felix"@), "theme.toml"@),
{
    let u = dirs_config_dir();
    let ghost gu = crate::path::opt_view(u);
    let r = felix_file_from(u, "theme.toml");
    assert(dir_reported(gu) && r@ == path_join(path_join(config_base(gu), "felix"@), "theme.toml"@));
    r
}

/// Where a JSON theme is looked for.
pub fn theme_json_path() -> (r: String)
    ensures
        exists|u: Option<Seq<char>>|
            dir_reported(u) && r@ == path_join(path_join(config_base(u), "felix"@), "theme.json"@),
{
    let u = dirs_config_dir();
    let ghost gu = crate::path::opt_view(u);
    let r = felix_file_from(u, "theme.json");
    assert(dir_reported(gu) && r@ == path_join(path_join(config_base(gu), "felix"@), "theme.json"@));
    r
}

/// Where a TOML configuration is looked for.
pub fn toml_config_path() -> (r: String)
    ensures
        exists|u: Option<Seq<char>>|
            dir_reported(u) && r@ == path_join(path_join(config_base(u), "felix"@), "config.toml"@),
{
    let u = dirs_config_dir();
    let ghost gu = crate::path::opt_view(u);
    let r = felix_file_from(u, "config.toml");
    assert(dir_reported(gu) && r@ == path_join(path_join(config_base(gu), "felix"@), "config.toml"@));
    r
}

/// The YAML configuration file under the given user config directory.
pub fn config_path_from(user_dir: Option<String>) -> (r: String)
    ensures
        r@ == path_join(config_base(crate::path::opt_view(user_dir)), "felix.config.yml"@),
{
    let base = base_of(user_dir);
    join(base.as_str(), "felix.config.yml")
}

/// The YAML configuration file: `felix.config.yml` in the user's config
/// directory, or in `~/.config` when that is unknown.
pub fn config_path() -> (r: String)
    ensures
        exists|u: Option<Seq<char>>|
            dir_reported(u) && r@ == path_join(config_base(u), "felix.config.yml"@),
{
    let u = dirs_config_dir();
    let ghost gu = crate::path::opt_view(u);
    let r = config_path_from(u);
    assert(dir_reported(gu) && r@ == path_join(config_base(gu), "felix.config.yml"@));
    r
}

} // verus!
