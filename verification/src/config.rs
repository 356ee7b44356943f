//! Persistent settings: theme, render mode, sidebar default and reader layout.
use std::str::FromStr;

use vstd::prelude::*;

use crate::text::{ascii_lower_char, all_ascii, lowercase, push_str, str_eq, string_from_chars, to_chars, to_lowercase};

verus! {

/// The render theme.
#[derive(Debug, Clone, Copy, PartialEq, Eq, Structural)]
pub enum Theme {
    System,
    Light,
    Dark,
}

/// The render mode to use when materializing output.
#[derive(Debug, Clone, Copy, PartialEq, Eq, Structural)]
pub enum RenderMode {
    Single,
    Recursive,
}

/// The default sidebar visibility when rendering recursive output.
#[derive(Debug, Clone, Copy, PartialEq, Eq, Structural)]
pub enum SidebarVisibility {
    Hidden,
    Visible,
}

/// The name under which a theme is written and parsed.
pub open spec fn theme_name(t: Theme) -> Seq<char> {
    match t {
        Theme::System => "system"@,
        Theme::Light => "light"@,
        Theme::Dark => "dark"@,
    }
}

/// The name under which a render mode is written and parsed.
pub open spec fn render_mode_name(m: RenderMode) -> Seq<char> {
    match m {
        RenderMode::Single => "single"@,
        RenderMode::Recursive => "recursive"@,
    }
}

/// The name under which a sidebar visibility is written and parsed.
pub open spec fn sidebar_name(v: SidebarVisibility) -> Seq<char> {
    match v {
        SidebarVisibility::Hidden => "hidden"@,
        SidebarVisibility::Visible => "visible"@,
    }
}

/// The theme named by the (already lowercased) text `s`, or the error
/// message naming `s`.
pub open spec fn theme_from_name(s: Seq<char>) -> Result<Theme, Seq<char>> {
    if s == "system"@ {
        Ok(Theme::System)
    } else if s == "light"@ {
        Ok(Theme::Light)
    } else if s == "dark"@ {
        Ok(Theme::Dark)
    } else {
        Err("invalid theme '"@ + s + "': expected 'system', 'light', or 'dark'"@)
    }
}

/// The render mode named by the (already lowercased) text `s`, or the error
/// message naming `s`.
pub open spec fn render_mode_from_name(s: Seq<char>) -> Result<RenderMode, Seq<char>> {
    if s == "single"@ {
        Ok(RenderMode::Single)
    } else if s == "recursive"@ {
        Ok(RenderMode::Recursive)
    } else {
        Err("invalid render mode '"@ + s + "': expected 'single' or 'recursive'"@)
    }
}

/// The sidebar visibility named by the (already lowercased) text `s`, or the
/// error message naming `s`.
pub open spec fn sidebar_from_name(s: Seq<char>) -> Result<SidebarVisibility, Seq<char>> {
    if s == "hidden"@ {
        Ok(SidebarVisibility::Hidden)
    } else if s == "visible"@ {
        Ok(SidebarVisibility::Visible)
    } else {
        Err("invalid sidebar visibility '"@ + s + "': expected 'hidden' or 'visible'"@)
    }
}

/// A result with its error message taken as text.
pub open spec fn result_view<T>(r: Result<T, String>) -> Result<T, Seq<char>> {
    match r {
        Ok(v) => Ok(v),
        Err(e) => Err(e@),
    }
}

/// `s` with each ASCII capital letter mapped to its small letter.
pub open spec fn ascii_lowercase(s: Seq<char>) -> Seq<char> {
    s.map_values(|c: char| ascii_lower_char(c))
}

/// Each theme's name is ASCII text that parses back to the theme.
pub proof fn lemma_theme_name_round_trip(t: Theme)
    ensures
        all_ascii(theme_name(t)),
        theme_from_name(ascii_lowercase(theme_name(t))) == Ok::<Theme, Seq<char>>(t),
{
    reveal_strlit("system");
    reveal_strlit("light");
    reveal_strlit("dark");
    assert(ascii_lowercase(theme_name(t)) =~= theme_name(t));
}

/// Each render mode's name is ASCII text that parses back to the mode.
pub proof fn lemma_render_mode_name_round_trip(m: RenderMode)
    ensures
        all_ascii(render_mode_name(m)),
        render_mode_from_name(ascii_lowercase(render_mode_name(m))) == Ok::<RenderMode, Seq<char>>(m),
{
    reveal_strlit("single");
    reveal_strlit("recursive");
    assert(ascii_lowercase(render_mode_name(m)) =~= render_mode_name(m));
}

/// Each sidebar visibility's name is ASCII text that parses back to it.
pub proof fn lemma_sidebar_name_round_trip(v: SidebarVisibility)
    ensures
        all_ascii(sidebar_name(v)),
        sidebar_from_name(ascii_lowercase(sidebar_name(v))) == Ok::<SidebarVisibility, Seq<char>>(v),
{
    reveal_strlit("hidden");
    reveal_strlit("visible");
    assert(ascii_lowercase(sidebar_name(v)) =~= sidebar_name(v));
}

fn message(prefix: &str, s: &str, suffix: &str) -> (r: String)
    ensures
        r@ == prefix@ + s@ + suffix@,
{
    let mut v = to_chars(prefix);
    push_str(&mut v, s);
    push_str(&mut v, suffix);
    string_from_chars(&v)
}

impl Theme {
    /// The theme's name: `system`, `light` or `dark`.
    pub fn name(&self) -> (r: &'static str)
        ensures
            r@ == theme_name(*self),
    {
        match self {
            Theme::System => "system",
            Theme::Light => "light",
            Theme::Dark => "dark",
        }
    }

    /// The theme named by `s`, which is taken as already lowercased.
    pub fn from_lowercase_name(s: &str) -> (r: Result<Theme, String>)
        ensures
            result_view(r) == theme_from_name(s@),
    {
        if str_eq(s, "system") {
            Ok(Theme::System)
        } else if str_eq(s, "light") {
            Ok(Theme::Light)
        } else if str_eq(s, "dark") {
            Ok(Theme::Dark)
        } else {
            Err(message("invalid theme '", s, "': expected 'system', 'light', or 'dark'"))
        }
    }

    /// The theme named by `s`, in any letter case.
    pub fn parse(s: &str) -> (r: Result<Theme, String>)
        ensures
            result_view(r) == theme_from_name(lowercase(s@)),
            all_ascii(s@) ==> result_view(r) == theme_from_name(ascii_lowercase(s@)),
    {
        let lower = to_lowercase(s);
        Theme::from_lowercase_name(lower.as_str())
    }
}

impl RenderMode {
    /// The render mode's name: `single` or `recursive`.
    pub fn name(&self) -> (r: &'static str)
        ensures
            r@ == render_mode_name(*self),
    {
        match self {
            RenderMode::Single => "single",
            RenderMode::Recursive => "recursive",
        }
    }

    /// The render mode named by `s`, which is taken as already lowercased.
    pub fn from_lowercase_name(s: &str) -> (r: Result<RenderMode, String>)
        ensures
            result_view(r) == render_mode_from_name(s@),
    {
        if str_eq(s, "single") {
            Ok(RenderMode::Single)
        } else if str_eq(s, "recursive") {
            Ok(RenderMode::Recursive)
        } else {
            Err(message("invalid render mode '", s, "': expected 'single' or 'recursive'"))
        }
    }

    /// The render mode named by `s`, in any letter case.
    pub fn parse(s: &str) -> (r: Result<RenderMode, String>)
        ensures
            result_view(r) == render_mode_from_name(lowercase(s@)),
            all_ascii(s@) ==> result_view(r) == render_mode_from_name(ascii_lowercase(s@)),
    {
        let lower = to_lowercase(s);
        RenderMode::from_lowercase_name(lower.as_str())
    }
}

impl SidebarVisibility {
    /// The visibility's name: `hidden` or `visible`.
    pub fn name(&self) -> (r: &'static str)
        ensures
            r@ == sidebar_name(*self),
    {
        match self {
            SidebarVisibility::Hidden => "hidden",
            SidebarVisibility::Visible => "visible",
        }
    }

    /// The visibility named by `s`, which is taken as already lowercased.
    pub fn from_lowercase_name(s: &str) -> (r: Result<SidebarVisibility, String>)
        ensures
            result_view(r) == sidebar_from_name(s@),
    {
        if str_eq(s, "hidden") {
            Ok(SidebarVisibility::Hidden)
        } else if str_eq(s, "visible") {
            Ok(SidebarVisibility::Visible)
        } else {
            Err(message("invalid sidebar visibility '", s, "': expected 'hidden' or 'visible'"))
        }
    }

    /// The visibility named by `s`, in any letter case.
    pub fn parse(s: &str) -> (r: Result<SidebarVisibility, String>)
        ensures
            result_view(r) == sidebar_from_name(lowercase(s@)),
            all_ascii(s@) ==> result_view(r) == sidebar_from_name(ascii_lowercase(s@)),
    {
        let lower = to_lowercase(s);
        SidebarVisibility::from_lowercase_name(lower.as_str())
    }
}

impl Default for Theme {
    fn default() -> (r: Theme)
        ensures
            r == Theme::System,
    {
        Theme::System
    }
}

impl Default for RenderMode {
    fn default() -> (r: RenderMode)
        ensures
            r == RenderMode::Recursive,
    {
        RenderMode::Recursive
    }
}

impl Default for SidebarVisibility {
    fn default() -> (r: SidebarVisibility)
        ensures
            r == SidebarVisibility::Hidden,
    {
        SidebarVisibility::Hidden
    }
}

impl FromStr for Theme {
    type Err = String;

    fn from_str(s: &str) -> (r: Result<Theme, String>)
        ensures
            result_view(r) == theme_from_name(lowercase(s@)),
            all_ascii(s@) ==> result_view(r) == theme_from_name(ascii_lowercase(s@)),
    {
        Theme::parse(s)
    }
}

impl FromStr for RenderMode {
    type Err = String;

    fn from_str(s: &str) -> (r: Result<RenderMode, String>)
        ensures
            result_view(r) == render_mode_from_name(lowercase(s@)),
            all_ascii(s@) ==> result_view(r) == render_mode_from_name(ascii_lowercase(s@)),
    {
        RenderMode::parse(s)
    }
}

impl FromStr for SidebarVisibility {
    type Err = String;

    fn from_str(s: &str) -> (r: Result<SidebarVisibility, String>)
        ensures
            result_view(r) == sidebar_from_name(lowercase(s@)),
            all_ascii(s@) ==> result_view(r) == sidebar_from_name(ascii_lowercase(s@)),
    {
        SidebarVisibility::parse(s)
    }
}

/// Reader layout settings embedded in every rendered page. The letter width
/// is held in hundredths of an inch (`850` is 8.5 in).
#[derive(Debug, Clone, Copy, PartialEq, Eq, Structural)]
pub struct AppearanceConfig {
    pub font_size_px: u16,
    pub letter_width_hundredths: u32,
    pub letter_radius_px: u16,
    pub sidebar_button_radius_px: u16,
    pub theme_button_radius_px: u16,
}

impl Default for AppearanceConfig {
    /// 16 px text on an 8.5 in sheet with 12 px corners and fully rounded
    /// buttons.
    fn default() -> (r: AppearanceConfig)
        ensures
            r == (AppearanceConfig {
                font_size_px: 16,
                letter_width_hundredths: 850,
                letter_radius_px: 12,
                sidebar_button_radius_px: 999,
                theme_button_radius_px: 999,
            }),
    {
        AppearanceConfig {
            font_size_px: 16,
            letter_width_hundredths: 850,
            letter_radius_px: 12,
            sidebar_button_radius_px: 999,
            theme_button_radius_px: 999,
        }
    }
}

/// Persistent application configuration stored in `.mark/config.toml`.
#[derive(Debug, Clone, Copy, PartialEq, Eq, Structural)]
pub struct AppConfig {
    pub theme: Theme,
    pub render_mode: RenderMode,
    pub sidebar: SidebarVisibility,
    pub appearance: AppearanceConfig,
}

impl Default for AppConfig {
    /// Theme `system`, render mode `recursive`, sidebar `hidden`, default layout.
    fn default() -> (r: AppConfig)
        ensures
            r.theme == Theme::System,
            r.render_mode == RenderMode::Recursive,
            r.sidebar == SidebarVisibility::Hidden,
            r.appearance == (AppearanceConfig {
                font_size_px: 16,
                letter_width_hundredths: 850,
                letter_radius_px: 12,
                sidebar_button_radius_px: 999,
                theme_button_radius_px: 999,
            }),
    {
        AppConfig {
            theme: Theme::default(),
            render_mode: RenderMode::default(),
            sidebar: SidebarVisibility::default(),
            appearance: AppearanceConfig::default(),
        }
    }
}

/// The theme for one run: the command-line override when given, the
/// persisted theme otherwise.
pub fn resolve_theme(cli_override: Option<Theme>, config_theme: Theme) -> (r: Theme)
    ensures
        r == (match cli_override {
            Some(t) => t,
            None => config_theme,
        }),
{
    match cli_override {
        Some(t) => t,
        None => config_theme,
    }
}

/// The render mode for one run: `--single` or `--recursive` when given (the
/// command line lets at most one be set), the persisted mode otherwise.
pub fn resolve_render_mode(single: bool, recursive: bool, config_mode: RenderMode) -> (r:
    RenderMode)
    ensures
        r == (if single {
            RenderMode::Single
        } else if recursive {
            RenderMode::Recursive
        } else {
            config_mode
        }),
{
    if single {
        RenderMode::Single
    } else if recursive {
        RenderMode::Recursive
    } else {
        config_mode
    }
}

} // verus!
