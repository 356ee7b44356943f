use mark::config::{
    resolve_render_mode, resolve_theme, AppConfig, AppearanceConfig, RenderMode, SidebarVisibility,
    Theme,
};

#[test]
fn theme_from_str_valid() {
    assert_eq!("system".parse::<Theme>().unwrap(), Theme::System);
    assert_eq!("light".parse::<Theme>().unwrap(), Theme::Light);
    assert_eq!("dark".parse::<Theme>().unwrap(), Theme::Dark);
    assert_eq!("Dark".parse::<Theme>().unwrap(), Theme::Dark);
}

#[test]
fn theme_from_str_invalid() {
    assert!("blue".parse::<Theme>().is_err());
    assert!("".parse::<Theme>().is_err());
}

#[test]
fn render_mode_from_str_valid() {
    assert_eq!("single".parse::<RenderMode>().unwrap(), RenderMode::Single);
    assert_eq!(
        "recursive".parse::<RenderMode>().unwrap(),
        RenderMode::Recursive
    );
}

#[test]
fn render_mode_from_str_invalid() {
    assert!("loop".parse::<RenderMode>().is_err());
    assert!("".parse::<RenderMode>().is_err());
}

#[test]
fn sidebar_visibility_from_str_valid() {
    assert_eq!(
        "hidden".parse::<SidebarVisibility>().unwrap(),
        SidebarVisibility::Hidden
    );
    assert_eq!(
        "visible".parse::<SidebarVisibility>().unwrap(),
        SidebarVisibility::Visible
    );
}

#[test]
fn sidebar_visibility_from_str_invalid() {
    assert!("open".parse::<SidebarVisibility>().is_err());
    assert!("".parse::<SidebarVisibility>().is_err());
}

#[test]
fn default_config_uses_system_recursive_hidden() {
    assert_eq!(Theme::default(), Theme::System);
    assert_eq!(AppConfig::default().theme, Theme::System);
    assert_eq!(AppConfig::default().render_mode, RenderMode::Recursive);
    assert_eq!(AppConfig::default().sidebar, SidebarVisibility::Hidden);
}

#[test]
fn theme_precedence_override_wins() {
    let config_theme = Theme::Dark;
    let cli_override: Option<Theme> = Some(Theme::Light);
    let resolved = resolve_theme(cli_override, config_theme);
    assert_eq!(resolved, Theme::Light);
}

#[test]
fn theme_precedence_config_wins_over_default() {
    let config_theme = Theme::Dark;
    let cli_override: Option<Theme> = None;
    let resolved = resolve_theme(cli_override, config_theme);
    assert_eq!(resolved, Theme::Dark);
}

#[test]
fn parse_error_messages_name_the_input() {
    assert_eq!(
        "blue".parse::<Theme>().unwrap_err(),
        "invalid theme 'blue': expected 'system', 'light', or 'dark'"
    );
    assert_eq!(
        "loop".parse::<RenderMode>().unwrap_err(),
        "invalid render mode 'loop': expected 'single' or 'recursive'"
    );
    assert_eq!(
        "open".parse::<SidebarVisibility>().unwrap_err(),
        "invalid sidebar visibility 'open': expected 'hidden' or 'visible'"
    );
}

#[test]
fn parse_ignores_letter_case() {
    assert_eq!(Theme::parse("LIGHT"), Ok(Theme::Light));
    assert_eq!(RenderMode::parse("Single"), Ok(RenderMode::Single));
    assert_eq!(SidebarVisibility::parse("VISIBLE"), Ok(SidebarVisibility::Visible));
    // The error names the input as lowercased.
    assert_eq!(
        Theme::parse("BLUE"),
        Err("invalid theme 'blue': expected 'system', 'light', or 'dark'".to_string())
    );
}

#[test]
fn names_parse_back() {
    for t in [Theme::System, Theme::Light, Theme::Dark] {
        assert_eq!(t.name().parse::<Theme>(), Ok(t));
    }
    for m in [RenderMode::Single, RenderMode::Recursive] {
        assert_eq!(m.name().parse::<RenderMode>(), Ok(m));
    }
    for v in [SidebarVisibility::Hidden, SidebarVisibility::Visible] {
        assert_eq!(v.name().parse::<SidebarVisibility>(), Ok(v));
    }
}

#[test]
fn render_mode_precedence() {
    assert_eq!(resolve_render_mode(true, false, RenderMode::Recursive), RenderMode::Single);
    assert_eq!(resolve_render_mode(false, true, RenderMode::Single), RenderMode::Recursive);
    assert_eq!(resolve_render_mode(false, false, RenderMode::Single), RenderMode::Single);
    assert_eq!(RenderMode::default(), RenderMode::Recursive);
    assert_eq!(SidebarVisibility::default(), SidebarVisibility::Hidden);
}

#[test]
fn default_appearance_values() {
    let a = AppearanceConfig::default();
    assert_eq!(a.font_size_px, 16);
    assert_eq!(a.letter_width_hundredths, 850);
    assert_eq!(a.letter_radius_px, 12);
    assert_eq!(a.sidebar_button_radius_px, 999);
    assert_eq!(a.theme_button_radius_px, 999);
    assert_eq!(AppConfig::default().appearance, a);
}
