use simplecrypt::theme::{Rgb, Theme};

#[test]
fn themes_have_stable_cli_names_and_official_base_colors() {
    assert_eq!(Theme::default(), Theme::Mocha);
    for (theme, name, base) in [
        (Theme::Mocha, "mocha", Rgb { r: 30, g: 30, b: 46 }),
        (Theme::Macchiato, "macchiato", Rgb { r: 36, g: 39, b: 58 }),
        (Theme::Frappe, "frappe", Rgb { r: 48, g: 52, b: 70 }),
        (Theme::Latte, "latte", Rgb { r: 239, g: 241, b: 245 }),
    ] {
        assert_eq!(Theme::from_str(name, false).unwrap(), theme);
        assert_eq!(theme.palette().base, base);
        assert!(!theme.label().is_empty());
    }
}

#[test]
fn theme_names_ignore_case_only_when_asked() {
    assert_eq!(Theme::from_str("LATTE", true).unwrap(), Theme::Latte);
    assert_eq!(
        Theme::from_str("LATTE", false).unwrap_err(),
        "invalid variant: LATTE"
    );
    assert_eq!(Theme::from_str("solarized", true).unwrap_err(), "invalid variant: solarized");
    assert_eq!(Theme::Frappe.name(), "frappe");
    assert_eq!(Theme::Frappe.label(), "Frappe");
    assert_eq!(Theme::ALL.len(), 4);
    for (i, theme) in Theme::ALL.into_iter().enumerate() {
        assert_eq!(theme.index(), i);
        assert_eq!(Theme::at(i), theme);
    }
    let latte = Theme::Latte.palette();
    assert_eq!(latte.text, Rgb { r: 76, g: 79, b: 105 });
    assert_eq!(Theme::Mocha.palette().mauve, Rgb { r: 203, g: 166, b: 247 });
}
