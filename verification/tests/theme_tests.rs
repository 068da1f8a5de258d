use procmon::theme::{AppTheme, Rgb};

#[test]
fn from_str_finds_each_catalog_name() {
    assert!(matches!(AppTheme::from_str("nord"), Some(AppTheme::Nord)));
    assert!(matches!(AppTheme::from_str("gruvbox"), Some(AppTheme::Gruvbox)));
    assert!(matches!(
        AppTheme::from_str("solarizeddark"),
        Some(AppTheme::SolarizedDark)
    ));
    assert!(matches!(
        AppTheme::from_str("orangesunset"),
        Some(AppTheme::OrangeSunset)
    ));
    assert!(matches!(AppTheme::from_str("github"), Some(AppTheme::GitHub)));
    assert!(matches!(
        AppTheme::from_str("mononokaipro"),
        Some(AppTheme::MononokaiPro)
    ));
}

#[test]
fn from_str_is_case_insensitive() {
    assert!(matches!(AppTheme::from_str("NORD"), Some(AppTheme::Nord)));
    assert!(matches!(AppTheme::from_str("GruvBox"), Some(AppTheme::Gruvbox)));
    assert!(matches!(
        AppTheme::from_str("MononokaiPro"),
        Some(AppTheme::MononokaiPro)
    ));
}

#[test]
fn from_str_rejects_unknown_names() {
    assert!(AppTheme::from_str("").is_none());
    assert!(AppTheme::from_str("dracula").is_none());
    assert!(AppTheme::from_str("nord ").is_none());
}

#[test]
fn as_str_names_each_theme() {
    assert_eq!(AppTheme::Nord.as_str(), "Nord");
    assert_eq!(AppTheme::Gruvbox.as_str(), "Gruvbox");
    assert_eq!(AppTheme::SolarizedDark.as_str(), "SolarizedDark");
    assert_eq!(AppTheme::OrangeSunset.as_str(), "OrangeSunset");
    assert_eq!(AppTheme::GitHub.as_str(), "GitHub");
    assert_eq!(AppTheme::MononokaiPro.as_str(), "MononokaiPro");
}

#[test]
fn variants_lists_the_catalog_in_order() {
    let v = AppTheme::variants();
    assert_eq!(
        v,
        vec![
            "Nord",
            "Gruvbox",
            "SolarizedDark",
            "OrangeSunset",
            "GitHub",
            "MononokaiPro"
        ]
    );
}

#[test]
fn next_follows_catalog_order() {
    assert_eq!(AppTheme::Nord.next(), AppTheme::Gruvbox);
    assert_eq!(AppTheme::Gruvbox.next(), AppTheme::SolarizedDark);
    assert_eq!(AppTheme::SolarizedDark.next(), AppTheme::OrangeSunset);
    assert_eq!(AppTheme::OrangeSunset.next(), AppTheme::GitHub);
    assert_eq!(AppTheme::GitHub.next(), AppTheme::MononokaiPro);
    assert_eq!(AppTheme::MononokaiPro.next(), AppTheme::Nord);
}

#[test]
fn next_cycles_back_after_catalog_size_steps() {
    let starts = [
        AppTheme::Nord,
        AppTheme::Gruvbox,
        AppTheme::SolarizedDark,
        AppTheme::OrangeSunset,
        AppTheme::GitHub,
        AppTheme::MononokaiPro,
    ];
    for start in starts {
        let mut t = start;
        for _ in 0..6 {
            t = t.next();
        }
        assert_eq!(t, start);
    }
}

#[test]
fn get_colors_returns_the_palette_data() {
    let nord = AppTheme::Nord.get_colors();
    assert_eq!(nord.base, Rgb { r: 46, g: 52, b: 64 });
    assert_eq!(nord.text, Rgb { r: 216, g: 222, b: 233 });
    assert_eq!(nord.highlight_fg, Rgb { r: 236, g: 239, b: 244 });
    let gruvbox = AppTheme::Gruvbox.get_colors();
    assert_eq!(gruvbox.base, Rgb { r: 40, g: 40, b: 40 });
    assert_ne!(nord.base, gruvbox.base);
}
