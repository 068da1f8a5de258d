//! The theme registry: a fixed, ordered catalog of named color palettes,
//! with case-insensitive lookup by name, cyclic advance in catalog order,
//! and enumeration of the names.

use vstd::prelude::*;

use crate::text::{lower_of, to_lower};

verus! {

/// One color, as red, green and blue channels.
#[derive(Clone, Copy, Debug, PartialEq, Eq, Structural)]
pub struct Rgb {
    pub r: u8,
    pub g: u8,
    pub b: u8,
}

/// The color roles a palette assigns: base and secondary backgrounds,
/// primary text, two accents, an emphasis color, and the selection
/// highlight pair.
#[derive(Clone, Copy, Debug, PartialEq, Eq, Structural)]
pub struct ColorTheme {
    pub base: Rgb,
    pub mantle: Rgb,
    pub text: Rgb,
    pub mauve: Rgb,
    pub pink: Rgb,
    pub yellow: Rgb,
    pub highlight_bg: Rgb,
    pub highlight_fg: Rgb,
}

/// The named palettes of the catalog, in registration order.
#[derive(Clone, Copy, Debug, PartialEq, Eq, Structural)]
pub enum AppTheme {
    Nord,
    Gruvbox,
    SolarizedDark,
    OrangeSunset,
    GitHub,
    MononokaiPro,
}

/// The catalog's names, in registration order.
pub open spec fn catalog_names() -> Seq<Seq<char>> {
    seq!["Nord"@, "Gruvbox"@, "SolarizedDark"@, "OrangeSunset"@, "GitHub"@, "MononokaiPro"@]
}

/// The theme a name designates: the catalog is searched in registration
/// order for a name whose lowercase form equals the lowercase form of `s`.
pub open spec fn theme_from_spec(s: Seq<char>) -> Option<AppTheme> {
    if lower_of(s) == "nord"@ {
        Some(AppTheme::Nord)
    } else if lower_of(s) == "gruvbox"@ {
        Some(AppTheme::Gruvbox)
    } else if lower_of(s) == "solarizeddark"@ {
        Some(AppTheme::SolarizedDark)
    } else if lower_of(s) == "orangesunset"@ {
        Some(AppTheme::OrangeSunset)
    } else if lower_of(s) == "github"@ {
        Some(AppTheme::GitHub)
    } else if lower_of(s) == "mononokaipro"@ {
        Some(AppTheme::MononokaiPro)
    } else {
        None
    }
}

impl AppTheme {
    /// Position of this theme in the catalog's registration order.
    pub open spec fn index_spec(self) -> int {
        match self {
            AppTheme::Nord => 0,
            AppTheme::Gruvbox => 1,
            AppTheme::SolarizedDark => 2,
            AppTheme::OrangeSunset => 3,
            AppTheme::GitHub => 4,
            AppTheme::MononokaiPro => 5,
        }
    }

    /// The theme at a catalog position.
    pub open spec fn theme_at(i: int) -> AppTheme {
        if i == 0 {
            AppTheme::Nord
        } else if i == 1 {
            AppTheme::Gruvbox
        } else if i == 2 {
            AppTheme::SolarizedDark
        } else if i == 3 {
            AppTheme::OrangeSunset
        } else if i == 4 {
            AppTheme::GitHub
        } else {
            AppTheme::MononokaiPro
        }
    }

    /// This theme's name in the catalog.
    pub open spec fn name_spec(self) -> Seq<char> {
        catalog_names()[self.index_spec()]
    }

    /// The theme after this one, cyclically in registration order.
    pub open spec fn next_spec(self) -> AppTheme {
        Self::theme_at((self.index_spec() + 1) % 6)
    }

    /// The palette this theme assigns to each color role.
    pub open spec fn palette_spec(self) -> ColorTheme {
        match self {
            AppTheme::Nord => ColorTheme {
                base: Rgb { r: 46, g: 52, b: 64 },
                mantle: Rgb { r: 46, g: 52, b: 64 },
                text: Rgb { r: 216, g: 222, b: 233 },
                mauve: Rgb { r: 163, g: 190, b: 140 },
                pink: Rgb { r: 180, g: 142, b: 173 },
                yellow: Rgb { r: 136, g: 192, b: 208 },
                highlight_bg: Rgb { r: 76, g: 86, b: 106 },
                highlight_fg: Rgb { r: 236, g: 239, b: 244 },
            },
            AppTheme::Gruvbox => ColorTheme {
                base: Rgb { r: 40, g: 40, b: 40 },
                mantle: Rgb { r: 40, g: 40, b: 40 },
                text: Rgb { r: 235, g: 219, b: 178 },
                mauve: Rgb { r: 104, g: 157, b: 106 },
                pink: Rgb { r: 214, g: 93, b: 14 },
                yellow: Rgb { r: 215, g: 153, b: 33 },
                highlight_bg: Rgb { r: 69, g: 133, b: 136 },
                highlight_fg: Rgb { r: 40, g: 40, b: 40 },
            },
            AppTheme::SolarizedDark => ColorTheme {
                base: Rgb { r: 0, g: 43, b: 54 },
                mantle: Rgb { r: 0, g: 43, b: 54 },
                text: Rgb { r: 131, g: 148, b: 150 },
                mauve: Rgb { r: 42, g: 161, b: 152 },
                pink: Rgb { r: 38, g: 139, b: 210 },
                yellow: Rgb { r: 181, g: 137, b: 0 },
                highlight_bg: Rgb { r: 88, g: 110, b: 117 },
                highlight_fg: Rgb { r: 0, g: 43, b: 54 },
            },
            AppTheme::OrangeSunset => ColorTheme {
                base: Rgb { r: 255, g: 171, b: 36 },
                mantle: Rgb { r: 180, g: 85, b: 0 },
                text: Rgb { r: 135, g: 206, b: 250 },
                mauve: Rgb { r: 100, g: 149, b: 237 },
                pink: Rgb { r: 70, g: 130, b: 180 },
                yellow: Rgb { r: 224, g: 255, b: 255 },
                highlight_bg: Rgb { r: 70, g: 130, b: 180 },
                highlight_fg: Rgb { r: 215, g: 100, b: 0 },
            },
            AppTheme::GitHub => ColorTheme {
                base: Rgb { r: 13, g: 17, b: 23 },
                mantle: Rgb { r: 13, g: 17, b: 23 },
                text: Rgb { r: 201, g: 209, b: 217 },
                mauve: Rgb { r: 88, g: 166, b: 255 },
                pink: Rgb { r: 188, g: 140, b: 255 },
                yellow: Rgb { r: 139, g: 148, b: 158 },
                highlight_bg: Rgb { r: 33, g: 38, b: 45 },
                highlight_fg: Rgb { r: 88, g: 166, b: 255 },
            },
            AppTheme::MononokaiPro => ColorTheme {
                base: Rgb { r: 45, g: 42, b: 46 },
                mantle: Rgb { r: 45, g: 42, b: 46 },
                text: Rgb { r: 252, g: 252, b: 250 },
                mauve: Rgb { r: 169, g: 220, b: 118 },
                pink: Rgb { r: 255, g: 216, b: 102 },
                yellow: Rgb { r: 255, g: 97, b: 136 },
                highlight_bg: Rgb { r: 120, g: 220, b: 232 },
                highlight_fg: Rgb { r: 45, g: 42, b: 46 },
            },
        }
    }

    /// This theme's palette.
    pub fn get_colors(&self) -> (r: ColorTheme)
        ensures
            r == self.palette_spec(),
    {
        match self {
            AppTheme::Nord => ColorTheme {
                base: Rgb { r: 46, g: 52, b: 64 },
                mantle: Rgb { r: 46, g: 52, b: 64 },
                text: Rgb { r: 216, g: 222, b: 233 },
                mauve: Rgb { r: 163, g: 190, b: 140 },
                pink: Rgb { r: 180, g: 142, b: 173 },
                yellow: Rgb { r: 136, g: 192, b: 208 },
                highlight_bg: Rgb { r: 76, g: 86, b: 106 },
                highlight_fg: Rgb { r: 236, g: 239, b: 244 },
            },
            AppTheme::Gruvbox => ColorTheme {
                base: Rgb { r: 40, g: 40, b: 40 },
                mantle: Rgb { r: 40, g: 40, b: 40 },
                text: Rgb { r: 235, g: 219, b: 178 },
                mauve: Rgb { r: 104, g: 157, b: 106 },
                pink: Rgb { r: 214, g: 93, b: 14 },
                yellow: Rgb { r: 215, g: 153, b: 33 },
                highlight_bg: Rgb { r: 69, g: 133, b: 136 },
                highlight_fg: Rgb { r: 40, g: 40, b: 40 },
            },
            AppTheme::SolarizedDark => ColorTheme {
                base: Rgb { r: 0, g: 43, b: 54 },
                mantle: Rgb { r: 0, g: 43, b: 54 },
                text: Rgb { r: 131, g: 148, b: 150 },
                mauve: Rgb { r: 42, g: 161, b: 152 },
                pink: Rgb { r: 38, g: 139, b: 210 },
                yellow: Rgb { r: 181, g: 137, b: 0 },
                highlight_bg: Rgb { r: 88, g: 110, b: 117 },
                highlight_fg: Rgb { r: 0, g: 43, b: 54 },
            },
            AppTheme::OrangeSunset => ColorTheme {
                base: Rgb { r: 255, g: 171, b: 36 },
                mantle: Rgb { r: 180, g: 85, b: 0 },
                text: Rgb { r: 135, g: 206, b: 250 },
                mauve: Rgb { r: 100, g: 149, b: 237 },
                pink: Rgb { r: 70, g: 130, b: 180 },
                yellow: Rgb { r: 224, g: 255, b: 255 },
                highlight_bg: Rgb { r: 70, g: 130, b: 180 },
                highlight_fg: Rgb { r: 215, g: 100, b: 0 },
            },
            AppTheme::GitHub => ColorTheme {
                base: Rgb { r: 13, g: 17, b: 23 },
                mantle: Rgb { r: 13, g: 17, b: 23 },
                text: Rgb { r: 201, g: 209, b: 217 },
                mauve: Rgb { r: 88, g: 166, b: 255 },
                pink: Rgb { r: 188, g: 140, b: 255 },
                yellow: Rgb { r: 139, g: 148, b: 158 },
                highlight_bg: Rgb { r: 33, g: 38, b: 45 },
                highlight_fg: Rgb { r: 88, g: 166, b: 255 },
            },
            AppTheme::MononokaiPro => ColorTheme {
                base: Rgb { r: 45, g: 42, b: 46 },
                mantle: Rgb { r: 45, g: 42, b: 46 },
                text: Rgb { r: 252, g: 252, b: 250 },
                mauve: Rgb { r: 169, g: 220, b: 118 },
                pink: Rgb { r: 255, g: 216, b: 102 },
                yellow: Rgb { r: 255, g: 97, b: 136 },
                highlight_bg: Rgb { r: 120, g: 220, b: 232 },
                highlight_fg: Rgb { r: 45, g: 42, b: 46 },
            },
        }
    }

    /// Looks a theme up by name, case-insensitively.
    pub fn from_str(s: &str) -> (r: Option<AppTheme>)
        ensures
            r == theme_from_spec(s@),
    {
        let low = to_lower(s);
        if low == "nord".to_owned() {
            Some(AppTheme::Nord)
        } else if low == "gruvbox".to_owned() {
            Some(AppTheme::Gruvbox)
        } else if low == "solarizeddark".to_owned() {
            Some(AppTheme::SolarizedDark)
        } else if low == "orangesunset".to_owned() {
            Some(AppTheme::OrangeSunset)
        } else if low == "github".to_owned() {
            Some(AppTheme::GitHub)
        } else if low == "mononokaipro".to_owned() {
            Some(AppTheme::MononokaiPro)
        } else {
            None
        }
    }

    /// This theme's display name.
    pub fn as_str(&self) -> (r: &'static str)
        ensures
            r@ == self.name_spec(),
    {
        match self {
            AppTheme::Nord => "Nord",
            AppTheme::Gruvbox => "Gruvbox",
            AppTheme::SolarizedDark => "SolarizedDark",
            AppTheme::OrangeSunset => "OrangeSunset",
            AppTheme::GitHub => "GitHub",
            AppTheme::MononokaiPro => "MononokaiPro",
        }
    }

    /// All catalog names, in registration order.
    pub fn variants() -> (r: Vec<&'static str>)
        ensures
            r@.len() == 6,
            forall|i: int| 0 <= i < 6 ==> (#[trigger] r@[i])@ == catalog_names()[i],
    {
        let r = vec!["Nord", "Gruvbox", "SolarizedDark", "OrangeSunset", "GitHub", "MononokaiPro"];
        assert(r@[0]@ == catalog_names()[0]);
        assert(r@[1]@ == catalog_names()[1]);
        assert(r@[2]@ == catalog_names()[2]);
        assert(r@[3]@ == catalog_names()[3]);
        assert(r@[4]@ == catalog_names()[4]);
        assert(r@[5]@ == catalog_names()[5]);
        r
    }

    /// The next theme in the cycle.
    pub fn next(self) -> (r: Self)
        ensures
            r == self.next_spec(),
    {
        match self {
            AppTheme::Nord => AppTheme::Gruvbox,
            AppTheme::Gruvbox => AppTheme::SolarizedDark,
            AppTheme::SolarizedDark => AppTheme::OrangeSunset,
            AppTheme::OrangeSunset => AppTheme::GitHub,
            AppTheme::GitHub => AppTheme::MononokaiPro,
            AppTheme::MononokaiPro => AppTheme::Nord,
        }
    }
}

/// Theme cycle closure: advancing the cycle as many times as the catalog
/// has entries returns to the starting theme, from any start.
pub proof fn lemma_theme_cycle_closure(t: AppTheme)
    ensures
        t.next_spec().next_spec().next_spec().next_spec().next_spec().next_spec() == t,
{
}

} // verus!
