//! Theme catalogue and the rules a theme configuration must satisfy.
//!
//! The current theme is a field of the stored settings; the application
//! persists them, this module decides what the themes are and how they
//! cycle.

use vstd::prelude::*;

use vstd::string::StringExecFns;
use vstd::string::StringSliceAdditionalSpecFns;
use vstd::string::StrSliceExecFns;

use crate::registry::{key_index_of, lemma_key_index_at};
use crate::settings::AppSettings;
use crate::text::str_eq;

verus! {

/// One theme: its identity and its colour table.
#[derive(Debug, Clone)]
pub struct ThemeConfig {
    pub name: String,
    pub display_name: String,
    pub description: String,
    pub icon: String,
    /// Colour table as key and value pairs.
    pub colors: Vec<(String, String)>,
    pub is_dark: bool,
}

/// Whether the colour table holds an entry under `key`.
pub open spec fn spec_has_color(colors: Seq<(String, String)>, key: Seq<char>) -> bool {
    key_index_of(colors, key, |p: (String, String)| p.0@) >= 0
}

/// Looks `key` up in a colour table.
fn find_color(colors: &Vec<(String, String)>, key: &str) -> (r: Option<usize>)
    ensures
        match r {
            Some(i) => key_index_of(colors@, key@, |p: (String, String)| p.0@) == i as int && i
                < colors@.len(),
            None => key_index_of(colors@, key@, |p: (String, String)| p.0@) == -1,
        },
{
    let mut i: usize = 0;
    while i < colors.len()
        invariant
            0 <= i <= colors@.len(),
            forall|j: int| 0 <= j < i ==> (#[trigger] colors@[j]).0@ != key@,
        decreases colors@.len() - i,
    {
        if str_eq(colors[i].0.as_str(), key) {
            proof {
                lemma_key_index_at(colors@, key@, |p: (String, String)| p.0@, i as int);
            }
            return Some(i);
        }
        i = i + 1;
    }
    proof {
        lemma_key_index_at(colors@, key@, |p: (String, String)| p.0@, colors@.len() as int);
    }
    None
}

/// A known theme name.
pub open spec fn spec_theme_known(name: Seq<char>) -> bool {
    name == "light"@ || name == "dark"@ || name == "sakura"@
}

/// The theme that follows `name` in the cycle; unknown names restart at
/// the second theme, as cycling from the first would.
pub open spec fn spec_next_theme(name: Seq<char>) -> Seq<char> {
    if name == "light"@ {
        "dark"@
    } else if name == "dark"@ {
        "sakura"@
    } else if name == "sakura"@ {
        "light"@
    } else {
        "dark"@
    }
}

/// Theme catalogue and theme switching.
#[derive(Debug)]
pub struct ThemeManager;

impl ThemeManager {
    /// The colour table the light and dark themes share for accents.
    fn base_colors() -> (r: Vec<(String, String)>)
        ensures
            r@.len() == 7,
    {
        let mut colors: Vec<(String, String)> = Vec::new();
        colors.push(("primary-color".to_owned(), "#4299e1".to_owned()));
        colors.push(("secondary-color".to_owned(), "#63b3ed".to_owned()));
        colors.push(("accent-color".to_owned(), "#81e6d9".to_owned()));
        colors.push(("success-color".to_owned(), "#48bb78".to_owned()));
        colors.push(("warning-color".to_owned(), "#ed8936".to_owned()));
        colors.push(("error-color".to_owned(), "#f56565".to_owned()));
        colors.push(("info-color".to_owned(), "#4299e1".to_owned()));
        colors
    }

    /// The light theme's colour table.
    fn light_colors() -> (r: Vec<(String, String)>)
        ensures
            r@.len() == 16,
    {
        let mut colors = Self::base_colors();
        colors.push(("bg-primary".to_owned(), "#f8fafc".to_owned()));
        colors.push(("bg-secondary".to_owned(), "#ffffff".to_owned()));
        colors.push(("bg-tertiary".to_owned(), "#f1f5f9".to_owned()));
        colors.push(("bg-dark".to_owned(), "#1e293b".to_owned()));
        colors.push(("bg-glass".to_owned(), "rgba(255, 255, 255, 0.1)".to_owned()));
        colors.push(("text-primary".to_owned(), "#1e293b".to_owned()));
        colors.push(("text-secondary".to_owned(), "#64748b".to_owned()));
        colors.push(("text-light".to_owned(), "#94a3b8".to_owned()));
        colors.push(("text-white".to_owned(), "#ffffff".to_owned()));
        colors
    }

    /// The dark theme's colour table.
    fn dark_colors() -> (r: Vec<(String, String)>)
        ensures
            r@.len() == 16,
    {
        let mut colors = Self::base_colors();
        colors.push(("bg-primary".to_owned(), "#0f172a".to_owned()));
        colors.push(("bg-secondary".to_owned(), "#1e293b".to_owned()));
        colors.push(("bg-tertiary".to_owned(), "#334155".to_owned()));
        colors.push(("bg-dark".to_owned(), "#475569".to_owned()));
        colors.push(("bg-glass".to_owned(), "rgba(0, 0, 0, 0.3)".to_owned()));
        colors.push(("text-primary".to_owned(), "#f1f5f9".to_owned()));
        colors.push(("text-secondary".to_owned(), "#cbd5e1".to_owned()));
        colors.push(("text-light".to_owned(), "#94a3b8".to_owned()));
        colors.push(("text-white".to_owned(), "#ffffff".to_owned()));
        colors
    }

    /// The blossom theme's colour table.
    fn sakura_colors() -> (r: Vec<(String, String)>)
        ensures
            r@.len() == 16,
    {
        let mut colors: Vec<(String, String)> = Vec::new();
        colors.push(("primary-color".to_owned(), "#ff9bb3".to_owned()));
        colors.push(("secondary-color".to_owned(), "#ffb3c1".to_owned()));
        colors.push(("accent-color".to_owned(), "#ffc0cb".to_owned()));
        colors.push(("success-color".to_owned(), "#f8bbd9".to_owned()));
        colors.push(("warning-color".to_owned(), "#ffc1cc".to_owned()));
        colors.push(("error-color".to_owned(), "#ffb3ba".to_owned()));
        colors.push(("info-color".to_owned(), "#ff9eb5".to_owned()));
        colors.push(("bg-primary".to_owned(), "#fef9f9".to_owned()));
        colors.push(("bg-secondary".to_owned(), "#fffefe".to_owned()));
        colors.push(("bg-tertiary".to_owned(), "#fef5f7".to_owned()));
        colors.push(("bg-dark".to_owned(), "#c53030".to_owned()));
        colors.push(("bg-glass".to_owned(), "rgba(255, 192, 203, 0.12)".to_owned()));
        colors.push(("text-primary".to_owned(), "#744c4c".to_owned()));
        colors.push(("text-secondary".to_owned(), "#a0616d".to_owned()));
        colors.push(("text-light".to_owned(), "#d69e9e".to_owned()));
        colors.push(("text-white".to_owned(), "#ffffff".to_owned()));
        colors
    }

    /// The three built-in themes: light, dark and blossom.
    pub fn get_available_themes() -> (r: Vec<ThemeConfig>)
        ensures
            r@.len() == 3,
            r@[0].name@ == "light"@ && !r@[0].is_dark,
            r@[1].name@ == "dark"@ && r@[1].is_dark,
            r@[2].name@ == "sakura"@ && !r@[2].is_dark,
    {
        let mut out: Vec<ThemeConfig> = Vec::new();
        out.push(
            ThemeConfig {
                name: "light".to_owned(),
                display_name: "Light".to_owned(),
                description: "A fresh bright theme".to_owned(),
                icon: "sun".to_owned(),
                colors: Self::light_colors(),
                is_dark: false,
            },
        );
        out.push(
            ThemeConfig {
                name: "dark".to_owned(),
                display_name: "Dark".to_owned(),
                description: "A comfortable low-light theme".to_owned(),
                icon: "moon".to_owned(),
                colors: Self::dark_colors(),
                is_dark: true,
            },
        );
        out.push(
            ThemeConfig {
                name: "sakura".to_owned(),
                display_name: "Blossom".to_owned(),
                description: "A gentle pink theme".to_owned(),
                icon: "flower".to_owned(),
                colors: Self::sakura_colors(),
                is_dark: false,
            },
        );
        out
    }

    /// The configuration of the theme called `theme_name`, if known.
    pub fn get_theme_config(theme_name: &str) -> (r: Option<ThemeConfig>)
        ensures
            r is Some <==> spec_theme_known(theme_name@),
            r matches Some(c) ==> (c.name@ == theme_name@ && c.is_dark == (theme_name@ == "dark"@)),
    {
        let themes = Self::get_available_themes();
        let mut themes = themes;
        if str_eq(theme_name, "light") {
            let c = themes.remove(0);
            proof {
                reveal_strlit("light");
                reveal_strlit("dark");
                assert(c.name@ == theme_name@);
                assert("light"@.len() == 5);
                assert("dark"@.len() == 4);
                assert(theme_name@ != "dark"@);
                assert(!c.is_dark);
            }
            return Some(c);
        }
        if str_eq(theme_name, "dark") {
            let c = themes.remove(1);
            return Some(c);
        }
        if str_eq(theme_name, "sakura") {
            proof {
                reveal_strlit("sakura");
                reveal_strlit("dark");
            }
            let c = themes.remove(2);
            return Some(c);
        }
        None
    }

    /// The theme the settings currently select.
    pub fn get_current_theme(settings: &AppSettings) -> (r: String)
        ensures
            r@ == settings.theme@,
    {
        settings.theme.clone()
    }

    /// Selects `theme_name` if it is a known theme; the caller persists
    /// the settings afterwards.
    pub fn set_current_theme(settings: &mut AppSettings, theme_name: String) -> (r: Result<
        (),
        String,
    >)
        ensures
            spec_theme_known(theme_name@) ==> (r is Ok && final(settings).theme == theme_name),
            !spec_theme_known(theme_name@) ==> (r is Err && *final(settings) == *old(settings)),
    {
        if str_eq(theme_name.as_str(), "light") || str_eq(theme_name.as_str(), "dark") || str_eq(
            theme_name.as_str(),
            "sakura",
        ) {
            settings.theme = theme_name;
            Ok(())
        } else {
            Err("Theme does not exist: ".to_owned().concat(theme_name.as_str()))
        }
    }

    /// Moves the settings to the next theme in the cycle and returns its
    /// name.
    pub fn toggle_theme(settings: &mut AppSettings) -> (r: String)
        ensures
            r@ == spec_next_theme(old(settings).theme@),
            final(settings).theme@ == spec_next_theme(old(settings).theme@),
    {
        let next: &str = if str_eq(settings.theme.as_str(), "light") {
            "dark"
        } else if str_eq(settings.theme.as_str(), "dark") {
            "sakura"
        } else if str_eq(settings.theme.as_str(), "sakura") {
            "light"
        } else {
            "dark"
        };
        settings.theme = next.to_owned();
        next.to_owned()
    }

    /// Returns the settings to the light theme.
    pub fn reset_to_default_theme(settings: &mut AppSettings) -> (r: Result<(), String>)
        ensures
            r is Ok,
            final(settings).theme@ == "light"@,
    {
        Self::set_current_theme(settings, "light".to_owned())
    }

    /// Whether `theme_name` names the dark theme.
    pub fn is_dark_theme(theme_name: &str) -> (r: bool)
        ensures
            r == (theme_name@ == "dark"@),
    {
        str_eq(theme_name, "dark")
    }

    /// The text colour that contrasts with the named theme's colour under
    /// `color_key`: white on the dark theme, black otherwise.
    pub fn get_contrast_color(theme_name: &str, color_key: &str) -> (r: Option<String>)
        ensures
            !spec_theme_known(theme_name@) ==> r is None,
            r matches Some(c) ==> (spec_theme_known(theme_name@) && (theme_name@ == "dark"@ ==> c@
                == "#ffffff"@) && (theme_name@ != "dark"@ ==> c@ == "#000000"@)),
    {
        let config = Self::get_theme_config(theme_name);
        match config {
            None => None,
            Some(c) => {
                let found = find_color(&c.colors, color_key);
                match found {
                    None => None,
                    Some(_) => {
                        if c.is_dark {
                            Some("#ffffff".to_owned())
                        } else {
                            Some("#000000".to_owned())
                        }
                    },
                }
            },
        }
    }

    /// Checks a theme configuration: a name, a display name, the required
    /// colour keys, and every colour value written as a hex or rgb value.
    pub fn validate_theme_config(config: &ThemeConfig) -> (r: Result<(), String>)
        ensures
            r is Ok <==> spec_theme_config_valid(*config),
    {
        if config.name.as_str().is_empty() {
            return Err("Theme name must not be empty".to_owned());
        }
        if config.display_name.as_str().is_empty() {
            return Err("Theme display name must not be empty".to_owned());
        }
        if find_color(&config.colors, "primary-color").is_none() {
            return Err("Missing required colour: primary-color".to_owned());
        }
        if find_color(&config.colors, "bg-primary").is_none() {
            return Err("Missing required colour: bg-primary".to_owned());
        }
        if find_color(&config.colors, "bg-secondary").is_none() {
            return Err("Missing required colour: bg-secondary".to_owned());
        }
        if find_color(&config.colors, "text-primary").is_none() {
            return Err("Missing required colour: text-primary".to_owned());
        }
        if find_color(&config.colors, "text-secondary").is_none() {
            return Err("Missing required colour: text-secondary".to_owned());
        }
        let mut i: usize = 0;
        while i < config.colors.len()
            invariant
                0 <= i <= config.colors@.len(),
                forall|j: int|
                    0 <= j < i ==> spec_color_value_ok((#[trigger] config.colors@[j]).1@),
            decreases config.colors@.len() - i,
        {
            if !color_value_ok(config.colors[i].1.as_str()) {
                return Err("Invalid colour format".to_owned());
            }
            i = i + 1;
        }
        Ok(())
    }
}

/// A colour is written as a hex value or an rgb form.
pub open spec fn spec_color_value_ok(v: Seq<char>) -> bool {
    (v.len() >= 1 && v[0] == '#') || (v.len() >= 3 && v.subrange(0, 3) == "rgb"@)
}

/// Executable form of [`spec_color_value_ok`].
fn color_value_ok(v: &str) -> (r: bool)
    ensures
        r == spec_color_value_ok(v@),
{
    let n = v.unicode_len();
    if n >= 1 && v.get_char(0) == '#' {
        return true;
    }
    if n >= 3 && v.get_char(0) == 'r' && v.get_char(1) == 'g' && v.get_char(2) == 'b' {
        proof {
            reveal_strlit("rgb");
            assert(v@.subrange(0, 3) =~= "rgb"@);
        }
        return true;
    }
    proof {
        if spec_color_value_ok(v@) {
            reveal_strlit("rgb");
            if v@.len() >= 3 && v@.subrange(0, 3) == "rgb"@ {
                assert(v@[0] == v@.subrange(0, 3)[0]);
                assert(v@[1] == v@.subrange(0, 3)[1]);
                assert(v@[2] == v@.subrange(0, 3)[2]);
            }
            assert(false);
        }
    }
    false
}

/// The rules a theme configuration must satisfy.
pub open spec fn spec_theme_config_valid(c: ThemeConfig) -> bool {
    &&& c.name@.len() > 0
    &&& c.display_name@.len() > 0
    &&& spec_has_color(c.colors@, "primary-color"@)
    &&& spec_has_color(c.colors@, "bg-primary"@)
    &&& spec_has_color(c.colors@, "bg-secondary"@)
    &&& spec_has_color(c.colors@, "text-primary"@)
    &&& spec_has_color(c.colors@, "text-secondary"@)
    &&& forall|j: int| 0 <= j < c.colors@.len() ==> spec_color_value_ok((#[trigger] c.colors@[j]).1@)
}

} // verus!
