use vstd::prelude::*;
use vstd::string::{StringExecFns, StringSliceAdditionalSpecFns};
use crate::json::{json_lookup, json_pointer_value, json_str, json_string};
use crate::text::{chars_of, decimal, decimal_of, join, join_chars, push_all, same_chars, string_of, trim_start_char, trim_start_char_chars, views};

verus! {

/// A base16 palette: sixteen colors as hex strings such as `"1e1e2e"`.
#[derive(Debug, Clone)]
pub struct Colors {
    /// background
    pub base00: String,
    /// surface
    pub base01: String,
    /// border inactive
    pub base02: String,
    /// muted text
    pub base03: String,
    /// subtle text
    pub base04: String,
    /// foreground
    pub base05: String,
    /// light fg
    pub base06: String,
    /// bright fg
    pub base07: String,
    /// red
    pub base08: String,
    /// orange
    pub base09: String,
    /// yellow
    pub base0a: String,
    /// green
    pub base0b: String,
    /// cyan
    pub base0c: String,
    /// blue (accent)
    pub base0d: String,
    /// purple
    pub base0e: String,
    /// brown
    pub base0f: String,
}

impl View for Colors {
    type V = Seq<Seq<char>>;

    /// The sixteen colors in order `base00` … `base0f`.
    open spec fn view(&self) -> Seq<Seq<char>> {
        seq![self.base00@, self.base01@, self.base02@, self.base03@, self.base04@, self.base05@, self.base06@, self.base07@, self.base08@, self.base09@, self.base0a@, self.base0b@, self.base0c@, self.base0d@, self.base0e@, self.base0f@]
    }
}

/// The views of a sequence of strings.
pub open spec fn string_views(v: Seq<String>) -> Seq<Seq<char>> {
    v.map_values(|s: String| s@)
}

impl Colors {
    /// The 16 base colors in order, as hex strings (for palette previews).
    pub fn swatches(&self) -> (r: Vec<String>)
        ensures
            string_views(r@) == self@,
    {
        let mut r: Vec<String> = Vec::new();
        r.push(self.base00.clone());
        r.push(self.base01.clone());
        r.push(self.base02.clone());
        r.push(self.base03.clone());
        r.push(self.base04.clone());
        r.push(self.base05.clone());
        r.push(self.base06.clone());
        r.push(self.base07.clone());
        r.push(self.base08.clone());
        r.push(self.base09.clone());
        r.push(self.base0a.clone());
        r.push(self.base0b.clone());
        r.push(self.base0c.clone());
        r.push(self.base0d.clone());
        r.push(self.base0e.clone());
        r.push(self.base0f.clone());
        assert(string_views(r@) =~= self@);
        r
    }

    /// Colors from a palette of sixteen hex strings.
    pub fn from_palette(p: &Vec<String>) -> (c: Colors)
        requires
            p@.len() == 16,
        ensures
            c@ == string_views(p@),
    {
        let c = Colors {
            base00: p[0].clone(),
            base01: p[1].clone(),
            base02: p[2].clone(),
            base03: p[3].clone(),
            base04: p[4].clone(),
            base05: p[5].clone(),
            base06: p[6].clone(),
            base07: p[7].clone(),
            base08: p[8].clone(),
            base09: p[9].clone(),
            base0a: p[10].clone(),
            base0b: p[11].clone(),
            base0c: p[12].clone(),
            base0d: p[13].clone(),
            base0e: p[14].clone(),
            base0f: p[15].clone(),
        };
        assert(c@ =~= string_views(p@));
        c
    }
}

/// The Catppuccin Mocha palette used when no other colors are configured.
pub open spec fn default_palette() -> Seq<Seq<char>> {
    seq!["1e1e2e"@, "313244"@, "45475a"@, "6c7086"@, "a6adc8"@, "cdd6f4"@, "f5e0dc"@, "b4befe"@, "f38ba8"@, "fab387"@, "f9e2af"@, "a6e3a1"@, "94e2d5"@, "89b4fa"@, "cba6f7"@, "f2cdcd"@]
}

/// The built-in default colors (Catppuccin Mocha).
pub fn default_colors() -> (c: Colors)
    ensures
        c@ == default_palette(),
{
    Colors {
        base00: String::from_str("1e1e2e"),
        base01: String::from_str("313244"),
        base02: String::from_str("45475a"),
        base03: String::from_str("6c7086"),
        base04: String::from_str("a6adc8"),
        base05: String::from_str("cdd6f4"),
        base06: String::from_str("f5e0dc"),
        base07: String::from_str("b4befe"),
        base08: String::from_str("f38ba8"),
        base09: String::from_str("fab387"),
        base0a: String::from_str("f9e2af"),
        base0b: String::from_str("a6e3a1"),
        base0c: String::from_str("94e2d5"),
        base0d: String::from_str("89b4fa"),
        base0e: String::from_str("cba6f7"),
        base0f: String::from_str("f2cdcd"),
    }
}

/// JSON Pointers to the sixteen colors of a palette object.
pub open spec fn color_pointers() -> Seq<Seq<char>> {
    seq!["/base00"@, "/base01"@, "/base02"@, "/base03"@, "/base04"@, "/base05"@, "/base06"@, "/base07"@, "/base08"@, "/base09"@, "/base0a"@, "/base0b"@, "/base0c"@, "/base0d"@, "/base0e"@, "/base0f"@]
}

/// JSON Pointers to the colors with an upper-case last letter (`base0A` …).
pub open spec fn upper_color_pointers() -> Seq<Seq<char>> {
    seq!["/base00"@, "/base01"@, "/base02"@, "/base03"@, "/base04"@, "/base05"@, "/base06"@, "/base07"@, "/base08"@, "/base09"@, "/base0A"@, "/base0B"@, "/base0C"@, "/base0D"@, "/base0E"@, "/base0F"@]
}

fn color_pointer(i: usize) -> (p: &'static str)
    requires
        i < 16,
    ensures
        p@ == color_pointers()[i as int],
{
    if i == 0 {
        "/base00"
    } else if i == 1 {
        "/base01"
    } else if i == 2 {
        "/base02"
    } else if i == 3 {
        "/base03"
    } else if i == 4 {
        "/base04"
    } else if i == 5 {
        "/base05"
    } else if i == 6 {
        "/base06"
    } else if i == 7 {
        "/base07"
    } else if i == 8 {
        "/base08"
    } else if i == 9 {
        "/base09"
    } else if i == 10 {
        "/base0a"
    } else if i == 11 {
        "/base0b"
    } else if i == 12 {
        "/base0c"
    } else if i == 13 {
        "/base0d"
    } else if i == 14 {
        "/base0e"
    } else {
        "/base0f"
    }
}

fn upper_color_pointer(i: usize) -> (p: &'static str)
    requires
        i < 16,
    ensures
        p@ == upper_color_pointers()[i as int],
{
    if i == 0 {
        "/base00"
    } else if i == 1 {
        "/base01"
    } else if i == 2 {
        "/base02"
    } else if i == 3 {
        "/base03"
    } else if i == 4 {
        "/base04"
    } else if i == 5 {
        "/base05"
    } else if i == 6 {
        "/base06"
    } else if i == 7 {
        "/base07"
    } else if i == 8 {
        "/base08"
    } else if i == 9 {
        "/base09"
    } else if i == 10 {
        "/base0A"
    } else if i == 11 {
        "/base0B"
    } else if i == 12 {
        "/base0C"
    } else if i == 13 {
        "/base0D"
    } else if i == 14 {
        "/base0E"
    } else {
        "/base0F"
    }
}

/// The palette that a JSON object holding the sixteen colors as strings
/// describes.
pub open spec fn palette_from_json(text: Seq<char>) -> Option<Seq<Seq<char>>> {
    if forall|i: int| 0 <= i < 16 ==> (#[trigger] json_str(text, color_pointers()[i])) is Some {
        Some(Seq::new(16, |i: int| json_str(text, color_pointers()[i])->0))
    } else {
        None
    }
}

fn palette_lookup(text: &str) -> (r: Option<Vec<String>>)
    ensures
        match r {
            Some(p) => p@.len() == 16 && palette_from_json(text@) == Some(string_views(p@)),
            None => palette_from_json(text@) is None,
        },
{
    let mut p: Vec<String> = Vec::new();
    let mut i: usize = 0;
    while i < 16
        invariant
            i <= 16,
            p@.len() == i,
            forall|j: int| 0 <= j < i ==> json_str(text@, color_pointers()[j]) == Some(p@[j]@),
        decreases 16 - i,
    {
        match json_string(text, color_pointer(i)) {
            Some(s) => p.push(s),
            None => {
                assert(json_str(text@, color_pointers()[i as int]) is None);
                return None;
            },
        }
        i += 1;
    }
    assert(string_views(p@) =~= Seq::new(16, |i: int| json_str(text@, color_pointers()[i])->0));
    Some(p)
}

/// A named base16 color scheme selectable in the Appearance tab.
#[derive(Debug, Clone)]
pub struct Theme {
    pub name: String,
    pub colors: Colors,
}

/// A theme as its name and palette.
pub open spec fn theme_view(t: Theme) -> (Seq<char>, Seq<Seq<char>>) {
    (t.name@, t.colors@)
}

pub open spec fn theme_views(v: Seq<Theme>) -> Seq<(Seq<char>, Seq<Seq<char>>)> {
    v.map_values(|t: Theme| theme_view(t))
}

/// The theme a JSON theme file describes: a string `name` and the sixteen
/// color strings `base00` … `base0f`, other members ignored.
pub open spec fn theme_from_json(text: Seq<char>) -> Option<(Seq<char>, Seq<Seq<char>>)> {
    match (json_str(text, "/name"@), palette_from_json(text)) {
        (Some(n), Some(p)) => Some((n, p)),
        _ => None,
    }
}

/// Parses a JSON theme file. It is read through serde_json's `Value`, which
/// keeps the last of a key given twice; such a file is taken, not refused.
pub fn parse_theme(s: &str) -> (r: Option<Theme>)
    ensures
        match r {
            Some(t) => theme_from_json(s@) == Some(theme_view(t)),
            None => theme_from_json(s@) is None,
        },
{
    let name = json_string(s, "/name");
    let palette = palette_lookup(s);
    match (name, palette) {
        (Some(n), Some(p)) => Some(Theme { name: n, colors: Colors::from_palette(&p) }),
        _ => None,
    }
}

/// The themes that the given JSON texts describe, in order, skipping those
/// that do not parse.
pub open spec fn themes_from_texts(ts: Seq<Seq<char>>) -> Seq<(Seq<char>, Seq<Seq<char>>)>
    decreases ts.len(),
{
    if ts.len() == 0 {
        seq![]
    } else {
        let rest = themes_from_texts(ts.drop_last());
        match theme_from_json(ts.last()) {
            Some(t) => rest.push(t),
            None => rest,
        }
    }
}

/// The bundled `catppuccin-mocha` scheme.
pub const CATPPUCCIN_MOCHA_JSON: &'static str = "{\"name\": \"Catppuccin Mocha\", \"base00\": \"1e1e2e\", \"base01\": \"313244\", \"base02\": \"45475a\", \"base03\": \"6c7086\", \"base04\": \"a6adc8\", \"base05\": \"cdd6f4\", \"base06\": \"f5e0dc\", \"base07\": \"b4befe\", \"base08\": \"f38ba8\", \"base09\": \"fab387\", \"base0a\": \"f9e2af\", \"base0b\": \"a6e3a1\", \"base0c\": \"94e2d5\", \"base0d\": \"89b4fa\", \"base0e\": \"cba6f7\", \"base0f\": \"f2cdcd\"}";

/// The bundled `catppuccin-latte` scheme.
pub const CATPPUCCIN_LATTE_JSON: &'static str = "{\"name\": \"Catppuccin Latte\", \"base00\": \"eff1f5\", \"base01\": \"e6e9ef\", \"base02\": \"ccd0da\", \"base03\": \"bcc0cc\", \"base04\": \"acb0be\", \"base05\": \"4c4f69\", \"base06\": \"dc8a78\", \"base07\": \"7287fd\", \"base08\": \"d20f39\", \"base09\": \"fe640b\", \"base0a\": \"df8e1d\", \"base0b\": \"40a02b\", \"base0c\": \"179299\", \"base0d\": \"1e66f5\", \"base0e\": \"8839ef\", \"base0f\": \"dd7878\"}";

/// The bundled `nord` scheme.
pub const NORD_JSON: &'static str = "{\"name\": \"Nord\", \"base00\": \"2e3440\", \"base01\": \"3b4252\", \"base02\": \"434c5e\", \"base03\": \"4c566a\", \"base04\": \"d8dee9\", \"base05\": \"e5e9f0\", \"base06\": \"eceff4\", \"base07\": \"8fbcbb\", \"base08\": \"bf616a\", \"base09\": \"d08770\", \"base0a\": \"ebcb8b\", \"base0b\": \"a3be8c\", \"base0c\": \"88c0d0\", \"base0d\": \"81a1c1\", \"base0e\": \"b48ead\", \"base0f\": \"5e81ac\"}";

/// The bundled `gruvbox-dark` scheme.
pub const GRUVBOX_DARK_JSON: &'static str = "{\"name\": \"Gruvbox Dark\", \"base00\": \"282828\", \"base01\": \"3c3836\", \"base02\": \"504945\", \"base03\": \"665c54\", \"base04\": \"bdae93\", \"base05\": \"d5c4a1\", \"base06\": \"ebdbb2\", \"base07\": \"fbf1c7\", \"base08\": \"fb4934\", \"base09\": \"fe8019\", \"base0a\": \"fabd2f\", \"base0b\": \"b8bb26\", \"base0c\": \"8ec07c\", \"base0d\": \"83a598\", \"base0e\": \"d3869b\", \"base0f\": \"d65d0e\"}";

/// The bundled `gruvbox-light` scheme.
pub const GRUVBOX_LIGHT_JSON: &'static str = "{\"name\": \"Gruvbox Light\", \"base00\": \"fbf1c7\", \"base01\": \"ebdbb2\", \"base02\": \"d5c4a1\", \"base03\": \"bdae93\", \"base04\": \"665c54\", \"base05\": \"504945\", \"base06\": \"3c3836\", \"base07\": \"282828\", \"base08\": \"9d0006\", \"base09\": \"af3a03\", \"base0a\": \"b57614\", \"base0b\": \"79740e\", \"base0c\": \"427b58\", \"base0d\": \"076678\", \"base0e\": \"8f3f71\", \"base0f\": \"d65d0e\"}";

/// The bundled `tokyo-night` scheme.
pub const TOKYO_NIGHT_JSON: &'static str = "{\"name\": \"Tokyo Night\", \"base00\": \"1a1b26\", \"base01\": \"16161e\", \"base02\": \"2f3549\", \"base03\": \"444b6a\", \"base04\": \"787c99\", \"base05\": \"a9b1d6\", \"base06\": \"cbccd1\", \"base07\": \"d5d6db\", \"base08\": \"c0caf5\", \"base09\": \"a9b1d6\", \"base0a\": \"0db9d7\", \"base0b\": \"9ece6a\", \"base0c\": \"b4f9f8\", \"base0d\": \"2ac3de\", \"base0e\": \"bb9af7\", \"base0f\": \"f7768e\"}";

/// The bundled `dracula` scheme.
pub const DRACULA_JSON: &'static str = "{\"name\": \"Dracula\", \"base00\": \"282936\", \"base01\": \"3a3c4e\", \"base02\": \"4d4f68\", \"base03\": \"626483\", \"base04\": \"62d6e8\", \"base05\": \"e9e9f4\", \"base06\": \"f1f2f8\", \"base07\": \"f7f7fb\", \"base08\": \"ea51b2\", \"base09\": \"b45bcf\", \"base0a\": \"00f769\", \"base0b\": \"ebff87\", \"base0c\": \"a1efe4\", \"base0d\": \"62d6e8\", \"base0e\": \"b45bcf\", \"base0f\": \"00f769\"}";

/// The bundled `rose-pine` scheme.
pub const ROSE_PINE_JSON: &'static str = "{\"name\": \"Rose Pine\", \"base00\": \"191724\", \"base01\": \"1f1d2e\", \"base02\": \"26233a\", \"base03\": \"6e6a86\", \"base04\": \"908caa\", \"base05\": \"e0def4\", \"base06\": \"e0def4\", \"base07\": \"524f67\", \"base08\": \"eb6f92\", \"base09\": \"f6c177\", \"base0a\": \"ebbcba\", \"base0b\": \"31748f\", \"base0c\": \"9ccfd8\", \"base0d\": \"c4a7e7\", \"base0e\": \"f6c177\", \"base0f\": \"524f67\"}";

/// The bundled `solarized-dark` scheme.
pub const SOLARIZED_DARK_JSON: &'static str = "{\"name\": \"Solarized Dark\", \"base00\": \"002b36\", \"base01\": \"073642\", \"base02\": \"586e75\", \"base03\": \"657b83\", \"base04\": \"839496\", \"base05\": \"93a1a1\", \"base06\": \"eee8d5\", \"base07\": \"fdf6e3\", \"base08\": \"dc322f\", \"base09\": \"cb4b16\", \"base0a\": \"b58900\", \"base0b\": \"859900\", \"base0c\": \"2aa198\", \"base0d\": \"268bd2\", \"base0e\": \"6c71c4\", \"base0f\": \"d33682\"}";

/// The bundled `solarized-light` scheme.
pub const SOLARIZED_LIGHT_JSON: &'static str = "{\"name\": \"Solarized Light\", \"base00\": \"fdf6e3\", \"base01\": \"eee8d5\", \"base02\": \"93a1a1\", \"base03\": \"839496\", \"base04\": \"657b83\", \"base05\": \"586e75\", \"base06\": \"073642\", \"base07\": \"002b36\", \"base08\": \"dc322f\", \"base09\": \"cb4b16\", \"base0a\": \"b58900\", \"base0b\": \"859900\", \"base0c\": \"2aa198\", \"base0d\": \"268bd2\", \"base0e\": \"6c71c4\", \"base0f\": \"d33682\"}";

/// The texts of the bundled theme files, in order.
pub open spec fn bundled_theme_texts() -> Seq<Seq<char>> {
    seq![CATPPUCCIN_MOCHA_JSON@, CATPPUCCIN_LATTE_JSON@, NORD_JSON@, GRUVBOX_DARK_JSON@, GRUVBOX_LIGHT_JSON@, TOKYO_NIGHT_JSON@, DRACULA_JSON@, ROSE_PINE_JSON@, SOLARIZED_DARK_JSON@, SOLARIZED_LIGHT_JSON@]
}

fn bundled_theme_text(i: usize) -> (t: &'static str)
    requires
        i < 10,
    ensures
        t@ == bundled_theme_texts()[i as int],
{
    if i == 0 {
        CATPPUCCIN_MOCHA_JSON
    } else if i == 1 {
        CATPPUCCIN_LATTE_JSON
    } else if i == 2 {
        NORD_JSON
    } else if i == 3 {
        GRUVBOX_DARK_JSON
    } else if i == 4 {
        GRUVBOX_LIGHT_JSON
    } else if i == 5 {
        TOKYO_NIGHT_JSON
    } else if i == 6 {
        DRACULA_JSON
    } else if i == 7 {
        ROSE_PINE_JSON
    } else if i == 8 {
        SOLARIZED_DARK_JSON
    } else {
        SOLARIZED_LIGHT_JSON
    }
}

/// The bundled base16 schemes that parse, in order.
pub fn bundled_themes() -> (r: Vec<Theme>)
    ensures
        theme_views(r@) == themes_from_texts(bundled_theme_texts()),
{
    let mut r: Vec<Theme> = Vec::new();
    let mut i: usize = 0;
    while i < 10
        invariant
            i <= 10,
            theme_views(r@) == themes_from_texts(bundled_theme_texts().take(i as int)),
        decreases 10 - i,
    {
        let ghost pre = r@;
        let text = bundled_theme_text(i);
        proof {
            assert(bundled_theme_texts().take(i + 1).drop_last() =~= bundled_theme_texts().take(
                i as int,
            ));
        }
        match parse_theme(text) {
            Some(t) => {
                r.push(t);
                assert(theme_views(r@) =~= theme_views(pre).push(theme_view(t)));
            },
            None => {},
        }
        i += 1;
    }
    assert(bundled_theme_texts().take(10) =~= bundled_theme_texts());
    r
}

/// All selectable themes: the bundled schemes followed by the user's own
/// (those that the caller read from `~/.config/vitobar/themes/*.json`).
pub fn available_themes(user: Vec<Theme>) -> (r: Vec<Theme>)
    ensures
        theme_views(r@) == themes_from_texts(bundled_theme_texts()) + theme_views(user@),
{
    let mut themes = bundled_themes();
    let ghost b = themes@;
    let ghost u = user@;
    let mut user = user;
    themes.append(&mut user);
    assert(themes@ =~= b + u);
    assert(theme_views(themes@) =~= theme_views(b) + theme_views(u));
    themes
}

/// One Stylix palette entry: the lower-case key wins when present; when it is
/// absent the upper-case spelling (`base0A` …) is tried; the value must be a
/// string, and leading `#`s are dropped.
pub open spec fn stylix_entry(text: Seq<char>, i: int) -> Option<Seq<char>> {
    match json_pointer_value(text, color_pointers()[i]) {
        Some(Some(s)) => Some(trim_start_char(s, '#')),
        Some(None) => None,
        None => match json_pointer_value(text, upper_color_pointers()[i]) {
            Some(Some(s)) => Some(trim_start_char(s, '#')),
            _ => None,
        },
    }
}

/// The palette of a Stylix `palette.json`, when all sixteen entries are there.
pub open spec fn stylix_palette(text: Seq<char>) -> Option<Seq<Seq<char>>> {
    if forall|i: int| 0 <= i < 16 ==> (#[trigger] stylix_entry(text, i)) is Some {
        Some(Seq::new(16, |i: int| stylix_entry(text, i)->0))
    } else {
        None
    }
}

fn without_hashes(s: String) -> (r: String)
    ensures
        r@ == trim_start_char(s@, '#'),
{
    let cs = chars_of(s.as_str());
    let t = trim_start_char_chars(cs.as_slice(), '#');
    string_of(t.as_slice())
}

/// The current Stylix palette, read from the text of
/// `~/.config/stylix/palette.json`.
pub fn stylix_colors(palette_json: &str) -> (r: Option<Colors>)
    ensures
        match r {
            Some(c) => stylix_palette(palette_json@) == Some(c@),
            None => stylix_palette(palette_json@) is None,
        },
{
    let mut p: Vec<String> = Vec::new();
    let mut i: usize = 0;
    while i < 16
        invariant
            i <= 16,
            p@.len() == i,
            forall|j: int| 0 <= j < i ==> stylix_entry(palette_json@, j) == Some(p@[j]@),
        decreases 16 - i,
    {
        let entry = match json_lookup(palette_json, color_pointer(i)) {
            Some(Some(s)) => Some(without_hashes(s)),
            Some(None) => None,
            None => match json_lookup(palette_json, upper_color_pointer(i)) {
                Some(Some(s)) => Some(without_hashes(s)),
                _ => None,
            },
        };
        match entry {
            Some(s) => p.push(s),
            None => {
                assert(stylix_entry(palette_json@, i as int) is None);
                return None;
            },
        }
        i += 1;
    }
    let c = Colors::from_palette(&p);
    assert(string_views(p@) =~= Seq::new(16, |i: int| stylix_entry(palette_json@, i)->0));
    Some(c)
}

/// The palette of the first theme called `name`.
pub open spec fn palette_named(ts: Seq<(Seq<char>, Seq<Seq<char>>)>, name: Seq<char>) -> Option<
    Seq<Seq<char>>,
>
    decreases ts.len(),
{
    if ts.len() == 0 {
        None
    } else if ts[0].0 == name {
        Some(ts[0].1)
    } else {
        palette_named(ts.drop_first(), name)
    }
}

/// Which colors the bar uses: an explicitly selected theme that exists wins,
/// then the Stylix palette, then colors written in `config.toml`, then the
/// built-in defaults.
pub open spec fn chosen_palette(
    selected: Option<Seq<char>>,
    themes: Seq<(Seq<char>, Seq<Seq<char>>)>,
    stylix: Option<Seq<Seq<char>>>,
    toml: Option<Seq<Seq<char>>>,
) -> Seq<Seq<char>> {
    let picked = match selected {
        Some(n) => palette_named(themes, n),
        None => None,
    };
    if picked is Some {
        picked->0
    } else if stylix is Some {
        stylix->0
    } else if toml is Some {
        toml->0
    } else {
        default_palette()
    }
}

pub open spec fn opt_view<T: View>(o: Option<T>) -> Option<T::V> {
    match o {
        Some(x) => Some(x@),
        None => None,
    }
}

pub open spec fn opt_str_view(o: Option<&str>) -> Option<Seq<char>> {
    match o {
        Some(s) => Some(s@),
        None => None,
    }
}

/// Chooses the colors as `Config::load` does, from the selected theme name,
/// the available themes, the Stylix palette and the colors of `config.toml`.
pub fn select_colors(
    selected: Option<&str>,
    themes: &Vec<Theme>,
    stylix: Option<Colors>,
    toml_colors: Option<Colors>,
) -> (c: Colors)
    ensures
        c@ == chosen_palette(
            opt_str_view(selected),
            theme_views(themes@),
            opt_view(stylix),
            opt_view(toml_colors),
        ),
{
    if selected.is_some() {
        let name = selected.unwrap();
        let want = chars_of(name);
        let mut i: usize = 0;
        assert(themes@.subrange(0, themes@.len() as int) =~= themes@);
        while i < themes.len()
            invariant
                i <= themes@.len(),
                want@ == name@,
                opt_str_view(selected) == Some(name@),
                palette_named(theme_views(themes@), name@) == palette_named(
                    theme_views(themes@.subrange(i as int, themes@.len() as int)),
                    name@,
                ),
            decreases themes.len() - i,
        {
            let ghost rest = themes@.subrange(i as int, themes@.len() as int);
            let have = chars_of(themes[i].name.as_str());
            if same_chars(have.as_slice(), want.as_slice()) {
                assert(theme_views(rest).len() > 0);
                assert(theme_views(rest)[0] == theme_view(themes@[i as int]));
                assert(theme_views(rest)[0].0 == name@);
                let c = themes[i].colors.clone_colors();
                assert(palette_named(theme_views(rest), name@) == Some(c@));
                assert(palette_named(theme_views(themes@), name@) == Some(c@));
                assert(opt_str_view(selected) == Some(name@));
                assert(c@ == chosen_palette(opt_str_view(selected), theme_views(themes@), opt_view(stylix), opt_view(toml_colors)));
                return c;
            }
            assert(theme_views(rest).drop_first() =~= theme_views(
                themes@.subrange(i + 1, themes@.len() as int),
            ));
            i += 1;
        }
        assert(theme_views(themes@.subrange(i as int, themes@.len() as int)) =~= seq![]);
    }
    match stylix {
        Some(c) => c,
        None => match toml_colors {
            Some(c) => c,
            None => default_colors(),
        },
    }
}

impl Colors {
    /// A copy of these colors.
    pub fn clone_colors(&self) -> (c: Colors)
        ensures
            c@ == self@,
    {
        Colors {
            base00: self.base00.clone(),
            base01: self.base01.clone(),
            base02: self.base02.clone(),
            base03: self.base03.clone(),
            base04: self.base04.clone(),
            base05: self.base05.clone(),
            base06: self.base06.clone(),
            base07: self.base07.clone(),
            base08: self.base08.clone(),
            base09: self.base09.clone(),
            base0a: self.base0a.clone(),
            base0b: self.base0b.clone(),
            base0c: self.base0c.clone(),
            base0d: self.base0d.clone(),
            base0e: self.base0e.clone(),
            base0f: self.base0f.clone(),
        }
    }
}

/// The bar's settings. Its floating-point settings (font size, opacity,
/// latitude, longitude, widget padding) are kept by the program around it.
#[derive(Debug, Clone)]
pub struct Config {
    pub colors: Colors,
    pub bar_height: Option<u32>,
    pub taskbar_height: Option<u32>,
    pub font_path: Option<String>,
    pub selected_theme: Option<String>,
    pub nightlight_mode: Option<String>,
    pub nightlight_temp: Option<u32>,
    pub nightlight_start: Option<u32>,
    pub nightlight_end: Option<u32>,
    pub idle_display_off: Option<u32>,
    pub idle_suspend: Option<u32>,
    pub idle_hibernate: Option<u32>,
    pub idle_poweroff: Option<u32>,
    pub widget_media_enabled: Option<bool>,
    pub widget_equalizer_enabled: Option<bool>,
    pub widget_weather_enabled: Option<bool>,
    pub widget_netspeed_enabled: Option<bool>,
    pub weather_location: Option<String>,
    pub weather_units: Option<String>,
}

/// Everything that may live in `config.toml` besides the floating-point
/// settings; every field optional so that a partial file still applies.
#[derive(Debug, Clone)]
pub struct TomlSettings {
    pub colors: Option<Colors>,
    pub bar_height: Option<u32>,
    pub taskbar_height: Option<u32>,
    pub font_path: Option<String>,
    pub selected_theme: Option<String>,
    pub nightlight_mode: Option<String>,
    pub nightlight_temp: Option<u32>,
    pub nightlight_start: Option<u32>,
    pub nightlight_end: Option<u32>,
    pub idle_display_off: Option<u32>,
    pub idle_suspend: Option<u32>,
    pub idle_hibernate: Option<u32>,
    pub idle_poweroff: Option<u32>,
    pub widget_media_enabled: Option<bool>,
    pub widget_equalizer_enabled: Option<bool>,
    pub widget_weather_enabled: Option<bool>,
    pub widget_netspeed_enabled: Option<bool>,
    pub weather_location: Option<String>,
    pub weather_units: Option<String>,
}

impl TomlSettings {
    /// Settings with nothing set.
    pub fn empty() -> (t: TomlSettings)
        ensures
            t.colors is None,
            t.bar_height is None,
            t.taskbar_height is None,
            t.font_path is None,
            t.selected_theme is None,
            t.nightlight_mode is None,
            t.nightlight_temp is None,
            t.nightlight_start is None,
            t.nightlight_end is None,
            t.idle_display_off is None,
            t.idle_suspend is None,
            t.idle_hibernate is None,
            t.idle_poweroff is None,
            t.widget_media_enabled is None,
            t.widget_equalizer_enabled is None,
            t.widget_weather_enabled is None,
            t.widget_netspeed_enabled is None,
            t.weather_location is None,
            t.weather_units is None,
    {
        TomlSettings {
            colors: None,
            bar_height: None,
            taskbar_height: None,
            font_path: None,
            selected_theme: None,
            nightlight_mode: None,
            nightlight_temp: None,
            nightlight_start: None,
            nightlight_end: None,
            idle_display_off: None,
            idle_suspend: None,
            idle_hibernate: None,
            idle_poweroff: None,
            widget_media_enabled: None,
            widget_equalizer_enabled: None,
            widget_weather_enabled: None,
            widget_netspeed_enabled: None,
            weather_location: None,
            weather_units: None,
        }
    }
}

pub open spec fn opt_string_view(o: Option<String>) -> Option<Seq<char>> {
    match o {
        Some(s) => Some(s@),
        None => None,
    }
}

fn clone_opt_string(o: &Option<String>) -> (r: Option<String>)
    ensures
        opt_string_view(r) == opt_string_view(*o),
{
    match o {
        Some(s) => Some(s.clone()),
        None => None,
    }
}

/// `o`, or `Some(d)` when it is `None`.
pub open spec fn or_some(o: Option<u32>, d: u32) -> Option<u32> {
    match o {
        Some(v) => Some(v),
        None => Some(d),
    }
}

/// `o`'s value, or `d`.
pub open spec fn unwrap_or_u32(o: Option<u32>, d: u32) -> u32 {
    match o {
        Some(v) => v,
        None => d,
    }
}

pub open spec fn unwrap_or_bool(o: Option<bool>, d: bool) -> bool {
    match o {
        Some(v) => v,
        None => d,
    }
}

pub open spec fn unwrap_or_str(o: Option<String>, d: Seq<char>) -> Seq<char> {
    match o {
        Some(v) => v@,
        None => d,
    }
}

impl Config {
    /// A configuration with the given colors and the settings of `ts`; the bar
    /// and taskbar heights default to 21.
    pub fn from_settings(colors: Colors, ts: &TomlSettings) -> (c: Config)
        ensures
            c.colors@ == colors@,
            c.bar_height == or_some(ts.bar_height, 21),
            c.taskbar_height == or_some(ts.taskbar_height, 21),
            opt_string_view(c.font_path) == opt_string_view(ts.font_path),
            opt_string_view(c.selected_theme) == opt_string_view(ts.selected_theme),
            opt_string_view(c.nightlight_mode) == opt_string_view(ts.nightlight_mode),
            c.nightlight_temp == ts.nightlight_temp,
            c.nightlight_start == ts.nightlight_start,
            c.nightlight_end == ts.nightlight_end,
            c.idle_display_off == ts.idle_display_off,
            c.idle_suspend == ts.idle_suspend,
            c.idle_hibernate == ts.idle_hibernate,
            c.idle_poweroff == ts.idle_poweroff,
            c.widget_media_enabled == ts.widget_media_enabled,
            c.widget_equalizer_enabled == ts.widget_equalizer_enabled,
            c.widget_weather_enabled == ts.widget_weather_enabled,
            c.widget_netspeed_enabled == ts.widget_netspeed_enabled,
            opt_string_view(c.weather_location) == opt_string_view(ts.weather_location),
            opt_string_view(c.weather_units) == opt_string_view(ts.weather_units),
    {
        Config {
            colors,
            bar_height: match ts.bar_height {
                Some(v) => Some(v),
                None => Some(21),
            },
            taskbar_height: match ts.taskbar_height {
                Some(v) => Some(v),
                None => Some(21),
            },
            font_path: clone_opt_string(&ts.font_path),
            selected_theme: clone_opt_string(&ts.selected_theme),
            nightlight_mode: clone_opt_string(&ts.nightlight_mode),
            nightlight_temp: ts.nightlight_temp,
            nightlight_start: ts.nightlight_start,
            nightlight_end: ts.nightlight_end,
            idle_display_off: ts.idle_display_off,
            idle_suspend: ts.idle_suspend,
            idle_hibernate: ts.idle_hibernate,
            idle_poweroff: ts.idle_poweroff,
            widget_media_enabled: ts.widget_media_enabled,
            widget_equalizer_enabled: ts.widget_equalizer_enabled,
            widget_weather_enabled: ts.widget_weather_enabled,
            widget_netspeed_enabled: ts.widget_netspeed_enabled,
            weather_location: clone_opt_string(&ts.weather_location),
            weather_units: clone_opt_string(&ts.weather_units),
        }
    }

    pub fn bar_h(&self) -> (h: u32)
        ensures
            h == unwrap_or_u32(self.bar_height, 21),
    {
        match self.bar_height {
            Some(v) => v,
            None => 21,
        }
    }

    pub fn taskbar_h(&self) -> (h: u32)
        ensures
            h == unwrap_or_u32(self.taskbar_height, 21),
    {
        match self.taskbar_height {
            Some(v) => v,
            None => 21,
        }
    }

    pub fn nightlight_mode(&self) -> (m: &str)
        ensures
            m@ == unwrap_or_str(self.nightlight_mode, "scheduled"@),
    {
        match &self.nightlight_mode {
            Some(s) => s.as_str(),
            None => "scheduled",
        }
    }

    /// The night-light color temperature, 4000 K unless set, kept within
    /// 1000–6500 K.
    pub fn nightlight_temp(&self) -> (t: u32)
        ensures
            t == clamp_u32(unwrap_or_u32(self.nightlight_temp, 4000), 1000, 6500),
    {
        let t = match self.nightlight_temp {
            Some(v) => v,
            None => 4000,
        };
        if t < 1000 {
            1000
        } else if t > 6500 {
            6500
        } else {
            t
        }
    }

    /// The hour night begins, 20 unless set, at most 23.
    pub fn nightlight_start(&self) -> (h: u32)
        ensures
            h == min_u32(unwrap_or_u32(self.nightlight_start, 20), 23),
    {
        let h = match self.nightlight_start {
            Some(v) => v,
            None => 20,
        };
        if h < 23 {
            h
        } else {
            23
        }
    }

    /// The hour night ends, 6 unless set, at most 23.
    pub fn nightlight_end(&self) -> (h: u32)
        ensures
            h == min_u32(unwrap_or_u32(self.nightlight_end, 6), 23),
    {
        let h = match self.nightlight_end {
            Some(v) => v,
            None => 6,
        };
        if h < 23 {
            h
        } else {
            23
        }
    }

    /// Minutes of idleness before this step (0 = disabled).
    pub fn idle_display_off(&self) -> (m: u32)
        ensures
            m == unwrap_or_u32(self.idle_display_off, 0),
    {
        match self.idle_display_off {
            Some(v) => v,
            None => 0,
        }
    }

    /// Minutes of idleness before this step (0 = disabled).
    pub fn idle_suspend(&self) -> (m: u32)
        ensures
            m == unwrap_or_u32(self.idle_suspend, 0),
    {
        match self.idle_suspend {
            Some(v) => v,
            None => 0,
        }
    }

    /// Minutes of idleness before this step (0 = disabled).
    pub fn idle_hibernate(&self) -> (m: u32)
        ensures
            m == unwrap_or_u32(self.idle_hibernate, 0),
    {
        match self.idle_hibernate {
            Some(v) => v,
            None => 0,
        }
    }

    /// Minutes of idleness before this step (0 = disabled).
    pub fn idle_poweroff(&self) -> (m: u32)
        ensures
            m == unwrap_or_u32(self.idle_poweroff, 0),
    {
        match self.idle_poweroff {
            Some(v) => v,
            None => 0,
        }
    }

    pub fn widget_media_enabled(&self) -> (b: bool)
        ensures
            b == unwrap_or_bool(self.widget_media_enabled, false),
    {
        match self.widget_media_enabled {
            Some(v) => v,
            None => false,
        }
    }

    pub fn widget_equalizer_enabled(&self) -> (b: bool)
        ensures
            b == unwrap_or_bool(self.widget_equalizer_enabled, false),
    {
        match self.widget_equalizer_enabled {
            Some(v) => v,
            None => false,
        }
    }

    pub fn widget_weather_enabled(&self) -> (b: bool)
        ensures
            b == unwrap_or_bool(self.widget_weather_enabled, false),
    {
        match self.widget_weather_enabled {
            Some(v) => v,
            None => false,
        }
    }

    pub fn widget_netspeed_enabled(&self) -> (b: bool)
        ensures
            b == unwrap_or_bool(self.widget_netspeed_enabled, false),
    {
        match self.widget_netspeed_enabled {
            Some(v) => v,
            None => false,
        }
    }

    pub fn weather_location(&self) -> (l: &str)
        ensures
            l@ == unwrap_or_str(self.weather_location, ""@),
    {
        match &self.weather_location {
            Some(s) => s.as_str(),
            None => "",
        }
    }

    pub fn weather_units(&self) -> (u: &str)
        ensures
            u@ == unwrap_or_str(self.weather_units, "C"@),
    {
        match &self.weather_units {
            Some(s) => s.as_str(),
            None => "C",
        }
    }
}

pub open spec fn clamp_u32(v: u32, lo: u32, hi: u32) -> u32 {
    if v < lo {
        lo
    } else if v > hi {
        hi
    } else {
        v
    }
}

pub open spec fn min_u32(a: u32, b: u32) -> u32 {
    if a < b {
        a
    } else {
        b
    }
}

impl Default for Config {
    /// The built-in colors, 21-pixel bars, nothing else set.
    fn default() -> (c: Config)
        ensures
            c.colors@ == default_palette(),
            c.bar_height == Some(21u32),
            c.taskbar_height == Some(21u32),
            c.font_path is None,
            c.selected_theme is None,
            c.nightlight_mode is None,
            c.nightlight_temp is None,
            c.nightlight_start is None,
            c.nightlight_end is None,
            c.idle_display_off is None,
            c.idle_suspend is None,
            c.idle_hibernate is None,
            c.idle_poweroff is None,
            c.widget_media_enabled is None,
            c.widget_equalizer_enabled is None,
            c.widget_weather_enabled is None,
            c.widget_netspeed_enabled is None,
            c.weather_location is None,
            c.weather_units is None,
    {
        Config {
            colors: default_colors(),
            bar_height: Some(21),
            taskbar_height: Some(21),
            font_path: None,
            selected_theme: None,
            nightlight_mode: None,
            nightlight_temp: None,
            nightlight_start: None,
            nightlight_end: None,
            idle_display_off: None,
            idle_suspend: None,
            idle_hibernate: None,
            idle_poweroff: None,
            widget_media_enabled: None,
            widget_equalizer_enabled: None,
            widget_weather_enabled: None,
            widget_netspeed_enabled: None,
            weather_location: None,
            weather_units: None,
        }
    }
}

/// The `swayidle` clause for one idle step of `mins` minutes.
pub open spec fn idle_clause(mins: u32, action: Seq<char>) -> Seq<char> {
    "timeout "@ + decimal((mins * 60) as nat) + action
}

/// What the display-off step runs, and what undoes it.
pub open spec fn display_off_action() -> Seq<char> {
    " 'niri msg action power-off-monitors' resume 'niri msg action power-on-monitors'"@
}

/// A quoted command as a clause's action.
pub open spec fn quoted(cmd: Seq<char>) -> Seq<char> {
    " '"@ + cmd + "'"@
}

/// The clauses for the enabled idle steps, in order display-off, suspend,
/// hibernate, power-off.
pub open spec fn idle_clauses(c: Config) -> Seq<Seq<char>> {
    let d = unwrap_or_u32(c.idle_display_off, 0);
    let s = unwrap_or_u32(c.idle_suspend, 0);
    let h = unwrap_or_u32(c.idle_hibernate, 0);
    let p = unwrap_or_u32(c.idle_poweroff, 0);
    let a = if d > 0 { seq![idle_clause(d, display_off_action())] } else { seq![] };
    let b = if s > 0 { a.push(idle_clause(s, quoted("systemctl suspend"@))) } else { a };
    let e = if h > 0 { b.push(idle_clause(h, quoted("systemctl hibernate"@))) } else { b };
    if p > 0 {
        e.push(idle_clause(p, quoted("systemctl poweroff"@)))
    } else {
        e
    }
}

/// The idle minutes are small enough that their seconds fit in a `u32`.
pub open spec fn idle_seconds_fit(c: Config) -> bool {
    &&& unwrap_or_u32(c.idle_display_off, 0) * 60 <= u32::MAX
    &&& unwrap_or_u32(c.idle_suspend, 0) * 60 <= u32::MAX
    &&& unwrap_or_u32(c.idle_hibernate, 0) * 60 <= u32::MAX
    &&& unwrap_or_u32(c.idle_poweroff, 0) * 60 <= u32::MAX
}

fn idle_clause_of(mins: u32, action: &[char]) -> (r: Vec<char>)
    requires
        mins * 60 <= u32::MAX,
    ensures
        r@ == idle_clause(mins, action@),
{
    let mut r = chars_of("timeout ");
    let secs = decimal_of((mins * 60) as u64);
    push_all(&mut r, secs.as_slice());
    push_all(&mut r, action);
    r
}

fn quoted_of(cmd: &str) -> (r: Vec<char>)
    ensures
        r@ == quoted(cmd@),
{
    let mut r = chars_of(" '");
    let c = chars_of(cmd);
    push_all(&mut r, c.as_slice());
    let q = chars_of("'");
    push_all(&mut r, q.as_slice());
    r
}

impl Config {
    /// The `swayidle` invocation for the configured idle timeouts (each in
    /// minutes; 0 = disabled), or `None` when nothing is enabled. It kills any
    /// running swayidle first so that it can be re-applied live.
    pub fn idle_command(&self) -> (r: Option<String>)
        requires
            idle_seconds_fit(*self),
        ensures
            match r {
                Some(s) => idle_clauses(*self).len() > 0 && s@ == "pkill swayidle; swayidle -w "@
                    + join(idle_clauses(*self), " "@),
                None => idle_clauses(*self).len() == 0,
            },
    {
        let mut clauses: Vec<Vec<char>> = Vec::new();
        let d = self.idle_display_off();
        if d > 0 {
            let a = chars_of(" 'niri msg action power-off-monitors' resume 'niri msg action power-on-monitors'");
            let cl = idle_clause_of(d, a.as_slice());
            clauses.push(cl);
        }
        let s = self.idle_suspend();
        if s > 0 {
            let a = quoted_of("systemctl suspend");
            let cl = idle_clause_of(s, a.as_slice());
            clauses.push(cl);
        }
        let h = self.idle_hibernate();
        if h > 0 {
            let a = quoted_of("systemctl hibernate");
            let cl = idle_clause_of(h, a.as_slice());
            clauses.push(cl);
        }
        let p = self.idle_poweroff();
        if p > 0 {
            let a = quoted_of("systemctl poweroff");
            let cl = idle_clause_of(p, a.as_slice());
            clauses.push(cl);
        }
        assert(views(clauses@) =~= idle_clauses(*self));
        if clauses.len() == 0 {
            return None;
        }
        let mut out = chars_of("pkill swayidle; swayidle -w ");
        let sp = chars_of(" ");
        let joined = join_chars(&clauses, sp.as_slice());
        push_all(&mut out, joined.as_slice());
        Some(string_of(out.as_slice()))
    }
}

// ───────────────────────── hex colors ─────────────────────────

/// `b` without its leading `#` bytes.
pub open spec fn trim_hash(b: Seq<u8>) -> Seq<u8>
    decreases b.len(),
{
    if b.len() > 0 && b[0] == 35 {
        trim_hash(b.drop_first())
    } else {
        b
    }
}

/// The value of a hexadecimal digit byte, or -1.
pub open spec fn hex_value(b: u8) -> int {
    if 48 <= b <= 57 {
        b - 48
    } else if 97 <= b <= 102 {
        b - 87
    } else if 65 <= b <= 70 {
        b - 55
    } else {
        -1
    }
}

/// `u8::from_str_radix(s, 16).unwrap_or(0)` for the two bytes of `s`: an
/// optional `+` sign, then hexadecimal digits.
pub open spec fn hex_pair(b0: u8, b1: u8) -> u8 {
    if b0 == 43 {
        if hex_value(b1) >= 0 {
            hex_value(b1) as u8
        } else {
            0
        }
    } else if hex_value(b0) >= 0 && hex_value(b1) >= 0 {
        (hex_value(b0) * 16 + hex_value(b1)) as u8
    } else {
        0
    }
}

/// The color that `hex_to_rgba` reads from the UTF-8 bytes of its argument.
pub open spec fn hex_rgba(b: Seq<u8>) -> (u8, u8, u8, u8) {
    let t = trim_hash(b);
    if t.len() < 6 {
        (0, 0, 0, 255)
    } else {
        (hex_pair(t[0], t[1]), hex_pair(t[2], t[3]), hex_pair(t[4], t[5]), 255)
    }
}

/// The byte offsets 2, 4 and 6 at which the color is cut are character
/// boundaries (the slicing would panic otherwise).
pub open spec fn hex_cuts_on_boundaries(b: Seq<u8>) -> bool {
    let t = trim_hash(b);
    t.len() >= 6 ==> {
        &&& !vstd::utf8::is_continuation_byte(t[2])
        &&& !vstd::utf8::is_continuation_byte(t[4])
        &&& (t.len() == 6 || !vstd::utf8::is_continuation_byte(t[6]))
    }
}

fn hex_value_of(b: u8) -> (v: i32)
    ensures
        v == hex_value(b),
{
    if 48 <= b && b <= 57 {
        (b - 48) as i32
    } else if 97 <= b && b <= 102 {
        (b - 87) as i32
    } else if 65 <= b && b <= 70 {
        (b - 55) as i32
    } else {
        -1
    }
}

fn hex_pair_of(b0: u8, b1: u8) -> (v: u8)
    ensures
        v == hex_pair(b0, b1),
{
    let h1 = hex_value_of(b1);
    if b0 == 43 {
        if h1 >= 0 {
            h1 as u8
        } else {
            0
        }
    } else {
        let h0 = hex_value_of(b0);
        if h0 >= 0 && h1 >= 0 {
            (h0 * 16 + h1) as u8
        } else {
            0
        }
    }
}

/// Parses a hex color string like `"1e1e2e"` into `(r, g, b, a)`; leading
/// `#`s are skipped, a too-short string gives opaque black and an unreadable
/// component gives 0.
pub fn hex_to_rgba(hex: &str) -> (c: (u8, u8, u8, u8))
    requires
        hex_cuts_on_boundaries(hex.spec_bytes()),
    ensures
        c == hex_rgba(hex.spec_bytes()),
{
    let b = hex.as_bytes();
    let mut i: usize = 0;
    assert(b@.subrange(0, b@.len() as int) =~= b@);
    while i < b.len() && b[i] == 35
        invariant
            i <= b@.len(),
            trim_hash(b@) == trim_hash(b@.subrange(i as int, b@.len() as int)),
        decreases b.len() - i,
    {
        assert(b@.subrange(i as int, b@.len() as int).drop_first() =~= b@.subrange(
            i + 1,
            b@.len() as int,
        ));
        i += 1;
    }
    let ghost t = b@.subrange(i as int, b@.len() as int);
    if b.len() - i < 6 {
        return (0, 0, 0, 255);
    }
    assert(t[0] == b@[i as int] && t[1] == b@[i + 1] && t[2] == b@[i + 2]);
    assert(t[3] == b@[i + 3] && t[4] == b@[i + 4] && t[5] == b@[i + 5]);
    let r = hex_pair_of(b[i], b[i + 1]);
    let g = hex_pair_of(b[i + 2], b[i + 3]);
    let bl = hex_pair_of(b[i + 4], b[i + 5]);
    (r, g, bl, 255)
}

/// The ASCII byte of hexadecimal digit `d` (0–15), in upper or lower case.
pub open spec fn hex_digit_byte(d: int, upper: bool) -> u8 {
    if d < 10 {
        (48 + d) as u8
    } else if upper {
        (55 + d) as u8
    } else {
        (87 + d) as u8
    }
}

/// `x` as two hexadecimal digits (`{:02x}` or `{:02X}`).
pub open spec fn hex_byte_pair(x: u8, upper: bool) -> Seq<u8> {
    seq![hex_digit_byte((x / 16) as int, upper), hex_digit_byte((x % 16) as int, upper)]
}

/// The bytes of a colour written `rrggbb`, with a leading `#` when `hash`.
pub open spec fn color_hex(r: u8, g: u8, b: u8, upper: bool, hash: bool) -> Seq<u8> {
    (if hash {
        seq![35u8]
    } else {
        Seq::<u8>::empty()
    }) + hex_byte_pair(r, upper) + hex_byte_pair(g, upper) + hex_byte_pair(b, upper)
}

proof fn lemma_hex_pair_reads_back(x: u8, upper: bool)
    ensures
        hex_pair(hex_digit_byte((x / 16) as int, upper), hex_digit_byte((x % 16) as int, upper)) == x,
        hex_digit_byte((x / 16) as int, upper) != 35,
        hex_digit_byte((x % 16) as int, upper) != 35,
        !vstd::utf8::is_continuation_byte(hex_digit_byte((x / 16) as int, upper)),
        !vstd::utf8::is_continuation_byte(hex_digit_byte((x % 16) as int, upper)),
{
    let hi = x / 16;
    let lo = x % 16;
    assert(hi * 16 + lo == x);
    assert(hex_value(hex_digit_byte(hi as int, upper)) == hi);
    assert(hex_value(hex_digit_byte(lo as int, upper)) == lo);
    assert((hi * 16 + lo) as u8 == x);
}

/// A colour written as `rrggbb` or `#rrggbb`, in lower or upper case, reads
/// back as itself, fully opaque; and such a text is cut only on character
/// boundaries, so `hex_to_rgba` takes it.
pub proof fn lemma_hex_round_trip(r: u8, g: u8, b: u8, upper: bool, hash: bool)
    ensures
        hex_cuts_on_boundaries(color_hex(r, g, b, upper, hash)),
        hex_rgba(color_hex(r, g, b, upper, hash)) == (r, g, b, 255u8),
{
    lemma_hex_pair_reads_back(r, upper);
    lemma_hex_pair_reads_back(g, upper);
    lemma_hex_pair_reads_back(b, upper);
    let body = hex_byte_pair(r, upper) + hex_byte_pair(g, upper) + hex_byte_pair(b, upper);
    let s = color_hex(r, g, b, upper, hash);
    assert(trim_hash(body) == body) by {
        assert(body[0] == hex_digit_byte((r / 16) as int, upper));
    }
    if hash {
        assert(s.drop_first() =~= body);
        assert(s[0] == 35u8);
        assert(trim_hash(s) == trim_hash(s.drop_first()));
    } else {
        assert(s =~= body);
    }
    assert(trim_hash(s) == body);
    assert(body.len() == 6);
    assert(body[0] == hex_digit_byte((r / 16) as int, upper) && body[1] == hex_digit_byte((r % 16) as int, upper));
    assert(body[2] == hex_digit_byte((g / 16) as int, upper) && body[3] == hex_digit_byte((g % 16) as int, upper));
    assert(body[4] == hex_digit_byte((b / 16) as int, upper) && body[5] == hex_digit_byte((b % 16) as int, upper));
}

proof fn lemma_trim_hash_suffix(b: Seq<u8>)
    ensures
        trim_hash(b).len() <= b.len(),
        forall|i: int|
            0 <= i < trim_hash(b).len() ==> #[trigger] trim_hash(b)[i] == b[i + b.len() - trim_hash(b).len()],
    decreases b.len(),
{
    if b.len() > 0 && b[0] == 35 {
        lemma_trim_hash_suffix(b.drop_first());
    }
}

/// An ASCII colour text is always cut on character boundaries, so
/// `hex_to_rgba` takes any ASCII text.
pub proof fn lemma_ascii_hex_is_cut_on_boundaries(b: Seq<u8>)
    requires
        forall|i: int| 0 <= i < b.len() ==> #[trigger] b[i] < 128,
    ensures
        hex_cuts_on_boundaries(b),
{
    lemma_trim_hash_suffix(b);
    let t = trim_hash(b);
    let off = b.len() - t.len();
    if t.len() >= 6 {
        assert(t[2] == b[2 + off] && t[4] == b[4 + off]);
        if t.len() > 6 {
            assert(t[6] == b[6 + off]);
        }
    }
}


proof fn lemma_palette_named_first(ts: Seq<(Seq<char>, Seq<Seq<char>>)>, name: Seq<char>, k: int)
    requires
        0 <= k < ts.len(),
        ts[k].0 == name,
        forall|j: int| 0 <= j < k ==> (#[trigger] ts[j]).0 != name,
    ensures
        palette_named(ts, name) == Some(ts[k].1),
    decreases k,
{
    if k > 0 {
        assert(ts[0].0 != name);
        assert forall|j: int| 0 <= j < k - 1 implies (#[trigger] ts.drop_first()[j]).0 != name by {
            assert(ts.drop_first()[j] == ts[j + 1]);
        }
        lemma_palette_named_first(ts.drop_first(), name, k - 1);
    }
}

/// An explicit theme pick wins: when the selected name names an available
/// theme, the colours are those of the first theme of that name, whatever
/// the Stylix palette and the colours of `config.toml` are.
pub proof fn lemma_selected_theme_wins(
    themes: Seq<(Seq<char>, Seq<Seq<char>>)>,
    name: Seq<char>,
    k: int,
    stylix: Option<Seq<Seq<char>>>,
    toml: Option<Seq<Seq<char>>>,
)
    requires
        0 <= k < themes.len(),
        themes[k].0 == name,
        forall|j: int| 0 <= j < k ==> (#[trigger] themes[j]).0 != name,
    ensures
        chosen_palette(Some(name), themes, stylix, toml) == themes[k].1,
{
    lemma_palette_named_first(themes, name, k);
}

} // verus!
