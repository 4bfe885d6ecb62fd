//! Settings: their defaults, the selection line colour, `~` expansion of the
//! save directory, and where the configuration file lives.

use vstd::prelude::*;
use crate::text::{chars_of, digit_value, digits_value, join_path, joined, parse_digits, sub_chars};

verus! {

broadcast use vstd::string::group_string_axioms;

/// The characters of an optional `String`.
pub open spec fn opt_chars(o: Option<String>) -> Option<Seq<char>> {
    match o {
        Some(s) => Some(s@),
        None => None,
    }
}

/// A directory, or `.` when there is none.
pub open spec fn or_dot(d: Option<Seq<char>>) -> Seq<char> {
    match d {
        Some(p) => p,
        None => seq!['.'],
    }
}

/// `s` without one leading `#`, if it has one.
pub open spec fn without_hash(s: Seq<char>) -> Seq<char> {
    if s.len() > 0 && s[0] == '#' {
        s.skip(1)
    } else {
        s
    }
}

/// The colour written as `#RRGGBB` or `RRGGBB`: after at most one `#`,
/// exactly six hexadecimal digits, read as one number.
pub open spec fn color_value(s: Seq<char>) -> Option<u32> {
    let t = without_hash(s);
    if t.len() != 6 {
        None
    } else {
        match digits_value(t, 16) {
            Some(v) => Some(v as u32),
            None => None,
        }
    }
}

/// Parse a colour string (`#RRGGBB` or `RRGGBB`) to a `u32`.
pub fn parse_color(s: &str) -> (r: Option<u32>)
    ensures
        r == color_value(s@),
{
    let c = chars_of(s);
    let start: usize = if c.len() > 0 && c[0] == '#' {
        1
    } else {
        0
    };
    let t = sub_chars(c.as_slice(), start, c.len());
    assert(t@ =~= without_hash(c@));
    if t.len() != 6 {
        return None;
    }
    proof {
        lemma_six_hex_digits_fit(t@);
    }
    parse_digits(t.as_slice(), 16, u32::MAX)
}

/// Six hexadecimal digits never exceed `0xFFFFFF`.
proof fn lemma_six_hex_digits_fit(t: Seq<char>)
    requires
        t.len() == 6,
    ensures
        digits_value(t, 16) matches Some(v) ==> v <= 0xFFFFFF,
{
    lemma_hex_digits_bound(t);
    reveal_with_fuel(hex_limit, 7);
    assert(hex_limit(6) == 0x1000000);
}

/// `16` to the power `n`.
spec fn hex_limit(n: nat) -> nat
    decreases n,
{
    if n == 0 {
        1
    } else {
        16 * hex_limit((n - 1) as nat)
    }
}

proof fn lemma_hex_digits_bound(t: Seq<char>)
    ensures
        digits_value(t, 16) matches Some(v) ==> v < hex_limit(t.len()),
    decreases t.len(),
{
    reveal_with_fuel(hex_limit, 2);
    if t.len() > 1 {
        lemma_hex_digits_bound(t.drop_last());
        if let Some(v) = digits_value(t, 16) {
            let p = hex_limit((t.len() - 1) as nat);
            let a = digits_value(t.drop_last(), 16)->0;
            let l = digit_value(t.last(), 16)->0;
            assert(v == a * 16 + l);
            assert(a * 16 + l < p * 16) by (nonlinear_arith)
                requires
                    a < p,
                    l < 16,
            ;
        }
    }
}

/// A colour parses the same with a leading `#` and without it, when the
/// rest does not start with another `#`.
pub proof fn lemma_color_hash_optional(s: Seq<char>)
    requires
        s.len() == 0 || s[0] != '#',
    ensures
        color_value(seq!['#'] + s) == color_value(s),
{
    assert((seq!['#'] + s).skip(1) =~= s);
}

/// Main configuration.
pub struct Config {
    /// General settings.
    pub general: GeneralSettings,
    /// Selection overlay settings.
    pub selection: SelectionSettings,
    /// Naming settings.
    pub naming: NamingSettings,
}

/// General screenshot settings.
pub struct GeneralSettings {
    /// Directory to save screenshots.
    pub save_dir: String,
    /// Default output format (png, jpeg, webp, ppm).
    pub format: String,
    /// JPEG/WebP quality (1-100).
    pub quality: u8,
    /// Include the cursor in screenshots by default.
    pub include_cursor: bool,
}

/// Selection overlay settings.
pub struct SelectionSettings {
    /// Blur radius in pixels.
    pub blur_radius: usize,
    /// Selection line colour (`#RRGGBB`).
    pub line_color: String,
    /// Selection line width in pixels.
    pub line_width: u32,
}

/// Naming settings for screenshot file names.
pub struct NamingSettings {
    /// File name pattern with strftime tokens and `%n`, `%N`, `%w`.
    pub pattern: String,
}

/// The default save directory: `Screenshots` under the pictures directory,
/// or under `.` when there is none.
pub open spec fn screenshots_dir(pictures: Option<Seq<char>>) -> Seq<char> {
    joined(or_dot(pictures), "Screenshots"@)
}

/// Calls `dirs::picture_dir`. The answer depends on the environment and on
/// the user's directory settings, so nothing is claimed of it; the path is
/// turned into text with `to_string_lossy`.
#[verifier::external_body]
fn picture_dir() -> (r: Option<String>) {
    match dirs::picture_dir() {
        Some(p) => Some(p.to_string_lossy().into_owned()),
        None => None,
    }
}

/// Calls `dirs::home_dir`. The answer depends on the environment, so nothing
/// is claimed of it; the path is turned into text with `to_string_lossy`.
#[verifier::external_body]
fn home_dir() -> (r: Option<String>) {
    match dirs::home_dir() {
        Some(p) => Some(p.to_string_lossy().into_owned()),
        None => None,
    }
}

/// Calls `dirs::config_dir`. The answer depends on the environment, so
/// nothing is claimed of it; the path is turned into text with
/// `to_string_lossy`.
#[verifier::external_body]
fn config_dir() -> (r: Option<String>) {
    match dirs::config_dir() {
        Some(p) => Some(p.to_string_lossy().into_owned()),
        None => None,
    }
}

/// General settings with defaults, the save directory placed under the
/// pictures directory `pictures`.
pub fn general_settings_in(pictures: Option<String>) -> (r: GeneralSettings)
    ensures
        r.save_dir@ == screenshots_dir(opt_chars(pictures)),
        r.format@ == "png"@,
        r.quality == 90,
        !r.include_cursor,
{
    let base = match pictures {
        Some(p) => p,
        None => ".".to_string(),
    };
    proof {
        reveal_strlit(".");
    }
    GeneralSettings {
        save_dir: join_path(base.as_str(), "Screenshots"),
        format: "png".to_string(),
        quality: 90,
        include_cursor: false,
    }
}

impl Default for GeneralSettings {
    fn default() -> (r: Self)
        ensures
            exists|d: Option<Seq<char>>| r.save_dir@ == #[trigger] screenshots_dir(d),
            r.format@ == "png"@,
            r.quality == 90,
            !r.include_cursor,
    {
        let pictures = picture_dir();
        let r = general_settings_in(pictures);
        assert(r.save_dir@ == screenshots_dir(opt_chars(pictures)));
        r
    }
}

impl Default for SelectionSettings {
    fn default() -> (r: Self)
        ensures
            r.blur_radius == 15,
            r.line_color@ == "#ff6600"@,
            r.line_width == 2,
    {
        SelectionSettings { blur_radius: 15, line_color: "#ff6600".to_string(), line_width: 2 }
    }
}

impl Default for NamingSettings {
    fn default() -> (r: Self)
        ensures
            r.pattern@ == "screenshot-%Y%m%d-%H%M%S"@,
    {
        NamingSettings { pattern: "screenshot-%Y%m%d-%H%M%S".to_string() }
    }
}

impl Default for Config {
    fn default() -> (r: Self)
        ensures
            exists|d: Option<Seq<char>>| r.general.save_dir@ == #[trigger] screenshots_dir(d),
            r.general.format@ == "png"@,
            r.general.quality == 90,
            !r.general.include_cursor,
            r.selection.blur_radius == 15,
            r.selection.line_color@ == "#ff6600"@,
            r.selection.line_width == 2,
            r.naming.pattern@ == "screenshot-%Y%m%d-%H%M%S"@,
    {
        Config {
            general: GeneralSettings::default(),
            selection: SelectionSettings::default(),
            naming: NamingSettings::default(),
        }
    }
}

impl SelectionSettings {
    /// The line colour as a `u32` RGB value, orange (`0xFF6600`) when the
    /// setting does not parse.
    pub fn line_color_u32(&self) -> (r: u32)
        ensures
            r == match color_value(self.line_color@) {
                Some(v) => v,
                None => 0xFF6600u32,
            },
    {
        match parse_color(self.line_color.as_str()) {
            Some(v) => v,
            None => 0xFF6600,
        }
    }
}

/// `path` with a leading `~` replaced by the home directory `home` (`.` when
/// there is none): `~` alone becomes the home directory, and `~/rest`
/// becomes `rest` joined onto it; any other path is unchanged.
pub open spec fn tilde_expanded(path: Seq<char>, home: Option<Seq<char>>) -> Seq<char> {
    if path.len() == 1 && path[0] == '~' {
        or_dot(home)
    } else if path.len() >= 2 && path[0] == '~' && path[1] == '/' {
        joined(or_dot(home), path.skip(2))
    } else {
        path
    }
}

/// Expand a leading `~` in `path` against the home directory `home`.
pub fn expand_tilde_in(path: &str, home: Option<String>) -> (r: String)
    ensures
        r@ == tilde_expanded(path@, opt_chars(home)),
{
    let p = chars_of(path);
    let base = match home {
        Some(h) => h,
        None => ".".to_string(),
    };
    proof {
        reveal_strlit(".");
    }
    if p.len() == 1 && p[0] == '~' {
        base
    } else if p.len() >= 2 && p[0] == '~' && p[1] == '/' {
        let rest = sub_chars(p.as_slice(), 2, p.len());
        assert(rest@ =~= path@.skip(2));
        let rest_text = crate::text::string_of(rest.as_slice());
        join_path(base.as_str(), rest_text.as_str())
    } else {
        path.to_string()
    }
}

/// Expand a leading `~` in `path` to the user's home directory.
pub fn expand_tilde(path: &str) -> (r: String)
    ensures
        exists|home: Option<Seq<char>>| r@ == #[trigger] tilde_expanded(path@, home),
{
    let home = home_dir();
    let r = expand_tilde_in(path, home);
    assert(r@ == tilde_expanded(path@, opt_chars(home)));
    r
}

/// Where the configuration file lives, under the configuration directory
/// `dir` (`.` when there is none).
pub open spec fn config_file_in(dir: Option<Seq<char>>) -> Seq<char> {
    joined(joined(or_dot(dir), "garshot"@), "config.toml"@)
}

/// The configuration file's path under the configuration directory `dir`.
pub fn config_path_in(dir: Option<String>) -> (r: String)
    ensures
        r@ == config_file_in(opt_chars(dir)),
{
    let base = match dir {
        Some(d) => d,
        None => ".".to_string(),
    };
    proof {
        reveal_strlit(".");
    }
    let app_dir = join_path(base.as_str(), "garshot");
    join_path(app_dir.as_str(), "config.toml")
}

/// The configuration file's path.
pub fn config_path() -> (r: String)
    ensures
        exists|dir: Option<Seq<char>>| r@ == #[trigger] config_file_in(dir),
{
    let dir = config_dir();
    let r = config_path_in(dir);
    assert(r@ == config_file_in(opt_chars(dir)));
    r
}

} // verus!
