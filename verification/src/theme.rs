//! Theme configuration: colors and styles parsed from their text form.
use vstd::prelude::*;

use crate::text::{
    chars_of, is_ws, parse_unsigned, slice_chars, split_whitespace_chars, str_eq, string_from_chars, trim_range,
    trim_back, trim_front, trimmed, words,
};

verus! {

/// Raw theme configuration. All fields are optional; absent fields fall back
/// to the defaults of `Theme::default_theme`.
#[derive(Debug, Default)]
pub struct ThemeConfig {
    pub border: Option<String>,
    pub border_focused: Option<String>,
    pub border_interact: Option<String>,
    pub title: Option<String>,
    pub label: Option<String>,
    pub value: Option<String>,
    pub gauge_fill: Option<String>,
    pub gauge_bg: Option<String>,
    pub sparkline: Option<String>,
    pub ok: Option<String>,
    pub warning: Option<String>,
    pub critical: Option<String>,
    pub header_bg: Option<String>,
    pub header_fg: Option<String>,
    pub error_fg: Option<String>,
}

pub open spec fn opt_view(o: Option<String>) -> Option<Seq<char>> {
    match o {
        Some(s) => Some(s@),
        None => None,
    }
}

pub fn clone_opt_string(o: &Option<String>) -> (r: Option<String>)
    ensures
        opt_view(r) == opt_view(*o),
{
    match o {
        Some(s) => Some(s.clone()),
        None => None,
    }
}

impl ThemeConfig {
    pub open spec fn same_as(&self, other: &ThemeConfig) -> bool {
        &&& opt_view(self.border) == opt_view(other.border)
        &&& opt_view(self.border_focused) == opt_view(other.border_focused)
        &&& opt_view(self.border_interact) == opt_view(other.border_interact)
        &&& opt_view(self.title) == opt_view(other.title)
        &&& opt_view(self.label) == opt_view(other.label)
        &&& opt_view(self.value) == opt_view(other.value)
        &&& opt_view(self.gauge_fill) == opt_view(other.gauge_fill)
        &&& opt_view(self.gauge_bg) == opt_view(other.gauge_bg)
        &&& opt_view(self.sparkline) == opt_view(other.sparkline)
        &&& opt_view(self.ok) == opt_view(other.ok)
        &&& opt_view(self.warning) == opt_view(other.warning)
        &&& opt_view(self.critical) == opt_view(other.critical)
        &&& opt_view(self.header_bg) == opt_view(other.header_bg)
        &&& opt_view(self.header_fg) == opt_view(other.header_fg)
        &&& opt_view(self.error_fg) == opt_view(other.error_fg)
    }

    pub fn duplicate(&self) -> (r: ThemeConfig)
        ensures
            r.same_as(self),
    {
        ThemeConfig {
            border: clone_opt_string(&self.border),
            border_focused: clone_opt_string(&self.border_focused),
            border_interact: clone_opt_string(&self.border_interact),
            title: clone_opt_string(&self.title),
            label: clone_opt_string(&self.label),
            value: clone_opt_string(&self.value),
            gauge_fill: clone_opt_string(&self.gauge_fill),
            gauge_bg: clone_opt_string(&self.gauge_bg),
            sparkline: clone_opt_string(&self.sparkline),
            ok: clone_opt_string(&self.ok),
            warning: clone_opt_string(&self.warning),
            critical: clone_opt_string(&self.critical),
            header_bg: clone_opt_string(&self.header_bg),
            header_fg: clone_opt_string(&self.header_fg),
            error_fg: clone_opt_string(&self.error_fg),
        }
    }
}


// ─── Colors and styles ───────────────────────────────────────────────────────

#[derive(Debug, Clone, Copy, PartialEq, Eq, Structural)]
pub enum Color {
    Black,
    Red,
    Green,
    Yellow,
    Blue,
    Magenta,
    Cyan,
    Gray,
    DarkGray,
    LightRed,
    LightGreen,
    LightYellow,
    LightBlue,
    LightMagenta,
    LightCyan,
    White,
    Indexed(u8),
    Rgb(u8, u8, u8),
}

/// A foreground color and the modifiers added to text.
#[derive(Debug, Clone, Copy, PartialEq, Eq, Structural)]
pub struct Style {
    pub fg: Option<Color>,
    pub bold: bool,
    pub italic: bool,
    pub underlined: bool,
    pub dim: bool,
}

impl Style {
    pub open spec fn plain() -> Style {
        Style { fg: None, bold: false, italic: false, underlined: false, dim: false }
    }

    /// No color and no modifiers.
    pub fn new() -> (r: Style)
        ensures
            r == Style::plain(),
    {
        Style { fg: None, bold: false, italic: false, underlined: false, dim: false }
    }

    /// This style with foreground `c`.
    pub fn with_fg(self, c: Color) -> (r: Style)
        ensures
            r == (Style { fg: Some(c), ..self }),
    {
        Style { fg: Some(c), ..self }
    }
}

/// Why a color or style string is refused.
#[derive(Debug, PartialEq)]
pub enum ThemeError {
    /// `#` not followed by exactly six bytes.
    HexLength { hex: String },
    /// `#` followed by six bytes that are not three hex pairs.
    InvalidHex { hex: String },
    /// `color(...)` around something that is not a `u8`.
    InvalidPaletteIndex { inner: String },
    /// Not a color name.
    UnknownColor { name: String },
    /// A second color in a style string.
    TokenAfterColor { token: String },
}

pub enum ThemeErrorView {
    HexLength { hex: Seq<char> },
    InvalidHex { hex: Seq<char> },
    InvalidPaletteIndex { inner: Seq<char> },
    UnknownColor { name: Seq<char> },
    TokenAfterColor { token: Seq<char> },
}

impl View for ThemeError {
    type V = ThemeErrorView;

    open spec fn view(&self) -> ThemeErrorView {
        match self {
            ThemeError::HexLength { hex } => ThemeErrorView::HexLength { hex: hex@ },
            ThemeError::InvalidHex { hex } => ThemeErrorView::InvalidHex { hex: hex@ },
            ThemeError::InvalidPaletteIndex { inner } => ThemeErrorView::InvalidPaletteIndex { inner: inner@ },
            ThemeError::UnknownColor { name } => ThemeErrorView::UnknownColor { name: name@ },
            ThemeError::TokenAfterColor { token } => ThemeErrorView::TokenAfterColor { token: token@ },
        }
    }
}

/// The number of bytes `c` takes in UTF-8.
pub open spec fn utf8_width(c: char) -> nat {
    if (c as u32) < 0x80 {
        1
    } else if (c as u32) < 0x800 {
        2
    } else if (c as u32) < 0x10000 {
        3
    } else {
        4
    }
}

/// The number of bytes `s` takes in UTF-8.
pub open spec fn utf8_len(s: Seq<char>) -> nat
    decreases s.len(),
{
    if s.len() == 0 {
        0
    } else {
        utf8_width(s[0]) + utf8_len(s.drop_first())
    }
}


pub open spec fn hex_value(c: char) -> Option<nat> {
    if '0' <= c && c <= '9' {
        Some(((c as nat) - ('0' as nat)) as nat)
    } else if 'a' <= c && c <= 'f' {
        Some(((c as nat) - ('a' as nat) + 10) as nat)
    } else if 'A' <= c && c <= 'F' {
        Some(((c as nat) - ('A' as nat) + 10) as nat)
    } else {
        None
    }
}

/// What `u8::from_str_radix(p, 16)` gives for a two-character string:
/// two hex digits, or `+` and one hex digit.
pub open spec fn hex_pair(a: char, b: char) -> Option<u8> {
    if a == '+' {
        match hex_value(b) {
            Some(v) => Some(v as u8),
            None => None,
        }
    } else {
        match (hex_value(a), hex_value(b)) {
            (Some(x), Some(y)) => Some((x * 16 + y) as u8),
            _ => None,
        }
    }
}

/// The named colors.
pub open spec fn named_color(s: Seq<char>) -> Option<Color> {
    if s == "black"@ {
        Some(Color::Black)
    } else if s == "red"@ {
        Some(Color::Red)
    } else if s == "green"@ {
        Some(Color::Green)
    } else if s == "yellow"@ {
        Some(Color::Yellow)
    } else if s == "blue"@ {
        Some(Color::Blue)
    } else if s == "magenta"@ {
        Some(Color::Magenta)
    } else if s == "cyan"@ {
        Some(Color::Cyan)
    } else if s == "white"@ {
        Some(Color::White)
    } else if s == "gray"@ {
        Some(Color::Gray)
    } else if s == "dark_gray"@ {
        Some(Color::DarkGray)
    } else if s == "light_red"@ {
        Some(Color::LightRed)
    } else if s == "light_green"@ {
        Some(Color::LightGreen)
    } else if s == "light_yellow"@ {
        Some(Color::LightYellow)
    } else if s == "light_blue"@ {
        Some(Color::LightBlue)
    } else if s == "light_magenta"@ {
        Some(Color::LightMagenta)
    } else if s == "light_cyan"@ {
        Some(Color::LightCyan)
    } else {
        None
    }
}

/// The color a string names: `#rrggbb`, `color(N)` or a name; surrounding
/// whitespace is ignored.
pub open spec fn parse_color_spec(s: Seq<char>) -> Result<Color, ThemeErrorView> {
    let t = trimmed(s);
    if t.len() > 0 && t[0] == '#' {
        let hex = t.drop_first();
        if utf8_len(hex) != 6 {
            Err(ThemeErrorView::HexLength { hex })
        } else if hex.len() == 6 {
            match (hex_pair(hex[0], hex[1]), hex_pair(hex[2], hex[3]), hex_pair(hex[4], hex[5])) {
                (Some(r), Some(g), Some(b)) => Ok(Color::Rgb(r, g, b)),
                _ => Err(ThemeErrorView::InvalidHex { hex }),
            }
        } else {
            Err(ThemeErrorView::InvalidHex { hex })
        }
    } else if t.len() >= 7 && t.subrange(0, 6) == "color("@ && t.last() == ')' {
        let inner = t.subrange(6, t.len() - 1);
        match parse_unsigned(inner) {
            Some(n) => if n <= 255 {
                Ok(Color::Indexed(n as u8))
            } else {
                Err(ThemeErrorView::InvalidPaletteIndex { inner })
            },
            None => Err(ThemeErrorView::InvalidPaletteIndex { inner }),
        }
    } else {
        match named_color(t) {
            Some(c) => Ok(c),
            None => Err(ThemeErrorView::UnknownColor { name: t }),
        }
    }
}

fn hex_value_exec(c: char) -> (r: Option<u32>)
    ensures
        match hex_value(c) {
            Some(v) => r == Some(v as u32),
            None => r is None,
        },
{
    if '0' <= c && c <= '9' {
        Some(c as u32 - '0' as u32)
    } else if 'a' <= c && c <= 'f' {
        Some(c as u32 - 'a' as u32 + 10)
    } else if 'A' <= c && c <= 'F' {
        Some(c as u32 - 'A' as u32 + 10)
    } else {
        None
    }
}

fn hex_pair_exec(a: char, b: char) -> (r: Option<u8>)
    ensures
        r == hex_pair(a, b),
{
    if a == '+' {
        match hex_value_exec(b) {
            Some(v) => Some(v as u8),
            None => None,
        }
    } else {
        match (hex_value_exec(a), hex_value_exec(b)) {
            (Some(x), Some(y)) => Some((x * 16 + y) as u8),
            _ => None,
        }
    }
}

pub(crate) fn utf8_width_exec(c: char) -> (r: usize)
    ensures
        r == utf8_width(c),
{
    if (c as u32) < 0x80 {
        1
    } else if (c as u32) < 0x800 {
        2
    } else if (c as u32) < 0x10000 {
        3
    } else {
        4
    }
}

pub(crate) proof fn lemma_utf8_len_take(s: Seq<char>, i: int)
    requires
        0 <= i < s.len(),
    ensures
        utf8_len(s.take(i + 1)) == utf8_len(s.take(i)) + utf8_width(s[i]),
    decreases i,
{
    if i == 0 {
        assert(s.take(1).drop_first() =~= Seq::<char>::empty());
        assert(s.take(0) =~= Seq::<char>::empty());
    } else {
        lemma_utf8_len_take(s.drop_first(), i - 1);
        assert(s.take(i + 1).drop_first() =~= s.drop_first().take(i));
        assert(s.take(i).drop_first() =~= s.drop_first().take(i - 1));
    }
}

/// The UTF-8 length of `v[lo..hi]`, or more than `cap` if it exceeds `cap`.
fn utf8_len_capped(v: &Vec<char>, lo: usize, hi: usize, cap: usize) -> (r: usize)
    requires
        lo <= hi <= v.len(),
        cap < usize::MAX - 4,
    ensures
        r <= cap ==> r == utf8_len(v@.subrange(lo as int, hi as int)),
        r > cap ==> utf8_len(v@.subrange(lo as int, hi as int)) > cap,
{
    let ghost s = v@.subrange(lo as int, hi as int);
    let mut total: usize = 0;
    let mut i = lo;
    while i < hi
        invariant
            lo <= i <= hi <= v.len(),
            s == v@.subrange(lo as int, hi as int),
            total <= cap,
            cap < usize::MAX - 4,
            total == utf8_len(s.take(i - lo)),
        decreases hi - i,
    {
        proof {
            lemma_utf8_len_take(s, i - lo);
            assert(s[i - lo] == v@[i as int]);
        }
        total = total + utf8_width_exec(v[i]);
        i += 1;
        if total > cap {
            proof {
                lemma_utf8_len_prefix_le(s, i - lo);
            }
            return total;
        }
    }
    assert(s.take(hi - lo) =~= s);
    total
}

proof fn lemma_utf8_len_prefix_le(s: Seq<char>, k: int)
    requires
        0 <= k <= s.len(),
    ensures
        utf8_len(s.take(k)) <= utf8_len(s),
    decreases s.len() - k,
{
    if k < s.len() {
        lemma_utf8_len_take(s, k);
        lemma_utf8_len_prefix_le(s, k + 1);
    } else {
        assert(s.take(k) =~= s);
    }
}

fn named_color_exec(v: &Vec<char>, lo: usize, hi: usize) -> (r: Option<Color>)
    requires
        lo <= hi <= v.len(),
    ensures
        r == named_color(v@.subrange(lo as int, hi as int)),
{
    let t = string_from_chars(&slice_chars(v, lo, hi));
    let s = t.as_str();
    if str_eq(s, "black") {
        Some(Color::Black)
    } else if str_eq(s, "red") {
        Some(Color::Red)
    } else if str_eq(s, "green") {
        Some(Color::Green)
    } else if str_eq(s, "yellow") {
        Some(Color::Yellow)
    } else if str_eq(s, "blue") {
        Some(Color::Blue)
    } else if str_eq(s, "magenta") {
        Some(Color::Magenta)
    } else if str_eq(s, "cyan") {
        Some(Color::Cyan)
    } else if str_eq(s, "white") {
        Some(Color::White)
    } else if str_eq(s, "gray") {
        Some(Color::Gray)
    } else if str_eq(s, "dark_gray") {
        Some(Color::DarkGray)
    } else if str_eq(s, "light_red") {
        Some(Color::LightRed)
    } else if str_eq(s, "light_green") {
        Some(Color::LightGreen)
    } else if str_eq(s, "light_yellow") {
        Some(Color::LightYellow)
    } else if str_eq(s, "light_blue") {
        Some(Color::LightBlue)
    } else if str_eq(s, "light_magenta") {
        Some(Color::LightMagenta)
    } else if str_eq(s, "light_cyan") {
        Some(Color::LightCyan)
    } else {
        None
    }
}

/// Parses a color: `#rrggbb` (hex), `color(N)` (256-color palette index)
/// or a name such as `cyan`, `dark_gray` or `light_red`.
pub fn parse_color(s: &str) -> (r: Result<Color, ThemeError>)
    ensures
        match r {
            Ok(c) => parse_color_spec(s@) == Ok::<Color, ThemeErrorView>(c),
            Err(e) => parse_color_spec(s@) == Err::<Color, ThemeErrorView>(e@),
        },
{
    let v = chars_of(s);
    let (lo, hi) = trim_range(&v, 0, v.len());
    assert(v@.subrange(0, v@.len() as int) =~= v@);
    let ghost t = trimmed(s@);
    assert(t == v@.subrange(lo as int, hi as int));
    if lo < hi && v[lo] == '#' {
        let ghost hex = t.drop_first();
        assert(hex =~= v@.subrange(lo + 1, hi as int));
        let n = utf8_len_capped(&v, lo + 1, hi, 6);
        let hex_s = string_from_chars(&slice_chars(&v, lo + 1, hi));
        if n != 6 {
            return Err(ThemeError::HexLength { hex: hex_s });
        }
        if hi - (lo + 1) == 6 {
            let a = lo + 1;
            match (hex_pair_exec(v[a], v[a + 1]), hex_pair_exec(v[a + 2], v[a + 3]), hex_pair_exec(v[a + 4], v[a + 5])) {
                (Some(r), Some(g), Some(b)) => return Ok(Color::Rgb(r, g, b)),
                _ => return Err(ThemeError::InvalidHex { hex: hex_s }),
            }
        }
        return Err(ThemeError::InvalidHex { hex: hex_s });
    }
    proof {
        reveal_strlit("color(");
    }
    if hi - lo >= 7 && crate::text::range_eq(&v, lo, lo + 6, "color(") && v[hi - 1] == ')' {
        assert(t.subrange(0, 6) =~= v@.subrange(lo as int, lo + 6));
        let inner = slice_chars(&v, lo + 6, hi - 1);
        assert(inner@ =~= t.subrange(6, t.len() - 1));
        let inner_s = string_from_chars(&inner);
        match crate::text::parse_u64_chars(&inner) {
            Some(n) => {
                if n <= 255 {
                    return Ok(Color::Indexed(n as u8));
                }
                return Err(ThemeError::InvalidPaletteIndex { inner: inner_s });
            },
            None => return Err(ThemeError::InvalidPaletteIndex { inner: inner_s }),
        }
    }
    proof {
        if hi - lo >= 7 {
            assert(t.subrange(0, 6) =~= v@.subrange(lo as int, lo + 6));
            assert(t.last() == v@[hi - 1]);
        }
        if lo < hi {
            assert(t[0] == v@[lo as int]);
        }
    }
    match named_color_exec(&v, lo, hi) {
        Some(c) => Ok(c),
        None => Err(ThemeError::UnknownColor { name: string_from_chars(&slice_chars(&v, lo, hi)) }),
    }
}


/// The style the tokens `toks[0..n]` build: modifier words add modifiers,
/// the first other token is the color, and a second one is an error.
pub open spec fn style_of(toks: Seq<Seq<char>>, n: int) -> Result<(Style, bool), ThemeErrorView>
    decreases n,
{
    if n <= 0 {
        Ok((Style::plain(), false))
    } else {
        match style_of(toks, n - 1) {
            Err(e) => Err(e),
            Ok((st, color_set)) => {
                let tok = toks[n - 1];
                if tok == "bold"@ {
                    Ok((Style { bold: true, ..st }, color_set))
                } else if tok == "italic"@ {
                    Ok((Style { italic: true, ..st }, color_set))
                } else if tok == "underline"@ {
                    Ok((Style { underlined: true, ..st }, color_set))
                } else if tok == "dim"@ {
                    Ok((Style { dim: true, ..st }, color_set))
                } else if color_set {
                    Err(ThemeErrorView::TokenAfterColor { token: tok })
                } else {
                    match parse_color_spec(tok) {
                        Ok(c) => Ok((Style { fg: Some(c), ..st }, true)),
                        Err(e) => Err(e),
                    }
                }
            },
        }
    }
}

pub open spec fn parse_style_spec(s: Seq<char>) -> Result<Style, ThemeErrorView> {
    let toks = words(s);
    match style_of(toks, toks.len() as int) {
        Ok((st, _)) => Ok(st),
        Err(e) => Err(e),
    }
}

/// Parses a style: space-separated tokens, where `bold`, `italic`,
/// `underline` and `dim` add modifiers and the one other token is the color.
pub fn parse_style(s: &str) -> (r: Result<Style, ThemeError>)
    ensures
        match r {
            Ok(st) => parse_style_spec(s@) == Ok::<Style, ThemeErrorView>(st),
            Err(e) => parse_style_spec(s@) == Err::<Style, ThemeErrorView>(e@),
        },
{
    let v = chars_of(s);
    let toks = split_whitespace_chars(&v);
    let ghost ts = toks@.map_values(|w: Vec<char>| w@);
    assert(ts == words(s@));
    let mut style = Style::new();
    let mut color_set = false;
    let mut i: usize = 0;
    while i < toks.len()
        invariant
            i <= toks.len(),
            ts == toks@.map_values(|w: Vec<char>| w@),
            ts == words(s@),
            style_of(ts, i as int) == Ok::<(Style, bool), ThemeErrorView>((style, color_set)),
        decreases toks.len() - i,
    {
        let tok = string_from_chars(&toks[i]);
        assert(tok@ == ts[i as int]);
        let t = tok.as_str();
        if str_eq(t, "bold") {
            style.bold = true;
        } else if str_eq(t, "italic") {
            style.italic = true;
        } else if str_eq(t, "underline") {
            style.underlined = true;
        } else if str_eq(t, "dim") {
            style.dim = true;
        } else {
            if color_set {
                proof {
                    lemma_style_err_stable(ts, i + 1);
                }
                return Err(ThemeError::TokenAfterColor { token: tok });
            }
            match parse_color(t) {
                Ok(c) => {
                    style = style.with_fg(c);
                    color_set = true;
                },
                Err(e) => {
                    proof {
                        lemma_style_err_stable(ts, i + 1);
                    }
                    return Err(e);
                },
            }
        }
        i += 1;
    }
    Ok(style)
}

proof fn lemma_style_err_stable(toks: Seq<Seq<char>>, k: int)
    requires
        0 <= k <= toks.len(),
        style_of(toks, k) is Err,
    ensures
        style_of(toks, toks.len() as int) == style_of(toks, k),
    decreases toks.len() - k,
{
    if k < toks.len() {
        lemma_style_err_stable(toks, k + 1);
    }
}

/// Styles and colors for every part of the screen.
#[derive(Debug, Clone, Copy, PartialEq, Eq, Structural)]
pub struct Theme {
    pub border: Style,
    pub border_focused: Style,
    pub border_interact: Style,
    pub title: Style,
    pub label: Style,
    pub value: Style,
    pub gauge_fill: Style,
    pub gauge_bg: Style,
    pub sparkline: Style,
    pub ok: Style,
    pub warning: Style,
    pub critical: Style,
    pub header_bg: Color,
    pub header_fg: Color,
    pub error_fg: Color,
}

pub open spec fn fg(c: Color) -> Style {
    Style { fg: Some(c), ..Style::plain() }
}

pub open spec fn default_theme_spec() -> Theme {
    Theme {
        border: fg(Color::Gray),
        border_focused: fg(Color::Cyan),
        border_interact: fg(Color::Yellow),
        title: Style { bold: true, ..fg(Color::White) },
        label: fg(Color::Gray),
        value: fg(Color::White),
        gauge_fill: fg(Color::Green),
        gauge_bg: fg(Color::DarkGray),
        sparkline: fg(Color::Cyan),
        ok: fg(Color::Green),
        warning: fg(Color::Yellow),
        critical: fg(Color::Red),
        header_bg: Color::DarkGray,
        header_fg: Color::White,
        error_fg: Color::Red,
    }
}

/// The style a setting gives: parsed when present, the default otherwise.
pub open spec fn resolve_style(o: Option<Seq<char>>, d: Style) -> Result<Style, ThemeErrorView> {
    match o {
        Some(s) => parse_style_spec(s),
        None => Ok(d),
    }
}

pub open spec fn resolve_color(o: Option<Seq<char>>, d: Color) -> Result<Color, ThemeErrorView> {
    match o {
        Some(s) => parse_color_spec(s),
        None => Ok(d),
    }
}

/// The theme a configuration gives: each setting that is present parsed,
/// the others from the defaults; the first bad setting (in field order)
/// is the error.
pub open spec fn theme_from_spec(c: ThemeConfigView) -> Result<Theme, ThemeErrorView> {
    let d = default_theme_spec();
    let styles = seq![
        resolve_style(c.border, d.border),
        resolve_style(c.border_focused, d.border_focused),
        resolve_style(c.border_interact, d.border_interact),
        resolve_style(c.title, d.title),
        resolve_style(c.label, d.label),
        resolve_style(c.value, d.value),
        resolve_style(c.gauge_fill, d.gauge_fill),
        resolve_style(c.gauge_bg, d.gauge_bg),
        resolve_style(c.sparkline, d.sparkline),
        resolve_style(c.ok, d.ok),
        resolve_style(c.warning, d.warning),
        resolve_style(c.critical, d.critical),
    ];
    let colors = seq![
        resolve_color(c.header_bg, d.header_bg),
        resolve_color(c.header_fg, d.header_fg),
        resolve_color(c.error_fg, d.error_fg),
    ];
    if exists|i: int| 0 <= i < 12 && (#[trigger] styles[i]) is Err {
        let i = choose|i: int| 0 <= i < 12 && (#[trigger] styles[i]) is Err && forall|j: int| 0 <= j < i ==> (#[trigger] styles[j]) is Ok;
        Err(styles[i]->Err_0)
    } else if exists|i: int| 0 <= i < 3 && (#[trigger] colors[i]) is Err {
        let i = choose|i: int| 0 <= i < 3 && (#[trigger] colors[i]) is Err && forall|j: int| 0 <= j < i ==> (#[trigger] colors[j]) is Ok;
        Err(colors[i]->Err_0)
    } else {
        Ok(Theme {
            border: styles[0]->Ok_0,
            border_focused: styles[1]->Ok_0,
            border_interact: styles[2]->Ok_0,
            title: styles[3]->Ok_0,
            label: styles[4]->Ok_0,
            value: styles[5]->Ok_0,
            gauge_fill: styles[6]->Ok_0,
            gauge_bg: styles[7]->Ok_0,
            sparkline: styles[8]->Ok_0,
            ok: styles[9]->Ok_0,
            warning: styles[10]->Ok_0,
            critical: styles[11]->Ok_0,
            header_bg: colors[0]->Ok_0,
            header_fg: colors[1]->Ok_0,
            error_fg: colors[2]->Ok_0,
        })
    }
}

/// The settings of a theme configuration, as text.
pub struct ThemeConfigView {
    pub border: Option<Seq<char>>,
    pub border_focused: Option<Seq<char>>,
    pub border_interact: Option<Seq<char>>,
    pub title: Option<Seq<char>>,
    pub label: Option<Seq<char>>,
    pub value: Option<Seq<char>>,
    pub gauge_fill: Option<Seq<char>>,
    pub gauge_bg: Option<Seq<char>>,
    pub sparkline: Option<Seq<char>>,
    pub ok: Option<Seq<char>>,
    pub warning: Option<Seq<char>>,
    pub critical: Option<Seq<char>>,
    pub header_bg: Option<Seq<char>>,
    pub header_fg: Option<Seq<char>>,
    pub error_fg: Option<Seq<char>>,
}

impl View for ThemeConfig {
    type V = ThemeConfigView;

    open spec fn view(&self) -> ThemeConfigView {
        ThemeConfigView {
            border: opt_view(self.border),
            border_focused: opt_view(self.border_focused),
            border_interact: opt_view(self.border_interact),
            title: opt_view(self.title),
            label: opt_view(self.label),
            value: opt_view(self.value),
            gauge_fill: opt_view(self.gauge_fill),
            gauge_bg: opt_view(self.gauge_bg),
            sparkline: opt_view(self.sparkline),
            ok: opt_view(self.ok),
            warning: opt_view(self.warning),
            critical: opt_view(self.critical),
            header_bg: opt_view(self.header_bg),
            header_fg: opt_view(self.header_fg),
            error_fg: opt_view(self.error_fg),
        }
    }
}


fn resolve_style_exec(o: &Option<String>, d: Style) -> (r: Result<Style, ThemeError>)
    ensures
        match r {
            Ok(st) => resolve_style(opt_view(*o), d) == Ok::<Style, ThemeErrorView>(st),
            Err(e) => resolve_style(opt_view(*o), d) == Err::<Style, ThemeErrorView>(e@),
        },
{
    match o {
        Some(s) => parse_style(s.as_str()),
        None => Ok(d),
    }
}

fn resolve_color_exec(o: &Option<String>, d: Color) -> (r: Result<Color, ThemeError>)
    ensures
        match r {
            Ok(c) => resolve_color(opt_view(*o), d) == Ok::<Color, ThemeErrorView>(c),
            Err(e) => resolve_color(opt_view(*o), d) == Err::<Color, ThemeErrorView>(e@),
        },
{
    match o {
        Some(s) => parse_color(s.as_str()),
        None => Ok(d),
    }
}

impl Theme {
    /// The built-in theme.
    pub fn default_theme() -> (r: Theme)
        ensures
            r == default_theme_spec(),
    {
        let plain = Style::new();
        Theme {
            border: plain.with_fg(Color::Gray),
            border_focused: plain.with_fg(Color::Cyan),
            border_interact: plain.with_fg(Color::Yellow),
            title: Style { bold: true, ..plain.with_fg(Color::White) },
            label: plain.with_fg(Color::Gray),
            value: plain.with_fg(Color::White),
            gauge_fill: plain.with_fg(Color::Green),
            gauge_bg: plain.with_fg(Color::DarkGray),
            sparkline: plain.with_fg(Color::Cyan),
            ok: plain.with_fg(Color::Green),
            warning: plain.with_fg(Color::Yellow),
            critical: plain.with_fg(Color::Red),
            header_bg: Color::DarkGray,
            header_fg: Color::White,
            error_fg: Color::Red,
        }
    }

    /// The theme of a configuration: each present setting parsed, the
    /// others taken from the built-in theme.
    pub fn from_config(config: &ThemeConfig) -> (r: Result<Theme, ThemeError>)
        ensures
            match r {
                Ok(t) => theme_from_spec(config@) == Ok::<Theme, ThemeErrorView>(t),
                Err(e) => theme_from_spec(config@) == Err::<Theme, ThemeErrorView>(e@),
            },
    {
        let d = Theme::default_theme();
        let ghost c = config@;
        let ghost styles = seq![
            resolve_style(c.border, d.border),
            resolve_style(c.border_focused, d.border_focused),
            resolve_style(c.border_interact, d.border_interact),
            resolve_style(c.title, d.title),
            resolve_style(c.label, d.label),
            resolve_style(c.value, d.value),
            resolve_style(c.gauge_fill, d.gauge_fill),
            resolve_style(c.gauge_bg, d.gauge_bg),
            resolve_style(c.sparkline, d.sparkline),
            resolve_style(c.ok, d.ok),
            resolve_style(c.warning, d.warning),
            resolve_style(c.critical, d.critical),
        ];
        let ghost colors = seq![
            resolve_color(c.header_bg, d.header_bg),
            resolve_color(c.header_fg, d.header_fg),
            resolve_color(c.error_fg, d.error_fg),
        ];
        let border = match resolve_style_exec(&config.border, d.border) {
            Ok(x) => x,
            Err(e) => {
                proof { lemma_first_err(styles, 0); }
                return Err(e);
            },
        };
        let border_focused = match resolve_style_exec(&config.border_focused, d.border_focused) {
            Ok(x) => x,
            Err(e) => {
                proof { lemma_first_err(styles, 1); }
                return Err(e);
            },
        };
        let border_interact = match resolve_style_exec(&config.border_interact, d.border_interact) {
            Ok(x) => x,
            Err(e) => {
                proof { lemma_first_err(styles, 2); }
                return Err(e);
            },
        };
        let title = match resolve_style_exec(&config.title, d.title) {
            Ok(x) => x,
            Err(e) => {
                proof { lemma_first_err(styles, 3); }
                return Err(e);
            },
        };
        let label = match resolve_style_exec(&config.label, d.label) {
            Ok(x) => x,
            Err(e) => {
                proof { lemma_first_err(styles, 4); }
                return Err(e);
            },
        };
        let value = match resolve_style_exec(&config.value, d.value) {
            Ok(x) => x,
            Err(e) => {
                proof { lemma_first_err(styles, 5); }
                return Err(e);
            },
        };
        let gauge_fill = match resolve_style_exec(&config.gauge_fill, d.gauge_fill) {
            Ok(x) => x,
            Err(e) => {
                proof { lemma_first_err(styles, 6); }
                return Err(e);
            },
        };
        let gauge_bg = match resolve_style_exec(&config.gauge_bg, d.gauge_bg) {
            Ok(x) => x,
            Err(e) => {
                proof { lemma_first_err(styles, 7); }
                return Err(e);
            },
        };
        let sparkline = match resolve_style_exec(&config.sparkline, d.sparkline) {
            Ok(x) => x,
            Err(e) => {
                proof { lemma_first_err(styles, 8); }
                return Err(e);
            },
        };
        let ok = match resolve_style_exec(&config.ok, d.ok) {
            Ok(x) => x,
            Err(e) => {
                proof { lemma_first_err(styles, 9); }
                return Err(e);
            },
        };
        let warning = match resolve_style_exec(&config.warning, d.warning) {
            Ok(x) => x,
            Err(e) => {
                proof { lemma_first_err(styles, 10); }
                return Err(e);
            },
        };
        let critical = match resolve_style_exec(&config.critical, d.critical) {
            Ok(x) => x,
            Err(e) => {
                proof { lemma_first_err(styles, 11); }
                return Err(e);
            },
        };
        proof {
            lemma_all_ok(styles);
        }
        let header_bg = match resolve_color_exec(&config.header_bg, d.header_bg) {
            Ok(x) => x,
            Err(e) => {
                proof { lemma_first_err(colors, 0); }
                return Err(e);
            },
        };
        let header_fg = match resolve_color_exec(&config.header_fg, d.header_fg) {
            Ok(x) => x,
            Err(e) => {
                proof { lemma_first_err(colors, 1); }
                return Err(e);
            },
        };
        let error_fg = match resolve_color_exec(&config.error_fg, d.error_fg) {
            Ok(x) => x,
            Err(e) => {
                proof { lemma_first_err(colors, 2); }
                return Err(e);
            },
        };
        proof {
            lemma_all_ok(colors);
        }
        Ok(Theme {
            border,
            border_focused,
            border_interact,
            title,
            label,
            value,
            gauge_fill,
            gauge_bg,
            sparkline,
            ok,
            warning,
            critical,
            header_bg,
            header_fg,
            error_fg,
        })
    }
}

proof fn lemma_first_err<T>(s: Seq<Result<T, ThemeErrorView>>, k: int)
    requires
        0 <= k < s.len(),
        s[k] is Err,
        forall|j: int| 0 <= j < k ==> (#[trigger] s[j]) is Ok,
    ensures
        exists|i: int| 0 <= i < s.len() && (#[trigger] s[i]) is Err,
        (choose|i: int| 0 <= i < s.len() && (#[trigger] s[i]) is Err && forall|j: int| 0 <= j < i ==> (#[trigger] s[j]) is Ok) == k,
{
    assert(s[k] is Err);
    let c = choose|i: int| 0 <= i < s.len() && (#[trigger] s[i]) is Err && forall|j: int| 0 <= j < i ==> (#[trigger] s[j]) is Ok;
    assert(0 <= k < s.len() && s[k] is Err && forall|j: int| 0 <= j < k ==> (#[trigger] s[j]) is Ok);
    if c < k {
        assert(s[c] is Ok);
    } else if c > k {
        assert(s[k] is Ok);
    }
}

proof fn lemma_all_ok<T>(s: Seq<Result<T, ThemeErrorView>>)
    requires
        forall|j: int| 0 <= j < s.len() ==> (#[trigger] s[j]) is Ok,
    ensures
        !exists|i: int| 0 <= i < s.len() && (#[trigger] s[i]) is Err,
{
}


// ─── Laws ────────────────────────────────────────────────────────────────────

/// The hex digits in order of value: `0`-`9`, then `a`-`f` (or `A`-`F`).
pub open spec fn hex_digits(upper: bool) -> Seq<char> {
    if upper {
        seq!['0', '1', '2', '3', '4', '5', '6', '7', '8', '9', 'A', 'B', 'C', 'D', 'E', 'F']
    } else {
        seq!['0', '1', '2', '3', '4', '5', '6', '7', '8', '9', 'a', 'b', 'c', 'd', 'e', 'f']
    }
}

/// `#` followed by six copies of the hex digit of value `v`, in either case,
/// is the gray `Rgb(17 v, 17 v, 17 v)`: every hex digit, `A`-`F` and `a`-`f`
/// included, is read with its value.
pub proof fn lemma_hex_digits_read(v: int, upper: bool)
    requires
        0 <= v < 16,
    ensures
        ({
            let d = hex_digits(upper)[v];
            parse_color_spec(seq!['#', d, d, d, d, d, d]) == Ok::<Color, ThemeErrorView>(
                Color::Rgb((v * 17) as u8, (v * 17) as u8, (v * 17) as u8),
            )
        }),
{
    let d = hex_digits(upper)[v];
    let s = seq!['#', d, d, d, d, d, d];
    assert(!is_ws(s[0]));
    assert(!is_ws(d)) by {
        assert(hex_digits(upper).contains(d));
    }
    assert(trim_front(s) == s);
    assert(trim_back(s) == s);
    let hex = s.drop_first();
    assert(hex =~= seq![d, d, d, d, d, d]);
    assert((d as u32) < 0x80);
    assert(utf8_len(hex) == 6) by {
        reveal_with_fuel(utf8_len, 7);
        assert(hex.drop_first() =~= seq![d, d, d, d, d]);
        assert(hex.drop_first().drop_first() =~= seq![d, d, d, d]);
        assert(hex.drop_first().drop_first().drop_first() =~= seq![d, d, d]);
        assert(hex.drop_first().drop_first().drop_first().drop_first() =~= seq![d, d]);
        assert(hex.drop_first().drop_first().drop_first().drop_first().drop_first() =~= seq![d]);
        assert(hex.drop_first().drop_first().drop_first().drop_first().drop_first().drop_first() =~= Seq::<char>::empty());
    }
    assert(hex_value(d) == Some(v as nat));
    assert(hex_pair(d, d) == Some((v * 17) as u8));
}

} // verus!
