//! The look of the window: the theme the user asked for, the palettes it leads
//! to, and how styled text is painted with one.
use vstd::prelude::*;

use crate::content::{CellKind, Span, StyledLine};
use crate::text::{self, chars_of, fold, spells, string_of};

verus! {

// ---------------------------------------------------------------------------
// The theme
// ---------------------------------------------------------------------------
/// Whether a window is dark or light.
#[derive(Debug, Clone, Copy, PartialEq, Eq, Structural)]
pub enum Shade {
    Dark,
    Light,
}

/// What the user asked for, as opposed to what is on screen.
#[derive(Debug, Clone, Copy, PartialEq, Eq, Structural)]
pub enum Theme {
    Dark,
    Light,
    /// Whatever the desktop is.
    System,
}

impl Default for Theme {
    fn default() -> (r: Theme)
        ensures
            r == Theme::System,
    {
        Theme::System
    }
}

/// The theme that `name` stands for, once the space around it and its case are
/// set aside.
pub open spec fn theme_named(name: Seq<char>) -> Option<Theme> {
    let n = text::folded(name);
    if n == "dark"@ {
        Some(Theme::Dark)
    } else if n == "light"@ {
        Some(Theme::Light)
    } else if n == "system"@ || n == "auto"@ {
        Some(Theme::System)
    } else {
        None
    }
}

impl Theme {
    /// How the theme is written.
    pub open spec fn name(self) -> Seq<char> {
        match self {
            Theme::Dark => "dark"@,
            Theme::Light => "light"@,
            Theme::System => "system"@,
        }
    }

    /// Every name that the settings file documents.
    pub fn names() -> (r: [&'static str; 3])
        ensures
            r@[0]@ == "dark"@,
            r@[1]@ == "light"@,
            r@[2]@ == "system"@,
    {
        ["dark", "light", "system"]
    }

    /// The theme that `value` stands for; `None` where it stands for none.
    pub fn parse(value: &str) -> (r: Option<Theme>)
        ensures
            r == theme_named(value@),
    {
        let n = fold(value);
        let n = n.as_slice();
        if spells(n, "dark") {
            Some(Theme::Dark)
        } else if spells(n, "light") {
            Some(Theme::Light)
        } else if spells(n, "system") || spells(n, "auto") {
            Some(Theme::System)
        } else {
            None
        }
    }

    /// How the theme is written to the file.
    pub fn as_str(self) -> (r: &'static str)
        ensures
            r@ == self.name(),
    {
        match self {
            Theme::Dark => "dark",
            Theme::Light => "light",
            Theme::System => "system",
        }
    }

    /// Which shade the theme means on a desktop of the shade `system`.
    pub open spec fn shade(self, system: Option<Shade>) -> Shade {
        match self {
            Theme::Dark => Shade::Dark,
            Theme::Light => Shade::Light,
            Theme::System => match system {
                Some(shade) => shade,
                None => Shade::Dark,
            },
        }
    }

    /// Which shade this means, given what the desktop says: dark where it does
    /// not say.
    pub fn resolve(self, system: Option<Shade>) -> (r: Shade)
        ensures
            r == self.shade(system),
    {
        match self {
            Theme::Dark => Shade::Dark,
            Theme::Light => Shade::Light,
            Theme::System => match system {
                Some(shade) => shade,
                None => Shade::Dark,
            },
        }
    }
}

// ---------------------------------------------------------------------------
// Colours
// ---------------------------------------------------------------------------
/// A colour, with its alpha already multiplied in.
#[derive(Debug, Clone, Copy, PartialEq, Eq, Structural)]
pub struct Color {
    pub r: u8,
    pub g: u8,
    pub b: u8,
    pub a: u8,
}

impl Color {
    /// The opaque colour with these parts.
    pub open spec fn opaque(r: u8, g: u8, b: u8) -> Color {
        Color { r, g, b, a: 255 }
    }

    /// The opaque colour with these parts.
    pub fn from_rgb(r: u8, g: u8, b: u8) -> (c: Color)
        ensures
            c == Color::opaque(r, g, b),
    {
        Color { r, g, b, a: 255 }
    }
}

/// The opaque colour that `hex` writes as `0xrrggbb`.
pub open spec fn rgb_of(hex: u32) -> Color {
    Color::opaque((hex / 0x10000 % 0x100) as u8, (hex / 0x100 % 0x100) as u8, (hex % 0x100) as u8)
}

fn rgb(hex: u32) -> (c: Color)
    ensures
        c == rgb_of(hex),
{
    Color {
        r: (hex / 0x10000 % 0x100) as u8,
        g: (hex / 0x100 % 0x100) as u8,
        b: (hex % 0x100) as u8,
        a: 255,
    }
}

/// One part of a colour, moved away from the background: towards white on a dark
/// one, towards black on a light one.
pub open spec fn shifted(c: u8, shade: Shade) -> int {
    match shade {
        Shade::Dark => c + (255 - c) * 18 / 100,
        Shade::Light => c - c * 18 / 100,
    }
}

/// The colour that bold text of the colour `color` is painted in.
pub open spec fn bolder(color: Color, shade: Shade) -> Color {
    Color {
        r: shifted(color.r, shade) as u8,
        g: shifted(color.g, shade) as u8,
        b: shifted(color.b, shade) as u8,
        a: color.a,
    }
}

fn shift(c: u8, shade: Shade) -> (r: u8)
    ensures
        r == shifted(c, shade),
{
    let c: u16 = c as u16;
    match shade {
        Shade::Dark => (c + (255 - c) * 18 / 100) as u8,
        Shade::Light => (c - c * 18 / 100) as u8,
    }
}

/// The colour that stands for `color` in bold: the fonts have no bold face.
pub fn brighten(color: Color, shade: Shade) -> (r: Color)
    ensures
        r == bolder(color, shade),
{
    Color {
        r: shift(color.r, shade),
        g: shift(color.g, shade),
        b: shift(color.b, shade),
        a: color.a,
    }
}

/// Every colour the window is painted with, in one of the two shades.
#[derive(Debug, Clone, Copy, PartialEq, Eq, Structural)]
pub struct Palette {
    /// Which shade this is.
    pub theme: Shade,
    /// Behind popups and menus.
    pub window: Color,
    /// The header, the footer and the browser pane.
    pub panel: Color,
    /// The preview surface.
    pub card: Color,
    /// Text fields and other wells.
    pub sunken: Color,
    /// Every other row of a grid.
    pub stripe: Color,
    /// Body text.
    pub text: Color,
    /// Text a rank above body text.
    pub strong: Color,
    /// Text a rank below body text.
    pub dim: Color,
    /// Rules between columns.
    pub faint: Color,
    /// Selection, focus and links.
    pub accent: Color,
    /// Hairlines.
    pub outline: Color,
    /// A button at rest.
    pub fill: Color,
    /// A button under the pointer.
    pub hover: Color,
    /// A button that is held.
    pub press: Color,
    /// The sheet that is shown.
    pub active: Color,
    /// Warnings.
    pub warn: Color,
    /// Errors.
    pub error: Color,
    /// A cell of text.
    pub cell_text: Color,
    /// A cell with a number.
    pub cell_number: Color,
    /// A cell with a boolean.
    pub cell_bool: Color,
    /// A cell with a date or a time.
    pub cell_date: Color,
    /// A cell with an error.
    pub cell_error: Color,
}

/// The colours of a dark window.
pub open spec fn dark_palette() -> Palette {
    Palette {
        theme: Shade::Dark,
        window: rgb_of(0x1c2027),
        panel: rgb_of(0x232830),
        card: rgb_of(0x2b303b),
        sunken: rgb_of(0x1f242c),
        stripe: rgb_of(0x323845),
        text: rgb_of(0xc0c5ce),
        strong: rgb_of(0xeff1f5),
        dim: rgb_of(0x8fa1b3),
        faint: rgb_of(0x65737e),
        accent: rgb_of(0x7aa2c8),
        outline: rgb_of(0x3b4351),
        fill: rgb_of(0x333b47),
        hover: rgb_of(0x3f4959),
        press: rgb_of(0x4b5668),
        active: rgb_of(0xa3be8c),
        warn: rgb_of(0xebcb8b),
        error: rgb_of(0xe08a92),
        cell_text: rgb_of(0xc0c5ce),
        cell_number: rgb_of(0xd08770),
        cell_bool: rgb_of(0xb48ead),
        cell_date: rgb_of(0x96b5b4),
        cell_error: rgb_of(0xbf616a),
    }
}

/// The colours of a light window.
pub open spec fn light_palette() -> Palette {
    Palette {
        theme: Shade::Light,
        window: rgb_of(0xf7f9fb),
        panel: rgb_of(0xe1e6ee),
        card: rgb_of(0xeff1f5),
        sunken: rgb_of(0xffffff),
        stripe: rgb_of(0xe4e8ef),
        text: rgb_of(0x343d46),
        strong: rgb_of(0x22282f),
        dim: rgb_of(0x5b6672),
        faint: rgb_of(0x949cab),
        accent: rgb_of(0x2f6096),
        outline: rgb_of(0xccd3de),
        fill: rgb_of(0xdfe4ec),
        hover: rgb_of(0xd2dae6),
        press: rgb_of(0xc3ccdb),
        active: rgb_of(0x46742c),
        warn: rgb_of(0x8a6100),
        error: rgb_of(0xa3232f),
        cell_text: rgb_of(0x4f5b66),
        cell_number: rgb_of(0x9c5426),
        cell_bool: rgb_of(0x7d4e93),
        cell_date: rgb_of(0x2f6f6d),
        cell_error: rgb_of(0xa3232f),
    }
}

impl Palette {
    /// The colour that a cell of this kind is painted in.
    pub open spec fn cell(&self, kind: CellKind) -> Color {
        match kind {
            CellKind::Text => self.cell_text,
            CellKind::Number => self.cell_number,
            CellKind::Bool => self.cell_bool,
            CellKind::Date => self.cell_date,
            CellKind::Error => self.cell_error,
        }
    }

    /// The colours of a dark window.
    pub fn dark() -> (r: Palette)
        ensures
            r == dark_palette(),
    {
        Palette {
            theme: Shade::Dark,
            window: rgb(0x1c2027),
            panel: rgb(0x232830),
            card: rgb(0x2b303b),
            sunken: rgb(0x1f242c),
            stripe: rgb(0x323845),
            text: rgb(0xc0c5ce),
            strong: rgb(0xeff1f5),
            dim: rgb(0x8fa1b3),
            faint: rgb(0x65737e),
            accent: rgb(0x7aa2c8),
            outline: rgb(0x3b4351),
            fill: rgb(0x333b47),
            hover: rgb(0x3f4959),
            press: rgb(0x4b5668),
            active: rgb(0xa3be8c),
            warn: rgb(0xebcb8b),
            error: rgb(0xe08a92),
            cell_text: rgb(0xc0c5ce),
            cell_number: rgb(0xd08770),
            cell_bool: rgb(0xb48ead),
            cell_date: rgb(0x96b5b4),
            cell_error: rgb(0xbf616a),
        }
    }

    /// The colours of a light window.
    pub fn light() -> (r: Palette)
        ensures
            r == light_palette(),
    {
        Palette {
            theme: Shade::Light,
            window: rgb(0xf7f9fb),
            panel: rgb(0xe1e6ee),
            card: rgb(0xeff1f5),
            sunken: rgb(0xffffff),
            stripe: rgb(0xe4e8ef),
            text: rgb(0x343d46),
            strong: rgb(0x22282f),
            dim: rgb(0x5b6672),
            faint: rgb(0x949cab),
            accent: rgb(0x2f6096),
            outline: rgb(0xccd3de),
            fill: rgb(0xdfe4ec),
            hover: rgb(0xd2dae6),
            press: rgb(0xc3ccdb),
            active: rgb(0x46742c),
            warn: rgb(0x8a6100),
            error: rgb(0xa3232f),
            cell_text: rgb(0x4f5b66),
            cell_number: rgb(0x9c5426),
            cell_bool: rgb(0x7d4e93),
            cell_date: rgb(0x2f6f6d),
            cell_error: rgb(0xa3232f),
        }
    }

    /// The colours of a window of this shade.
    pub open spec fn of(theme: Shade) -> Palette {
        match theme {
            Shade::Dark => dark_palette(),
            Shade::Light => light_palette(),
        }
    }

    /// The colours of a window of this shade.
    pub fn for_theme(theme: Shade) -> (r: Palette)
        ensures
            r == Palette::of(theme),
    {
        match theme {
            Shade::Dark => Palette::dark(),
            Shade::Light => Palette::light(),
        }
    }

    /// The colour that a cell of this kind is painted in.
    pub fn cell_color(&self, kind: CellKind) -> (r: Color)
        ensures
            r == self.cell(kind),
    {
        match kind {
            CellKind::Text => self.cell_text,
            CellKind::Number => self.cell_number,
            CellKind::Bool => self.cell_bool,
            CellKind::Date => self.cell_date,
            CellKind::Error => self.cell_error,
        }
    }

    /// The colour that stands for `color` in bold.
    pub fn emphasize(&self, color: Color) -> (r: Color)
        ensures
            r == bolder(color, self.theme),
    {
        brighten(color, self.theme)
    }

    /// The syntax theme that code is highlighted with; `None` for the default,
    /// which is a dark one.
    pub fn syntect_theme(&self) -> (r: Option<&'static str>)
        ensures
            r is Some <==> self.theme == Shade::Light,
            r is Some ==> r->0@ == LIGHT_SYNTECT_THEME@,
    {
        match self.theme {
            Shade::Dark => None,
            Shade::Light => Some(LIGHT_SYNTECT_THEME),
        }
    }
}

/// The syntax theme of a light window.
pub const LIGHT_SYNTECT_THEME: &'static str = "Catppuccin Latte";

// ---------------------------------------------------------------------------
// The colours of the widgets
// ---------------------------------------------------------------------------
/// How far every corner is rounded, in points.
pub const RADIUS: u8 = 6;

/// How a widget looks in one state.
#[derive(Debug, Clone, Copy, PartialEq, Eq, Structural)]
pub struct WidgetColors {
    /// What it is filled with.
    pub fill: Color,
    /// Its edge.
    pub edge: Color,
    /// What is written on it.
    pub ink: Color,
    /// How far its corners are rounded.
    pub radius: u8,
}

/// How every part of the window looks, by what the part is for.
#[derive(Debug, Clone, Copy, PartialEq, Eq, Structural)]
pub struct Visuals {
    /// Whether the window is a dark one.
    pub dark_mode: bool,
    /// What cannot be pressed: body text and separators.
    pub noninteractive: WidgetColors,
    /// A widget at rest.
    pub inactive: WidgetColors,
    /// A widget under the pointer.
    pub hovered: WidgetColors,
    /// A widget that is held; its ink is also that of strong text.
    pub active: WidgetColors,
    /// A menu that is open.
    pub open: WidgetColors,
    /// What a selection is tinted with.
    pub selection_fill: Color,
    /// Text in a selection.
    pub selection_ink: Color,
    pub panel_fill: Color,
    pub window_fill: Color,
    pub window_edge: Color,
    pub window_radius: u8,
    pub menu_radius: u8,
    pub extreme_bg_color: Color,
    pub faint_bg_color: Color,
    pub code_bg_color: Color,
    pub hyperlink_color: Color,
    pub warn_fg_color: Color,
    pub error_fg_color: Color,
    pub weak_text_color: Color,
    pub cursor: Color,
    /// The shadow under popups.
    pub shadow: Color,
}

/// How every part of the window looks with a palette: its colours, and one rounding
/// throughout.
pub open spec fn painted(p: Palette) -> Visuals {
    Visuals {
        dark_mode: p.theme == Shade::Dark,
        noninteractive: WidgetColors { fill: p.panel, edge: p.outline, ink: p.text, radius: RADIUS },
        inactive: WidgetColors { fill: p.fill, edge: p.outline, ink: p.text, radius: RADIUS },
        hovered: WidgetColors { fill: p.hover, edge: p.accent, ink: p.strong, radius: RADIUS },
        active: WidgetColors { fill: p.press, edge: p.accent, ink: p.strong, radius: RADIUS },
        open: WidgetColors { fill: p.press, edge: p.outline, ink: p.text, radius: RADIUS },
        selection_fill: p.accent,
        selection_ink: p.text,
        panel_fill: p.panel,
        window_fill: p.window,
        window_edge: p.outline,
        window_radius: RADIUS,
        menu_radius: RADIUS,
        extreme_bg_color: p.sunken,
        faint_bg_color: p.stripe,
        code_bg_color: p.card,
        hyperlink_color: p.accent,
        warn_fg_color: p.warn,
        error_fg_color: p.error,
        weak_text_color: p.dim,
        cursor: p.accent,
        shadow: Color {
            r: 0,
            g: 0,
            b: 0,
            a: if p.theme == Shade::Dark {
                96
            } else {
                28
            },
        },
    }
}

/// How every part of the window looks with `palette`.
pub fn visuals_of(palette: &Palette) -> (r: Visuals)
    ensures
        r == painted(*palette),
{
    let p = *palette;
    let dark = match p.theme {
        Shade::Dark => true,
        Shade::Light => false,
    };
    Visuals {
        dark_mode: dark,
        noninteractive: WidgetColors { fill: p.panel, edge: p.outline, ink: p.text, radius: RADIUS },
        inactive: WidgetColors { fill: p.fill, edge: p.outline, ink: p.text, radius: RADIUS },
        hovered: WidgetColors { fill: p.hover, edge: p.accent, ink: p.strong, radius: RADIUS },
        active: WidgetColors { fill: p.press, edge: p.accent, ink: p.strong, radius: RADIUS },
        open: WidgetColors { fill: p.press, edge: p.outline, ink: p.text, radius: RADIUS },
        selection_fill: p.accent,
        selection_ink: p.text,
        panel_fill: p.panel,
        window_fill: p.window,
        window_edge: p.outline,
        window_radius: RADIUS,
        menu_radius: RADIUS,
        extreme_bg_color: p.sunken,
        faint_bg_color: p.stripe,
        code_bg_color: p.card,
        hyperlink_color: p.accent,
        warn_fg_color: p.warn,
        error_fg_color: p.error,
        weak_text_color: p.dim,
        cursor: p.accent,
        shadow: Color {
            r: 0,
            g: 0,
            b: 0,
            a: if dark {
                96
            } else {
                28
            },
        },
    }
}

// ---------------------------------------------------------------------------
// Text
// ---------------------------------------------------------------------------
/// Whether `c` is a control character.
pub open spec fn is_control(c: char) -> bool {
    c < ' ' || '\u{7f}' <= c <= '\u{9f}'
}

/// `s` with every control character made a space.
pub open spec fn flattened(s: Seq<char>) -> Seq<char> {
    Seq::new(
        s.len(),
        |i: int|
            if is_control(s[i]) {
                ' '
            } else {
                s[i]
            },
    )
}

/// The text of a cell on one line: every control character becomes a space, so
/// that nothing behind it is lost.
pub fn one_line(text: &str) -> (r: String)
    ensures
        r@ == flattened(text@),
{
    let cs = chars_of(text);
    let mut out: Vec<char> = Vec::new();
    let mut i: usize = 0;
    while i < cs.len()
        invariant
            i <= cs.len(),
            out@ == flattened(cs@).subrange(0, i as int),
        decreases cs.len() - i,
    {
        let c = cs[i];
        if c < ' ' || ('\u{7f}' <= c && c <= '\u{9f}') {
            out.push(' ');
        } else {
            out.push(c);
        }
        i = i + 1;
    }
    assert(out@ =~= flattened(cs@));
    string_of(out.as_slice())
}

/// The colour of a span that asks for `fg`, or `fallback` where it asks for none.
pub open spec fn span_ink(fg: Option<(u8, u8, u8)>, fallback: Color) -> Color {
    match fg {
        Some(parts) => Color::opaque(parts.0, parts.1, parts.2),
        None => fallback,
    }
}

/// The colour of a span that asks for `fg`.
pub fn span_color(fg: Option<(u8, u8, u8)>, fallback: Color) -> (r: Color)
    ensures
        r == span_ink(fg, fallback),
{
    match fg {
        Some((r, g, b)) => Color::from_rgb(r, g, b),
        None => fallback,
    }
}

/// The face that text is set in.
#[derive(Debug, Clone, Copy, PartialEq, Eq, Structural)]
pub enum Face {
    /// Every character is as wide as any other, so that columns line up.
    Monospace,
    /// Every character is as wide as it is.
    Proportional,
}

/// How a stretch of text is painted.
#[derive(Debug, Clone, Copy, PartialEq, Eq, Structural)]
pub struct TextFormat {
    pub face: Face,
    pub color: Color,
    pub italics: bool,
}

impl TextFormat {
    /// Upright text of a preview in `color`.
    pub open spec fn plain(color: Color) -> TextFormat {
        TextFormat { face: Face::Monospace, color, italics: false }
    }

    /// Upright text of a preview in `color`.
    pub fn upright(color: Color) -> (r: TextFormat)
        ensures
            r == TextFormat::plain(color),
    {
        TextFormat { face: Face::Monospace, color, italics: false }
    }
}

/// How a span is painted: its own colour or that of body text, moved away from
/// the background where it is bold.
pub open spec fn format_of(span: Span, palette: Palette) -> TextFormat {
    let color = span_ink(span.fg, palette.text);
    TextFormat {
        face: Face::Monospace,
        color: if span.bold {
            bolder(color, palette.theme)
        } else {
            color
        },
        italics: span.italic,
    }
}

/// How `span` is painted with `palette`.
pub fn span_format(span: &Span, palette: &Palette) -> (r: TextFormat)
    ensures
        r == format_of(*span, *palette),
{
    let color = span_color(span.fg, palette.text);
    TextFormat {
        face: Face::Monospace,
        color: if span.bold {
            palette.emphasize(color)
        } else {
            color
        },
        italics: span.italic,
    }
}

/// A stretch of text and how it is painted.
#[derive(Debug)]
pub struct Run {
    pub text: String,
    pub format: TextFormat,
}

/// How text that is wider than its place is broken.
#[derive(Debug, Clone, Copy, PartialEq, Eq, Structural)]
pub enum Wrap {
    /// Not at all: every line stays one line.
    Never,
    /// It is one row, cut off wherever it ends, with this character for the rest.
    OneRow(char),
}

/// Text to lay out.
#[derive(Debug)]
pub struct Job {
    pub runs: Vec<Run>,
    pub wrap: Wrap,
}

/// A [`Run`], by its text.
pub type RunView = (Seq<char>, TextFormat);

/// The runs of `v`, by their text.
pub open spec fn run_views(v: Seq<Run>) -> Seq<RunView> {
    Seq::new(v.len(), |i: int| (v[i].text@, v[i].format))
}

/// The text of a span without the line ending it may carry.
pub open spec fn unended(s: Seq<char>) -> Seq<char>
    decreases s.len(),
{
    if s.len() > 0 && (s.last() == '\n' || s.last() == '\r') {
        unended(s.drop_last())
    } else {
        s
    }
}

/// The runs of the spans of one line: an empty one is left out.
pub open spec fn span_runs(spans: Seq<Span>, palette: Palette) -> Seq<RunView>
    decreases spans.len(),
{
    if spans.len() == 0 {
        Seq::empty()
    } else {
        let before = span_runs(spans.drop_last(), palette);
        let text = unended(spans.last().text@);
        if text.len() == 0 {
            before
        } else {
            before.push((text, format_of(spans.last(), palette)))
        }
    }
}

/// The run that ends a line.
pub open spec fn newline_run(palette: Palette) -> RunView {
    (seq!['\n'], TextFormat::plain(palette.text))
}

/// The runs of a document: those of each line, with a line end between.
pub open spec fn line_runs(lines: Seq<StyledLine>, palette: Palette) -> Seq<RunView>
    decreases lines.len(),
{
    if lines.len() == 0 {
        Seq::empty()
    } else {
        let before = line_runs(lines.drop_last(), palette);
        (if lines.len() > 1 {
            before.push(newline_run(palette))
        } else {
            before
        }) + span_runs(lines.last().spans@, palette)
    }
}

/// The text of a span without the line ending it may carry.
fn without_ending(text: &str) -> (r: String)
    ensures
        r@ == unended(text@),
{
    let cs = chars_of(text);
    let mut n: usize = cs.len();
    assert(cs@.subrange(0, cs@.len() as int) =~= cs@);
    while n > 0 && (cs[n - 1] == '\n' || cs[n - 1] == '\r')
        invariant
            n <= cs.len(),
            unended(cs@) == unended(cs@.subrange(0, n as int)),
        decreases n,
    {
        assert(cs@.subrange(0, n as int).drop_last() =~= cs@.subrange(0, n - 1));
        n = n - 1;
    }
    string_of(vstd::slice::slice_subrange(cs.as_slice(), 0, n))
}

fn push_span_runs(out: &mut Vec<Run>, spans: &Vec<Span>, palette: &Palette)
    ensures
        run_views(final(out)@) == run_views(old(out)@) + span_runs(spans@, *palette),
{
    let mut i: usize = 0;
    assert(spans@.subrange(0, 0) =~= Seq::<Span>::empty());
    assert(run_views(out@) =~= run_views(old(out)@) + span_runs(spans@.subrange(0, 0), *palette));
    while i < spans.len()
        invariant
            i <= spans.len(),
            run_views(out@) == run_views(old(out)@) + span_runs(
                spans@.subrange(0, i as int),
                *palette,
            ),
        decreases spans.len() - i,
    {
        let text = without_ending(spans[i].text.as_str());
        let ghost part = spans@.subrange(0, i + 1);
        let ghost before = out@;
        assert(part.drop_last() =~= spans@.subrange(0, i as int));
        if !text.as_str().is_empty() {
            let format = span_format(&spans[i], palette);
            let ghost view = (text@, format);
            out.push(Run { text, format });
            assert(run_views(out@) =~= run_views(before).push(view));
        }
        assert(run_views(out@) =~= run_views(old(out)@) + span_runs(part, *palette));
        i = i + 1;
    }
    assert(spans@.subrange(0, spans@.len() as int) =~= spans@);
}

/// Lays out a styled document as one list of runs, in the colours of `palette`. Code
/// does not reflow.
pub fn text_job(lines: &Vec<StyledLine>, palette: &Palette) -> (r: Job)
    ensures
        run_views(r.runs@) == line_runs(lines@, *palette),
        r.wrap == Wrap::Never,
{
    let mut out: Vec<Run> = Vec::new();
    let mut i: usize = 0;
    assert(lines@.subrange(0, 0) =~= Seq::<StyledLine>::empty());
    assert(run_views(out@) =~= line_runs(lines@.subrange(0, 0), *palette));
    while i < lines.len()
        invariant
            i <= lines.len(),
            run_views(out@) == line_runs(lines@.subrange(0, i as int), *palette),
        decreases lines.len() - i,
    {
        let ghost part = lines@.subrange(0, i + 1);
        assert(part.drop_last() =~= lines@.subrange(0, i as int));
        if i > 0 {
            let ghost before = out@;
            let mut end = String::new();
            end.push('\n');
            assert(end@ =~= seq!['\n']);
            out.push(Run { text: end, format: TextFormat::upright(palette.text) });
            assert(run_views(out@) =~= run_views(before).push(newline_run(*palette)));
        }
        push_span_runs(&mut out, &lines[i].spans, palette);
        i = i + 1;
    }
    assert(lines@.subrange(0, lines@.len() as int) =~= lines@);
    Job { runs: out, wrap: Wrap::Never }
}

/// One line out of pieces of text, each in its own colour.
pub fn mono_job(pieces: &[(&str, Color)]) -> (r: Job)
    ensures
        r.runs.len() == pieces.len(),
        r.wrap == Wrap::Never,
        forall|i: int|
            0 <= i < r.runs.len() ==> (#[trigger] run_views(r.runs@)[i]) == (
                pieces@[i].0@,
                TextFormat::plain(pieces@[i].1),
            ),
{
    let mut out: Vec<Run> = Vec::new();
    let mut i: usize = 0;
    while i < pieces.len()
        invariant
            i <= pieces.len(),
            out.len() == i,
            forall|k: int|
                0 <= k < i ==> out@[k].text@ == pieces@[k].0@ && out@[k].format == TextFormat::plain(
                    pieces@[k].1,
                ),
        decreases pieces.len() - i,
    {
        let (text, color) = pieces[i];
        out.push(Run { text: text.to_owned(), format: TextFormat::upright(color) });
        i = i + 1;
    }
    Job { runs: out, wrap: Wrap::Never }
}

/// The text of a cell, to fit into its column: one row, since a second one would push
/// every row below it out of step.
pub fn cell_job(text: &str, color: Color) -> (r: Job)
    ensures
        run_views(r.runs@) == seq![(flattened(text@), TextFormat::plain(color))],
        r.wrap == Wrap::OneRow('…'),
{
    let mut runs: Vec<Run> = Vec::new();
    runs.push(Run { text: one_line(text), format: TextFormat::upright(color) });
    assert(run_views(runs@) =~= seq![(flattened(text@), TextFormat::plain(color))]);
    Job { runs, wrap: Wrap::OneRow('…') }
}

// ---------------------------------------------------------------------------
// Laws
// ---------------------------------------------------------------------------
/// Every theme is read back from how it is written.
pub proof fn law_theme_names_round_trip(theme: Theme)
    ensures
        theme_named(theme.name()) == Some(theme),
{
    reveal_strlit("dark");
    reveal_strlit("light");
    reveal_strlit("system");
    reveal_strlit("auto");
    text::lemma_folded_plain(theme.name());
    assert("dark"@.len() == 4 && "light"@.len() == 5 && "system"@.len() == 6);
}

/// A theme that was asked for by name does not depend on the desktop, and one
/// that follows the desktop is the desktop's.
pub proof fn law_a_chosen_theme_ignores_the_desktop(a: Option<Shade>, b: Option<Shade>)
    ensures
        Theme::Dark.shade(a) == Theme::Dark.shade(b),
        Theme::Light.shade(a) == Theme::Light.shade(b),
        a is Some ==> Theme::System.shade(a) == a->0,
        a is None ==> Theme::System.shade(a) == Shade::Dark,
{
}

/// Bold moves every part of a colour away from the background and never past
/// the end, and black and white stay put at their own end.
pub proof fn law_bold_moves_away_from_the_background(c: u8)
    ensures
        c <= shifted(c, Shade::Dark) <= 255,
        0 <= shifted(c, Shade::Light) <= c,
        c < 250 ==> c < shifted(c, Shade::Dark),
        c >= 6 ==> shifted(c, Shade::Light) < c,
        shifted(255, Shade::Dark) == 255,
        shifted(0, Shade::Light) == 0,
{
}

/// No two kinds of cell share a colour, in either shade.
pub proof fn law_every_kind_of_cell_has_its_own_colour(shade: Shade, a: CellKind, b: CellKind)
    requires
        a != b,
    ensures
        Palette::of(shade).cell(a) != Palette::of(shade).cell(b),
{
}

/// What is under the pointer differs from what is at rest, in its fill and in
/// its edge, and strong text differs from body text, in either shade.
pub proof fn law_hover_can_be_seen(shade: Shade)
    ensures
        painted(Palette::of(shade)).hovered.fill != painted(Palette::of(shade)).inactive.fill,
        painted(Palette::of(shade)).hovered.edge != painted(Palette::of(shade)).inactive.edge,
        painted(Palette::of(shade)).hovered.fill != painted(Palette::of(shade)).active.fill,
        painted(Palette::of(shade)).active.ink != painted(Palette::of(shade)).noninteractive.ink,
        painted(Palette::of(shade)).dark_mode == (shade == Shade::Dark),
{
}

/// A flattened text is one line: it holds no control character, is as long as
/// before, and a text without control characters stays as it is.
pub proof fn law_a_cell_is_one_line(s: Seq<char>)
    ensures
        flattened(s).len() == s.len(),
        forall|i: int| 0 <= i < s.len() ==> !is_control(#[trigger] flattened(s)[i]),
        (forall|i: int| 0 <= i < s.len() ==> !is_control(#[trigger] s[i])) ==> flattened(s) == s,
{
    if forall|i: int| 0 <= i < s.len() ==> !is_control(#[trigger] s[i]) {
        assert(flattened(s) =~= s);
    }
}

/// What is taken off the end of a span is line endings, all of them, and nothing
/// else: what is left is the beginning of the text, it ends in no line ending, and
/// behind it there was nothing but those.
pub proof fn law_only_line_endings_are_taken_off(s: Seq<char>)
    ensures
        unended(s).len() <= s.len(),
        s.subrange(0, unended(s).len() as int) == unended(s),
        unended(s).len() > 0 ==> unended(s).last() != '\n' && unended(s).last() != '\r',
        forall|i: int|
            unended(s).len() <= i < s.len() ==> #[trigger] s[i] == '\n' || s[i] == '\r',
        s.len() > 0 && s.last() != '\n' && s.last() != '\r' ==> unended(s) == s,
    decreases s.len(),
{
    if s.len() > 0 && (s.last() == '\n' || s.last() == '\r') {
        let t = s.drop_last();
        law_only_line_endings_are_taken_off(t);
        assert(s.subrange(0, unended(s).len() as int) =~= t.subrange(0, unended(t).len() as int));
        assert forall|i: int| unended(s).len() <= i < s.len() implies #[trigger] s[i] == '\n'
            || s[i] == '\r' by {
            if i < t.len() {
                assert(t[i] == s[i]);
            }
        }
    } else {
        assert(s.subrange(0, s.len() as int) =~= s);
    }
}

/// The texts of `runs`, one behind the other.
pub open spec fn text_of_runs(runs: Seq<RunView>) -> Seq<char>
    decreases runs.len(),
{
    if runs.len() == 0 {
        Seq::empty()
    } else {
        text_of_runs(runs.drop_last()) + runs.last().0
    }
}

/// `texts`, one behind the other.
pub open spec fn put_together(texts: Seq<Seq<char>>) -> Seq<char>
    decreases texts.len(),
{
    if texts.len() == 0 {
        Seq::empty()
    } else {
        put_together(texts.drop_last()) + texts.last()
    }
}

/// Whether the text of each of `spans` is its body with line endings behind it, as
/// many as there are.
pub open spec fn parted(spans: Seq<Span>, bodies: Seq<Seq<char>>, ends: Seq<Seq<char>>) -> bool {
    &&& bodies.len() == spans.len()
    &&& ends.len() == spans.len()
    &&& forall|i: int| 0 <= i < spans.len() ==> (#[trigger] spans[i]).text@ == bodies[i] + ends[i]
    &&& forall|i: int|
        0 <= i < spans.len() && (#[trigger] bodies[i]).len() > 0 ==> bodies[i].last() != '\n'
            && bodies[i].last() != '\r'
    &&& forall|i: int, k: int|
        0 <= i < spans.len() && 0 <= k < ends[i].len() ==> (#[trigger] ends[i][k]) == '\n'
            || ends[i][k] == '\r'
}

proof fn lemma_body(body: Seq<char>, end: Seq<char>)
    requires
        body.len() > 0 ==> body.last() != '\n' && body.last() != '\r',
        forall|k: int| 0 <= k < end.len() ==> (#[trigger] end[k]) == '\n' || end[k] == '\r',
    ensures
        unended(body + end) == body,
{
    let s = body + end;
    law_only_line_endings_are_taken_off(s);
    let n = unended(s).len() as int;
    if n > body.len() {
        assert(unended(s).last() == s[n - 1]);
        assert(s[n - 1] == end[n - 1 - body.len()]);
    }
    if n < body.len() {
        assert(s[body.len() - 1] == body.last());
    }
    assert(unended(s) =~= body);
}

proof fn lemma_fewer_parts(spans: Seq<Span>, bodies: Seq<Seq<char>>, ends: Seq<Seq<char>>)
    requires
        spans.len() > 0,
        parted(spans, bodies, ends),
    ensures
        parted(spans.drop_last(), bodies.drop_last(), ends.drop_last()),
        unended(spans.last().text@) == bodies.last(),
{
    let n = spans.len() - 1;
    let a = spans.drop_last();
    let b = bodies.drop_last();
    let c = ends.drop_last();
    assert forall|i: int| 0 <= i < a.len() implies (#[trigger] a[i]).text@ == b[i] + c[i] by {
        assert(a[i] == spans[i]);
    }
    assert forall|i: int| 0 <= i < a.len() && (#[trigger] b[i]).len() > 0 implies b[i].last()
        != '\n' && b[i].last() != '\r' by {
        assert(b[i] == bodies[i]);
    }
    assert forall|i: int, k: int| 0 <= i < a.len() && 0 <= k < c[i].len() implies (
    #[trigger] c[i][k]) == '\n' || c[i][k] == '\r' by {
        assert(c[i][k] == ends[i][k]);
    }
    assert forall|k: int| 0 <= k < ends[n].len() implies (#[trigger] ends[n][k]) == '\n'
        || ends[n][k] == '\r' by {}
    assert(spans[n].text@ == bodies[n] + ends[n]);
    assert(bodies[n] == bodies.last());
    lemma_body(bodies[n], ends[n]);
}

/// Nothing of a line but line endings at the ends of its spans is lost: what is
/// painted is the bodies of the spans, put together.
pub proof fn law_nothing_but_line_endings_is_lost(
    spans: Seq<Span>,
    bodies: Seq<Seq<char>>,
    ends: Seq<Seq<char>>,
    palette: Palette,
)
    requires
        parted(spans, bodies, ends),
    ensures
        text_of_runs(span_runs(spans, palette)) == put_together(bodies),
    decreases spans.len(),
{
    if spans.len() > 0 {
        lemma_fewer_parts(spans, bodies, ends);
        let a = spans.drop_last();
        law_nothing_but_line_endings_is_lost(a, bodies.drop_last(), ends.drop_last(), palette);
        let before = span_runs(a, palette);
        let body = bodies.last();
        if body.len() == 0 {
            assert(put_together(bodies) =~= put_together(bodies.drop_last()));
        } else {
            let run = span_runs(spans, palette).last();
            assert(span_runs(spans, palette).drop_last() =~= before);
            assert(run.0 == body);
        }
    }
}

/// A span that does not end in a line ending is painted whole, and so a line of such
/// spans is: indentation and the space between two words stay.
pub proof fn law_a_line_without_endings_is_painted_whole(spans: Seq<Span>, palette: Palette)
    requires
        forall|i: int|
            0 <= i < spans.len() && (#[trigger] spans[i]).text@.len() > 0
                ==> spans[i].text@.last() != '\n' && spans[i].text@.last() != '\r',
    ensures
        text_of_runs(span_runs(spans, palette)) == put_together(
            Seq::new(spans.len(), |i: int| spans[i].text@),
        ),
{
    let bodies = Seq::new(spans.len(), |i: int| spans[i].text@);
    let ends = Seq::new(spans.len(), |i: int| Seq::<char>::empty());
    assert forall|i: int| 0 <= i < spans.len() implies (#[trigger] spans[i]).text@ == bodies[i]
        + ends[i] by {
        assert(bodies[i] + ends[i] =~= bodies[i]);
    }
    assert forall|i: int| 0 <= i < spans.len() && (#[trigger] bodies[i]).len() > 0 implies bodies[i].last()
        != '\n' && bodies[i].last() != '\r' by {
        assert(spans[i].text@ == bodies[i]);
    }
    law_nothing_but_line_endings_is_lost(spans, bodies, ends, palette);
}

/// Spans that say something are painted one by one, in their order, each in its own
/// way: its text, slanted where it is, in its own colour where it has one and in that
/// of body text where it has none; bold moves the colour away from the background.
pub proof fn law_each_span_is_painted_its_own_way(
    spans: Seq<Span>,
    bodies: Seq<Seq<char>>,
    ends: Seq<Seq<char>>,
    palette: Palette,
    k: int,
)
    requires
        parted(spans, bodies, ends),
        forall|i: int| 0 <= i < bodies.len() ==> (#[trigger] bodies[i]).len() > 0,
        0 <= k < spans.len(),
    ensures
        span_runs(spans, palette).len() == spans.len(),
        span_runs(spans, palette)[k].0 == bodies[k],
        span_runs(spans, palette)[k].1.face == Face::Monospace,
        span_runs(spans, palette)[k].1.italics == spans[k].italic,
        ({
            let own = match spans[k].fg {
                Some((r, g, b)) => Color { r, g, b, a: 255 },
                None => palette.text,
            };
            let shown = span_runs(spans, palette)[k].1.color;
            &&& !spans[k].bold ==> shown == own
            &&& spans[k].bold ==> shown.a == own.a
            &&& spans[k].bold && palette.theme == Shade::Dark ==> own.r <= shown.r && own.g
                <= shown.g && own.b <= shown.b
            &&& spans[k].bold && palette.theme == Shade::Light ==> shown.r <= own.r && shown.g
                <= own.g && shown.b <= own.b
        }),
    decreases spans.len(),
{
    lemma_fewer_parts(spans, bodies, ends);
    let a = spans.drop_last();
    let b = bodies.drop_last();
    let n = spans.len() - 1;
    assert forall|i: int| 0 <= i < b.len() implies (#[trigger] b[i]).len() > 0 by {
        assert(b[i] == bodies[i]);
    }
    assert(bodies[n].len() > 0);
    lemma_as_many_runs(a, b, ends.drop_last(), palette);
    if k < n {
        law_each_span_is_painted_its_own_way(a, b, ends.drop_last(), palette, k);
        assert(span_runs(spans, palette)[k] == span_runs(a, palette)[k]);
        assert(a[k] == spans[k] && b[k] == bodies[k]);
    } else {
        let own = span_ink(spans[k].fg, palette.text);
        law_bold_moves_away_from_the_background(own.r);
        law_bold_moves_away_from_the_background(own.g);
        law_bold_moves_away_from_the_background(own.b);
    }
}

proof fn lemma_as_many_runs(
    spans: Seq<Span>,
    bodies: Seq<Seq<char>>,
    ends: Seq<Seq<char>>,
    palette: Palette,
)
    requires
        parted(spans, bodies, ends),
        forall|i: int| 0 <= i < bodies.len() ==> (#[trigger] bodies[i]).len() > 0,
    ensures
        span_runs(spans, palette).len() == spans.len(),
    decreases spans.len(),
{
    if spans.len() > 0 {
        lemma_fewer_parts(spans, bodies, ends);
        let b = bodies.drop_last();
        assert forall|i: int| 0 <= i < b.len() implies (#[trigger] b[i]).len() > 0 by {
            assert(b[i] == bodies[i]);
        }
        assert(bodies[bodies.len() - 1].len() > 0);
        lemma_as_many_runs(spans.drop_last(), b, ends.drop_last(), palette);
    }
}

proof fn lemma_text_of_more_runs(a: Seq<RunView>, b: Seq<RunView>)
    ensures
        text_of_runs(a + b) == text_of_runs(a) + text_of_runs(b),
    decreases b.len(),
{
    if b.len() == 0 {
        assert(a + b =~= a);
        assert(text_of_runs(a) + text_of_runs(b) =~= text_of_runs(a));
    } else {
        lemma_text_of_more_runs(a, b.drop_last());
        assert((a + b).drop_last() =~= a + b.drop_last());
        assert(text_of_runs(a + b) =~= text_of_runs(a) + text_of_runs(b));
    }
}

/// A document is painted line by line: another line at the end adds one line end and
/// the text of that line, and the first line stands alone.
pub proof fn law_lines_are_painted_one_below_the_other(
    lines: Seq<StyledLine>,
    line: StyledLine,
    palette: Palette,
)
    ensures
        text_of_runs(line_runs(Seq::empty(), palette)) == Seq::<char>::empty(),
        text_of_runs(line_runs(lines.push(line), palette)) == (if lines.len() == 0 {
            Seq::empty()
        } else {
            text_of_runs(line_runs(lines, palette)) + seq!['\n']
        }) + text_of_runs(span_runs(line.spans@, palette)),
{
    let all = lines.push(line);
    let before = line_runs(lines, palette);
    let last = span_runs(line.spans@, palette);
    assert(all.drop_last() =~= lines);
    assert(all.last() == line);
    if lines.len() == 0 {
        assert(lines =~= Seq::empty());
        assert(before =~= Seq::<RunView>::empty());
        lemma_text_of_more_runs(before, last);
    } else {
        let ended = before.push(newline_run(palette));
        assert(ended.drop_last() =~= before);
        lemma_text_of_more_runs(ended, last);
    }
}

/// A flattened text keeps every character that is no control character in its place,
/// and has a space for every other.
pub proof fn law_a_cell_keeps_its_characters(s: Seq<char>, i: int)
    requires
        0 <= i < s.len(),
    ensures
        flattened(s).len() == s.len(),
        ' ' <= s[i] < '\u{7f}' || s[i] > '\u{9f}' ==> flattened(s)[i] == s[i],
        s[i] < ' ' || '\u{7f}' <= s[i] <= '\u{9f}' ==> flattened(s)[i] == ' ',
{
}

/// A colour that is written as a number is made of its three bytes, and is opaque.
pub proof fn law_a_written_colour_is_its_bytes(hex: u32)
    requires
        hex <= 0xff_ffff,
    ensures
        rgb_of(hex).r * 65536 + rgb_of(hex).g * 256 + rgb_of(hex).b == hex,
        rgb_of(hex).a == 255,
{
}

/// Bold goes eighteen hundredths of the way to white on a dark window and to black on
/// a light one, rounded down to a whole step.
pub proof fn law_how_far_bold_goes(c: u8)
    ensures
        100 * (shifted(c, Shade::Dark) - c) <= 18 * (255 - c) < 100 * (shifted(c, Shade::Dark) - c)
            + 100,
        100 * (c - shifted(c, Shade::Light)) <= 18 * c < 100 * (c - shifted(c, Shade::Light)) + 100,
{
}

/// How light a colour is: the sum of its parts.
pub open spec fn lightness(c: Color) -> int {
    c.r + c.g + c.b
}

/// What text may stand on.
pub open spec fn surfaces(p: Palette) -> Seq<Color> {
    seq![p.window, p.panel, p.card, p.sunken, p.stripe, p.fill, p.hover, p.press]
}

/// A dark window can be read: text of a higher rank is lighter than text of a lower
/// one, and all of it, warnings and errors too, is lighter than every surface.
pub proof fn law_a_dark_window_can_be_read(i: int)
    requires
        0 <= i < 8,
    ensures
        Palette::of(Shade::Dark).theme == Shade::Dark,
        ({
            let p = Palette::of(Shade::Dark);
            &&& lightness(surfaces(p)[i]) < lightness(p.faint)
            &&& lightness(p.faint) < lightness(p.dim)
            &&& lightness(p.dim) < lightness(p.text)
            &&& lightness(p.text) < lightness(p.strong)
            &&& lightness(p.faint) < lightness(p.warn)
            &&& lightness(p.faint) < lightness(p.error)
        }),
{
    let p = dark_palette();
    assert(surfaces(p)[i] == p.window || surfaces(p)[i] == p.panel || surfaces(p)[i] == p.card
        || surfaces(p)[i] == p.sunken || surfaces(p)[i] == p.stripe || surfaces(p)[i] == p.fill
        || surfaces(p)[i] == p.hover || surfaces(p)[i] == p.press);
}

/// A light window can be read: text of a higher rank is darker than text of a lower
/// one, and all of it, warnings and errors too, is darker than every surface.
pub proof fn law_a_light_window_can_be_read(i: int)
    requires
        0 <= i < 8,
    ensures
        Palette::of(Shade::Light).theme == Shade::Light,
        ({
            let p = Palette::of(Shade::Light);
            &&& lightness(surfaces(p)[i]) > lightness(p.faint)
            &&& lightness(p.faint) > lightness(p.dim)
            &&& lightness(p.dim) > lightness(p.text)
            &&& lightness(p.text) > lightness(p.strong)
            &&& lightness(p.faint) > lightness(p.warn)
            &&& lightness(p.faint) > lightness(p.error)
        }),
{
    let p = light_palette();
    assert(surfaces(p)[i] == p.window || surfaces(p)[i] == p.panel || surfaces(p)[i] == p.card
        || surfaces(p)[i] == p.sunken || surfaces(p)[i] == p.stripe || surfaces(p)[i] == p.fill
        || surfaces(p)[i] == p.hover || surfaces(p)[i] == p.press);
}

/// Every part of a window is painted with the colour that is there for it: what is
/// held looks pressed, links, the cursor and a selection are in the accent, wells are
/// sunken, and every corner is rounded alike.
pub proof fn law_every_part_has_its_colour(p: Palette)
    ensures
        painted(p).panel_fill == p.panel,
        painted(p).noninteractive.fill == p.panel,
        painted(p).window_fill == p.window,
        painted(p).extreme_bg_color == p.sunken,
        painted(p).code_bg_color == p.card,
        painted(p).faint_bg_color == p.stripe,
        painted(p).inactive.fill == p.fill,
        painted(p).hovered.fill == p.hover,
        painted(p).active.fill == p.press,
        painted(p).open.fill == p.press,
        painted(p).hyperlink_color == p.accent,
        painted(p).cursor == p.accent,
        painted(p).selection_fill == p.accent,
        painted(p).hovered.edge == p.accent,
        painted(p).active.edge == p.accent,
        painted(p).window_edge == p.outline,
        painted(p).inactive.edge == p.outline,
        painted(p).noninteractive.edge == p.outline,
        painted(p).noninteractive.ink == p.text,
        painted(p).inactive.ink == p.text,
        painted(p).open.ink == p.text,
        painted(p).selection_ink == p.text,
        painted(p).hovered.ink == p.strong,
        painted(p).active.ink == p.strong,
        painted(p).weak_text_color == p.dim,
        painted(p).warn_fg_color == p.warn,
        painted(p).error_fg_color == p.error,
        painted(p).window_radius == 6,
        painted(p).menu_radius == 6,
        painted(p).inactive.radius == 6,
        painted(p).shadow.r == 0,
        painted(p).shadow.g == 0,
        painted(p).shadow.b == 0,
        (painted(p).shadow.a == 96) == (p.theme == Shade::Dark),
        (painted(p).shadow.a == 28) == (p.theme == Shade::Light),
{
}

/// Each kind of cell has the colour that the palette keeps for it.
pub proof fn law_a_cell_has_the_colour_of_its_kind(p: Palette)
    ensures
        p.cell(CellKind::Text) == p.cell_text,
        p.cell(CellKind::Number) == p.cell_number,
        p.cell(CellKind::Bool) == p.cell_bool,
        p.cell(CellKind::Date) == p.cell_date,
        p.cell(CellKind::Error) == p.cell_error,
{
}

/// A word stands for a theme exactly where it is one of those that are known for it;
/// the space around it and the case of its letters do not matter.
pub proof fn law_the_words_for_themes(name: Seq<char>)
    ensures
        theme_named(name) == Some(Theme::Dark) <==> text::folded(name) == "dark"@,
        theme_named(name) == Some(Theme::Light) <==> text::folded(name) == "light"@,
        theme_named(name) == Some(Theme::System) <==> text::folded(name) == "system"@
            || text::folded(name) == "auto"@,
        Theme::Dark.shade(None) == Shade::Dark,
        Theme::Light.shade(None) == Shade::Light,
{
    reveal_strlit("dark");
    reveal_strlit("light");
    reveal_strlit("system");
    reveal_strlit("auto");
    assert("dark"@[0] == 'd' && "auto"@[0] == 'a');
    assert("dark"@.len() == 4 && "light"@.len() == 5 && "system"@.len() == 6 && "auto"@.len() == 4);
}

} // verus!
