use sekio_gui::content::{CellKind, Span, StyledLine};
use sekio_gui::style::{
    brighten, cell_job, mono_job, one_line, span_color, span_format, text_job, visuals_of, Color,
    Face, Job, Palette, Shade, Theme, Wrap, LIGHT_SYNTECT_THEME, RADIUS,
};

const WHITE: Color = Color { r: 255, g: 255, b: 255, a: 255 };
const BLACK: Color = Color { r: 0, g: 0, b: 0, a: 255 };
const RED: Color = Color { r: 255, g: 0, b: 0, a: 255 };

fn span(text: &str, fg: Option<(u8, u8, u8)>, bold: bool, italic: bool) -> Span {
    Span { text: text.to_owned(), fg, bold, italic }
}

fn luminance(color: Color) -> f32 {
    let channel = |c: u8| {
        let c = c as f32 / 255.0;
        if c <= 0.04045 {
            c / 12.92
        } else {
            ((c + 0.055) / 1.055).powf(2.4)
        }
    };
    0.2126 * channel(color.r) + 0.7152 * channel(color.g) + 0.0722 * channel(color.b)
}

fn contrast(a: Color, b: Color) -> f32 {
    let (a, b) = (luminance(a), luminance(b));
    (a.max(b) + 0.05) / (a.min(b) + 0.05)
}

fn text_of(job: &Job) -> String {
    job.runs.iter().map(|run| run.text.as_str()).collect()
}

#[test]
fn following_the_system_is_the_default() {
    assert_eq!(Theme::default(), Theme::System);
}

#[test]
fn every_documented_theme_name_parses_back_to_itself() {
    for name in Theme::names() {
        let theme = Theme::parse(name).unwrap_or_else(|| panic!("{name} must parse"));
        assert_eq!(theme.as_str(), name);
    }
    assert_eq!(Theme::parse(" Dark "), Some(Theme::Dark));
    assert_eq!(Theme::parse("LIGHT"), Some(Theme::Light));
    assert_eq!(Theme::parse("solarized"), None);
    assert_eq!(Theme::parse(""), None);
}

#[test]
fn an_explicit_theme_ignores_the_desktop_and_system_follows_it() {
    for desktop in [None, Some(Shade::Dark), Some(Shade::Light)] {
        assert_eq!(Theme::Dark.resolve(desktop), Shade::Dark);
        assert_eq!(Theme::Light.resolve(desktop), Shade::Light);
    }
    assert_eq!(Theme::System.resolve(Some(Shade::Light)), Shade::Light);
    assert_eq!(Theme::System.resolve(Some(Shade::Dark)), Shade::Dark);
    assert_eq!(Theme::System.resolve(None), Shade::Dark);
}

#[test]
fn the_dark_palette_is_still_base16_ocean_dark() {
    let dark = Palette::dark();
    assert_eq!(dark.dim, Color::from_rgb(143, 161, 179));
    assert_eq!(dark.active, Color::from_rgb(0xa3, 0xbe, 0x8c));
    assert_eq!(dark.faint, Color::from_rgb(0x65, 0x73, 0x7e));
    assert_eq!(dark.cell_text, Color::from_rgb(0xc0, 0xc5, 0xce));
    assert_eq!(dark.cell_number, Color::from_rgb(0xd0, 0x87, 0x70));
    assert_eq!(dark.cell_bool, Color::from_rgb(0xb4, 0x8e, 0xad));
    assert_eq!(dark.cell_date, Color::from_rgb(0x96, 0xb5, 0xb4));
    assert_eq!(dark.cell_error, Color::from_rgb(0xbf, 0x61, 0x6a));
}

#[test]
fn every_cell_kind_gets_its_own_colour_in_both_modes() {
    for palette in [Palette::dark(), Palette::light()] {
        let colors = [
            palette.cell_color(CellKind::Text),
            palette.cell_color(CellKind::Number),
            palette.cell_color(CellKind::Bool),
            palette.cell_color(CellKind::Date),
            palette.cell_color(CellKind::Error),
        ];
        for (i, a) in colors.iter().enumerate() {
            for b in &colors[i + 1..] {
                assert_ne!(a, b, "two cell kinds share a colour: {colors:?}");
            }
        }
        assert_eq!(palette.cell_color(CellKind::Error), palette.cell_error);
    }
}

#[test]
fn every_light_cell_colour_reads_on_the_light_surface() {
    let light = Palette::light();
    let on_card = |color| contrast(color, light.card);
    for (what, color) in [
        ("text", light.cell_text),
        ("number", light.cell_number),
        ("bool", light.cell_bool),
        ("date", light.cell_date),
        ("error", light.cell_error),
        ("body", light.text),
        ("dim", light.dim),
        ("accent", light.accent),
        ("active", light.active),
    ] {
        assert!(
            on_card(color) >= 4.5,
            "the light {what} colour is {:.2}:1 against the surface it is painted on",
            on_card(color)
        );
    }
}

#[test]
fn the_dark_palette_reads_on_its_own_surface_too() {
    let dark = Palette::dark();
    for (what, color) in [
        ("text", dark.cell_text),
        ("number", dark.cell_number),
        ("bool", dark.cell_bool),
        ("date", dark.cell_date),
        ("body", dark.text),
        ("dim", dark.dim),
        ("accent", dark.accent),
        ("active", dark.active),
    ] {
        let ratio = contrast(color, dark.card);
        assert!(ratio >= 4.5, "the dark {what} colour is only {ratio:.2}:1");
    }
}

#[test]
fn the_surfaces_are_ordered_and_distinct_in_both_modes() {
    for palette in [Palette::dark(), Palette::light()] {
        assert_ne!(palette.panel, palette.card);
        assert_ne!(palette.window, palette.card);
        assert_ne!(palette.fill, palette.hover, "hover must be visible");
        assert_ne!(palette.hover, palette.press);
        let step = contrast(palette.panel, palette.card);
        assert!(
            step > 1.0 && step < 1.6,
            "panel and card are {step:.2}:1 apart — a card, not a second window"
        );
    }
    assert!(luminance(Palette::dark().card) < luminance(Palette::light().card));
}

#[test]
fn light_mode_asks_core_for_a_light_syntax_theme() {
    assert_eq!(Palette::dark().syntect_theme(), None, "core's own default");
    assert_eq!(
        Palette::light().syntect_theme(),
        Some(LIGHT_SYNTECT_THEME),
        "a light window must not show dark-theme code"
    );
    assert_eq!(Palette::for_theme(Shade::Light), Palette::light());
    assert_eq!(Palette::for_theme(Shade::Dark), Palette::dark());
}

#[test]
fn the_style_paints_body_text_and_separators_from_the_palette() {
    for palette in [Palette::dark(), Palette::light()] {
        let visuals = visuals_of(&palette);
        assert_eq!(visuals.noninteractive.ink, palette.text);
        assert_eq!(visuals.active.ink, palette.strong);
        assert_ne!(visuals.active.ink, visuals.noninteractive.ink);
        assert!(
            contrast(palette.strong, palette.card) > contrast(palette.text, palette.card),
            "strong text must stand out from the surface more than body text"
        );
        assert_eq!(visuals.weak_text_color, palette.dim);
        assert_eq!(visuals.panel_fill, palette.panel);
        assert_eq!(visuals.hyperlink_color, palette.accent);
        assert_eq!(visuals.error_fg_color, palette.error);
        assert_eq!(
            visuals.noninteractive.edge, palette.outline,
            "separators are a hairline in the palette's own outline colour"
        );
        assert_eq!(visuals.dark_mode, palette.theme == Shade::Dark);
        assert_ne!(visuals.hovered.fill, visuals.inactive.fill);
        assert_ne!(visuals.hovered.edge, visuals.inactive.edge);
        // One radius, everywhere.
        for widget in [
            &visuals.noninteractive,
            &visuals.inactive,
            &visuals.hovered,
            &visuals.active,
            &visuals.open,
        ] {
            assert_eq!(widget.radius, RADIUS);
        }
        assert_eq!(visuals.window_radius, RADIUS);
        assert_eq!(visuals.menu_radius, RADIUS);
        assert_eq!(RADIUS, 6);
        assert!(visuals.selection_fill.a > 0);
    }
}

#[test]
fn rgb_spans_map_to_the_same_egui_color() {
    assert_eq!(span_color(Some((10, 20, 30)), RED), Color::from_rgb(10, 20, 30));
}

#[test]
fn colorless_spans_use_the_palettes_body_colour() {
    assert_eq!(span_color(None, Color::from_rgb(1, 2, 3)), Color::from_rgb(1, 2, 3));
    let light = Palette::light();
    let plain = span_format(&span("x", None, false, false), &light);
    assert_eq!(plain.color, light.text);
}

#[test]
fn bold_brightens_and_italic_sets_the_italics_flag() {
    let dark = Palette::dark();
    let base = span("x", Some((100, 100, 100)), false, false);
    let bold = span("x", Some((100, 100, 100)), true, false);
    let italic = span("x", Some((100, 100, 100)), false, true);

    let plain = span_format(&base, &dark);
    let strong = span_format(&bold, &dark);
    let slanted = span_format(&italic, &dark);

    assert_eq!(plain.color, Color::from_rgb(100, 100, 100));
    assert!(strong.color.r > plain.color.r, "bold must be brighter");
    assert!(!plain.italics);
    assert!(slanted.italics);
    assert_eq!(plain.face, Face::Monospace);
}

#[test]
fn bold_moves_away_from_the_background_in_both_modes() {
    let mid = Color::from_rgb(100, 100, 100);
    assert!(brighten(mid, Shade::Dark).r > mid.r);
    assert!(brighten(mid, Shade::Light).r < mid.r);

    let light = Palette::light();
    let bold = span_format(&span("x", Some((100, 100, 100)), true, false), &light);
    assert!(
        contrast(bold.color, light.card) > contrast(mid, light.card),
        "bold must gain contrast against the surface, not lose it"
    );
}

#[test]
fn brighten_is_saturating_and_keeps_the_extremes_put() {
    assert_eq!(brighten(WHITE, Shade::Dark), WHITE);
    assert_eq!(brighten(BLACK, Shade::Light), BLACK);
    let dark = brighten(BLACK, Shade::Dark);
    assert!(dark.r > 0 && dark.r < 255);
    let light = brighten(WHITE, Shade::Light);
    assert!(light.r > 0 && light.r < 255);
}

#[test]
fn text_job_joins_lines_and_drops_embedded_newlines() {
    let lines = vec![
        StyledLine { spans: vec![span("fn main() {\n", Some((200, 200, 200)), false, false)] },
        StyledLine {
            spans: vec![
                span("    let x", None, false, false),
                span(" = 1;", Some((1, 2, 3)), true, false),
            ],
        },
    ];
    let job = text_job(&lines, &Palette::dark());
    assert_eq!(text_of(&job), "fn main() {\n    let x = 1;");
    assert!(job.runs.len() >= 3, "each span keeps its own format");
    assert_eq!(job.wrap, Wrap::Never, "code must not reflow");
}

#[test]
fn empty_document_produces_an_empty_job() {
    let job = text_job(&vec![], &Palette::dark());
    assert!(text_of(&job).is_empty());
}

#[test]
fn a_cell_is_laid_out_as_one_elided_row() {
    let cell_text = Palette::dark().cell_text;
    let job = cell_job("a very long note indeed", cell_text);
    assert_eq!(job.wrap, Wrap::OneRow('…'), "a wrapped cell breaks the row pitch");
    assert_eq!(text_of(&job), "a very long note indeed");
    assert_eq!(job.runs.len(), 1);
    assert_eq!(job.runs[0].format.color, cell_text);
    assert_eq!(
        job.runs[0].format.face,
        Face::Monospace,
        "cells are monospace, or no column ever lines up"
    );
}

#[test]
fn a_cell_containing_a_newline_is_flattened_rather_than_swallowed() {
    assert_eq!(one_line("two\nlines"), "two lines");
    assert_eq!(one_line("a\tb\r\nc"), "a b  c");
    assert_eq!(one_line("Đứng lớp"), "Đứng lớp");
    assert_eq!(text_of(&cell_job("two\nlines", Palette::dark().cell_text)), "two lines");
}

#[test]
fn mono_job_concatenates_runs_in_order() {
    let job = mono_job(&[("00000000  ", Palette::dark().dim), ("ff ", WHITE)]);
    assert_eq!(text_of(&job), "00000000  ff ");
    assert_eq!(job.runs.len(), 2);
}
