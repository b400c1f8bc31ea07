use termenu::{colorize, style_steps, ColorScheme, FontShape, FontStyle, ShapeSet, Style, StyleStep};

#[test]
fn shapes_combine_into_bits() {
    assert_eq!((FontShape::Bold | FontShape::Italic).0, 3);
    assert_eq!((FontShape::Bold | FontShape::Underline | FontShape::Italic).0, 7);
    let set = FontShape::Underline | FontShape::Italic;
    assert!(set.contains(FontShape::Underline));
    assert!(!set.contains(FontShape::Bold));
    assert_eq!(ShapeSet::single(FontShape::Bold).0, 2);
}

#[test]
fn steps_follow_shapes_then_colours() {
    let mut st = FontStyle::default();
    st.set_shape(FontShape::Underline | FontShape::Bold)
        .set_fg_color_256((1, 2, 3))
        .set_bg_color(colored::Color::Blue)
        .set_bg_color_256((9, 9, 9));
    let steps = style_steps(&st);
    assert_eq!(steps.len(), 4);
    assert!(matches!(steps[0], StyleStep::Bold));
    assert!(matches!(steps[1], StyleStep::Underline));
    assert!(matches!(steps[2], StyleStep::FgRgb(1, 2, 3)));
    assert!(matches!(steps[3], StyleStep::Bg(colored::Color::Blue)));
}

#[test]
fn named_colour_wins_over_rgb() {
    let mut st = FontStyle::default();
    st.set_fg_color_256((1, 2, 3)).set_fg_color(colored::Color::Red);
    let steps = style_steps(&st);
    assert_eq!(steps.len(), 1);
    assert!(matches!(steps[0], StyleStep::Fg(colored::Color::Red)));
}

#[test]
fn plain_style_leaves_text_alone() {
    assert_eq!(colorize("héllo", &FontStyle::default()), "héllo");
    assert!(style_steps(&FontStyle::default()).is_empty());
}

#[test]
fn styled_text_gets_escape_codes() {
    colored::control::set_override(true);
    let mut st = FontStyle::default();
    st.set_shape(ShapeSet::single(FontShape::Bold)).set_fg_color(colored::Color::Red);
    let out = colorize("hi", &st);
    assert_ne!(out, "hi");
    assert!(out.contains("hi"));
    assert!(out.contains("\u{1b}["));
}

#[test]
fn default_scheme_highlights_matches_in_yellow() {
    let cs = ColorScheme::new();
    assert!(matches!(cs.style_for(Style::Matched).fg_color, Some(colored::Color::Yellow)));
    assert!(matches!(cs.style_for(Style::Chosen).fg_color, Some(colored::Color::Yellow)));
    assert!(cs.style_for(Style::Title).fg_color.is_none());
    assert!(cs.style_for(Style::Plain).shape.is_none());
}

#[test]
fn scheme_setters_replace_one_part() {
    let mut cs = ColorScheme::default();
    let mut st = FontStyle::default();
    st.set_fg_color(colored::Color::Magenta);
    cs.set_more_tag_style(st.build()).set_title_style(st).set_query_style(st);
    cs.set_items_style(st).set_chosen_ln_style(st).set_matched_style(FontStyle::default());
    assert!(matches!(cs.style_for(Style::MoreTag).fg_color, Some(colored::Color::Magenta)));
    assert!(matches!(cs.style_for(Style::Items).fg_color, Some(colored::Color::Magenta)));
    assert!(cs.style_for(Style::Matched).fg_color.is_none());
    let mut m: termenu::Menu<()> = termenu::Menu::new(0, 10);
    m.set_colorscheme(cs);
    assert!(matches!(m.colorscheme().title.fg_color, Some(colored::Color::Magenta)));
}
