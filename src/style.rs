use vstd::prelude::*;

use crate::render::Style;
use colored::{Color, Colorize};

verus! {

#[verifier::external_type_specification]
#[verifier::external_body]
pub struct ExColor(Color);

/// A font shape.
#[derive(Clone, Copy, Debug, PartialEq, Eq, Structural)]
pub enum FontShape {
    Italic,
    Bold,
    Underline,
}

/// A set of font shapes, one bit each.
#[derive(Clone, Copy, Debug, PartialEq, Eq, Structural)]
pub struct ShapeSet(pub u8);

impl FontShape {
    /// The bit of the shape in a `ShapeSet`.
    pub open spec fn bit_spec(self) -> u8 {
        match self {
            FontShape::Italic => 1,
            FontShape::Bold => 2,
            FontShape::Underline => 4,
        }
    }

    pub fn bit(self) -> (r: u8)
        ensures
            r == self.bit_spec(),
    {
        match self {
            FontShape::Italic => 1,
            FontShape::Bold => 2,
            FontShape::Underline => 4,
        }
    }
}

impl ShapeSet {
    /// The set of one shape.
    pub fn single(shape: FontShape) -> (r: ShapeSet)
        ensures
            r.0 == shape.bit_spec(),
    {
        ShapeSet(shape.bit())
    }

    pub open spec fn has(self, shape: FontShape) -> bool {
        self.0 & shape.bit_spec() != 0
    }

    pub fn contains(self, shape: FontShape) -> (r: bool)
        ensures
            r == self.has(shape),
    {
        self.0 & shape.bit() != 0
    }
}

impl core::ops::BitOr for FontShape {
    type Output = ShapeSet;

    fn bitor(self, rhs: FontShape) -> (r: ShapeSet)
        ensures
            r.0 == self.bit_spec() | rhs.bit_spec(),
    {
        ShapeSet(self.bit() | rhs.bit())
    }
}

impl vstd::std_specs::ops::BitOrSpecImpl for FontShape {
    open spec fn obeys_bitor_spec() -> bool {
        true
    }

    open spec fn bitor_req(self, rhs: FontShape) -> bool {
        true
    }

    open spec fn bitor_spec(self, rhs: FontShape) -> ShapeSet {
        ShapeSet(self.bit_spec() | rhs.bit_spec())
    }
}

impl core::ops::BitOr<FontShape> for ShapeSet {
    type Output = ShapeSet;

    fn bitor(self, rhs: FontShape) -> (r: ShapeSet)
        ensures
            r.0 == self.0 | rhs.bit_spec(),
    {
        ShapeSet(self.0 | rhs.bit())
    }
}

impl vstd::std_specs::ops::BitOrSpecImpl<FontShape> for ShapeSet {
    open spec fn obeys_bitor_spec() -> bool {
        true
    }

    open spec fn bitor_req(self, rhs: FontShape) -> bool {
        true
    }

    open spec fn bitor_spec(self, rhs: FontShape) -> ShapeSet {
        ShapeSet(self.0 | rhs.bit_spec())
    }
}

/// The style of a piece of text: shapes, and a foreground and a background
/// colour, each given by name or as red, green and blue; a named colour wins
/// over the other form.
#[derive(Clone, Copy)]
pub struct FontStyle {
    pub shape: Option<ShapeSet>,
    pub fg_color: Option<Color>,
    pub bg_color: Option<Color>,
    pub fg_color_256: Option<(u8, u8, u8)>,
    pub bg_color_256: Option<(u8, u8, u8)>,
}

impl Default for FontStyle {
    fn default() -> (r: FontStyle)
        ensures
            r == plain_style(),
    {
        FontStyle {
            shape: None,
            fg_color: None,
            bg_color: None,
            fg_color_256: None,
            bg_color_256: None,
        }
    }
}

/// The style that changes nothing.
pub open spec fn plain_style() -> FontStyle {
    FontStyle {
        shape: None,
        fg_color: None,
        bg_color: None,
        fg_color_256: None,
        bg_color_256: None,
    }
}

/// Relies on colored's `Color::Yellow`: the value is handed on as it is.
#[verifier::external_body]
fn yellow() -> (r: Color) {
    Color::Yellow
}

impl FontStyle {
    /// Yellow text: the default style of matched characters and of the
    /// chosen line.
    pub fn default_matched() -> (r: FontStyle)
        ensures
            r.fg_color is Some,
            r == (FontStyle { fg_color: r.fg_color, ..plain_style() }),
    {
        FontStyle {
            shape: None,
            fg_color: Some(yellow()),
            bg_color: None,
            fg_color_256: None,
            bg_color_256: None,
        }
    }

    pub fn set_shape(&mut self, shape: ShapeSet) -> (r: &mut Self)
        ensures
            *r == (FontStyle { shape: Some(shape), ..*old(self) }),
            *final(self) == *final(r),
    {
        self.shape = Some(shape);
        self
    }

    pub fn set_fg_color(&mut self, color: Color) -> (r: &mut Self)
        ensures
            *r == (FontStyle { fg_color: Some(color), ..*old(self) }),
            *final(self) == *final(r),
    {
        self.fg_color = Some(color);
        self
    }

    pub fn set_bg_color(&mut self, color: Color) -> (r: &mut Self)
        ensures
            *r == (FontStyle { bg_color: Some(color), ..*old(self) }),
            *final(self) == *final(r),
    {
        self.bg_color = Some(color);
        self
    }

    pub fn set_fg_color_256(&mut self, color: (u8, u8, u8)) -> (r: &mut Self)
        ensures
            *r == (FontStyle { fg_color_256: Some(color), ..*old(self) }),
            *final(self) == *final(r),
    {
        self.fg_color_256 = Some(color);
        self
    }

    pub fn set_bg_color_256(&mut self, color: (u8, u8, u8)) -> (r: &mut Self)
        ensures
            *r == (FontStyle { bg_color_256: Some(color), ..*old(self) }),
            *final(self) == *final(r),
    {
        self.bg_color_256 = Some(color);
        self
    }

    /// A copy of the style.
    pub fn build(&self) -> (r: FontStyle)
        ensures
            r == *self,
    {
        *self
    }
}

/// The styles of the parts of the menu.
#[derive(Clone, Copy)]
pub struct ColorScheme {
    pub title: FontStyle,
    pub query: FontStyle,
    pub items: FontStyle,
    pub matched: FontStyle,
    pub chosen_ln: FontStyle,
    pub more_tag: FontStyle,
}

/// Plain title, query, items and tags; matched characters and the chosen
/// line in a foreground colour alone (yellow).
pub open spec fn is_default_scheme(cs: ColorScheme) -> bool {
    &&& cs.title == plain_style()
    &&& cs.query == plain_style()
    &&& cs.items == plain_style()
    &&& cs.more_tag == plain_style()
    &&& cs.matched.fg_color is Some
    &&& cs.matched == (FontStyle { fg_color: cs.matched.fg_color, ..plain_style() })
    &&& cs.chosen_ln == cs.matched
}

impl Default for ColorScheme {
    fn default() -> (r: ColorScheme)
        ensures
            is_default_scheme(r),
    {
        let highlight = FontStyle::default_matched();
        ColorScheme {
            title: FontStyle::default(),
            query: FontStyle::default(),
            items: FontStyle::default(),
            matched: highlight,
            chosen_ln: highlight,
            more_tag: FontStyle::default(),
        }
    }
}

impl ColorScheme {
    pub fn new() -> (r: ColorScheme)
        ensures
            is_default_scheme(r),
    {
        ColorScheme::default()
    }

    pub fn set_title_style(&mut self, style: FontStyle) -> (r: &mut Self)
        ensures
            *r == (ColorScheme { title: style, ..*old(self) }),
            *final(self) == *final(r),
    {
        self.title = style;
        self
    }

    pub fn set_query_style(&mut self, style: FontStyle) -> (r: &mut Self)
        ensures
            *r == (ColorScheme { query: style, ..*old(self) }),
            *final(self) == *final(r),
    {
        self.query = style;
        self
    }

    pub fn set_items_style(&mut self, style: FontStyle) -> (r: &mut Self)
        ensures
            *r == (ColorScheme { items: style, ..*old(self) }),
            *final(self) == *final(r),
    {
        self.items = style;
        self
    }

    pub fn set_chosen_ln_style(&mut self, style: FontStyle) -> (r: &mut Self)
        ensures
            *r == (ColorScheme { chosen_ln: style, ..*old(self) }),
            *final(self) == *final(r),
    {
        self.chosen_ln = style;
        self
    }

    pub fn set_matched_style(&mut self, style: FontStyle) -> (r: &mut Self)
        ensures
            *r == (ColorScheme { matched: style, ..*old(self) }),
            *final(self) == *final(r),
    {
        self.matched = style;
        self
    }

    pub fn set_more_tag_style(&mut self, style: FontStyle) -> (r: &mut Self)
        ensures
            *r == (ColorScheme { more_tag: style, ..*old(self) }),
            *final(self) == *final(r),
    {
        self.more_tag = style;
        self
    }

    /// The style that text of a part of the menu is printed in.
    pub open spec fn style_of(self, part: Style) -> FontStyle {
        match part {
            Style::Plain => plain_style(),
            Style::Title => self.title,
            Style::Query => self.query,
            Style::Items => self.items,
            Style::Matched => self.matched,
            Style::Chosen => self.chosen_ln,
            Style::MoreTag => self.more_tag,
        }
    }

    pub fn style_for(&self, part: Style) -> (r: FontStyle)
        ensures
            r == self.style_of(part),
    {
        match part {
            Style::Plain => FontStyle::default(),
            Style::Title => self.title,
            Style::Query => self.query,
            Style::Items => self.items,
            Style::Matched => self.matched,
            Style::Chosen => self.chosen_ln,
            Style::MoreTag => self.more_tag,
        }
    }
}

/// One styling step that colored applies to a text.
#[derive(Clone, Copy)]
pub enum StyleStep {
    Bold,
    Italic,
    Underline,
    Fg(Color),
    FgRgb(u8, u8, u8),
    Bg(Color),
    BgRgb(u8, u8, u8),
}

/// The steps that give a text its style: bold, italic and underline as the
/// shapes say, then the foreground, then the background colour.
pub open spec fn steps_of(st: FontStyle) -> Seq<StyleStep> {
    let shapes = match st.shape {
        Some(set) => (if set.has(FontShape::Bold) {
            seq![StyleStep::Bold]
        } else {
            Seq::empty()
        }) + (if set.has(FontShape::Italic) {
            seq![StyleStep::Italic]
        } else {
            Seq::empty()
        }) + (if set.has(FontShape::Underline) {
            seq![StyleStep::Underline]
        } else {
            Seq::empty()
        }),
        None => Seq::empty(),
    };
    let fg = match (st.fg_color, st.fg_color_256) {
        (Some(c), _) => seq![StyleStep::Fg(c)],
        (None, Some((r, g, b))) => seq![StyleStep::FgRgb(r, g, b)],
        (None, None) => Seq::empty(),
    };
    let bg = match (st.bg_color, st.bg_color_256) {
        (Some(c), _) => seq![StyleStep::Bg(c)],
        (None, Some((r, g, b))) => seq![StyleStep::BgRgb(r, g, b)],
        (None, None) => Seq::empty(),
    };
    shapes + fg + bg
}

/// The styling steps of a style, in the order they are applied.
pub fn style_steps(st: &FontStyle) -> (r: Vec<StyleStep>)
    ensures
        r@ == steps_of(*st),
{
    let mut r: Vec<StyleStep> = Vec::new();
    match st.shape {
        Some(set) => {
            if set.contains(FontShape::Bold) {
                r.push(StyleStep::Bold);
            }
            if set.contains(FontShape::Italic) {
                r.push(StyleStep::Italic);
            }
            if set.contains(FontShape::Underline) {
                r.push(StyleStep::Underline);
            }
        },
        None => {},
    }
    match (st.fg_color, st.fg_color_256) {
        (Some(c), _) => r.push(StyleStep::Fg(c)),
        (None, Some((red, green, blue))) => r.push(StyleStep::FgRgb(red, green, blue)),
        (None, None) => {},
    }
    match (st.bg_color, st.bg_color_256) {
        (Some(c), _) => r.push(StyleStep::Bg(c)),
        (None, Some((red, green, blue))) => r.push(StyleStep::BgRgb(red, green, blue)),
        (None, None) => {},
    }
    assert(r@ =~= steps_of(*st));
    r
}

/// Relies on colored's `bold`. What comes back depends on the environment
/// (colouring may be switched off), so nothing is claimed of it.
#[verifier::external_body]
fn paint_bold(s: &str) -> (r: String) {
    s.bold().to_string()
}

/// Relies on colored's `italic`; as for `paint_bold`, nothing is claimed.
#[verifier::external_body]
fn paint_italic(s: &str) -> (r: String) {
    s.italic().to_string()
}

/// Relies on colored's `underline`; as for `paint_bold`, nothing is claimed.
#[verifier::external_body]
fn paint_underline(s: &str) -> (r: String) {
    s.underline().to_string()
}

/// Relies on colored's `color`; as for `paint_bold`, nothing is claimed.
#[verifier::external_body]
fn paint_fg(s: &str, c: Color) -> (r: String) {
    s.color(c).to_string()
}

/// Relies on colored's `truecolor`; as for `paint_bold`, nothing is claimed.
#[verifier::external_body]
fn paint_fg_rgb(s: &str, red: u8, green: u8, blue: u8) -> (r: String) {
    s.truecolor(red, green, blue).to_string()
}

/// Relies on colored's `on_color`; as for `paint_bold`, nothing is claimed.
#[verifier::external_body]
fn paint_bg(s: &str, c: Color) -> (r: String) {
    s.on_color(c).to_string()
}

/// Relies on colored's `on_truecolor`; as for `paint_bold`, nothing is
/// claimed.
#[verifier::external_body]
fn paint_bg_rgb(s: &str, red: u8, green: u8, blue: u8) -> (r: String) {
    s.on_truecolor(red, green, blue).to_string()
}

/// Applies one styling step through colored.
pub fn apply_step(s: &str, step: StyleStep) -> (r: String) {
    match step {
        StyleStep::Bold => paint_bold(s),
        StyleStep::Italic => paint_italic(s),
        StyleStep::Underline => paint_underline(s),
        StyleStep::Fg(c) => paint_fg(s, c),
        StyleStep::FgRgb(red, green, blue) => paint_fg_rgb(s, red, green, blue),
        StyleStep::Bg(c) => paint_bg(s, c),
        StyleStep::BgRgb(red, green, blue) => paint_bg_rgb(s, red, green, blue),
    }
}

/// The text in the style: each step of `steps_of(style)` applied in turn; a
/// style with no steps leaves the text as it is.
pub fn colorize(s: &str, style: &FontStyle) -> (r: String)
    ensures
        steps_of(*style).len() == 0 ==> r@ == s@,
{
    let steps = style_steps(style);
    let mut out = s.to_owned();
    let mut i: usize = 0;
    while i < steps.len()
        invariant
            i <= steps@.len(),
            steps@ == steps_of(*style),
            i == 0 ==> out@ == s@,
        decreases steps@.len() - i,
    {
        out = apply_step(out.as_str(), steps[i]);
        i += 1;
    }
    out
}

} // verus!
