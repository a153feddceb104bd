//! Paint attributes of a node: colours, shadow, radius, layer offset, font.
use vstd::prelude::*;
use crate::attributes::{text_of, Attribute, AttributeValue};
use crate::node::Size;
use crate::text::{
    chars_eq, chars_of, nth_word, parse_byte, parse_i64, parse_number, parse_u8, remove_all,
    remove_char, remove_pattern, split_on, split_piece, str_eq, trim, trimmed, without, words,
};

verus! {

/// A colour as alpha, red, green and blue channels.
#[derive(Clone, Copy, Debug, PartialEq, Eq, Structural)]
pub struct Color {
    pub a: u8,
    pub r: u8,
    pub g: u8,
    pub b: u8,
}

/// An opaque colour.
pub open spec fn opaque(r: u8, g: u8, b: u8) -> Color {
    Color { a: 255, r, g, b }
}

/// The fully transparent colour.
pub open spec fn transparent() -> Color {
    Color { a: 0, r: 0, g: 0, b: 0 }
}

/// The colour a name denotes, among the named ones.
pub open spec fn named_color(s: Seq<char>) -> Option<Color> {
    if s == "red"@ {
        Some(opaque(255, 0, 0))
    } else if s == "green"@ {
        Some(opaque(0, 255, 0))
    } else if s == "blue"@ {
        Some(opaque(0, 0, 255))
    } else if s == "yellow"@ {
        Some(opaque(255, 255, 0))
    } else if s == "black"@ {
        Some(opaque(0, 0, 0))
    } else if s == "gray"@ {
        Some(opaque(0x88, 0x88, 0x88))
    } else if s == "white"@ {
        Some(opaque(255, 255, 255))
    } else {
        None
    }
}

/// The colour an `rgb(r, g, b)` value denotes: with every `rgb(` and `)`
/// removed, the first three comma-separated pieces, trimmed, are the
/// channels.
pub open spec fn rgb_color(s: Seq<char>) -> Option<Color> {
    let parts = split_on(without(remove_pattern(s, "rgb("@), ')'), ',');
    if parts.len() >= 3 {
        match (parse_u8(trimmed(parts[0])), parse_u8(trimmed(parts[1])), parse_u8(trimmed(parts[2]))) {
            (Some(r), Some(g), Some(b)) => Some(opaque(r, g, b)),
            _ => None,
        }
    } else {
        None
    }
}

/// The colour a value denotes: a name, else an `rgb(...)` form.
pub open spec fn color_of(s: Seq<char>) -> Option<Color> {
    match named_color(s) {
        Some(c) => Some(c),
        None => rgb_color(s),
    }
}

impl Color {
    /// An opaque colour from its channels.
    pub fn from_rgb(r: u8, g: u8, b: u8) -> (c: Color)
        ensures
            c == opaque(r, g, b),
    {
        Color { a: 255, r, g, b }
    }

    /// The fully transparent colour.
    pub fn transparent() -> (c: Color)
        ensures
            c == transparent(),
    {
        Color { a: 0, r: 0, g: 0, b: 0 }
    }
}

fn channel(parts: &Vec<char>, k: usize) -> (r: Option<u8>)
    ensures
        match r {
            Some(v) => k < split_on(parts@, ',').len() && parse_u8(trimmed(split_on(parts@, ',')[k as int])) == Some(v),
            None => k >= split_on(parts@, ',').len() || parse_u8(trimmed(split_on(parts@, ',')[k as int])) is None,
        },
{
    match split_piece(parts, ',', k) {
        Some(piece) => parse_byte(&trim(&piece)),
        None => None,
    }
}

/// Reads an `rgb(r, g, b)` colour.
pub fn parse_rgb(color: &str) -> (r: Option<Color>)
    ensures
        r == rgb_color(color@),
{
    rgb_from_chars(&chars_of(color))
}

fn rgb_from_chars(color: &Vec<char>) -> (r: Option<Color>)
    ensures
        r == rgb_color(color@),
{
    proof {
        reveal_strlit("rgb(");
    }
    let body = remove_char(&remove_all(color, "rgb("), ')');
    let red = channel(&body, 0);
    let green = channel(&body, 1);
    let blue = channel(&body, 2);
    match (red, green, blue) {
        (Some(r), Some(g), Some(b)) => Some(Color::from_rgb(r, g, b)),
        _ => None,
    }
}

/// Reads a colour: one of the names, or an `rgb(r, g, b)` form.
pub fn parse_color(color: &str) -> (r: Option<Color>)
    ensures
        r == color_of(color@),
{
    color_from_chars(&chars_of(color))
}

fn color_from_chars(color: &Vec<char>) -> (r: Option<Color>)
    ensures
        r == color_of(color@),
{
    if chars_eq(color, "red") {
        Some(Color::from_rgb(255, 0, 0))
    } else if chars_eq(color, "green") {
        Some(Color::from_rgb(0, 255, 0))
    } else if chars_eq(color, "blue") {
        Some(Color::from_rgb(0, 0, 255))
    } else if chars_eq(color, "yellow") {
        Some(Color::from_rgb(255, 255, 0))
    } else if chars_eq(color, "black") {
        Some(Color::from_rgb(0, 0, 0))
    } else if chars_eq(color, "gray") {
        Some(Color::from_rgb(0x88, 0x88, 0x88))
    } else if chars_eq(color, "white") {
        Some(Color::from_rgb(255, 255, 255))
    } else {
        rgb_from_chars(color)
    }
}

/// A drop shadow: offset, intensity, size and colour.
#[derive(Clone, Copy, Debug, PartialEq, Eq, Structural)]
pub struct ShadowSettings {
    pub x: i64,
    pub y: i64,
    pub intensity: u8,
    pub size: i64,
    pub color: Color,
}

/// The shadow with every setting zero and a transparent colour.
pub open spec fn no_shadow() -> ShadowSettings {
    ShadowSettings { x: 0, y: 0, intensity: 0, size: 0, color: transparent() }
}

/// The shadow a value denotes: its first five words are the offsets, the
/// intensity, the size and the colour.
pub open spec fn shadow_of(s: Seq<char>) -> Option<ShadowSettings> {
    let w = words(s);
    if w.len() >= 5 {
        match (parse_i64(w[0]), parse_i64(w[1]), parse_u8(w[2]), parse_i64(w[3]), color_of(w[4])) {
            (Some(x), Some(y), Some(intensity), Some(size), Some(color)) => Some(
                ShadowSettings { x, y, intensity, size, color },
            ),
            _ => None,
        }
    } else {
        None
    }
}

/// Reads a shadow: `x y intensity size colour`.
pub fn parse_shadow(value: &str) -> (r: Option<ShadowSettings>)
    ensures
        r == shadow_of(value@),
{
    shadow_from_chars(&chars_of(value))
}

fn shadow_from_chars(value: &Vec<char>) -> (r: Option<ShadowSettings>)
    ensures
        r == shadow_of(value@),
{
    let x = match nth_word(value, 0) {
        Some(w) => parse_number(&w),
        None => None,
    };
    let y = match nth_word(value, 1) {
        Some(w) => parse_number(&w),
        None => None,
    };
    let intensity = match nth_word(value, 2) {
        Some(w) => parse_byte(&w),
        None => None,
    };
    let size = match nth_word(value, 3) {
        Some(w) => parse_number(&w),
        None => None,
    };
    let color = match nth_word(value, 4) {
        Some(w) => color_from_chars(&w),
        None => None,
    };
    match (x, y, intensity, size, color) {
        (Some(x), Some(y), Some(intensity), Some(size), Some(color)) => Some(
            ShadowSettings { x, y, intensity, size, color },
        ),
        _ => None,
    }
}

/// Paint attributes of a node.
#[derive(Clone, Debug)]
pub struct Style {
    pub background: Color,
    /// Signed offset from the inherited paint layer.
    pub relative_layer: i16,
    pub shadow: ShadowSettings,
    pub radius: i64,
    pub image_data: Option<Vec<u8>>,
}

/// The plain content of optional image bytes.
pub open spec fn image_view(d: Option<Vec<u8>>) -> Option<Seq<u8>> {
    match d {
        Some(v) => Some(v@),
        None => None,
    }
}

/// The content of a style, with image bytes as a sequence.
pub struct StyleView {
    pub background: Color,
    pub relative_layer: i16,
    pub shadow: ShadowSettings,
    pub radius: i64,
    pub image_data: Option<Seq<u8>>,
}

impl View for Style {
    type V = StyleView;

    open spec fn view(&self) -> StyleView {
        StyleView {
            background: self.background,
            relative_layer: self.relative_layer,
            shadow: self.shadow,
            radius: self.radius,
            image_data: image_view(self.image_data),
        }
    }
}

/// The layer offset a value denotes, where it fits in `i16`.
pub open spec fn layer_of(s: Seq<char>) -> Option<i16> {
    match parse_i64(s) {
        Some(v) => if i16::MIN <= v <= i16::MAX {
            Some(v as i16)
        } else {
            None
        },
        None => None,
    }
}

/// A style with nothing set.
pub open spec fn default_style() -> StyleView {
    StyleView {
        background: transparent(),
        relative_layer: 0,
        shadow: no_shadow(),
        radius: 0,
        image_data: None,
    }
}

/// `s` with one attribute applied; a value that does not parse, or an
/// unknown name, leaves it as it is. An `image_data` attribute holds bytes;
/// one that holds text clears the image.
pub open spec fn with_style_attribute(s: StyleView, attr: Attribute) -> StyleView {
    let name = attr.name@;
    let value = text_of(attr.value);
    if name == "background"@ {
        match color_of(value) {
            Some(c) => StyleView { background: c, ..s },
            None => s,
        }
    } else if name == "layer"@ {
        match layer_of(value) {
            Some(l) => StyleView { relative_layer: l, ..s },
            None => s,
        }
    } else if name == "shadow"@ {
        match shadow_of(value) {
            Some(sh) => StyleView { shadow: sh, ..s },
            None => s,
        }
    } else if name == "radius"@ {
        match parse_i64(value) {
            Some(r) => StyleView { radius: r, ..s },
            None => s,
        }
    } else if name == "image_data"@ {
        match attr.value {
            AttributeValue::Bytes(b) => StyleView { image_data: Some(b@), ..s },
            AttributeValue::Text(_) => StyleView { image_data: None, ..s },
        }
    } else {
        s
    }
}

/// The style that a list of raw attributes gives, applied in order from a
/// style with nothing set.
pub open spec fn style_of_attributes(attrs: Seq<Attribute>) -> StyleView
    decreases attrs.len(),
{
    if attrs.len() == 0 {
        default_style()
    } else {
        with_style_attribute(style_of_attributes(attrs.drop_last()), attrs.last())
    }
}

fn value_chars(v: &AttributeValue) -> (r: Vec<char>)
    ensures
        r@ == text_of(*v),
{
    match v {
        AttributeValue::Text(s) => chars_of(s.as_str()),
        AttributeValue::Bytes(_) => Vec::new(),
    }
}

fn parse_layer(value: &Vec<char>) -> (r: Option<i16>)
    ensures
        r == layer_of(value@),
{
    match parse_number(value) {
        Some(v) => if -32768 <= v && v <= 32767 {
            Some(v as i16)
        } else {
            None
        },
        None => None,
    }
}

fn copy_bytes(b: &Vec<u8>) -> (r: Vec<u8>)
    ensures
        r@ == b@,
{
    let mut r: Vec<u8> = Vec::new();
    let mut i: usize = 0;
    while i < b.len()
        invariant
            i <= b@.len(),
            r@ == b@.subrange(0, i as int),
        decreases b@.len() - i,
    {
        r.push(b[i]);
        i += 1;
    }
    assert(r@ =~= b@);
    r
}

fn same_bytes(a: &Option<Vec<u8>>, b: &Option<Vec<u8>>) -> (r: bool)
    ensures
        r == (image_view(*a) == image_view(*b)),
{
    match (a, b) {
        (Some(x), Some(y)) => {
            assert(image_view(*a) == Some(x@) && image_view(*b) == Some(y@));
            if x.len() != y.len() {
                assert(x@.len() != y@.len());
                return false;
            }
            let mut i: usize = 0;
            while i < x.len()
                invariant
                    image_view(*a) == Some(x@),
                    image_view(*b) == Some(y@),
                    x@.len() == y@.len(),
                    i <= x@.len(),
                    forall|j: int| 0 <= j < i ==> x@[j] == y@[j],
                decreases x@.len() - i,
            {
                if x[i] != y[i] {
                    assert(x@[i as int] != y@[i as int]);
                    assert(x@ != y@);
                    return false;
                }
                i += 1;
            }
            assert(x@ =~= y@);
            true
        },
        (None, None) => true,
        _ => false,
    }
}

impl Style {
    /// A style with nothing set.
    pub fn new() -> (r: Style)
        ensures
            r@ == default_style(),
    {
        Style {
            background: Color::transparent(),
            relative_layer: 0,
            shadow: ShadowSettings { x: 0, y: 0, intensity: 0, size: 0, color: Color::transparent() },
            radius: 0,
            image_data: None,
        }
    }

    /// Replaces this style with the one that `attributes` give, applied in
    /// order from a style with nothing set. Tells whether anything changed.
    pub fn reduce(&mut self, attributes: &Vec<Attribute>) -> (changed: bool)
        ensures
            final(self)@ == style_of_attributes(attributes@),
            changed == (final(self)@ != old(self)@),
    {
        let mut s = Style::new();
        let mut i: usize = 0;
        while i < attributes.len()
            invariant
                i <= attributes@.len(),
                s@ == style_of_attributes(attributes@.subrange(0, i as int)),
            decreases attributes@.len() - i,
        {
            assert(attributes@.subrange(0, i + 1).drop_last() =~= attributes@.subrange(0, i as int));
            let attr = &attributes[i];
            let name = attr.name.as_str();
            let value = value_chars(&attr.value);
            if str_eq(name, "background") {
                match color_from_chars(&value) {
                    Some(c) => s.background = c,
                    None => {},
                }
            } else if str_eq(name, "layer") {
                match parse_layer(&value) {
                    Some(l) => s.relative_layer = l,
                    None => {},
                }
            } else if str_eq(name, "shadow") {
                match shadow_from_chars(&value) {
                    Some(sh) => s.shadow = sh,
                    None => {},
                }
            } else if str_eq(name, "radius") {
                match parse_number(&value) {
                    Some(r) => s.radius = r,
                    None => {},
                }
            } else if str_eq(name, "image_data") {
                s.image_data = match &attr.value {
                    AttributeValue::Bytes(b) => Some(copy_bytes(b)),
                    AttributeValue::Text(_) => None,
                };
            }
            i += 1;
        }
        assert(attributes@.subrange(0, i as int) =~= attributes@);
        let changed = s.background != self.background || s.relative_layer != self.relative_layer
            || s.shadow != self.shadow || s.radius != self.radius || !same_bytes(
            &s.image_data,
            &self.image_data,
        );
        *self = s;
        changed
    }
}

/// Font attributes, inherited from the parent unless set.
#[derive(Debug)]
pub struct FontStyle {
    pub color: Color,
    pub font_family: String,
    pub font_size: i64,
}

/// The content of a font style, with the family as characters.
pub struct FontView {
    pub color: Color,
    pub font_family: Seq<char>,
    pub font_size: i64,
}

impl View for FontStyle {
    type V = FontView;

    open spec fn view(&self) -> FontView {
        FontView { color: self.color, font_family: self.font_family@, font_size: self.font_size }
    }
}

/// The font of a node without a parent and without font attributes.
pub open spec fn default_font() -> FontView {
    FontView { color: opaque(255, 255, 255), font_family: "Fira Sans"@, font_size: 16 }
}

/// `f` with one attribute applied; a value that does not parse, or an
/// unknown name, leaves it as it is.
pub open spec fn with_font_attribute(f: FontView, attr: Attribute) -> FontView {
    let name = attr.name@;
    let value = text_of(attr.value);
    if name == "color"@ {
        match color_of(value) {
            Some(c) => FontView { color: c, ..f },
            None => f,
        }
    } else if name == "font_family"@ {
        FontView { font_family: value, ..f }
    } else if name == "font_size"@ {
        match parse_i64(value) {
            Some(v) => FontView { font_size: v, ..f },
            None => f,
        }
    } else {
        f
    }
}

/// The font that a list of raw attributes gives, applied in order over
/// `start`.
pub open spec fn font_of_attributes(start: FontView, attrs: Seq<Attribute>) -> FontView
    decreases attrs.len(),
{
    if attrs.len() == 0 {
        start
    } else {
        with_font_attribute(font_of_attributes(start, attrs.drop_last()), attrs.last())
    }
}

fn value_string(v: &AttributeValue) -> (r: String)
    ensures
        r@ == text_of(*v),
{
    match v {
        AttributeValue::Text(s) => s.clone(),
        AttributeValue::Bytes(_) => String::new(),
    }
}

impl Default for FontStyle {
    fn default() -> (r: Self)
        ensures
            r@ == default_font(),
    {
        FontStyle { color: Color::from_rgb(255, 255, 255), font_family: "Fira Sans".to_owned(), font_size: 16 }
    }
}

impl FontStyle {
    /// A copy of this font style.
    pub fn duplicate(&self) -> (r: FontStyle)
        ensures
            r@ == self@,
    {
        FontStyle { color: self.color, font_family: self.font_family.clone(), font_size: self.font_size }
    }

    /// Replaces this font style with the one that `attributes` give, applied
    /// in order over the parent's font style, or over the default where there
    /// is no parent. Tells whether anything changed.
    pub fn reduce(&mut self, attributes: &Vec<Attribute>, parent: Option<&FontStyle>) -> (changed: bool)
        ensures
            final(self)@ == font_of_attributes(
                match parent {
                    Some(p) => p@,
                    None => default_font(),
                },
                attributes@,
            ),
            changed == (final(self)@ != old(self)@),
    {
        let mut f = match parent {
            Some(p) => p.duplicate(),
            None => FontStyle::default(),
        };
        let ghost start = f@;
        let mut i: usize = 0;
        while i < attributes.len()
            invariant
                i <= attributes@.len(),
                f@ == font_of_attributes(start, attributes@.subrange(0, i as int)),
            decreases attributes@.len() - i,
        {
            assert(attributes@.subrange(0, i + 1).drop_last() =~= attributes@.subrange(0, i as int));
            let attr = &attributes[i];
            let name = attr.name.as_str();
            if str_eq(name, "color") {
                match color_from_chars(&value_chars(&attr.value)) {
                    Some(c) => f.color = c,
                    None => {},
                }
            } else if str_eq(name, "font_family") {
                f.font_family = value_string(&attr.value);
            } else if str_eq(name, "font_size") {
                match parse_number(&value_chars(&attr.value)) {
                    Some(v) => f.font_size = v,
                    None => {},
                }
            }
            i += 1;
        }
        assert(attributes@.subrange(0, i as int) =~= attributes@);
        let changed = f.color != self.color || f.font_family != self.font_family || f.font_size
            != self.font_size;
        *self = f;
        changed
    }
}

/// The attributes a node carries into layout and painting.
#[derive(Debug)]
pub struct NodeState {
    pub size: Size,
    pub style: Style,
    pub font_style: FontStyle,
}

} // verus!
