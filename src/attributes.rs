//! Reduction of a node's raw attributes to typed size attributes.
use vstd::prelude::*;
use crate::node::{DirectionMode, Padding, Size, SizeMode};
use crate::text::{
    chars_eq,
    chars_of, contains_char, holds_char, parse_i64, parse_number, remove_char, str_eq, without,
};

verus! {

/// The value of a raw attribute.
#[derive(Debug)]
pub enum AttributeValue {
    Text(String),
    Bytes(Vec<u8>),
}

/// One raw attribute of a node.
#[derive(Debug)]
pub struct Attribute {
    pub name: String,
    pub value: AttributeValue,
}

/// The text of an attribute value; a byte value has none.
pub open spec fn text_of(v: AttributeValue) -> Seq<char> {
    match v {
        AttributeValue::Text(s) => s@,
        AttributeValue::Bytes(_) => Seq::empty(),
    }
}

/// The size mode a value denotes: `stretch`, `auto`, a percentage such as
/// `50%`, or a bare number of units.
pub open spec fn size_mode_of(s: Seq<char>) -> Option<SizeMode> {
    if s == "stretch"@ {
        Some(SizeMode::Percentage(100))
    } else if s == "auto"@ {
        Some(SizeMode::Auto)
    } else if holds_char(s, '%') {
        match parse_i64(without(s, '%')) {
            Some(v) => Some(SizeMode::Percentage(v)),
            None => None,
        }
    } else {
        match parse_i64(s) {
            Some(v) => Some(SizeMode::Manual(v)),
            None => None,
        }
    }
}

/// The direction a value denotes; anything unknown means vertical.
pub open spec fn direction_of(s: Seq<char>) -> DirectionMode {
    if s == "horizontal"@ {
        DirectionMode::Horizontal
    } else if s == "both"@ {
        DirectionMode::Both
    } else {
        DirectionMode::Vertical
    }
}

/// Attributes of a node that sets none.
pub open spec fn default_size() -> Size {
    Size {
        width: SizeMode::Auto,
        height: SizeMode::Auto,
        min_height: SizeMode::Auto,
        min_width: SizeMode::Auto,
        padding: Padding { top: 0, right: 0, bottom: 0, left: 0 },
        scroll_y: 0,
        scroll_x: 0,
        direction: DirectionMode::Vertical,
    }
}

/// Padding with a total split evenly: half of it on every side.
pub open spec fn even_padding(total: i64) -> Padding {
    let side = (total as int / 2) as i64;
    Padding { top: side, right: side, bottom: side, left: side }
}

/// `s` with one attribute applied; a value that does not parse, or an
/// unknown name, leaves it as it is.
pub open spec fn with_size_attribute(s: Size, name: Seq<char>, value: Seq<char>) -> Size {
    if name == "width"@ {
        match size_mode_of(value) {
            Some(m) => Size { width: m, ..s },
            None => s,
        }
    } else if name == "height"@ {
        match size_mode_of(value) {
            Some(m) => Size { height: m, ..s },
            None => s,
        }
    } else if name == "min_height"@ {
        match size_mode_of(value) {
            Some(m) => Size { min_height: m, ..s },
            None => s,
        }
    } else if name == "min_width"@ {
        match size_mode_of(value) {
            Some(m) => Size { min_width: m, ..s },
            None => s,
        }
    } else if name == "padding"@ {
        match parse_i64(value) {
            Some(t) => Size { padding: even_padding(t), ..s },
            None => s,
        }
    } else if name == "scroll_y"@ {
        match parse_i64(value) {
            Some(v) => Size { scroll_y: v, ..s },
            None => s,
        }
    } else if name == "scroll_x"@ {
        match parse_i64(value) {
            Some(v) => Size { scroll_x: v, ..s },
            None => s,
        }
    } else if name == "direction"@ {
        Size { direction: direction_of(value), ..s }
    } else {
        s
    }
}

/// The size attributes that a list of raw attributes gives, applied in order
/// from the defaults.
pub open spec fn size_of_attributes(attrs: Seq<Attribute>) -> Size
    decreases attrs.len(),
{
    if attrs.len() == 0 {
        default_size()
    } else {
        with_size_attribute(
            size_of_attributes(attrs.drop_last()),
            attrs.last().name@,
            text_of(attrs.last().value),
        )
    }
}

/// Reads a size mode: `stretch`, `auto`, `N%` or a bare number `N`.
pub fn parse_size(size: &str) -> (r: Option<SizeMode>)
    ensures
        r == size_mode_of(size@),
{
    let cs = chars_of(size);
    parse_size_chars(&cs)
}

fn value_text(v: &AttributeValue) -> (r: Vec<char>)
    ensures
        r@ == text_of(*v),
{
    match v {
        AttributeValue::Text(s) => chars_of(s.as_str()),
        AttributeValue::Bytes(_) => Vec::new(),
    }
}

fn half(total: i64) -> (r: i64)
    ensures
        r as int == total as int / 2,
{
    if total >= 0 {
        total / 2
    } else {
        let t = total as i128;
        (-((-t + 1) / 2)) as i64
    }
}

fn apply_size_attribute(s: Size, attr: &Attribute) -> (r: Size)
    ensures
        r == with_size_attribute(s, attr.name@, text_of(attr.value)),
{
    let name = attr.name.as_str();
    let value = value_text(&attr.value);
    if str_eq(name, "width") {
        match parse_size_chars(&value) {
            Some(m) => Size { width: m, ..s },
            None => s,
        }
    } else if str_eq(name, "height") {
        match parse_size_chars(&value) {
            Some(m) => Size { height: m, ..s },
            None => s,
        }
    } else if str_eq(name, "min_height") {
        match parse_size_chars(&value) {
            Some(m) => Size { min_height: m, ..s },
            None => s,
        }
    } else if str_eq(name, "min_width") {
        match parse_size_chars(&value) {
            Some(m) => Size { min_width: m, ..s },
            None => s,
        }
    } else if str_eq(name, "padding") {
        match parse_number(&value) {
            Some(t) => {
                let side = half(t);
                Size { padding: Padding { top: side, right: side, bottom: side, left: side }, ..s }
            },
            None => s,
        }
    } else if str_eq(name, "scroll_y") {
        match parse_number(&value) {
            Some(v) => Size { scroll_y: v, ..s },
            None => s,
        }
    } else if str_eq(name, "scroll_x") {
        match parse_number(&value) {
            Some(v) => Size { scroll_x: v, ..s },
            None => s,
        }
    } else if str_eq(name, "direction") {
        let direction = if chars_eq(&value, "horizontal") {
            DirectionMode::Horizontal
        } else if chars_eq(&value, "both") {
            DirectionMode::Both
        } else {
            DirectionMode::Vertical
        };
        Size { direction, ..s }
    } else {
        s
    }
}

/// `parse_size` on a sequence of characters.
pub fn parse_size_chars(cs: &Vec<char>) -> (r: Option<SizeMode>)
    ensures
        r == size_mode_of(cs@),
{
    if chars_eq(cs, "stretch") {
        Some(SizeMode::Percentage(100))
    } else if chars_eq(cs, "auto") {
        Some(SizeMode::Auto)
    } else if contains_char(cs, '%') {
        let digits = remove_char(cs, '%');
        match parse_number(&digits) {
            Some(v) => Some(SizeMode::Percentage(v)),
            None => None,
        }
    } else {
        match parse_number(cs) {
            Some(v) => Some(SizeMode::Manual(v)),
            None => None,
        }
    }
}

impl Default for Size {
    fn default() -> (r: Self)
        ensures
            r == default_size(),
    {
        Size {
            width: SizeMode::Auto,
            height: SizeMode::Auto,
            min_height: SizeMode::Auto,
            min_width: SizeMode::Auto,
            padding: Padding { top: 0, right: 0, bottom: 0, left: 0 },
            scroll_y: 0,
            scroll_x: 0,
            direction: DirectionMode::Vertical,
        }
    }
}

impl Size {
    /// Replaces these attributes with those that `attributes` give, applied
    /// in order from the defaults. Tells whether anything changed.
    pub fn reduce(&mut self, attributes: &Vec<Attribute>) -> (changed: bool)
        ensures
            *final(self) == size_of_attributes(attributes@),
            changed == (*final(self) != *old(self)),
    {
        let mut s = Size::default();
        let mut i: usize = 0;
        while i < attributes.len()
            invariant
                i <= attributes@.len(),
                s == size_of_attributes(attributes@.subrange(0, i as int)),
            decreases attributes@.len() - i,
        {
            assert(attributes@.subrange(0, i + 1).drop_last() =~= attributes@.subrange(0, i as int));
            s = apply_size_attribute(s, &attributes[i]);
            i += 1;
        }
        assert(attributes@.subrange(0, i as int) =~= attributes@);
        let changed = s != *self;
        *self = s;
        changed
    }
}

} // verus!
