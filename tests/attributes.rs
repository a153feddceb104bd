use freya_layout::attributes::{parse_size, Attribute, AttributeValue};
use freya_layout::node::{DirectionMode, Padding, Size, SizeMode};
use freya_layout::style::{
    parse_color, parse_rgb, parse_shadow, Color, FontStyle, ShadowSettings, Style,
};

fn text(name: &str, value: &str) -> Attribute {
    Attribute { name: name.to_string(), value: AttributeValue::Text(value.to_string()) }
}

fn opaque(r: u8, g: u8, b: u8) -> Color {
    Color { a: 255, r, g, b }
}

#[test]
fn sizes_parse_in_every_form() {
    assert_eq!(parse_size("stretch"), Some(SizeMode::Percentage(100)));
    assert_eq!(parse_size("auto"), Some(SizeMode::Auto));
    assert_eq!(parse_size("50%"), Some(SizeMode::Percentage(50)));
    assert_eq!(parse_size("5%%"), Some(SizeMode::Percentage(5)));
    assert_eq!(parse_size("120"), Some(SizeMode::Manual(120)));
    assert_eq!(parse_size("-7"), Some(SizeMode::Manual(-7)));
    assert_eq!(parse_size("+7"), Some(SizeMode::Manual(7)));
    assert_eq!(parse_size("9223372036854775807"), Some(SizeMode::Manual(i64::MAX)));
    assert_eq!(parse_size("-9223372036854775808%"), Some(SizeMode::Percentage(i64::MIN)));
    assert_eq!(parse_size("9223372036854775808"), None);
    assert_eq!(parse_size("%"), None);
    assert_eq!(parse_size(""), None);
    assert_eq!(parse_size("abc"), None);
    assert_eq!(parse_size("1 0"), None);
}

#[test]
fn size_attributes_reduce_in_order() {
    let mut s = Size::default();
    let attrs = vec![
        text("width", "50%"),
        text("height", "auto"),
        text("min_width", "10"),
        text("min_height", "stretch"),
        text("direction", "horizontal"),
        text("scroll_y", "-30"),
        text("scroll_x", "oops"),
        text("unknown", "1"),
        text("padding", "-7"),
        Attribute { name: "height".to_string(), value: AttributeValue::Bytes(vec![1]) },
    ];
    assert!(s.reduce(&attrs));
    assert_eq!(s.width, SizeMode::Percentage(50));
    assert_eq!(s.height, SizeMode::Auto);
    assert_eq!(s.min_width, SizeMode::Manual(10));
    assert_eq!(s.min_height, SizeMode::Percentage(100));
    assert_eq!(s.direction, DirectionMode::Horizontal);
    assert_eq!((s.scroll_y, s.scroll_x), (-30, 0));
    assert_eq!(s.padding, Padding { top: -4, right: -4, bottom: -4, left: -4 });
    assert!(!s.reduce(&attrs));
    assert!(s.reduce(&vec![text("direction", "both"), text("padding", "7")]));
    assert_eq!(s.direction, DirectionMode::Both);
    assert_eq!(s.width, SizeMode::Auto);
    assert_eq!(s.padding, Padding { top: 3, right: 3, bottom: 3, left: 3 });
    assert!(s.reduce(&vec![text("direction", "diagonal")]));
    assert_eq!(s.direction, DirectionMode::Vertical);
    assert_eq!(s, Size::default());
}

#[test]
fn expanded_fills_the_parent() {
    let e = Size::expanded();
    assert_eq!(e.width, SizeMode::Percentage(100));
    assert_eq!(e.height, SizeMode::Percentage(100));
    assert_eq!(e.min_width, SizeMode::Manual(0));
    assert_eq!(e.direction, DirectionMode::Both);
}

#[test]
fn colors_by_name_and_rgb() {
    assert_eq!(parse_color("red"), Some(opaque(255, 0, 0)));
    assert_eq!(parse_color("gray"), Some(opaque(0x88, 0x88, 0x88)));
    assert_eq!(parse_color("white"), Some(opaque(255, 255, 255)));
    assert_eq!(parse_color("rgb(10, 20, 30)"), Some(opaque(10, 20, 30)));
    assert_eq!(parse_color(" rgb( 1 , 2 , 3 , 4)"), Some(opaque(1, 2, 3)));
    assert_eq!(parse_rgb("rgb(1,2)"), None);
    assert_eq!(parse_rgb("rgb(256,0,0)"), None);
    assert_eq!(parse_rgb("rgb(-1,0,0)"), None);
    assert_eq!(parse_rgb("rgb(+1,0,0)"), Some(opaque(1, 0, 0)));
    assert_eq!(parse_color("purple"), None);
}

#[test]
fn shadows_read_five_words() {
    assert_eq!(
        parse_shadow("3 -4 200 10 blue"),
        Some(ShadowSettings { x: 3, y: -4, intensity: 200, size: 10, color: opaque(0, 0, 255) })
    );
    assert_eq!(
        parse_shadow("  1\t2  3 4 rgb(1,2,3) extra"),
        Some(ShadowSettings { x: 1, y: 2, intensity: 3, size: 4, color: opaque(1, 2, 3) })
    );
    assert_eq!(parse_shadow("1 2 3 4"), None);
    assert_eq!(parse_shadow("1 2 300 4 red"), None);
}

#[test]
fn style_attributes_reduce_in_order() {
    let mut s = Style::new();
    let attrs = vec![
        text("background", "green"),
        text("layer", "2"),
        text("layer", "70000"),
        text("radius", "8"),
        text("shadow", "1 1 9 2 black"),
        Attribute { name: "image_data".to_string(), value: AttributeValue::Bytes(vec![1, 2, 3]) },
    ];
    assert!(s.reduce(&attrs));
    assert_eq!(s.background, opaque(0, 255, 0));
    assert_eq!(s.relative_layer, 2);
    assert_eq!(s.radius, 8);
    assert_eq!(s.shadow, ShadowSettings { x: 1, y: 1, intensity: 9, size: 2, color: opaque(0, 0, 0) });
    assert_eq!(s.image_data, Some(vec![1, 2, 3]));
    assert!(!s.reduce(&attrs));
    assert!(s.reduce(&vec![text("image_data", "x"), text("layer", "-3")]));
    assert_eq!(s.image_data, None);
    assert_eq!(s.relative_layer, -3);
    assert_eq!(s.background, Color { a: 0, r: 0, g: 0, b: 0 });
}

#[test]
fn fonts_inherit_from_the_parent() {
    let mut parent = FontStyle::default();
    assert_eq!(parent.font_family, "Fira Sans");
    assert_eq!(parent.font_size, 16);
    assert_eq!(parent.color, opaque(255, 255, 255));
    assert!(parent.reduce(&vec![text("font_size", "20"), text("font_family", "Mono")], None));
    let mut child = FontStyle::default();
    assert!(child.reduce(&vec![text("color", "black"), text("font_size", "big")], Some(&parent)));
    assert_eq!(child.color, opaque(0, 0, 0));
    assert_eq!(child.font_family, "Mono");
    assert_eq!(child.font_size, 20);
    assert!(!child.reduce(&vec![text("color", "black")], Some(&parent)));
}
