use visualife::colors::{darker, hex_to_rgb, lighter};
use visualife::style::Style;
use visualife::Num;

#[test]
fn decoration_order() {
    let mut s = Style::new();
    s.set_stroke("#000000");
    s.set_fill("#FFFFFF");
    assert_eq!(s.to_string(), "fill:#FFFFFF;stroke:#000000;");
    let mut t = Style::new();
    t.set_fill("#FFFFFF");
    t.set_stroke("#000000");
    assert_eq!(t.to_string(), s.to_string());
}

#[test]
fn empty_style_writes_nothing() {
    let s = Style::new();
    assert!(s.is_empty());
    assert_eq!(s.to_string(), "");
}

#[test]
fn every_attribute_in_order() {
    let mut s = Style::new();
    s.set_stroke_opacity(Num::from_micros(100000));
    s.set_fill_opacity(Num::from_micros(200000));
    s.set_opacity(Num::from_micros(250000));
    s.set_stroke_width(Num::from_micros(1500000));
    s.set_stroke("blue");
    s.set_fill("red");
    s.set_angle(Num::from_int(30));
    assert!(!s.is_empty());
    assert_eq!(
        s.to_string(),
        "fill:red;stroke:blue;stroke-width:1.5;opacity:0.25;fill-opacity:0.2;stroke-opacity:0.1;"
    );
}

#[test]
fn rgb_to_hex_channels() {
    assert_eq!(visualife::colors::rgb_to_hex(255, 0, 16), "#FF0010");
    assert_eq!(visualife::style::rgb_to_hex(0, 10, 255), "#000AFF");
    assert_eq!(visualife::style::rgb_to_hex(256, 1, 2), "#1000102");
}

#[test]
fn hex_to_rgb_reads_and_rejects() {
    assert_eq!(hex_to_rgb("#ff8000"), Ok((255, 128, 0)));
    assert_eq!(hex_to_rgb("#0A0b0C"), Ok((10, 11, 12)));
    assert_eq!(hex_to_rgb("#FF80"), Err("Invalid hex color format"));
    assert_eq!(hex_to_rgb("FF8000A"), Err("Invalid hex color format"));
    assert_eq!(hex_to_rgb("#GG0000"), Err("Invalid red component"));
    assert_eq!(hex_to_rgb("#00GG00"), Err("Invalid green component"));
    assert_eq!(hex_to_rgb("#0000GG"), Err("Invalid blue component"));
}

#[test]
fn darker_and_lighter() {
    assert_eq!(darker("#FF8040", Num::from_micros(500000)), Ok("#7F4020".to_string()));
    assert_eq!(darker("#FF8040", Num::from_int(0)), Ok("#FF8040".to_string()));
    assert_eq!(darker("#FF8040", Num::from_int(1)), Ok("#000000".to_string()));
    assert_eq!(lighter("#808080", Num::from_micros(500000)), Ok("#C0C0C0".to_string()));
    assert_eq!(lighter("#FF0000", Num::from_int(1)), Ok("#FF0000".to_string()));
    assert_eq!(
        darker("#FF8040", Num::from_micros(1500000)),
        Err("Fraction must be between 0.0 and 1.0")
    );
    assert_eq!(
        lighter("#FF8040", Num::from_micros(-1)),
        Err("Fraction must be between 0.0 and 1.0")
    );
    assert_eq!(darker("#XX8040", Num::from_micros(500000)), Err("Invalid red component"));
}
