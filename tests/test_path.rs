use visualife::num::Num;
use visualife::shapes::path::write_commands;
use visualife::shapes::path_syntax::parse_path_commands;
use visualife::shapes::{Path, PathCommand};

fn n(v: i32) -> Num {
    Num::from_int(v)
}

fn m(micros: i64) -> Num {
    Num::from_micros(micros)
}

fn text_of(cmds: &Vec<PathCommand>) -> String {
    let mut s = String::new();
    write_commands(cmds, &mut s);
    s
}

#[test]
fn test_parse_path_commands() {
    let path_data = "M 100 100 L 300 100 L 200 300 z";
    let expected = vec![
        PathCommand::MoveTo(n(100), n(100)),
        PathCommand::LineTo(n(300), n(100)),
        PathCommand::LineTo(n(200), n(300)),
        PathCommand::Close,
    ];

    let result = parse_path_commands(path_data);
    assert_eq!(result, expected);
}

#[test]
fn every_command_round_trips() {
    let cmds = vec![
        PathCommand::MoveTo(n(1), m(-2500000)),
        PathCommand::LineTo(m(50000), n(0)),
        PathCommand::HorizontalTo(n(-7)),
        PathCommand::VerticalTo(m(1)),
        PathCommand::CurveTo(n(1), n(2), n(3), n(4), n(5), n(6)),
        PathCommand::SmoothCurveTo(m(-1), m(-10), m(-100), m(-1000)),
        PathCommand::QuadraticBezierCurveTo(n(9), n(8), n(7), n(6)),
        PathCommand::SmoothQuadraticBezierCurveTo(m(123456789), n(0)),
        PathCommand::EllipticalArcTo(n(5), n(6), n(30), true, false, n(10), n(-10)),
        PathCommand::MoveBy(n(0), n(0)),
        PathCommand::LineBy(m(-999999), m(999999)),
        PathCommand::HorizontalBy(n(3)),
        PathCommand::VerticalBy(n(-3)),
        PathCommand::CurveBy(n(6), n(5), n(4), n(3), n(2), n(1)),
        PathCommand::SmoothCurveBy(n(1), n(1), n(2), n(2)),
        PathCommand::QuadraticBezierCurveBy(n(4), n(4), n(8), n(8)),
        PathCommand::EllipticalArcBy(m(1500000), n(2), n(0), false, true, n(-4), m(-1)),
        PathCommand::Close,
        PathCommand::MoveTo(Num::from_micros(i64::MIN), Num::from_micros(i64::MAX)),
    ];
    let text = text_of(&cmds);
    let back = parse_path_commands(&text);
    assert_eq!(back, cmds);
    assert_eq!(text_of(&back), text);
}

#[test]
fn command_text_forms() {
    assert_eq!(PathCommand::LineTo(n(300), n(100)).to_text(), "L 300 100");
    assert_eq!(PathCommand::HorizontalBy(m(-50000)).to_text(), "h -0.05");
    assert_eq!(
        PathCommand::EllipticalArcTo(n(5), n(5), n(0), false, true, m(1500000), n(0)).to_text(),
        "A 5 5 0 0 1 1.5 0"
    );
    assert_eq!(PathCommand::Close.to_text(), "Z");
    assert_eq!(PathCommand::SmoothQuadraticBezierCurveTo(n(1), n(2)).to_text(), "T 1 2");
}

#[test]
fn parse_tightly_packed_numbers() {
    let cmds = parse_path_commands("M10-5L20,30");
    assert_eq!(cmds, vec![PathCommand::MoveTo(n(10), n(-5)), PathCommand::LineTo(n(20), n(30))]);
}

#[test]
fn parse_skips_unknown_letters_and_noise() {
    let cmds = parse_path_commands("M 1 2 X L 3 4 junk");
    assert_eq!(cmds, vec![PathCommand::MoveTo(n(1), n(2)), PathCommand::LineTo(n(3), n(4))]);
}

#[test]
fn parse_skips_letters_between_operands() {
    let cmds = parse_path_commands("M 1 L 2 3");
    assert_eq!(cmds, vec![PathCommand::MoveTo(n(1), n(2))]);
}

#[test]
fn parse_drops_malformed_numbers() {
    let cmds = parse_path_commands("L 1.2.3 4 5");
    assert_eq!(cmds, vec![PathCommand::LineTo(n(4), n(5))]);
}

#[test]
fn parse_saturates_huge_numbers() {
    let cmds = parse_path_commands("M 100000000000000 5 L 1 2");
    assert_eq!(
        cmds,
        vec![PathCommand::MoveTo(m(i64::MAX), n(5)), PathCommand::LineTo(n(1), n(2))]
    );
}

#[test]
fn parse_drops_an_incomplete_command() {
    let cmds = parse_path_commands("M 1 2 L 3");
    assert_eq!(cmds, vec![PathCommand::MoveTo(n(1), n(2))]);
    assert_eq!(parse_path_commands(""), vec![]);
}

#[test]
fn parse_arc_flags_and_lower_case() {
    let cmds = parse_path_commands("a 5 5 0 1 0 10 10 t 1 2 z");
    assert_eq!(
        cmds,
        vec![
            PathCommand::EllipticalArcBy(n(5), n(5), n(0), true, false, n(10), n(10)),
            PathCommand::SmoothQuadraticBezierCurveTo(n(1), n(2)),
            PathCommand::Close,
        ]
    );
}

#[test]
fn path_from_text_and_back() {
    let p = Path::from_str("p", "M 0.5 -1.25 C 1 2 3 4 5 6 Z");
    assert_eq!(
        p.d,
        vec![
            PathCommand::MoveTo(m(500000), m(-1250000)),
            PathCommand::CurveTo(n(1), n(2), n(3), n(4), n(5), n(6)),
            PathCommand::Close,
        ]
    );
    assert_eq!(text_of(&p.d), "M 0.5 -1.25 C 1 2 3 4 5 6 Z ");
}

#[test]
fn number_text() {
    assert_eq!(n(100).to_text(), "100");
    assert_eq!(m(-50000).to_text(), "-0.05");
    assert_eq!(m(1500000).to_text(), "1.5");
    assert_eq!(n(0).to_text(), "0");
    assert_eq!(m(1).to_text(), "0.000001");
    assert_eq!(m(i64::MIN).to_text(), "-9223372036854.775808");
}

#[test]
fn number_parse() {
    assert_eq!(Num::parse("3."), Some(n(3)));
    assert_eq!(Num::parse(".5"), Some(m(500000)));
    assert_eq!(Num::parse("-0.05"), Some(m(-50000)));
    assert_eq!(Num::parse("1.23456789"), Some(m(1234567)));
    assert_eq!(Num::parse("-"), None);
    assert_eq!(Num::parse("."), None);
    assert_eq!(Num::parse("1.2.3"), None);
    assert_eq!(Num::parse("12a"), None);
    assert_eq!(Num::parse("99999999999999"), Some(m(i64::MAX)));
    assert_eq!(Num::parse("-99999999999999.5"), Some(m(i64::MIN)));
    assert_eq!(Num::parse("9223372036855"), Some(m(i64::MAX)));
    assert_eq!(Num::parse("-9223372036854.775808"), Some(m(i64::MIN)));
}
