use commedia::config::{parse_config, ParseError, ParseErrorKind};
use commedia::lexer::{lex, Parser};
use commedia::session::{
    Session, SessionAspect, SessionBackground, SessionDistribution, SessionFormat, SessionPath,
    SessionStyle,
};

fn lines(text: &str) -> Vec<String> {
    text.lines().map(String::from).collect()
}

fn parse(text: &str) -> Result<Vec<Session>, ParseError> {
    parse_config(&lines(text))
}

fn c(v: &str) -> SessionDistribution {
    SessionDistribution::Constant(v.to_string())
}

fn err(line: usize, kind: ParseErrorKind) -> Result<Vec<Session>, ParseError> {
    Err(ParseError { line, kind })
}

#[test]
fn scenario_head_session() {
    let text = "session1:\n  count: 3\n  head:\n    pos:\n      x: 0.0\n      y: 0.0\n      z: 1.0\n    dir:\n      y: 0.0\n      p: 0.0\n      b: 0.0";
    let sessions = parse(text).unwrap();
    assert_eq!(sessions.len(), 1);
    let s = &sessions[0];
    assert_eq!(s.name, "session1");
    assert_eq!(s.count, 3);
    assert_eq!(s.head_pos.x, c("0.0"));
    assert_eq!(s.head_pos.y, c("0.0"));
    assert_eq!(s.head_pos.z, c("1.0"));
    assert_eq!(s.head_dir.y, c("0.0"));
    assert_eq!(s.head_dir.p, c("0.0"));
    assert_eq!(s.head_dir.b, c("0.0"));
}

#[test]
fn scenario_invalid_format() {
    assert_eq!(parse("session1:\n  format: jpeg"), err(2, ParseErrorKind::Format));
}

#[test]
fn invalid_format_discards_earlier_sessions() {
    let text = "a:\n  count: 1\nb:\n  format: jpeg\n";
    assert_eq!(parse(text), err(4, ParseErrorKind::Format));
}

#[test]
fn parse_is_deterministic() {
    let text = "s:\n  count: 7\n  light:\n    dir:\n      y: normal 0.5,0.1\n";
    assert_eq!(parse(text), parse(text));
}

#[test]
fn defaults_of_a_bare_session() {
    let s = &parse("plain:").unwrap()[0];
    assert_eq!(s.name, "plain");
    assert_eq!(s.path, SessionPath::Replace("./".to_string()));
    assert_eq!(s.csv, "./files.cvs");
    assert_eq!(s.count, 16384);
    assert_eq!(s.style, SessionStyle::Still);
    assert_eq!(s.format, SessionFormat::BMP);
    assert_eq!((s.size.x, s.size.y), (256, 192));
    assert_eq!(s.projection.fovy, "30.0");
    assert_eq!(s.projection.aspect, SessionAspect::Ratio("4.0".to_string(), "3.0".to_string()));
    assert_eq!(s.light_color.r, c("1.0"));
    assert_eq!(s.skin_color.g, c("0.7"));
    assert_eq!(s.iris_color.b, c("0.4"));
    assert_eq!(s.ambient_color.r, c("0.2"));
}

#[test]
fn empty_text_has_no_sessions() {
    assert_eq!(parse("").unwrap().len(), 0);
    assert_eq!(parse("\n# only a comment\n\n").unwrap().len(), 0);
}

#[test]
fn several_sessions() {
    let text = "first:\n  count: 1\nsecond:\n  count: 2\n  format: png\n";
    let s = parse(text).unwrap();
    assert_eq!(s.len(), 2);
    assert_eq!((s[0].name.as_str(), s[0].count), ("first", 1));
    assert_eq!((s[1].name.as_str(), s[1].count, s[1].format), ("second", 2, SessionFormat::PNG));
}

#[test]
fn unknown_key_in_triple_names_its_line() {
    let text = "s:\n  lefteye:\n    y: 1\n    q: 2\n";
    assert_eq!(parse(text), err(4, ParseErrorKind::UnknownKey));
}

#[test]
fn unknown_key_in_session_names_its_line() {
    let text = "# comment\n\ns:\n  count: 2\n  colour: 3\n";
    assert_eq!(parse(text), err(5, ParseErrorKind::UnknownKey));
}

#[test]
fn unknown_key_in_pair_names_its_line() {
    let text = "s:\n  head:\n    pos:\n      x: 1\n    rot:\n      y: 1\n";
    assert_eq!(parse(text), err(5, ParseErrorKind::UnknownKey));
}

#[test]
fn session_not_in_first_column() {
    assert_eq!(parse("  s:\n    count: 1\n"), err(1, ParseErrorKind::Indentation));
}

#[test]
fn deeper_line_under_a_leaf_is_rejected() {
    let text = "s:\n  count: 1\n    x: 2\n";
    assert_eq!(parse(text), err(3, ParseErrorKind::Indentation));
}

#[test]
fn line_between_indentations_is_rejected() {
    let text = "s:\n  head:\n    pos:\n        x: 1\n      y: 2\n";
    assert_eq!(parse(text), err(5, ParseErrorKind::Indentation));
}

#[test]
fn sibling_ends_nested_block() {
    let text = "s:\n  skin:\n    r: 0.1\n  iris:\n    b: 0.9\n  count: 4\n";
    let s = &parse(text).unwrap()[0];
    assert_eq!(s.skin_color.r, c("0.1"));
    assert_eq!(s.skin_color.g, c("0.0"));
    assert_eq!(s.iris_color.b, c("0.9"));
    assert_eq!(s.iris_color.r, c("0.0"));
    assert_eq!(s.count, 4);
}

#[test]
fn leaf_key_of_parent_is_not_taken_by_child() {
    // `b` at the session's indentation is not a key of the sclera block
    let text = "s:\n  sclera:\n    r: 0.5\n  b: 1\n";
    assert_eq!(parse(text), err(4, ParseErrorKind::UnknownKey));
}

#[test]
fn light_block() {
    let text = "s:\n  light:\n    dir:\n      y: 0.5\n    color:\n      g: 0.25\n";
    let s = &parse(text).unwrap()[0];
    assert_eq!(s.light_dir.y, c("0.5"));
    assert_eq!(s.light_color.g, c("0.25"));
    assert_eq!(s.light_color.r, c("0.0"));
}

#[test]
fn normal_distribution() {
    let s = &parse("s:\n  righteye:\n    p: normal 0.5,0.1\n").unwrap()[0];
    assert_eq!(s.righteye.p, SessionDistribution::Normal("0.5".to_string(), "0.1".to_string()));
}

#[test]
fn normal_needs_two_parameters() {
    assert_eq!(parse("s:\n  righteye:\n    p: normal 0.5\n"), err(3, ParseErrorKind::Distribution));
    assert_eq!(parse("s:\n  righteye:\n    p: normal 1,2,3\n"), err(3, ParseErrorKind::Distribution));
}

#[test]
fn normal_rejects_negative_or_infinite_deviation() {
    assert_eq!(parse("s:\n  iris:\n    r: normal 0.5,-0.1\n"), err(3, ParseErrorKind::Distribution));
    assert_eq!(parse("s:\n  iris:\n    r: normal 0.5,inf\n"), err(3, ParseErrorKind::Distribution));
    assert!(parse("s:\n  iris:\n    r: normal -0.5,-0.0\n").is_ok());
}

#[test]
fn constant_literals() {
    let s = &parse("s:\n  skin:\n    r: -1.5e3\n    g: .5\n    b: INF\n").unwrap()[0];
    assert_eq!(s.skin_color.r, c("-1.5e3"));
    assert_eq!(s.skin_color.g, c(".5"));
    assert_eq!(s.skin_color.b, c("INF"));
    assert_eq!(parse("s:\n  skin:\n    r: 1e\n"), err(3, ParseErrorKind::Distribution));
    assert_eq!(parse("s:\n  skin:\n    r: abc\n"), err(3, ParseErrorKind::Distribution));
    assert_eq!(parse("s:\n  skin:\n    r: .\n"), err(3, ParseErrorKind::Distribution));
}

#[test]
fn path_policies() {
    let s = &parse("s:\n  path: replace out/dir\n").unwrap()[0];
    assert_eq!(s.path, SessionPath::Replace("out/dir".to_string()));
    let s = &parse("s:\n  path: append  more\n").unwrap()[0];
    assert_eq!(s.path, SessionPath::Append("more".to_string()));
    assert_eq!(parse("s:\n  path: move x\n"), err(2, ParseErrorKind::Path));
}

#[test]
fn styles_and_formats() {
    let s = &parse("s:\n  style: moving_depth\n  format: protobuf\n").unwrap()[0];
    assert_eq!(s.style, SessionStyle::MovingDepth);
    assert_eq!(s.format, SessionFormat::ProtoBuf);
    assert_eq!(parse("s:\n  style: fast\n"), err(2, ParseErrorKind::Style));
}

#[test]
fn count_and_size() {
    let s = &parse("s:\n  count: +12\n  size: 640,480\n").unwrap()[0];
    assert_eq!(s.count, 12);
    assert_eq!((s.size.x, s.size.y), (640, 480));
    assert_eq!(parse("s:\n  count: -1\n"), err(2, ParseErrorKind::Count));
    assert_eq!(parse("s:\n  count: 99999999999999999999999\n"), err(2, ParseErrorKind::Count));
    assert_eq!(parse("s:\n  size: 640\n"), err(2, ParseErrorKind::Size));
    assert_eq!(parse("s:\n  size: 640, 480\n"), err(2, ParseErrorKind::Size));
}

#[test]
fn projections() {
    let s = &parse("s:\n  projection: perspective 45,16/9,0.5,50\n").unwrap()[0];
    assert_eq!(s.projection.fovy, "45");
    assert_eq!(s.projection.aspect, SessionAspect::Ratio("16".to_string(), "9".to_string()));
    assert_eq!(s.projection.near, "0.5");
    assert_eq!(s.projection.far, "50");
    let s = &parse("s:\n  projection: perspective 45,1.5,0.5,50\n").unwrap()[0];
    assert_eq!(s.projection.aspect, SessionAspect::Value("1.5".to_string()));
    assert_eq!(parse("s:\n  projection: perspective 45,1.5,0.5\n"), err(2, ParseErrorKind::Projection));
    assert_eq!(parse("s:\n  projection: ortho 1,1,1,1\n"), err(2, ParseErrorKind::Projection));
}

#[test]
fn backgrounds() {
    let s = &parse("s:\n  background: image ./backgrounds/\n").unwrap()[0];
    assert_eq!(s.background, SessionBackground::Image("./backgrounds/".to_string()));
    let s = &parse("s:\n  background: color\n    r: 0.3\n  count: 2\n").unwrap()[0];
    match &s.background {
        SessionBackground::Color(rgb) => {
            assert_eq!(rgb.r, c("0.3"));
            assert_eq!(rgb.g, c("0.0"));
        },
        other => panic!("unexpected background {:?}", other),
    }
    assert_eq!(s.count, 2);
    let s = &parse("s:\n  background: black\n").unwrap()[0];
    match &s.background {
        SessionBackground::Color(rgb) => assert_eq!(rgb.b, c("0.0")),
        other => panic!("unexpected background {:?}", other),
    }
    assert_eq!(parse("s:\n  background: white\n"), err(2, ParseErrorKind::Background));
}

#[test]
fn error_expectations_are_described() {
    let e = ParseError { line: 3, kind: ParseErrorKind::Format };
    assert_eq!(e.expectation(), "bmp, png or protobuf expected");
}

#[test]
fn lexer_splits_key_and_value() {
    let chars: Vec<char> = "    - key: a:b : c  ".chars().collect();
    let l = lex(&chars, 9).unwrap();
    assert_eq!(l.number, 9);
    assert_eq!(l.indent, 4);
    assert!(l.dashed);
    assert_eq!(l.key.iter().collect::<String>(), "key");
    assert_eq!(l.value.iter().collect::<String>(), "a b   c");
}

#[test]
fn lexer_skips_blank_and_comment_lines() {
    let blank: Vec<char> = "     ".chars().collect();
    let comment: Vec<char> = "  # note: x".chars().collect();
    assert!(lex(&blank, 1).is_none());
    assert!(lex(&comment, 2).is_none());
    let bare: Vec<char> = "name".chars().collect();
    let l = lex(&bare, 3).unwrap();
    assert_eq!(l.key.iter().collect::<String>(), "name");
    assert!(l.value.is_empty());
    assert!(!l.dashed);
}

#[test]
fn parser_numbers_records_by_line() {
    let mut p = Parser::new(&lines("a:\n\n# c\n  b: 1\n"));
    assert_eq!(p.lines.len(), 2);
    assert_eq!(p.lines[0].number, 1);
    assert_eq!(p.lines[1].number, 4);
    assert_eq!(p.pos, 0);
    p.accept();
    p.accept();
    assert_eq!(p.pos, 2);
    p.accept();
    assert_eq!(p.pos, 2);
}
