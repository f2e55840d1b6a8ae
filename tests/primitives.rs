use idf_parser::point::{point, point_fields, point_of, Point};
use idf_parser::primitives::{self, owner, to_chars, Number, ParseError};
use idf_parser::section::{section, Shape};

fn num(t: &str) -> Number {
    Number::new(t).unwrap()
}

fn f(n: &Number) -> f32 {
    n.as_str().parse().unwrap()
}

#[test]
fn primitives_test_owner() {
    let input = "ECADMCADUNOWNED";
    let (remaining, owner_str) = owner(input).unwrap();
    assert_eq!(remaining, "MCADUNOWNED");
    assert_eq!(owner_str, "ECAD");

    let (remaining, owner_str) = owner(&remaining).unwrap();
    assert_eq!(remaining, "UNOWNED");
    assert_eq!(owner_str, "MCAD");

    let (remaining, owner_str) = owner(&remaining).unwrap();
    assert_eq!(remaining, "");
    assert_eq!(owner_str, "UNOWNED");
}

#[test]
fn primitives_test_point() {
    let input = "0 100.0 200.0 45.0";
    let (remaining, point) = primitives::point(input).unwrap();
    assert_eq!(remaining, "");
    assert_eq!(
        point,
        Point {
            loop_label: 0,
            x: num("100.0"),
            y: num("200.0"),
            angle: num("45.0")
        }
    );
}

#[test]
fn point_test_point() {
    let input = "0 100.0 200.0 45.0";
    let (remaining, point) = point(input).unwrap();
    assert_eq!(remaining, "");
    assert_eq!(
        point,
        Point {
            loop_label: 0,
            x: num("100.0"),
            y: num("200.0"),
            angle: num("45.0")
        }
    );
}

#[test]
fn test_ws() {
    let input = "\r0 \n\n\n100.0   200.0 \n45.0  ";
    let (remaining, p) = point(input).unwrap();
    assert_eq!(remaining, "");
    assert_eq!(p.loop_label, 0);
    assert_eq!(f(&p.x), 100.0);
    assert_eq!(f(&p.y), 200.0);
    assert_eq!(f(&p.angle), 45.0);
}

#[test]
fn test_ws_separated() {
    let input = "0 100.0 200.0 45.0";
    let (remaining, p) = point(input).unwrap();
    assert_eq!(remaining, "");
    assert_eq!(p.loop_label, 0);
    assert_eq!(f(&p.x), 100.0);
    assert_eq!(f(&p.y), 200.0);
    assert_eq!(f(&p.angle), 45.0);
}

#[test]
fn test_section() {
    let input = ".SECTION\n0 100.0 200.0 45.0\n.END_SECTION";
    let s = to_chars(input);
    let shape = Shape {
        open: ".SECTION",
        close: ".END_SECTION",
        head: point_fields(),
        groups: Vec::new(),
    };
    let (body, end) = section(&s, 0, &shape).unwrap();
    assert_eq!(end, s.len());
    assert_eq!(
        point_of(&body.head),
        Point {
            loop_label: 0,
            x: num("100.0"),
            y: num("200.0"),
            angle: num("45.0")
        }
    );
}

#[test]
fn section_without_its_closing_keyword_is_unterminated() {
    let input = ".SECTION\n0 100.0 200.0 45.0\n.END_OTHER";
    let s = to_chars(input);
    let shape = Shape {
        open: ".SECTION",
        close: ".END_SECTION",
        head: point_fields(),
        groups: Vec::new(),
    };
    assert!(matches!(section(&s, 0, &shape), Err(ParseError::Unterminated(28))));
}

#[test]
fn section_without_its_opening_keyword_is_a_syntax_error() {
    let s = to_chars("  .OTHER\n.END_SECTION");
    let shape = Shape {
        open: ".SECTION",
        close: ".END_SECTION",
        head: Vec::new(),
        groups: Vec::new(),
    };
    assert!(matches!(section(&s, 0, &shape), Err(ParseError::Syntax(2))));
}

#[test]
fn number_literals() {
    for t in ["1", "-1", "+2.5", "3.", ".5", "1e3", "-1.5E-2", "0.000"] {
        assert_eq!(Number::new(t).unwrap().as_str(), t);
    }
    for t in ["", "-", ".", "e5", "1e", "1.5x", "abc", "1 2"] {
        assert!(Number::new(t).is_none(), "{}", t);
    }
    assert_eq!(f(&num("-1.5E-2")), -0.015);
}

#[test]
fn loop_label_out_of_range_is_rejected() {
    assert!(matches!(point("4294967296 1.0 2.0 0.0"), Err(ParseError::Syntax(0))));
    let (_, p) = point("4294967295 1.0 2.0 0.0").unwrap();
    assert_eq!(p.loop_label, 4294967295);
}

#[test]
fn point_with_a_bad_field_reports_its_offset() {
    assert!(matches!(point("0 1.0 x 0.0"), Err(ParseError::Syntax(6))));
}

#[test]
fn non_ascii_text_is_kept() {
    let (rest, p) = point("1 2.5 3.5 90 Ünïcode").unwrap();
    assert_eq!(rest, "Ünïcode");
    assert_eq!(p.loop_label, 1);
    assert_eq!(p.angle.as_str(), "90");
}
