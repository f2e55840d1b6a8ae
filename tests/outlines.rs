use idf_parser::outlines::{
    owner, parse_board_panel_outline, parse_other_outline, parse_placement_group_area,
    parse_placement_keepout, parse_placement_outline, parse_routing_keepout,
    parse_routing_outline, parse_via_keepout,
};
use idf_parser::point::point;
use idf_parser::primitives::{Number, ParseError};

fn f(n: &Number) -> f32 {
    n.as_str().parse().unwrap()
}

#[test]
fn test_parse_board_outline() {
    let input = ".BOARD_OUTLINE MCAD
62.0
0 5.5 -120.0 0.0
0 36.1 -120.0 263.266
1 5127.5 56 360
.END_BOARD_OUTLINE";

    let (remaining, board_outline) = parse_board_panel_outline(input).unwrap();
    assert_eq!(remaining, "");
    assert_eq!(board_outline.owner, "MCAD");
    assert_eq!(f(&board_outline.thickness), 62.0);
    assert_eq!(board_outline.outline.len(), 3);
    assert_eq!(board_outline.outline[0].loop_label, 0);
    assert_eq!(f(&board_outline.outline[0].x), 5.5);
    assert_eq!(f(&board_outline.outline[0].y), -120.0);
    assert_eq!(f(&board_outline.outline[0].angle), 0.0);
}

#[test]
fn test_parse_other_outline() {
    let input = ".OTHER_OUTLINE MCAD
my_outline 62.0 TOP
0 5.5 -120.0 0.0
.END_OTHER_OUTLINE";

    let (remaining, other_outline) = parse_other_outline(input).unwrap();
    assert_eq!(remaining, "");
    assert_eq!(other_outline.owner, "MCAD");
    assert_eq!(other_outline.id, "my_outline");
    assert_eq!(f(&other_outline.extrude_thickness), 62.0);
    assert_eq!(other_outline.board_side, "TOP");
    assert_eq!(other_outline.outline.len(), 1);
    assert_eq!(other_outline.outline[0].loop_label, 0);
    assert_eq!(f(&other_outline.outline[0].x), 5.5);
    assert_eq!(f(&other_outline.outline[0].y), -120.0);
    assert_eq!(f(&other_outline.outline[0].angle), 0.0);
}

#[test]
fn test_parse_routing_outline() {
    let input = ".ROUTE_OUTLINE ECAD
ALL
0 5112.5 150.0 0.0
0 5112.5 2058.2 0.0
.END_ROUTE_OUTLINE";

    let (remaining, routing_outline) = parse_routing_outline(input).unwrap();
    assert_eq!(remaining, "");
    assert_eq!(routing_outline.owner, "ECAD");
    assert_eq!(routing_outline.routing_layers, "ALL");
    assert_eq!(routing_outline.outline.len(), 2);
    assert_eq!(routing_outline.outline[0].loop_label, 0);
    assert_eq!(f(&routing_outline.outline[0].x), 5112.5);
    assert_eq!(f(&routing_outline.outline[0].y), 150.0);
    assert_eq!(f(&routing_outline.outline[0].angle), 0.0);
}

#[test]
fn test_parse_placement_outline() {
    let input = ".PLACE_OUTLINE MCAD
TOP 1000.0
0 -5.0 2034.9 -152.9
.END_PLACE_OUTLINE";

    let (remaining, placement_outline) = parse_placement_outline(input).unwrap();
    assert_eq!(remaining, "");
    assert_eq!(placement_outline.owner, "MCAD");
    assert_eq!(placement_outline.board_side, "TOP");
    assert_eq!(f(&placement_outline.outline_height), 1000.0);
    assert_eq!(placement_outline.outline.len(), 1);
    assert_eq!(placement_outline.outline[0].loop_label, 0);
    assert_eq!(f(&placement_outline.outline[0].x), -5.0);
    assert_eq!(f(&placement_outline.outline[0].y), 2034.9);
    assert_eq!(f(&placement_outline.outline[0].angle), -152.9);
}

#[test]
fn test_parse_routing_keepout() {
    let input = ".ROUTE_KEEPOUT ECAD
ALL
0 2650.0 2350.0 0.0
0 3100.0 2350.0 360.0
.END_ROUTE_KEEPOUT";

    let (remaining, routing_keepout) = parse_routing_keepout(input).unwrap();
    assert_eq!(remaining, "");
    assert_eq!(routing_keepout.owner, "ECAD");
    assert_eq!(routing_keepout.routing_layers, "ALL");
    assert_eq!(routing_keepout.outline.len(), 2);
    assert_eq!(routing_keepout.outline[0].loop_label, 0);
    assert_eq!(f(&routing_keepout.outline[0].x), 2650.0);
    assert_eq!(f(&routing_keepout.outline[0].y), 2350.0);
    assert_eq!(f(&routing_keepout.outline[0].angle), 0.0);
}

#[test]
fn test_parse_via_keepout() {
    let input = ".VIA_KEEPOUT ECAD
0 2650.0 2350.0 0.0
0 3100.0 2350.0 360.0
.END_VIA_KEEPOUT";

    let (remaining, via_keepout) = parse_via_keepout(input).unwrap();
    assert_eq!(remaining, "");
    assert_eq!(via_keepout.owner, "ECAD");
    assert_eq!(via_keepout.outline.len(), 2);
    assert_eq!(via_keepout.outline[0].loop_label, 0);
    assert_eq!(f(&via_keepout.outline[0].x), 2650.0);
    assert_eq!(f(&via_keepout.outline[0].y), 2350.0);
    assert_eq!(f(&via_keepout.outline[0].angle), 0.0);
}

#[test]
fn test_parse_placement_keepout() {
    let input = ".PLACE_KEEPOUT MCAD
TOP 300.0
0 3700.0 5000.0 0.0
0 3700.0 5000.0 0.0
.END_PLACE_KEEPOUT";

    let (remaining, placement_keepout) = parse_placement_keepout(input).unwrap();
    assert_eq!(remaining, "");
    assert_eq!(placement_keepout.owner, "MCAD");
    assert_eq!(placement_keepout.board_side, "TOP");
    assert_eq!(f(&placement_keepout.keepout_height), 300.0);
    assert_eq!(placement_keepout.outline.len(), 2);
    assert_eq!(placement_keepout.outline[0].loop_label, 0);
    assert_eq!(f(&placement_keepout.outline[0].x), 3700.0);
    assert_eq!(f(&placement_keepout.outline[0].y), 5000.0);
    assert_eq!(f(&placement_keepout.outline[0].angle), 0.0);
}

#[test]
fn test_parse_placement_group_area() {
    let input = ".PLACE_REGION UNOWNED
TOP the_best_group
0 5.5 -120.0 0.0
.END_PLACE_REGION";

    let (remaining, placement_group_area) = parse_placement_group_area(input).unwrap();
    assert_eq!(remaining, "");
    assert_eq!(placement_group_area.owner, "UNOWNED");
    assert_eq!(placement_group_area.board_side, "TOP");
    assert_eq!(placement_group_area.group_name, "the_best_group");
    assert_eq!(placement_group_area.outline.len(), 1);
    assert_eq!(placement_group_area.outline[0].loop_label, 0);
    assert_eq!(f(&placement_group_area.outline[0].x), 5.5);
    assert_eq!(f(&placement_group_area.outline[0].y), -120.0);
    assert_eq!(f(&placement_group_area.outline[0].angle), 0.0);
}

#[test]
fn outlines_test_point() {
    let input = "0 5.5 -120.0 0.0";
    let (remaining, point) = point(input).unwrap();

    assert_eq!(remaining, "");
    assert_eq!(point.loop_label, 0);
    assert_eq!(f(&point.x), 5.5);
    assert_eq!(f(&point.y), -120.0);
    assert_eq!(f(&point.angle), 0.0);
}

#[test]
fn outlines_test_owner() {
    let input = "ECADMCADUNOWNED";
    let (remaining, owner_str) = owner(input).unwrap();
    assert_eq!(remaining, "MCADUNOWNED");
    assert_eq!(owner_str, "ECAD");

    let (remaining, owner_str) = owner(&remaining).unwrap();
    assert_eq!(remaining, "UNOWNED");
    assert_eq!(owner_str, "MCAD");

    let (remaining, owner_str) = owner(&remaining).unwrap();
    assert_eq!(remaining, "");
    assert_eq!(owner_str, "UNOWNED");
}

#[test]
fn panel_outline_is_accepted_where_no_board_outline_starts() {
    let input = ".PANEL_OUTLINE MCAD\n62.0\n0 0.0 0.0 0.0\n.END_PANEL_OUTLINE\nrest";
    let (remaining, o) = parse_board_panel_outline(input).unwrap();
    assert_eq!(remaining, "rest");
    assert_eq!(o.thickness.as_str(), "62.0");
}

#[test]
fn outline_without_points_is_a_multiplicity_error() {
    let input = ".VIA_KEEPOUT ECAD\n.END_VIA_KEEPOUT";
    assert!(matches!(parse_via_keepout(input), Err(ParseError::Multiplicity(18))));
}

#[test]
fn outline_with_an_unknown_owner_is_a_syntax_error() {
    let input = ".VIA_KEEPOUT NOBODY\n0 1.0 1.0 0.0\n.END_VIA_KEEPOUT";
    assert!(matches!(parse_via_keepout(input), Err(ParseError::Syntax(13))));
}
