use idf_parser::component_placement::{
    component_placement, parse_component_placement_section, ComponentPlacement,
};
use idf_parser::components::{electrical_component, mechanical_component, ElectricalComponent};
use idf_parser::drilled_holes::{drilled_hole, parse_drilled_holes_section};
use idf_parser::notes::{note, parse_notes_section, Note};
use idf_parser::point::Point;
use idf_parser::primitives::{Number, ParseError};

fn num(t: &str) -> Number {
    Number::new(t).unwrap()
}

fn f(n: &Number) -> f32 {
    n.as_str().parse().unwrap()
}

fn prop(c: &ElectricalComponent, name: &str) -> f32 {
    f(c.property(name).unwrap())
}

fn placement(
    package_name: &str,
    part_number: &str,
    reference_designator: &str,
    nums: [&str; 4],
    board_side: &str,
    placement_status: &str,
) -> ComponentPlacement {
    ComponentPlacement {
        package_name: package_name.to_string(),
        part_number: part_number.to_string(),
        reference_designator: reference_designator.to_string(),
        x: num(nums[0]),
        y: num(nums[1]),
        mounting_offset: num(nums[2]),
        rotation_angle: num(nums[3]),
        board_side: board_side.to_string(),
        placement_status: placement_status.to_string(),
    }
}

#[test]
fn test_drilled_hole() {
    let input = "30.0 1800.0 100.0 PTH J1 PIN ECAD";

    let (remaining, hole) = drilled_hole(input).unwrap();
    assert_eq!(remaining, "");
    assert_eq!(f(&hole.diameter), 30.0);
    assert_eq!(f(&hole.x), 1800.0);
    assert_eq!(f(&hole.y), 100.0);
    assert_eq!(hole.plating_style, "PTH");
    assert_eq!(hole.associated_part, "J1");
    assert_eq!(hole.hole_type, "PIN");
    assert_eq!(hole.owner, "ECAD");
}

#[test]
fn test_drilled_holes_section() {
    let input = ".DRILLED_HOLES
30.0 1800.0 100.0 PTH J1 PIN ECAD
30.0 1700.0 100.0 PTH J1 PIN ECAD
30.0 1600.0 100.0 PTH J1 PIN ECAD
93.0 0.0 4800.0 NPTH BOARD TOOL MCAD
93.0 0.0 0.0 PTH NOREFDES MTG UNOWNED
123.0 0.0 0.0 PTH NOREFDES VIA UNOWNED
.END_DRILLED_HOLES";
    let (remaining, holes) = parse_drilled_holes_section(input).unwrap();
    assert_eq!(remaining, "");
    assert_eq!(holes.len(), 6);
    assert_eq!(f(&holes[0].diameter), 30.0);
    assert_eq!(f(&holes[0].x), 1800.0);
    assert_eq!(f(&holes[0].y), 100.0);
    assert_eq!(holes[0].plating_style, "PTH");
    assert_eq!(holes[0].associated_part, "J1");
    assert_eq!(holes[0].hole_type, "PIN");
    assert_eq!(holes[0].owner, "ECAD");
    assert_eq!(holes[1].plating_style, "PTH");
    assert_eq!(holes[3].plating_style, "NPTH");
    assert_eq!(holes[4].associated_part, "NOREFDES");
    assert_eq!(holes[5].hole_type, "VIA");
}

#[test]
fn drilled_holes_section_without_records_is_a_multiplicity_error() {
    let input = ".DRILLED_HOLES\n.END_DRILLED_HOLES";
    assert!(matches!(parse_drilled_holes_section(input), Err(ParseError::Multiplicity(15))));
}

#[test]
fn drilled_hole_with_an_unknown_type_stops_the_section() {
    let input = ".DRILLED_HOLES\n30.0 1.0 1.0 PTH J1 SLOT ECAD\n.END_DRILLED_HOLES";
    assert!(matches!(parse_drilled_holes_section(input), Err(ParseError::Multiplicity(15))));
    let input = ".DRILLED_HOLES\n30.0 1.0 1.0 PTH J1 PIN ECAD\n30.0 1.0 1.0 PTH J1 SLOT ECAD\n.END_DRILLED_HOLES";
    assert!(matches!(parse_drilled_holes_section(input), Err(ParseError::Unterminated(44))));
}

#[test]
fn test_note() {
    let input = "3500.0 3300.0 75.0 2500.0 \"This component rotated 14 degrees\"";

    let expected = Note {
        x: num("3500.0"),
        y: num("3300.0"),
        text_height: num("75.0"),
        test_string_physical_length: num("2500.0"),
        text: "This component rotated 14 degrees".to_string(),
    };
    let (_remaining, note) = note(input).unwrap();
    assert_eq!(note, expected);
}

#[test]
fn test_notes_section() {
    let input = ".NOTES
3500.0 3300.0 75.0 2500.0 \"This component rotated 14 degrees\"
400.0 4400.0 75.0 3200.0 \"Component height limited by enclosure latch\"
1800.0 300.0 75.0 1700.0 \"Do not move connectors!\"
.END_NOTES";

    let expected = vec![
        Note {
            x: num("3500.0"),
            y: num("3300.0"),
            text_height: num("75.0"),
            test_string_physical_length: num("2500.0"),
            text: "This component rotated 14 degrees".to_string(),
        },
        Note {
            x: num("400.0"),
            y: num("4400.0"),
            text_height: num("75.0"),
            test_string_physical_length: num("3200.0"),
            text: "Component height limited by enclosure latch".to_string(),
        },
        Note {
            x: num("1800.0"),
            y: num("300.0"),
            text_height: num("75.0"),
            test_string_physical_length: num("1700.0"),
            text: "Do not move connectors!".to_string(),
        },
    ];
    let (_remaining, notes) = parse_notes_section(input).unwrap();
    assert_eq!(notes, expected);
}

#[test]
fn test_notes_more() {
    let input = ".NOTES
1800.0 300.0 75.0 1700.0 \"Do not move connectors!\"
.END_NOTES";

    let expected = vec![Note {
        x: num("1800.0"),
        y: num("300.0"),
        text_height: num("75.0"),
        test_string_physical_length: num("1700.0"),
        text: "Do not move connectors!".to_string(),
    }];
    let (_remaining, notes) = parse_notes_section(input).unwrap();
    assert_eq!(notes, expected);
}

#[test]
fn note_without_quotes_is_a_syntax_error() {
    assert!(matches!(note("1.0 2.0 3.0 4.0 bare"), Err(ParseError::Syntax(16))));
}

#[test]
fn test_component_placement() {
    let input = "cs13_a pn-cap C1\n4000.0 1000.0 100.0 0.0 TOP PLACED";
    let expected = placement("cs13_a", "pn-cap", "C1", ["4000.0", "1000.0", "100.0", "0.0"], "TOP", "PLACED");
    let result = component_placement(input);
    let (_, component_placement) = result.unwrap();

    assert_eq!(component_placement, expected);
}

#[test]
fn test_component_placement_section() {
    let input = ".PLACEMENT
cs13_a pn-cap C1
4000.0 1000.0 100.0 0.0 TOP PLACED
cc1210 pn-cc1210 C2
3000.0 3500.0 0.0 0.0 TOP UNPLACED
cc1210 pn-cc1210 C3
3200.0 1800.0 0.0 0.0 BOTTOM MCAD
dip_14w pn-hs346-dip U4
2200.0 2500.0 0.0 270.0 TOP ECAD
.END_PLACEMENT";

    let expected = vec![
        placement("cs13_a", "pn-cap", "C1", ["4000.0", "1000.0", "100.0", "0.0"], "TOP", "PLACED"),
        placement("cc1210", "pn-cc1210", "C2", ["3000.0", "3500.0", "0.0", "0.0"], "TOP", "UNPLACED"),
        placement("cc1210", "pn-cc1210", "C3", ["3200.0", "1800.0", "0.0", "0.0"], "BOTTOM", "MCAD"),
        placement("dip_14w", "pn-hs346-dip", "U4", ["2200.0", "2500.0", "0.0", "270.0"], "TOP", "ECAD"),
    ];

    let (remaining, component_placements) = parse_component_placement_section(input).unwrap();
    assert_eq!(remaining, "");
    assert_eq!(component_placements, expected);
}

#[test]
fn test_invalid_component_placement() {
    let input = "cs13_a pn-cap C1\n4000.0 1000.0 100.0 hi hi 0.0 TOP PLACED\n";
    let result = component_placement(input);
    assert!(!result.is_ok());
}

#[test]
fn empty_placement_section_is_accepted() {
    let (remaining, v) = parse_component_placement_section(".PLACEMENT\n.END_PLACEMENT\n").unwrap();
    assert_eq!(remaining, "");
    assert!(v.is_empty());
}

#[test]
fn test_electrical_component() {
    let input = ".ELECTRICAL
cs13_a pn-cap THOU 150.0
0 -55.0 55.0 0.0
0 -55.0 -55.0 0.0
0 135.0 -55.0 0.0
0 135.0 -80.0 0.0
0 565.0 -80.0 0.0
0 565.0 -55.0 0.0
0 755.0 -55.0 0.0
0 755.0 55.0 0.0
0 565.0 55.0 0.0
0 565.0 80.0 0.0
0 135.0 80.0 0.0
0 135.0 55.0 0.0
0 -55.0 55.0 0.0
PROP CAPACITANCE 100.0
PROP TOLERANCE 5.0
PROP RESISTANCE 122.0
PROP POWER_OPR 2.5
PROP POWER_MAX 9.12
PROP THERM_COND 0.0
PROP THETA_JB 0.2
PROP THETA_JC 5.1
.END_ELECTRICAL";
    let (remaining, component) = electrical_component(input).unwrap();
    assert_eq!(remaining, "");
    assert_eq!(component.geometry_name, "cs13_a");
    assert_eq!(component.part_number, "pn-cap");
    assert_eq!(component.units, "THOU");
    assert_eq!(f(&component.height), 150.0);
    assert_eq!(component.outline.len(), 13);
    assert_eq!(prop(&component, "CAPACITANCE"), 100.0);
    assert_eq!(prop(&component, "TOLERANCE"), 5.0);
    assert_eq!(prop(&component, "RESISTANCE"), 122.0);
    assert_eq!(prop(&component, "POWER_OPR"), 2.5);
    assert_eq!(prop(&component, "POWER_MAX"), 9.12);
    assert_eq!(prop(&component, "THERM_COND"), 0.0);
    assert_eq!(prop(&component, "THETA_JB"), 0.2);
    assert_eq!(prop(&component, "THETA_JC"), 5.1);
}

#[test]
fn test_electrical_component_2() {
    let input = ".ELECTRICAL\r\nGLOB_FID_60R140  \"GLOB_FID_GLOB_FID_60R140_GLOB F\"  THOU         2.0\r\n0         0.0         0.0       0.000\r\n0        70.0         0.0     360.000\r\n.END_ELECTRICAL\r\n";

    let (remaining, component) = electrical_component(input).unwrap();

    assert_eq!(remaining, "");
    assert_eq!(component.geometry_name, "GLOB_FID_60R140");
    assert_eq!(component.part_number, "GLOB_FID_GLOB_FID_60R140_GLOB F");
    assert_eq!(component.outline.len(), 2);
    assert_eq!(f(&component.outline[1].x), 70.0);
    assert_eq!(f(&component.outline[1].angle), 360.0);
}

#[test]
fn repeated_property_keeps_the_last_value() {
    let input = ".ELECTRICAL\nr1 pn THOU 1.0\n0 0.0 0.0 0.0\nPROP TOLERANCE 5.0\nPROP CAPACITANCE 1.0\nPROP TOLERANCE 10.0\n.END_ELECTRICAL";
    let (_, c) = electrical_component(input).unwrap();
    assert_eq!(c.properties.len(), 2);
    assert_eq!(c.properties[0].name, "TOLERANCE");
    assert_eq!(c.properties[0].value.as_str(), "10.0");
    assert_eq!(prop(&c, "CAPACITANCE"), 1.0);
    assert!(c.property("RESISTANCE").is_none());
}

#[test]
fn test_mechanical_component() {
    let input = ".MECHANICAL
cs13_a pn-cap THOU 150.0
0 -55.0 55.0 0.0
0 -55.0 -55.0 0.0
0 135.0 -55.0 0.0
0 135.0 -80.0 0.0
0 565.0 -80.0 0.0
0 565.0 -55.0 0.0
.END_MECHANICAL";
    let (remaining, component) = mechanical_component(input).unwrap();
    assert_eq!(remaining, "");
    assert_eq!(component.geometry_name, "cs13_a");
    assert_eq!(component.part_number, "pn-cap");
    assert_eq!(component.units, "THOU");
    assert_eq!(f(&component.height), 150.0);
    assert_eq!(component.outline.len(), 6);
    assert_eq!(
        component.outline[0],
        Point {
            loop_label: 0,
            x: num("-55.0"),
            y: num("55.0"),
            angle: num("0.0")
        }
    );
    assert_eq!(
        component.outline[4],
        Point {
            loop_label: 0,
            x: num("565.0"),
            y: num("-80.0"),
            angle: num("0.0")
        }
    );
}
