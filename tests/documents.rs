use idf_parser::board::{parse_board_or_panel, BoardPanel};
use idf_parser::component_placement::ComponentPlacement;
use idf_parser::components::{ElectricalComponent, Property};
use idf_parser::drilled_holes::Hole;
use idf_parser::headers::{BoardPanelHeader, LibraryHeader};
use idf_parser::library::{parse_library, Library};
use idf_parser::notes::Note;
use idf_parser::outlines::{
    BoardPanelOutline, PlacementKeepout, PlacementOutline, RoutingKeepout, RoutingOutline,
};
use idf_parser::point::Point;
use idf_parser::primitives::{Number, ParseError};

fn num(t: &str) -> Number {
    Number::new(t).unwrap()
}

fn pt(loop_label: u32, x: &str, y: &str, angle: &str) -> Point {
    Point {
        loop_label,
        x: num(x),
        y: num(y),
        angle: num(angle),
    }
}

fn s(t: &str) -> String {
    t.to_string()
}

fn hole(n: [&str; 3], plating_style: &str, associated_part: &str, hole_type: &str, owner: &str) -> Hole {
    Hole {
        diameter: num(n[0]),
        x: num(n[1]),
        y: num(n[2]),
        plating_style: s(plating_style),
        associated_part: s(associated_part),
        hole_type: s(hole_type),
        owner: s(owner),
    }
}

fn placement(p: [&str; 3], n: [&str; 4], board_side: &str, placement_status: &str) -> ComponentPlacement {
    ComponentPlacement {
        package_name: s(p[0]),
        part_number: s(p[1]),
        reference_designator: s(p[2]),
        x: num(n[0]),
        y: num(n[1]),
        mounting_offset: num(n[2]),
        rotation_angle: num(n[3]),
        board_side: s(board_side),
        placement_status: s(placement_status),
    }
}

const BOARD: &str = ".HEADER
BOARD_FILE 3.0 \"Sample File Generator\" 10/22/96.16:02:44 1
sample_board THOU
.END_HEADER
.BOARD_OUTLINE MCAD
62.0
0 5030.5 -120.0 0.0
1 3000.0 2350.0 360.0
.END_BOARD_OUTLINE
.ROUTE_OUTLINE ECAD
ALL
0 5112.5 150.0 0.0
0 5112.5 150.0 0.0
.END_ROUTE_OUTLINE
.PLACE_OUTLINE MCAD
TOP 1000.0
0 5080.0 2034.9 0.0
0 5080.0 2034.9 0.0
.END_PLACE_OUTLINE
.PLACE_OUTLINE UNOWNED
BOTTOM 200.0
0 300.0 200.0 0.0
0 4800.0 200.0 0.0
.END_PLACE_OUTLINE
.ROUTE_KEEPOUT ECAD
ALL
0 2650.0 2350.0 0.0
0 3100.0 2350.0 360.0
.END_ROUTE_KEEPOUT
.PLACE_KEEPOUT MCAD
BOTH 0.0
0 2650.0 2350.0 0.0
0 3100.0 2350.0 360.0
.END_PLACE_KEEPOUT
.PLACE_KEEPOUT MCAD
TOP 300.0
0 3700.0 5000.0 0.0
0 3700.0 5000.0 0.0
.END_PLACE_KEEPOUT
.DRILLED_HOLES
30.0 1800.0 100.0 PTH J1 PIN ECAD
20.0 2000.0 1600.0 PTH BOARD VIA ECAD
93.0 5075.0 0.0 PTH BOARD MTG UNOWNED
93.0 0.0 4800.0 NPTH BOARD TOOL MCAD
.END_DRILLED_HOLES
.NOTES
1800.0 300.0 75.0 1700.0 \"Do not move connectors!\"
.END_NOTES
.PLACEMENT
cs13_a pn-cap C1
4000.0 1000.0 100.0 0.0 TOP PLACED
cc1210 pn-cc1210 C2
3000.0 3500.0 0.0 0.0 TOP PLACED
cc1210 pn-cc1210 C3
3200.0 1800.0 0.0 0.0 BOTTOM PLACED
.END_PLACEMENT";

const PANEL: &str = ".HEADER
PANEL_FILE 3.0 \"Sample File Generator\" 10/22/96.16:20:19 1
sample_panel THOU
.END_HEADER
.PANEL_OUTLINE MCAD
62.0
0 0.0 0.0 0.0
0 16000.0 0.0 0.0
.END_PANEL_OUTLINE
.PLACE_KEEPOUT MCAD
BOTTOM 0.0
0 13500.0 0.0 0.0
0 13500.0 12000.0 0.0
0 13500.0 0.0 0.0
.END_PLACE_KEEPOUT
.PLACE_KEEPOUT MCAD
BOTTOM 0.0
0 0.0 0.0 0.0
0 2200.0 0.0 0.0
0 2200.0 12000.0 0.0
0 0.0 12000.0 0.0
0 0.0 0.0 0.0
.END_PLACE_KEEPOUT
.DRILLED_HOLES
250.0 15500.0 11500.0 NPTH PANEL TOOL MCAD
250.0 500.0 500.0 NPTH PANEL TOOL MCAD
.END_DRILLED_HOLES
.PLACEMENT
sample_board pn-board BOARD
1700.0 3300.0 0.0 0.0 TOP MCAD
.END_PLACEMENT";

const LIBRARY: &str = ".HEADER
LIBRARY_FILE 3.0 \"Sample File Generator\" 10/22/96.16:41:37 1
.END_HEADER
.ELECTRICAL
cs13_a pn-cap THOU 150.0
0 -55.0 55.0 0.0
0 -55.0 55.0 0.0
PROP CAPACITANCE 100.0
PROP TOLERANCE 5.0
.END_ELECTRICAL
.ELECTRICAL
cc1210 pn-cc1210 THOU 67.0
0 -40.0 56.0 0.0
PROP CAPACITANCE 0.1
PROP TOLERANCE 5.0
.END_ELECTRICAL
.ELECTRICAL
conn_din24 connector THOU 435.0
0 -1400.0 -500.0 0.0
.END_ELECTRICAL
.ELECTRICAL
dip_14w pn-hs346-dip THOU 200.0
0 350.0 50.0 0.0
.END_ELECTRICAL
.ELECTRICAL
plcc_20 pn-pal16l8-plcc THOU 14.0
0 -200.0 240.0 0.0
0 -240.0 200.0 0.0
.END_ELECTRICAL";

#[test]
fn test_parse_board() {
    let header = BoardPanelHeader {
        file_type: s("BOARD_FILE"),
        version: 3,
        system_id: s("Sample File Generator"),
        date: s("10/22/96.16:02:44"),
        file_version: 1,
        board_name: s("sample_board"),
        units: s("THOU"),
    };
    let outline = BoardPanelOutline {
        owner: s("MCAD"),
        thickness: num("62.0"),
        outline: vec![pt(0, "5030.5", "-120.0", "0.0"), pt(1, "3000.0", "2350.0", "360.0")],
    };
    let routing_outlines = vec![RoutingOutline {
        owner: s("ECAD"),
        routing_layers: s("ALL"),
        outline: vec![pt(0, "5112.5", "150.0", "0.0"), pt(0, "5112.5", "150.0", "0.0")],
    }];
    let placement_outlines = vec![
        PlacementOutline {
            owner: s("MCAD"),
            board_side: s("TOP"),
            outline_height: num("1000.0"),
            outline: vec![pt(0, "5080.0", "2034.9", "0.0"), pt(0, "5080.0", "2034.9", "0.0")],
        },
        PlacementOutline {
            owner: s("UNOWNED"),
            board_side: s("BOTTOM"),
            outline_height: num("200.0"),
            outline: vec![pt(0, "300.0", "200.0", "0.0"), pt(0, "4800.0", "200.0", "0.0")],
        },
    ];
    let routing_keepouts = vec![RoutingKeepout {
        owner: s("ECAD"),
        routing_layers: s("ALL"),
        outline: vec![pt(0, "2650.0", "2350.0", "0.0"), pt(0, "3100.0", "2350.0", "360.0")],
    }];
    let placement_keepouts = vec![
        PlacementKeepout {
            owner: s("MCAD"),
            board_side: s("BOTH"),
            keepout_height: num("0.0"),
            outline: vec![pt(0, "2650.0", "2350.0", "0.0"), pt(0, "3100.0", "2350.0", "360.0")],
        },
        PlacementKeepout {
            owner: s("MCAD"),
            board_side: s("TOP"),
            keepout_height: num("300.0"),
            outline: vec![pt(0, "3700.0", "5000.0", "0.0"), pt(0, "3700.0", "5000.0", "0.0")],
        },
    ];
    let drilled_holes = vec![
        hole(["30.0", "1800.0", "100.0"], "PTH", "J1", "PIN", "ECAD"),
        hole(["20.0", "2000.0", "1600.0"], "PTH", "BOARD", "VIA", "ECAD"),
        hole(["93.0", "5075.0", "0.0"], "PTH", "BOARD", "MTG", "UNOWNED"),
        hole(["93.0", "0.0", "4800.0"], "NPTH", "BOARD", "TOOL", "MCAD"),
    ];
    let notes = vec![Note {
        x: num("1800.0"),
        y: num("300.0"),
        text_height: num("75.0"),
        test_string_physical_length: num("1700.0"),
        text: s("Do not move connectors!"),
    }];
    let component_placements = vec![
        placement(["cs13_a", "pn-cap", "C1"], ["4000.0", "1000.0", "100.0", "0.0"], "TOP", "PLACED"),
        placement(["cc1210", "pn-cc1210", "C2"], ["3000.0", "3500.0", "0.0", "0.0"], "TOP", "PLACED"),
        placement(["cc1210", "pn-cc1210", "C3"], ["3200.0", "1800.0", "0.0", "0.0"], "BOTTOM", "PLACED"),
    ];
    let expected_board = BoardPanel {
        header,
        outline,
        other_outlines: vec![],
        routing_outlines,
        placement_outlines,
        routing_keepouts,
        via_keepouts: vec![],
        placement_keepouts,
        placement_group_areas: vec![],
        drilled_holes,
        notes,
        component_placements,
    };

    let board = parse_board_or_panel(BOARD).unwrap();
    assert_eq!(board, expected_board);
}

#[test]
fn test_parse_panel() {
    let header = BoardPanelHeader {
        file_type: s("PANEL_FILE"),
        version: 3,
        system_id: s("Sample File Generator"),
        date: s("10/22/96.16:20:19"),
        file_version: 1,
        board_name: s("sample_panel"),
        units: s("THOU"),
    };
    let outline = BoardPanelOutline {
        owner: s("MCAD"),
        thickness: num("62.0"),
        outline: vec![pt(0, "0.0", "0.0", "0.0"), pt(0, "16000.0", "0.0", "0.0")],
    };
    let placement_keepouts = vec![
        PlacementKeepout {
            owner: s("MCAD"),
            board_side: s("BOTTOM"),
            keepout_height: num("0.0"),
            outline: vec![
                pt(0, "13500.0", "0.0", "0.0"),
                pt(0, "13500.0", "12000.0", "0.0"),
                pt(0, "13500.0", "0.0", "0.0"),
            ],
        },
        PlacementKeepout {
            owner: s("MCAD"),
            board_side: s("BOTTOM"),
            keepout_height: num("0.0"),
            outline: vec![
                pt(0, "0.0", "0.0", "0.0"),
                pt(0, "2200.0", "0.0", "0.0"),
                pt(0, "2200.0", "12000.0", "0.0"),
                pt(0, "0.0", "12000.0", "0.0"),
                pt(0, "0.0", "0.0", "0.0"),
            ],
        },
    ];
    let drilled_holes = vec![
        hole(["250.0", "15500.0", "11500.0"], "NPTH", "PANEL", "TOOL", "MCAD"),
        hole(["250.0", "500.0", "500.0"], "NPTH", "PANEL", "TOOL", "MCAD"),
    ];
    let component_placements = vec![placement(
        ["sample_board", "pn-board", "BOARD"],
        ["1700.0", "3300.0", "0.0", "0.0"],
        "TOP",
        "MCAD",
    )];
    let expected_panel = BoardPanel {
        header,
        outline,
        other_outlines: vec![],
        routing_outlines: vec![],
        placement_outlines: vec![],
        routing_keepouts: vec![],
        via_keepouts: vec![],
        placement_keepouts,
        placement_group_areas: vec![],
        drilled_holes,
        notes: vec![],
        component_placements,
    };

    let panel = parse_board_or_panel(PANEL).unwrap();
    assert_eq!(panel, expected_panel);
}

fn electrical(g: &str, p: &str, h: &str, outline: Vec<Point>, props: Vec<(&str, &str)>) -> ElectricalComponent {
    ElectricalComponent {
        geometry_name: s(g),
        part_number: s(p),
        units: s("THOU"),
        height: num(h),
        outline,
        properties: props
            .into_iter()
            .map(|(n, v)| Property { name: s(n), value: num(v) })
            .collect(),
    }
}

#[test]
fn test_library() {
    let library = parse_library(LIBRARY).unwrap();
    assert_eq!(library.electrical_components.len(), 5);

    let header = LibraryHeader {
        version: 3,
        system_id: s("Sample File Generator"),
        date: s("10/22/96.16:41:37"),
        file_version: 1,
    };
    let electrical_components = vec![
        electrical(
            "cs13_a",
            "pn-cap",
            "150.0",
            vec![pt(0, "-55.0", "55.0", "0.0"), pt(0, "-55.0", "55.0", "0.0")],
            vec![("CAPACITANCE", "100.0"), ("TOLERANCE", "5.0")],
        ),
        electrical(
            "cc1210",
            "pn-cc1210",
            "67.0",
            vec![pt(0, "-40.0", "56.0", "0.0")],
            vec![("CAPACITANCE", "0.1"), ("TOLERANCE", "5.0")],
        ),
        electrical("conn_din24", "connector", "435.0", vec![pt(0, "-1400.0", "-500.0", "0.0")], vec![]),
        electrical("dip_14w", "pn-hs346-dip", "200.0", vec![pt(0, "350.0", "50.0", "0.0")], vec![]),
        electrical(
            "plcc_20",
            "pn-pal16l8-plcc",
            "14.0",
            vec![pt(0, "-200.0", "240.0", "0.0"), pt(0, "-240.0", "200.0", "0.0")],
            vec![],
        ),
    ];
    let expected_library = Library {
        header,
        electrical_components,
        mechanical_components: vec![],
    };

    assert_eq!(library, expected_library);
}

const MINIMAL: &str = ".HEADER\nBOARD_FILE 3.0 \"Gen\" 1/1/00.00:00:00 1\nsample THOU\n.END_HEADER\n.BOARD_OUTLINE MCAD\n10.0\n0 0.0 0.0 0.0\n0 1.0 1.0 0.0\n.END_BOARD_OUTLINE\n.DRILLED_HOLES\n10.0 5.0 5.0 PTH BOARD VIA ECAD\n.END_DRILLED_HOLES\n.PLACEMENT\npkg pn C1\n0.0 0.0 0.0 0.0 TOP PLACED\n.END_PLACEMENT";

#[test]
fn minimal_board_parses() {
    let board = parse_board_or_panel(MINIMAL).unwrap();
    assert_eq!(board.component_placements.len(), 1);
    assert_eq!(board.drilled_holes.len(), 1);
    assert_eq!(board.notes.len(), 0);
}

#[test]
fn record_counts_match_the_input() {
    let board = parse_board_or_panel(BOARD).unwrap();
    assert_eq!(board.outline.outline.len(), 2);
    assert_eq!(board.routing_outlines.len(), 1);
    assert_eq!(board.placement_outlines.len(), 2);
    assert_eq!(board.placement_keepouts.len(), 2);
    assert_eq!(board.drilled_holes.len(), 4);
    assert_eq!(board.notes.len(), 1);
    assert_eq!(board.component_placements.len(), 3);
}

#[test]
fn parsing_twice_gives_equal_documents() {
    assert_eq!(parse_board_or_panel(BOARD).unwrap(), parse_board_or_panel(BOARD).unwrap());
    assert_eq!(parse_library(LIBRARY).unwrap(), parse_library(LIBRARY).unwrap());
    assert_eq!(parse_board_or_panel("junk"), parse_board_or_panel("junk"));
}

#[test]
fn board_with_an_empty_holes_section_is_rejected() {
    let input = MINIMAL.replace("10.0 5.0 5.0 PTH BOARD VIA ECAD\n", "");
    assert!(matches!(parse_board_or_panel(&input), Err(ParseError::Multiplicity(_))));
}

#[test]
fn board_with_two_notes_sections_is_rejected() {
    let notes = ".NOTES\n1.0 2.0 3.0 4.0 \"a\"\n.END_NOTES\n";
    let input = MINIMAL.replace(".PLACEMENT", &format!("{}{}.PLACEMENT", notes, notes));
    assert!(matches!(parse_board_or_panel(&input), Err(ParseError::Multiplicity(_))));
    let input = MINIMAL.replace(".PLACEMENT", &format!("{}.PLACEMENT", notes));
    assert_eq!(parse_board_or_panel(&input).unwrap().notes.len(), 1);
}

#[test]
fn board_with_trailing_data_is_rejected() {
    let input = format!("{}\n  extra", MINIMAL);
    assert!(matches!(parse_board_or_panel(&input), Err(ParseError::TrailingData(n)) if n == MINIMAL.len() + 3));
}

#[test]
fn board_without_a_placement_section_is_rejected() {
    let end = MINIMAL.find(".PLACEMENT").unwrap();
    let input = &MINIMAL[..end];
    assert!(matches!(parse_board_or_panel(input), Err(ParseError::Syntax(n)) if n == end));
}

#[test]
fn board_file_needs_a_board_outline() {
    let input = MINIMAL.replace("BOARD_OUTLINE", "PANEL_OUTLINE");
    assert!(matches!(parse_board_or_panel(&input), Err(ParseError::Syntax(_))));
    let input = input.replace("BOARD_FILE", "PANEL_FILE");
    assert!(parse_board_or_panel(&input).is_ok());
    let input = MINIMAL.replace("BOARD_FILE", "LIBRARY_FILE");
    assert!(matches!(parse_board_or_panel(&input), Err(ParseError::Syntax(8))));
}

#[test]
fn malformed_outline_section_error_propagates() {
    let input = MINIMAL.replace(".DRILLED_HOLES", ".VIA_KEEPOUT ECAD\n0 x 0.0 0.0\n.END_VIA_KEEPOUT\n.DRILLED_HOLES");
    assert!(matches!(parse_board_or_panel(&input), Err(ParseError::Multiplicity(_))));
}

#[test]
fn library_sections_may_interleave() {
    let input = ".HEADER\nLIBRARY_FILE 3.0 g d 1\n.END_HEADER\n.MECHANICAL\nm1 pn THOU 1.0\n0 0.0 0.0 0.0\n.END_MECHANICAL\n.ELECTRICAL\ne1 pn THOU 1.0\n0 0.0 0.0 0.0\n.END_ELECTRICAL\n.MECHANICAL\nm2 pn THOU 1.0\n0 0.0 0.0 0.0\n.END_MECHANICAL\n";
    let library = parse_library(input).unwrap();
    assert_eq!(library.electrical_components.len(), 1);
    assert_eq!(library.mechanical_components.len(), 2);
    assert_eq!(library.mechanical_components[1].geometry_name, "m2");
}

#[test]
fn library_errors() {
    let header = ".HEADER\nLIBRARY_FILE 3.0 g d 1\n.END_HEADER\n";
    assert!(matches!(parse_library(&format!("{}junk", header)), Err(ParseError::TrailingData(n)) if n == header.len()));
    assert!(parse_library(header).unwrap().electrical_components.is_empty());
    let board_header = ".HEADER\nBOARD_FILE 3.0 g d 1\n.END_HEADER\n";
    assert!(matches!(parse_library(board_header), Err(ParseError::Syntax(8))));
    let bad = format!("{}.ELECTRICAL\ne1 pn THOU 1.0\n.END_ELECTRICAL", header);
    assert!(matches!(parse_library(&bad), Err(ParseError::Multiplicity(_))));
}
