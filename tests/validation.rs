use idf_parser::board::parse_board_or_panel;
use idf_parser::component_placement::ComponentPlacement;
use idf_parser::library::parse_library;
use idf_parser::primitives::Number;
use idf_parser::validation::{
    library_references_valid, panel_references_valid, validate_assembly, ReferenceError,
};

const BOARD: &str = ".HEADER
BOARD_FILE 3.0 \"Sample File Generator\" 10/22/96.16:02:44 1
sample_board THOU
.END_HEADER
.BOARD_OUTLINE MCAD
62.0
0 5030.5 -120.0 0.0
1 3000.0 2350.0 360.0
.END_BOARD_OUTLINE
.ROUTE_OUTLINE ECAD
ALL
0 5112.5 150.0 0.0
0 5112.5 150.0 0.0
.END_ROUTE_OUTLINE
.PLACE_OUTLINE MCAD
TOP 1000.0
0 5080.0 2034.9 0.0
0 5080.0 2034.9 0.0
.END_PLACE_OUTLINE
.PLACE_OUTLINE UNOWNED
BOTTOM 200.0
0 300.0 200.0 0.0
0 4800.0 200.0 0.0
.END_PLACE_OUTLINE
.ROUTE_KEEPOUT ECAD
ALL
0 2650.0 2350.0 0.0
0 3100.0 2350.0 360.0
.END_ROUTE_KEEPOUT
.PLACE_KEEPOUT MCAD
BOTH 0.0
0 2650.0 2350.0 0.0
0 3100.0 2350.0 360.0
.END_PLACE_KEEPOUT
.PLACE_KEEPOUT MCAD
TOP 300.0
0 3700.0 5000.0 0.0
0 3700.0 5000.0 0.0
.END_PLACE_KEEPOUT
.DRILLED_HOLES
30.0 1800.0 100.0 PTH J1 PIN ECAD
20.0 2000.0 1600.0 PTH BOARD VIA ECAD
93.0 5075.0 0.0 PTH BOARD MTG UNOWNED
93.0 0.0 4800.0 NPTH BOARD TOOL MCAD
.END_DRILLED_HOLES
.NOTES
1800.0 300.0 75.0 1700.0 \"Do not move connectors!\"
.END_NOTES
.PLACEMENT
cs13_a pn-cap C1
4000.0 1000.0 100.0 0.0 TOP PLACED
cc1210 pn-cc1210 C2
3000.0 3500.0 0.0 0.0 TOP PLACED
cc1210 pn-cc1210 C3
3200.0 1800.0 0.0 0.0 BOTTOM PLACED
.END_PLACEMENT";

const PANEL: &str = ".HEADER
PANEL_FILE 3.0 \"Sample File Generator\" 10/22/96.16:20:19 1
sample_panel THOU
.END_HEADER
.PANEL_OUTLINE MCAD
62.0
0 0.0 0.0 0.0
0 16000.0 0.0 0.0
.END_PANEL_OUTLINE
.PLACE_KEEPOUT MCAD
BOTTOM 0.0
0 13500.0 0.0 0.0
0 13500.0 12000.0 0.0
0 13500.0 0.0 0.0
.END_PLACE_KEEPOUT
.PLACE_KEEPOUT MCAD
BOTTOM 0.0
0 0.0 0.0 0.0
0 2200.0 0.0 0.0
0 2200.0 12000.0 0.0
0 0.0 12000.0 0.0
0 0.0 0.0 0.0
.END_PLACE_KEEPOUT
.DRILLED_HOLES
250.0 15500.0 11500.0 NPTH PANEL TOOL MCAD
250.0 500.0 500.0 NPTH PANEL TOOL MCAD
.END_DRILLED_HOLES
.PLACEMENT
sample_board pn-board BOARD
1700.0 3300.0 0.0 0.0 TOP MCAD
.END_PLACEMENT";

const LIBRARY: &str = ".HEADER
LIBRARY_FILE 3.0 \"Sample File Generator\" 10/22/96.16:41:37 1
.END_HEADER
.ELECTRICAL
cs13_a pn-cap THOU 150.0
0 -55.0 55.0 0.0
0 -55.0 55.0 0.0
PROP CAPACITANCE 100.0
PROP TOLERANCE 5.0
.END_ELECTRICAL
.ELECTRICAL
cc1210 pn-cc1210 THOU 67.0
0 -40.0 56.0 0.0
PROP CAPACITANCE 0.1
PROP TOLERANCE 5.0
.END_ELECTRICAL
.ELECTRICAL
conn_din24 connector THOU 435.0
0 -1400.0 -500.0 0.0
.END_ELECTRICAL
.ELECTRICAL
dip_14w pn-hs346-dip THOU 200.0
0 350.0 50.0 0.0
.END_ELECTRICAL
.ELECTRICAL
plcc_20 pn-pal16l8-plcc THOU 14.0
0 -200.0 240.0 0.0
0 -240.0 200.0 0.0
.END_ELECTRICAL";

fn dummy(package_name: &str, reference_designator: &str) -> ComponentPlacement {
    ComponentPlacement {
        package_name: package_name.to_string(),
        part_number: "dummy_part".to_string(),
        reference_designator: reference_designator.to_string(),
        x: Number::new("0.0").unwrap(),
        y: Number::new("0.0").unwrap(),
        mounting_offset: Number::new("0.0").unwrap(),
        rotation_angle: Number::new("0.0").unwrap(),
        board_side: "TOP".to_string(),
        placement_status: "PLACED".to_string(),
    }
}

#[test]
fn test_library_references_valid() {
    let library = parse_library(LIBRARY).unwrap();
    let board = parse_board_or_panel(BOARD).unwrap();

    let result = library_references_valid(&library, &board);

    result.unwrap();

    let mut board = board.clone();
    board.component_placements.push(dummy("dummy_component", "DUMMY"));

    let result = library_references_valid(&library, &board);
    assert!(result.is_err());
}

#[test]
fn test_panel_references_valid() {
    let panel = parse_board_or_panel(PANEL).unwrap();
    let boards = vec![parse_board_or_panel(BOARD).unwrap()];

    let result = panel_references_valid(&panel, &boards);

    result.unwrap();

    let mut panel = panel.clone();
    panel.component_placements.push(dummy("dummy_board", "BOARD"));
    let result = panel_references_valid(&panel, &boards);
    assert!(result.is_err());
}

#[test]
fn missing_component_is_named() {
    let library = parse_library(LIBRARY).unwrap();
    let mut board = parse_board_or_panel(BOARD).unwrap();
    board.component_placements.push(dummy("X", "R9"));
    let err = library_references_valid(&library, &board).unwrap_err();
    assert_eq!(err, ReferenceError::MissingComponent("X".to_string()));
    assert_eq!(err.name(), "X");
}

#[test]
fn first_missing_component_is_named() {
    let library = parse_library(LIBRARY).unwrap();
    let mut board = parse_board_or_panel(BOARD).unwrap();
    board.component_placements.insert(0, dummy("first", "R1"));
    board.component_placements.push(dummy("second", "R2"));
    assert_eq!(
        library_references_valid(&library, &board),
        Err(ReferenceError::MissingComponent("first".to_string()))
    );
}

#[test]
fn board_placements_are_not_looked_up_in_the_library() {
    let library = parse_library(LIBRARY).unwrap();
    let mut board = parse_board_or_panel(BOARD).unwrap();
    board.component_placements.push(dummy("some_board", "BOARD"));
    assert!(library_references_valid(&library, &board).is_ok());
}

#[test]
fn missing_board_is_named() {
    let mut panel = parse_board_or_panel(PANEL).unwrap();
    let boards = vec![parse_board_or_panel(BOARD).unwrap()];
    panel.component_placements.push(dummy("ghost", "BOARD"));
    let err = panel_references_valid(&panel, &boards).unwrap_err();
    assert_eq!(err, ReferenceError::MissingBoard("ghost".to_string()));
    assert_eq!(err.name(), "ghost");
}

#[test]
fn component_placements_are_not_looked_up_among_boards() {
    let mut panel = parse_board_or_panel(PANEL).unwrap();
    panel.component_placements.push(dummy("ghost", "C7"));
    assert!(panel_references_valid(&panel, &[]).is_err());
    let boards = vec![parse_board_or_panel(BOARD).unwrap()];
    assert!(panel_references_valid(&panel, &boards).is_ok());
}

#[test]
fn test_parse_assembly() {
    let panel = parse_board_or_panel(PANEL).unwrap();
    let library = parse_library(LIBRARY).unwrap();
    let boards = vec![parse_board_or_panel(BOARD).unwrap()];

    assert!(validate_assembly(Some(&panel), &library, &boards).is_ok());
    assert!(validate_assembly(None, &library, &boards).is_ok());

    let mut invalid_panel = panel.clone();
    invalid_panel.component_placements[0].package_name = "other_board".to_string();
    assert_eq!(
        validate_assembly(Some(&invalid_panel), &library, &boards),
        Err(ReferenceError::MissingBoard("other_board".to_string()))
    );

    let mut bad_board = boards[0].clone();
    bad_board.component_placements.push(dummy("nowhere", "U1"));
    let boards = vec![boards[0].clone(), bad_board];
    assert_eq!(
        validate_assembly(Some(&invalid_panel), &library, &boards),
        Err(ReferenceError::MissingComponent("nowhere".to_string()))
    );
}
