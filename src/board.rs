//! Board and panel documents.
use crate::component_placement::ComponentPlacement;
use crate::drilled_holes::Hole;
use crate::headers::{
    board_header_at, board_header_holds, file_type_start, header_shape, BoardPanelHeader,
};
use crate::notes::Note;
use crate::outlines::{
    all_hold, outlines_at, primary_outline_at, primary_shape, BoardPanelOutline, OtherOutline,
    OutlineSection, PlacementGroupArea, PlacementKeepout, PlacementOutline, RoutingKeepout,
    RoutingOutline, ViaKeepout,
};
use crate::primitives::{lemma_run_end, run_end, scan, text_is, to_chars, CharClass, ParseError};
use crate::section::{
    all_records_hold, keyword, list_at, list_shape, sp_keyword, sp_section, sp_sections, Record,
};
use vstd::prelude::*;

verus! {

/// A board or panel document.
#[derive(Clone, Debug, PartialEq)]
pub struct BoardPanel {
    pub header: BoardPanelHeader,
    pub outline: BoardPanelOutline,
    pub other_outlines: Vec<OtherOutline>,
    pub routing_outlines: Vec<RoutingOutline>,
    pub placement_outlines: Vec<PlacementOutline>,
    pub routing_keepouts: Vec<RoutingKeepout>,
    pub via_keepouts: Vec<ViaKeepout>,
    pub placement_keepouts: Vec<PlacementKeepout>,
    pub placement_group_areas: Vec<PlacementGroupArea>,
    pub drilled_holes: Vec<Hole>,
    pub notes: Vec<Note>,
    pub component_placements: Vec<ComponentPlacement>,
}

/// The texts of a parsed section: head fields and groups of records.
pub type SectionText = (Seq<Seq<char>>, Seq<Seq<Seq<Seq<char>>>>);

/// The texts of a parsed board or panel document, section by section.
pub struct BoardText {
    pub header: Seq<Seq<char>>,
    pub outline: SectionText,
    pub other_outlines: Seq<SectionText>,
    pub routing_outlines: Seq<SectionText>,
    pub placement_outlines: Seq<SectionText>,
    pub routing_keepouts: Seq<SectionText>,
    pub via_keepouts: Seq<SectionText>,
    pub placement_keepouts: Seq<SectionText>,
    pub placement_group_areas: Seq<SectionText>,
    pub drilled_holes: Seq<Seq<Seq<char>>>,
    pub notes: Seq<Seq<Seq<char>>>,
    pub component_placements: Seq<Seq<Seq<char>>>,
}

/// Whether the primary outline of a document with file type `t` is a panel's:
/// `Some(false)` for a board, `Some(true)` for a panel, `None` otherwise.
pub open spec fn primary_is_panel(t: Seq<char>) -> Option<bool> {
    if t == "BOARD_FILE"@ {
        Some(false)
    } else if t == "PANEL_FILE"@ {
        Some(true)
    } else {
        None
    }
}

pub open spec fn holes_shape() -> crate::section::ShapeView {
    list_shape(".DRILLED_HOLES"@, ".END_DRILLED_HOLES"@, Hole::kinds(), true)
}

pub open spec fn notes_shape() -> crate::section::ShapeView {
    list_shape(".NOTES"@, ".END_NOTES"@, Note::kinds(), true)
}

pub open spec fn placement_shape() -> crate::section::ShapeView {
    list_shape(".PLACEMENT"@, ".END_PLACEMENT"@, ComponentPlacement::kinds(), false)
}

/// Zero or one notes section at `i`: its records and the position after it;
/// a second notes section that follows is a multiplicity error.
pub open spec fn sp_notes(s: Seq<char>, i: int) -> Result<(Seq<Seq<Seq<char>>>, int), ParseError> {
    if sp_keyword(s, i, ".NOTES"@) is None {
        Ok((seq![], i))
    } else {
        match sp_section(s, i, notes_shape()) {
            Err(e) => Err(e),
            Ok((h, g, j)) => if sp_keyword(s, j, ".NOTES"@) is Some {
                Err(ParseError::Multiplicity(run_end(s, j, CharClass::Space) as usize))
            } else {
                Ok((g[0], j))
            },
        }
    }
}

/// The holes, notes and placement sections from `i` to the end of the document.
pub open spec fn sp_board_tail(s: Seq<char>, i: int) -> Result<
    (Seq<Seq<Seq<char>>>, Seq<Seq<Seq<char>>>, Seq<Seq<Seq<char>>>),
    ParseError,
> {
    match sp_section(s, i, holes_shape()) {
        Err(e) => Err(e),
        Ok((h1, holes, j1)) => match sp_notes(s, j1) {
            Err(e) => Err(e),
            Ok((notes, j2)) => match sp_section(s, j2, placement_shape()) {
                Err(e) => Err(e),
                Ok((h3, places, j3)) => if j3 == s.len() {
                    Ok((holes[0], notes, places[0]))
                } else {
                    Err(ParseError::TrailingData(j3 as usize))
                },
            },
        },
    }
}

/// The seven kinds of zero-or-more outline sections, in their order, from `i`.
pub open spec fn sp_board_outlines(s: Seq<char>, i: int) -> Result<(Seq<Seq<SectionText>>, int), ParseError> {
    match sp_sections(s, i, OtherOutline::shape()) {
        Err(e) => Err(e),
        Ok((o1, j1)) => match sp_sections(s, j1, RoutingOutline::shape()) {
            Err(e) => Err(e),
            Ok((o2, j2)) => match sp_sections(s, j2, PlacementOutline::shape()) {
                Err(e) => Err(e),
                Ok((o3, j3)) => match sp_sections(s, j3, RoutingKeepout::shape()) {
                    Err(e) => Err(e),
                    Ok((o4, j4)) => match sp_sections(s, j4, ViaKeepout::shape()) {
                        Err(e) => Err(e),
                        Ok((o5, j5)) => match sp_sections(s, j5, PlacementKeepout::shape()) {
                            Err(e) => Err(e),
                            Ok((o6, j6)) => match sp_sections(s, j6, PlacementGroupArea::shape()) {
                                Err(e) => Err(e),
                                Ok((o7, j7)) => Ok((seq![o1, o2, o3, o4, o5, o6, o7], j7)),
                            },
                        },
                    },
                },
            },
        },
    }
}

/// A whole board or panel document: the header; the primary outline, a
/// `.BOARD_OUTLINE` for a `BOARD_FILE` and a `.PANEL_OUTLINE` for a
/// `PANEL_FILE`; zero or more of each other outline section; exactly one
/// holes section; zero or one notes section; exactly one placement section;
/// then nothing.
pub open spec fn sp_board(s: Seq<char>) -> Result<BoardText, ParseError> {
    match sp_section(s, 0, header_shape(true)) {
        Err(e) => Err(e),
        Ok((h, hg, j0)) => match primary_is_panel(h[0]) {
            None => Err(ParseError::Syntax(file_type_start(s, 0) as usize)),
            Some(panel) => match sp_section(s, j0, primary_shape(panel)) {
                Err(e) => Err(e),
                Ok((oh, og, j1)) => match sp_board_outlines(s, j1) {
                    Err(e) => Err(e),
                    Ok((os, j2)) => match sp_board_tail(s, j2) {
                        Err(e) => Err(e),
                        Ok((holes, notes, places)) => Ok(
                            BoardText {
                                header: h,
                                outline: (oh, og),
                                other_outlines: os[0],
                                routing_outlines: os[1],
                                placement_outlines: os[2],
                                routing_keepouts: os[3],
                                via_keepouts: os[4],
                                placement_keepouts: os[5],
                                placement_group_areas: os[6],
                                drilled_holes: holes,
                                notes,
                                component_placements: places,
                            },
                        ),
                    },
                },
            },
        },
    }
}

/// The document `b` holds the texts `t`.
pub open spec fn board_holds(b: BoardPanel, t: BoardText) -> bool {
    &&& board_header_holds(b.header, t.header)
    &&& b.outline.holds(t.outline.0, t.outline.1[0])
    &&& all_hold(b.other_outlines@, t.other_outlines)
    &&& all_hold(b.routing_outlines@, t.routing_outlines)
    &&& all_hold(b.placement_outlines@, t.placement_outlines)
    &&& all_hold(b.routing_keepouts@, t.routing_keepouts)
    &&& all_hold(b.via_keepouts@, t.via_keepouts)
    &&& all_hold(b.placement_keepouts@, t.placement_keepouts)
    &&& all_hold(b.placement_group_areas@, t.placement_group_areas)
    &&& all_records_hold(b.drilled_holes@, t.drilled_holes)
    &&& all_records_hold(b.notes@, t.notes)
    &&& all_records_hold(b.component_placements@, t.component_placements)
}

fn notes_at(s: &Vec<char>, i: usize) -> (r: Result<(Vec<Note>, usize), ParseError>)
    requires
        i <= s.len(),
    ensures
        match r {
            Ok((v, j)) => sp_notes(s@, i as int) matches Ok((t, k)) && all_records_hold(v@, t) && k == j
                && i <= j <= s.len(),
            Err(e) => sp_notes(s@, i as int) == Err::<(Seq<Seq<Seq<char>>>, int), ParseError>(e),
        },
{
    if keyword(s, i, ".NOTES").is_none() {
        return Ok((Vec::new(), i));
    }
    match list_at::<Note>(s, i, ".NOTES", ".END_NOTES", true) {
        Err(e) => Err(e),
        Ok((v, j)) => {
            if keyword(s, j, ".NOTES").is_some() {
                Err(ParseError::Multiplicity(scan(s, j, CharClass::Space)))
            } else {
                Ok((v, j))
            }
        },
    }
}


/// The seven lists of outline sections of a board or panel document.
pub type OutlineLists = (
    Vec<OtherOutline>,
    Vec<RoutingOutline>,
    Vec<PlacementOutline>,
    Vec<RoutingKeepout>,
    Vec<ViaKeepout>,
    Vec<PlacementKeepout>,
    Vec<PlacementGroupArea>,
);

#[verifier::rlimit(40)]
fn board_outlines_at(s: &Vec<char>, i: usize) -> (r: Result<(OutlineLists, usize), ParseError>)
    requires
        i <= s.len(),
    ensures
        match r {
            Ok((v, j)) => sp_board_outlines(s@, i as int) matches Ok((os, k)) && k == j && i <= j <= s.len()
                && all_hold(v.0@, os[0]) && all_hold(v.1@, os[1]) && all_hold(v.2@, os[2])
                && all_hold(v.3@, os[3]) && all_hold(v.4@, os[4]) && all_hold(v.5@, os[5])
                && all_hold(v.6@, os[6]),
            Err(e) => sp_board_outlines(s@, i as int) == Err::<(Seq<Seq<SectionText>>, int), ParseError>(e),
        },
{
    let j1 = i;
    let (other_outlines, j2) = match outlines_at::<OtherOutline>(s, j1) {
        Err(e) => return Err(e),
        Ok(x) => x,
    };
    let (routing_outlines, j3) = match outlines_at::<RoutingOutline>(s, j2) {
        Err(e) => return Err(e),
        Ok(x) => x,
    };
    let (placement_outlines, j4) = match outlines_at::<PlacementOutline>(s, j3) {
        Err(e) => return Err(e),
        Ok(x) => x,
    };
    let (routing_keepouts, j5) = match outlines_at::<RoutingKeepout>(s, j4) {
        Err(e) => return Err(e),
        Ok(x) => x,
    };
    let (via_keepouts, j6) = match outlines_at::<ViaKeepout>(s, j5) {
        Err(e) => return Err(e),
        Ok(x) => x,
    };
    let (placement_keepouts, j7) = match outlines_at::<PlacementKeepout>(s, j6) {
        Err(e) => return Err(e),
        Ok(x) => x,
    };
    let (placement_group_areas, j8) = match outlines_at::<PlacementGroupArea>(s, j7) {
        Err(e) => return Err(e),
        Ok(x) => x,
    };
    Ok(
        (
            (
                other_outlines,
                routing_outlines,
                placement_outlines,
                routing_keepouts,
                via_keepouts,
                placement_keepouts,
                placement_group_areas,
            ),
            j8,
        ),
    )
}

fn board_tail_at(s: &Vec<char>, i: usize) -> (r: Result<(Vec<Hole>, Vec<Note>, Vec<ComponentPlacement>), ParseError>)
    requires
        i <= s.len(),
    ensures
        match r {
            Ok((h, n, p)) => sp_board_tail(s@, i as int) matches Ok((ht, nt, pt)) && all_records_hold(h@, ht)
                && all_records_hold(n@, nt) && all_records_hold(p@, pt),
            Err(e) => sp_board_tail(s@, i as int) == Err::<
                (Seq<Seq<Seq<char>>>, Seq<Seq<Seq<char>>>, Seq<Seq<Seq<char>>>),
                ParseError,
            >(e),
        },
{
    let j8 = i;
    let (drilled_holes, j9) = match list_at::<Hole>(s, j8, ".DRILLED_HOLES", ".END_DRILLED_HOLES", true) {
        Err(e) => return Err(e),
        Ok(x) => x,
    };
    let (notes, j10) = match notes_at(s, j9) {
        Err(e) => return Err(e),
        Ok(x) => x,
    };
    let (component_placements, j11) = match list_at::<ComponentPlacement>(
        s,
        j10,
        ".PLACEMENT",
        ".END_PLACEMENT",
        false,
    ) {
        Err(e) => return Err(e),
        Ok(x) => x,
    };
    if j11 < s.len() {
        return Err(ParseError::TrailingData(j11));
    }
    Ok((drilled_holes, notes, component_placements))
}

/// Parses a board or panel document; fails where a section is missing,
/// malformed or repeated against its rules, or where input remains after the
/// placement section.
pub fn parse_board_or_panel(input: &str) -> (r: Result<BoardPanel, ParseError>)
    ensures
        parsed_board(input@, r),
{
    let cs = to_chars(input);
    let s = &cs;
    let (header, j0) = match board_header_at(s, 0) {
        Err(e) => return Err(e),
        Ok(x) => x,
    };
    let panel = if text_is(&header.file_type, "BOARD_FILE") {
        false
    } else if text_is(&header.file_type, "PANEL_FILE") {
        true
    } else {
        let b = keyword(s, 0, ".HEADER");
        proof {
            lemma_run_end(s@, 0, CharClass::Space);
        }
        return match b {
            Some(b) => Err(ParseError::Syntax(scan(s, b, CharClass::Space))),
            None => Err(ParseError::Syntax(0)),
        };
    };
    let (outline, j1) = match primary_outline_at(s, j0, panel) {
        Err(e) => return Err(e),
        Ok(x) => x,
    };
    let ((other_outlines, routing_outlines, placement_outlines, routing_keepouts, via_keepouts, placement_keepouts, placement_group_areas), j8) = match board_outlines_at(s, j1) {
        Err(e) => return Err(e),
        Ok(x) => x,
    };
    let (drilled_holes, notes, component_placements) = match board_tail_at(s, j8) {
        Err(e) => return Err(e),
        Ok(x) => x,
    };
    Ok(
        BoardPanel {
            header,
            outline,
            other_outlines,
            routing_outlines,
            placement_outlines,
            routing_keepouts,
            via_keepouts,
            placement_keepouts,
            placement_group_areas,
            drilled_holes,
            notes,
            component_placements,
        },
    )
}

/// `r` is the result of parsing the board or panel document `s`.
pub open spec fn parsed_board(s: Seq<char>, r: Result<BoardPanel, ParseError>) -> bool {
    match r {
        Ok(b) => sp_board(s) matches Ok(t) && board_holds(b, t),
        Err(e) => sp_board(s) == Err::<BoardText, ParseError>(e),
    }
}

/// Parsing one text twice gives the same outcome: the same error, or two
/// documents that hold the same texts, section by section and field by field.
pub proof fn lemma_parse_board_twice(s: Seq<char>, r1: Result<BoardPanel, ParseError>, r2: Result<BoardPanel, ParseError>)
    requires
        parsed_board(s, r1),
        parsed_board(s, r2),
    ensures
        match (r1, r2) {
            (Ok(b1), Ok(b2)) => exists|t: BoardText| board_holds(b1, t) && board_holds(b2, t),
            (Err(e1), Err(e2)) => e1 == e2,
            _ => false,
        },
{
    if let (Ok(b1), Ok(b2)) = (r1, r2) {
        let t = sp_board(s)->Ok_0;
        assert(board_holds(b1, t) && board_holds(b2, t));
    }
}

/// A notes section followed by a second one is rejected with a multiplicity
/// error at the second.
pub proof fn lemma_second_notes_rejected(
    s: Seq<char>,
    i: int,
    h: Seq<Seq<char>>,
    g: Seq<Seq<Seq<Seq<char>>>>,
    j: int,
)
    requires
        sp_section(s, i, notes_shape()) == Ok::<(Seq<Seq<char>>, Seq<Seq<Seq<Seq<char>>>>, int), ParseError>((h, g, j)),
        sp_keyword(s, j, ".NOTES"@) is Some,
    ensures
        sp_notes(s, i) == Err::<(Seq<Seq<Seq<char>>>, int), ParseError>(
            ParseError::Multiplicity(run_end(s, j, CharClass::Space) as usize),
        ),
{
}

/// A drilled-holes section whose closing keyword directly follows its
/// opening keyword holds no hole record, and is rejected with a multiplicity
/// error where the records should start.
pub proof fn lemma_empty_holes_rejected(s: Seq<char>, i: int, b: int)
    requires
        sp_keyword(s, i, ".DRILLED_HOLES"@) == Some(b),
        crate::primitives::lit_at(s, run_end(s, b, CharClass::Space), ".END_DRILLED_HOLES"@),
    ensures
        sp_section(s, i, holes_shape()) == Err::<(Seq<Seq<char>>, Seq<Seq<Seq<Seq<char>>>>, int), ParseError>(
            ParseError::Multiplicity(run_end(s, b, CharClass::Space) as usize),
        ),
{
    assert(holes_shape().head =~= seq![]);
}

} // verus!
