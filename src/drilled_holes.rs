//! The drilled holes section of board and panel documents.
use crate::primitives::{FieldKind, Number, ParseError, Vocab};
use crate::section::{parse_list, parse_record, parsed_list, parsed_record, Record};
use vstd::prelude::*;

verus! {

/// A drilled hole.
#[derive(Clone, Debug, PartialEq)]
pub struct Hole {
    pub diameter: Number,
    pub x: Number,
    pub y: Number,
    /// PTH (plated) or NPTH (not plated).
    pub plating_style: String,
    /// BOARD, PANEL, NOREFDES or a reference designator.
    pub associated_part: String,
    /// PIN, VIA, MTG or TOOL.
    pub hole_type: String,
    /// ECAD, MCAD or UNOWNED.
    pub owner: String,
}

impl Record for Hole {
    open spec fn kinds() -> Seq<FieldKind> {
        seq![FieldKind::Number, FieldKind::Number, FieldKind::Number, FieldKind::Word(Vocab::Plating), FieldKind::Token, FieldKind::Word(Vocab::HoleType), FieldKind::Word(Vocab::Owner)]
    }

    open spec fn holds(self, f: Seq<Seq<char>>) -> bool {
        &&& self.diameter@ == f[0]
        &&& self.x@ == f[1]
        &&& self.y@ == f[2]
        &&& self.plating_style@ == f[3]
        &&& self.associated_part@ == f[4]
        &&& self.hole_type@ == f[5]
        &&& self.owner@ == f[6]
    }

    fn kinds_of() -> (r: Vec<FieldKind>) {
        let r = vec![FieldKind::Number, FieldKind::Number, FieldKind::Number, FieldKind::Word(Vocab::Plating), FieldKind::Token, FieldKind::Word(Vocab::HoleType), FieldKind::Word(Vocab::Owner)];
        assert(r@ =~= Self::kinds());
        r
    }

    fn from_fields(f: &Vec<String>) -> (r: Self) {
        assert(f.deep_view()[0] == f@[0]@);
        assert(f.deep_view()[1] == f@[1]@);
        assert(f.deep_view()[2] == f@[2]@);
        assert(f.deep_view()[3] == f@[3]@);
        assert(f.deep_view()[4] == f@[4]@);
        assert(f.deep_view()[5] == f@[5]@);
        assert(f.deep_view()[6] == f@[6]@);
        Hole {
            diameter: Number::from_text(f[0].clone()),
            x: Number::from_text(f[1].clone()),
            y: Number::from_text(f[2].clone()),
            plating_style: f[3].clone(),
            associated_part: f[4].clone(),
            hole_type: f[5].clone(),
            owner: f[6].clone(),
        }
    }
}

/// Parses one hole record at the start of `input`; returns what follows it.
pub fn drilled_hole(input: &str) -> (r: Result<(String, Hole), ParseError>)
    ensures
        parsed_record(input@, r),
{
    parse_record::<Hole>(input)
}

/// Parses a `.DRILLED_HOLES` section, which needs one or more hole records,
/// at the start of `input`; returns what follows it.
pub fn parse_drilled_holes_section(input: &str) -> (r: Result<(String, Vec<Hole>), ParseError>)
    ensures
        parsed_list(input@, ".DRILLED_HOLES"@, ".END_DRILLED_HOLES"@, true, r),
{
    parse_list::<Hole>(input, ".DRILLED_HOLES", ".END_DRILLED_HOLES", true)
}

} // verus!
