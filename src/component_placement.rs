//! The placement section of board and panel documents.
use crate::primitives::{FieldKind, Number, ParseError, Vocab};
use crate::section::{parse_list, parse_record, parsed_list, parsed_record, Record};
use vstd::prelude::*;

verus! {

/// The placement of a component on a board, or of a board on a panel.
#[derive(Clone, Debug, PartialEq)]
pub struct ComponentPlacement {
    pub package_name: String,
    pub part_number: String,
    /// A component's designator; `BOARD` marks a board placed on a panel,
    /// `NOREFDES` an instance without a designator.
    pub reference_designator: String,
    pub x: Number,
    pub y: Number,
    /// The offset from the board's surface.
    pub mounting_offset: Number,
    /// In degrees.
    pub rotation_angle: Number,
    /// TOP or BOTTOM.
    pub board_side: String,
    /// PLACED, UNPLACED, ECAD or MCAD.
    pub placement_status: String,
}

impl Record for ComponentPlacement {
    open spec fn kinds() -> Seq<FieldKind> {
        seq![FieldKind::Token, FieldKind::Text, FieldKind::Token, FieldKind::Number, FieldKind::Number, FieldKind::Number, FieldKind::Number, FieldKind::Word(Vocab::Side), FieldKind::Word(Vocab::Status)]
    }

    open spec fn holds(self, f: Seq<Seq<char>>) -> bool {
        &&& self.package_name@ == f[0]
        &&& self.part_number@ == f[1]
        &&& self.reference_designator@ == f[2]
        &&& self.x@ == f[3]
        &&& self.y@ == f[4]
        &&& self.mounting_offset@ == f[5]
        &&& self.rotation_angle@ == f[6]
        &&& self.board_side@ == f[7]
        &&& self.placement_status@ == f[8]
    }

    fn kinds_of() -> (r: Vec<FieldKind>) {
        let r = vec![FieldKind::Token, FieldKind::Text, FieldKind::Token, FieldKind::Number, FieldKind::Number, FieldKind::Number, FieldKind::Number, FieldKind::Word(Vocab::Side), FieldKind::Word(Vocab::Status)];
        assert(r@ =~= Self::kinds());
        r
    }

    fn from_fields(f: &Vec<String>) -> (r: Self) {
        assert(f.deep_view()[0] == f@[0]@);
        assert(f.deep_view()[1] == f@[1]@);
        assert(f.deep_view()[2] == f@[2]@);
        assert(f.deep_view()[3] == f@[3]@);
        assert(f.deep_view()[4] == f@[4]@);
        assert(f.deep_view()[5] == f@[5]@);
        assert(f.deep_view()[6] == f@[6]@);
        assert(f.deep_view()[7] == f@[7]@);
        assert(f.deep_view()[8] == f@[8]@);
        ComponentPlacement {
            package_name: f[0].clone(),
            part_number: f[1].clone(),
            reference_designator: f[2].clone(),
            x: Number::from_text(f[3].clone()),
            y: Number::from_text(f[4].clone()),
            mounting_offset: Number::from_text(f[5].clone()),
            rotation_angle: Number::from_text(f[6].clone()),
            board_side: f[7].clone(),
            placement_status: f[8].clone(),
        }
    }
}

/// Parses one placement record at the start of `input`; returns what follows it.
pub fn component_placement(input: &str) -> (r: Result<(String, ComponentPlacement), ParseError>)
    ensures
        parsed_record(input@, r),
{
    parse_record::<ComponentPlacement>(input)
}

/// Parses a `.PLACEMENT` section, which holds zero or more placement records,
/// at the start of `input`; returns what follows it.
pub fn parse_component_placement_section(input: &str) -> (r: Result<(String, Vec<ComponentPlacement>), ParseError>)
    ensures
        parsed_list(input@, ".PLACEMENT"@, ".END_PLACEMENT"@, false, r),
{
    parse_list::<ComponentPlacement>(input, ".PLACEMENT", ".END_PLACEMENT", false)
}

} // verus!
