//! The notes section of board and panel documents.
use crate::primitives::{FieldKind, Number, ParseError};
use crate::section::{parse_list, parse_record, parsed_list, parsed_record, Record};
use vstd::prelude::*;

verus! {

/// A note for the design, placed at a location, with the text's height and
/// length.
#[derive(Clone, Debug, PartialEq)]
pub struct Note {
    pub x: Number,
    pub y: Number,
    pub text_height: Number,
    pub test_string_physical_length: Number,
    /// The text between the quotes.
    pub text: String,
}

impl Record for Note {
    open spec fn kinds() -> Seq<FieldKind> {
        seq![FieldKind::Number, FieldKind::Number, FieldKind::Number, FieldKind::Number, FieldKind::Quoted]
    }

    open spec fn holds(self, f: Seq<Seq<char>>) -> bool {
        &&& self.x@ == f[0]
        &&& self.y@ == f[1]
        &&& self.text_height@ == f[2]
        &&& self.test_string_physical_length@ == f[3]
        &&& self.text@ == f[4]
    }

    fn kinds_of() -> (r: Vec<FieldKind>) {
        let r = vec![FieldKind::Number, FieldKind::Number, FieldKind::Number, FieldKind::Number, FieldKind::Quoted];
        assert(r@ =~= Self::kinds());
        r
    }

    fn from_fields(f: &Vec<String>) -> (r: Self) {
        assert(f.deep_view()[0] == f@[0]@);
        assert(f.deep_view()[1] == f@[1]@);
        assert(f.deep_view()[2] == f@[2]@);
        assert(f.deep_view()[3] == f@[3]@);
        assert(f.deep_view()[4] == f@[4]@);
        Note {
            x: Number::from_text(f[0].clone()),
            y: Number::from_text(f[1].clone()),
            text_height: Number::from_text(f[2].clone()),
            test_string_physical_length: Number::from_text(f[3].clone()),
            text: f[4].clone(),
        }
    }
}

/// Parses one note record at the start of `input`; returns what follows it.
pub fn note(input: &str) -> (r: Result<(String, Note), ParseError>)
    ensures
        parsed_record(input@, r),
{
    parse_record::<Note>(input)
}

/// Parses a `.NOTES` section, which needs one or more note records, at the
/// start of `input`; returns what follows it.
pub fn parse_notes_section(input: &str) -> (r: Result<(String, Vec<Note>), ParseError>)
    ensures
        parsed_list(input@, ".NOTES"@, ".END_NOTES"@, true, r),
{
    parse_list::<Note>(input, ".NOTES", ".END_NOTES", true)
}

} // verus!
