//! The header sections of board, panel and library documents.
use crate::primitives::{
    count_of, digits_value, run_end, string_of, text_is, to_chars, CharClass, FieldKind,
    ParseError, Vocab,
};
use crate::section::{
    fields, fields_ok, keyword, section, sp_fields, sp_keyword, sp_section, Shape, ShapeView,
};
use vstd::prelude::*;

verus! {

/// The header of a library document.
#[derive(Clone, Debug, PartialEq, Eq)]
pub struct LibraryHeader {
    /// The IDF version; 3.
    pub version: u32,
    pub system_id: String,
    pub date: String,
    pub file_version: u32,
}

/// The header of a board or panel document.
#[derive(Clone, Debug, PartialEq, Eq)]
pub struct BoardPanelHeader {
    /// BOARD_FILE or PANEL_FILE.
    pub file_type: String,
    /// The IDF version; 3.
    pub version: u32,
    pub system_id: String,
    pub date: String,
    pub file_version: u32,
    pub board_name: String,
    /// THOU or MM.
    pub units: String,
}

/// The first line of a header: file type, IDF version (`3.0`), system
/// identifier, date and file version.
pub open spec fn metadata_kinds() -> Seq<FieldKind> {
    seq![
        FieldKind::Word(Vocab::FileType),
        FieldKind::Word(Vocab::Version),
        FieldKind::Text,
        FieldKind::Token,
        FieldKind::Count,
    ]
}

fn metadata_fields() -> (r: Vec<FieldKind>)
    ensures
        r@ == metadata_kinds(),
{
    let r = vec![
        FieldKind::Word(Vocab::FileType),
        FieldKind::Word(Vocab::Version),
        FieldKind::Text,
        FieldKind::Token,
        FieldKind::Count,
    ];
    assert(r@ =~= metadata_kinds());
    r
}

/// The header section of a board or panel document (`board`), which adds a
/// line with the board's name and units, or of a library document.
pub open spec fn header_shape(board: bool) -> ShapeView {
    ShapeView {
        open: ".HEADER"@,
        close: ".END_HEADER"@,
        head: if board {
            metadata_kinds() + seq![FieldKind::Token, FieldKind::Word(Vocab::Units)]
        } else {
            metadata_kinds()
        },
        groups: seq![],
    }
}

fn header_shape_of(board: bool) -> (sh: Shape)
    ensures
        sh@ == header_shape(board),
{
    let mut head = metadata_fields();
    let ghost m = head@;
    if board {
        head.push(FieldKind::Token);
        head.push(FieldKind::Word(Vocab::Units));
    }
    let sh = Shape { open: ".HEADER", close: ".END_HEADER", head, groups: Vec::new() };
    assert(sh@.head =~= header_shape(board).head);
    assert(sh@.groups =~= seq![]);
    sh
}

/// The metadata `m` holds the fields `f` of a header's first line.
pub open spec fn metadata_holds(m: (String, u32, String, String, u32), f: Seq<Seq<char>>) -> bool {
    &&& m.0@ == f[0]
    &&& m.1 == 3
    &&& m.2@ == f[2]
    &&& m.3@ == f[3]
    &&& m.4 == digits_value(f[4])
}

fn metadata_of(f: &Vec<String>) -> (m: (String, u32, String, String, u32))
    requires
        f@.len() >= 5,
        fields_ok(metadata_kinds(), f.deep_view().subrange(0, 5)),
    ensures
        metadata_holds(m, f.deep_view()),
{
    assert(f.deep_view().subrange(0, 5)[4] == f@[4]@);
    assert(f.deep_view()[0] == f@[0]@);
    assert(f.deep_view()[2] == f@[2]@);
    assert(f.deep_view()[3] == f@[3]@);
    (f[0].clone(), 3, f[2].clone(), f[3].clone(), count_of(&f[4]))
}

/// Parses the first line of a header at the start of `input`; returns what
/// follows it and the file type, version, system identifier, date and file
/// version.
pub fn header_metadata(input: &str) -> (r: Result<(String, (String, u32, String, String, u32)), ParseError>)
    ensures
        match r {
            Ok((rest, m)) => sp_fields(input@, 0, metadata_kinds(), 0) matches Ok((f, j))
                && metadata_holds(m, f) && rest@ == input@.subrange(j, input@.len() as int),
            Err(e) => sp_fields(input@, 0, metadata_kinds(), 0) == Err::<(Seq<Seq<char>>, int), ParseError>(e),
        },
{
    let s = to_chars(input);
    match fields(&s, 0, &metadata_fields(), 0) {
        Err(e) => Err(e),
        Ok((f, j)) => {
            assert(fields_ok(metadata_kinds(), f.deep_view().subrange(0, 5))) by {
                assert(f.deep_view().subrange(0, 5)[4] == f@[4]@);
            }
            Ok((string_of(&s, j, s.len()), metadata_of(&f)))
        },
    }
}

/// `h` holds the fields `f` of a board or panel header.
pub open spec fn board_header_holds(h: BoardPanelHeader, f: Seq<Seq<char>>) -> bool {
    &&& metadata_holds((h.file_type, h.version, h.system_id, h.date, h.file_version), f)
    &&& h.board_name@ == f[5]
    &&& h.units@ == f[6]
}

/// Parses the header section of a board or panel document at `i`.
pub fn board_header_at(s: &Vec<char>, i: usize) -> (r: Result<(BoardPanelHeader, usize), ParseError>)
    requires
        i <= s.len(),
    ensures
        match r {
            Ok((h, j)) => sp_section(s@, i as int, header_shape(true)) matches Ok((f, g, k))
                && board_header_holds(h, f) && k == j && i <= j <= s.len(),
            Err(e) => sp_section(s@, i as int, header_shape(true)) == Err::<(Seq<Seq<char>>, Seq<Seq<Seq<Seq<char>>>>, int), ParseError>(e),
        },
{
    match section(s, i, &header_shape_of(true)) {
        Err(e) => Err(e),
        Ok((b, j)) => {
            let f = b.head;
            assert(fields_ok(metadata_kinds(), f.deep_view().subrange(0, 5))) by {
                assert(f.deep_view().subrange(0, 5)[4] == f.deep_view()[4]);
            }
            let (file_type, version, system_id, date, file_version) = metadata_of(&f);
            assert(f.deep_view()[5] == f@[5]@);
            assert(f.deep_view()[6] == f@[6]@);
            let h = BoardPanelHeader {
                file_type,
                version,
                system_id,
                date,
                file_version,
                board_name: f[5].clone(),
                units: f[6].clone(),
            };
            Ok((h, j))
        },
    }
}

/// Parses the header section of a board or panel document at the start of
/// `input`; returns what follows it.
pub fn parse_board_or_panel_header(input: &str) -> (r: Result<(String, BoardPanelHeader), ParseError>)
    ensures
        match r {
            Ok((rest, h)) => sp_section(input@, 0, header_shape(true)) matches Ok((f, g, j))
                && board_header_holds(h, f) && rest@ == input@.subrange(j, input@.len() as int),
            Err(e) => sp_section(input@, 0, header_shape(true)) == Err::<(Seq<Seq<char>>, Seq<Seq<Seq<Seq<char>>>>, int), ParseError>(e),
        },
{
    let s = to_chars(input);
    match board_header_at(&s, 0) {
        Err(e) => Err(e),
        Ok((h, j)) => Ok((string_of(&s, j, s.len()), h)),
    }
}

/// Where the file type of a header at `i` starts.
pub open spec fn file_type_start(s: Seq<char>, i: int) -> int {
    match sp_keyword(s, i, ".HEADER"@) {
        Some(b) => run_end(s, b, CharClass::Space),
        None => i,
    }
}

/// The header section of a library document at `i`: its fields and the
/// position after it, or the error; a file type other than `LIBRARY_FILE` is
/// a syntax error at the file type.
pub open spec fn sp_library_header(s: Seq<char>, i: int) -> Result<(Seq<Seq<char>>, int), ParseError> {
    match sp_section(s, i, header_shape(false)) {
        Err(e) => Err(e),
        Ok((f, g, j)) => if f[0] == "LIBRARY_FILE"@ {
            Ok((f, j))
        } else {
            Err(ParseError::Syntax(file_type_start(s, i) as usize))
        },
    }
}

/// `h` holds the fields `f` of a library header.
pub open spec fn library_header_holds(h: LibraryHeader, f: Seq<Seq<char>>) -> bool {
    &&& f[0] == "LIBRARY_FILE"@
    &&& h.version == 3
    &&& h.system_id@ == f[2]
    &&& h.date@ == f[3]
    &&& h.file_version == digits_value(f[4])
}

/// Parses the header section of a library document at `i`.
pub fn library_header_at(s: &Vec<char>, i: usize) -> (r: Result<(LibraryHeader, usize), ParseError>)
    requires
        i <= s.len(),
    ensures
        match r {
            Ok((h, j)) => sp_library_header(s@, i as int) matches Ok((f, k)) && library_header_holds(h, f)
                && k == j && i <= j <= s.len(),
            Err(e) => sp_library_header(s@, i as int) == Err::<(Seq<Seq<char>>, int), ParseError>(e),
        },
{
    match section(s, i, &header_shape_of(false)) {
        Err(e) => Err(e),
        Ok((b, j)) => {
            let f = b.head;
            assert(f.deep_view()[0] == f@[0]@);
            if !text_is(&f[0], "LIBRARY_FILE") {
                let b = keyword(s, i, ".HEADER");
                proof {
                    crate::primitives::lemma_run_end(s@, i as int, CharClass::Space);
                }
                return match b {
                    Some(b) => Err(ParseError::Syntax(crate::primitives::scan(s, b, CharClass::Space))),
                    None => Err(ParseError::Syntax(i)),
                };
            }
            assert(fields_ok(metadata_kinds(), f.deep_view().subrange(0, 5))) by {
                assert(f.deep_view().subrange(0, 5) =~= f.deep_view());
            }
            let (_, version, system_id, date, file_version) = metadata_of(&f);
            Ok((LibraryHeader { version, system_id, date, file_version }, j))
        },
    }
}

/// Parses the header section of a library document at the start of `input`;
/// returns what follows it.
pub fn parse_library_header(input: &str) -> (r: Result<(String, LibraryHeader), ParseError>)
    ensures
        match r {
            Ok((rest, h)) => sp_library_header(input@, 0) matches Ok((f, j)) && library_header_holds(h, f)
                && rest@ == input@.subrange(j, input@.len() as int),
            Err(e) => sp_library_header(input@, 0) == Err::<(Seq<Seq<char>>, int), ParseError>(e),
        },
{
    let s = to_chars(input);
    match library_header_at(&s, 0) {
        Err(e) => Err(e),
        Ok((h, j)) => Ok((string_of(&s, j, s.len()), h)),
    }
}

} // verus!
