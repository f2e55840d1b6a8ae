//! Library documents.
use crate::board::SectionText;
use crate::components::{electrical_at, electrical_shape, ElectricalComponent, MechanicalComponent};
use crate::headers::{library_header_at, library_header_holds, sp_library_header, LibraryHeader};
use crate::outlines::{outline_at, OutlineSection};
use crate::primitives::{to_chars, ParseError};
use crate::section::{append_res, cons_res, keyword, sp_keyword, sp_section};
use vstd::prelude::*;

verus! {

/// A library document: the components that boards place.
#[derive(Clone, Debug, PartialEq)]
pub struct Library {
    pub header: LibraryHeader,
    pub electrical_components: Vec<ElectricalComponent>,
    pub mechanical_components: Vec<MechanicalComponent>,
}

/// The component sections from `i` on, in document order, each marked
/// `true` where it is electrical; they repeat while an `.ELECTRICAL` or a
/// `.MECHANICAL` keyword follows, and an error inside one is the result.
pub open spec fn sp_components(s: Seq<char>, i: int) -> Result<(Seq<(bool, SectionText)>, int), ParseError>
    decreases s.len() - i,
{
    let electrical = sp_keyword(s, i, ".ELECTRICAL"@) is Some;
    if !electrical && sp_keyword(s, i, ".MECHANICAL"@) is None {
        Ok((seq![], i))
    } else {
        let shape = if electrical {
            electrical_shape()
        } else {
            MechanicalComponent::shape()
        };
        match sp_section(s, i, shape) {
            Err(e) => Err(e),
            Ok((h, g, j)) => if i < j <= s.len() {
                cons_res((electrical, (h, g)), sp_components(s, j))
            } else {
                Ok((seq![], i))
            },
        }
    }
}

/// The texts of a parsed library document.
pub struct LibraryText {
    pub header: Seq<Seq<char>>,
    pub components: Seq<(bool, SectionText)>,
}

/// A whole library document: a header whose file type is `LIBRARY_FILE`,
/// then electrical and mechanical component sections in any order, then
/// nothing.
pub open spec fn sp_library(s: Seq<char>) -> Result<LibraryText, ParseError> {
    match sp_library_header(s, 0) {
        Err(e) => Err(e),
        Ok((h, j0)) => match sp_components(s, j0) {
            Err(e) => Err(e),
            Ok((cs, j1)) => if j1 == s.len() {
                Ok(LibraryText { header: h, components: cs })
            } else {
                Err(ParseError::TrailingData(j1 as usize))
            },
        },
    }
}

/// The sections of `cs` marked `electrical`, in order.
pub open spec fn of_kind(cs: Seq<(bool, SectionText)>, electrical: bool) -> Seq<SectionText>
    decreases cs.len(),
{
    if cs.len() == 0 {
        seq![]
    } else {
        let r = of_kind(cs.drop_last(), electrical);
        if cs.last().0 == electrical {
            r.push(cs.last().1)
        } else {
            r
        }
    }
}

/// The electrical components hold the sections `ts`, one for one.
pub open spec fn electricals_hold(v: Seq<ElectricalComponent>, ts: Seq<SectionText>) -> bool {
    v.len() == ts.len() && forall|m: int| 0 <= m < v.len() ==> (#[trigger] v[m]).holds(ts[m].0, ts[m].1[0], ts[m].1[1])
}

/// The mechanical components hold the sections `ts`, one for one.
pub open spec fn mechanicals_hold(v: Seq<MechanicalComponent>, ts: Seq<SectionText>) -> bool {
    v.len() == ts.len() && forall|m: int| 0 <= m < v.len() ==> (#[trigger] v[m]).holds(ts[m].0, ts[m].1[0])
}

/// The library `l` holds the texts `t`.
pub open spec fn library_holds(l: Library, t: LibraryText) -> bool {
    &&& library_header_holds(l.header, t.header)
    &&& electricals_hold(l.electrical_components@, of_kind(t.components, true))
    &&& mechanicals_hold(l.mechanical_components@, of_kind(t.components, false))
}

/// A component section of either kind.
pub enum Component {
    Electrical(ElectricalComponent),
    Mechanical(MechanicalComponent),
}

/// The texts of the component section at `i`, marked `true` where it is
/// electrical.
pub open spec fn component_text(s: Seq<char>, i: int) -> (bool, SectionText) {
    let electrical = sp_keyword(s, i, ".ELECTRICAL"@) is Some;
    let shape = if electrical {
        electrical_shape()
    } else {
        MechanicalComponent::shape()
    };
    match sp_section(s, i, shape) {
        Ok((h, g, j)) => (electrical, (h, g)),
        Err(_) => (electrical, (seq![], seq![])),
    }
}

/// The component `c` holds the marked texts `t`.
pub open spec fn component_holds(c: Component, t: (bool, SectionText)) -> bool {
    match c {
        Component::Electrical(e) => t.0 && e.holds(t.1.0, t.1.1[0], t.1.1[1]),
        Component::Mechanical(m) => !t.0 && m.holds(t.1.0, t.1.1[0]),
    }
}

/// Parses the component section at `i`, if one starts there.
fn next_component(s: &Vec<char>, i: usize) -> (r: Option<Result<(Component, usize), ParseError>>)
    requires
        i <= s.len(),
    ensures
        r is None ==> sp_components(s@, i as int) == Ok::<(Seq<(bool, SectionText)>, int), ParseError>((seq![], i as int)),
        r matches Some(Err(e)) ==> sp_components(s@, i as int) == Err::<(Seq<(bool, SectionText)>, int), ParseError>(e),
        r matches Some(Ok((c, k))) ==> i < k <= s.len() && component_holds(c, component_text(s@, i as int))
            && sp_components(s@, i as int) == cons_res(component_text(s@, i as int), sp_components(s@, k as int)),
{
    let electrical = keyword(s, i, ".ELECTRICAL").is_some();
    if !electrical && keyword(s, i, ".MECHANICAL").is_none() {
        return None;
    }
    if electrical {
        match electrical_at(s, i) {
            Err(e) => Some(Err(e)),
            Ok((c, k)) => if k > i {
                Some(Ok((Component::Electrical(c), k)))
            } else {
                None
            },
        }
    } else {
        match outline_at::<MechanicalComponent>(s, i) {
            Err(e) => Some(Err(e)),
            Ok((c, k)) => if k > i {
                Some(Ok((Component::Mechanical(c), k)))
            } else {
                None
            },
        }
    }
}

/// Parses a library document; fails where the header is missing or is not a
/// library's, where a component section is malformed, or where input
/// remains after the last component section.
pub fn parse_library(input: &str) -> (r: Result<Library, ParseError>)
    ensures
        parsed_library(input@, r),
{
    let cs = to_chars(input);
    let s = &cs;
    let (header, j0) = match library_header_at(s, 0) {
        Err(e) => return Err(e),
        Ok(x) => x,
    };
    let mut electrical_components: Vec<ElectricalComponent> = Vec::new();
    let mut mechanical_components: Vec<MechanicalComponent> = Vec::new();
    let ghost mut acc: Seq<(bool, SectionText)> = seq![];
    let mut j: usize = j0;
    assert(append_res(acc, sp_components(s@, j as int)) == sp_components(s@, j as int)) by {
        if let Ok((x, k)) = sp_components(s@, j as int) {
            assert(acc + x =~= x);
        }
    }
    loop
        invariant
            j0 <= j <= s.len(),
            s@ == input@,
            sp_library_header(s@, 0) matches Ok((f, k)) && k == j0 && library_header_holds(header, f),
            sp_components(s@, j0 as int) == append_res(acc, sp_components(s@, j as int)),
            electricals_hold(electrical_components@, of_kind(acc, true)),
            mechanicals_hold(mechanical_components@, of_kind(acc, false)),
        ensures
            j0 <= j <= s.len(),
            sp_components(s@, j as int) == Ok::<(Seq<(bool, SectionText)>, int), ParseError>((seq![], j as int)),
        decreases s.len() - j,
    {
        let ghost prev = acc;
        match next_component(s, j) {
            None => {
                break;
            },
            Some(Err(e)) => {
                return Err(e);
            },
            Some(Ok((c, k))) => {
                let ghost t = component_text(s@, j as int);
                proof {
                    acc = prev.push(t);
                    assert(acc.drop_last() =~= prev);
                    crate::section::lemma_append_cons(prev, t, sp_components(s@, k as int));
                }
                match c {
                    Component::Electrical(e) => electrical_components.push(e),
                    Component::Mechanical(m) => mechanical_components.push(m),
                }
                j = k;
            },
        }
    }
    if j < s.len() {
        return Err(ParseError::TrailingData(j));
    }
    assert(acc + seq![] =~= acc);
    Ok(Library { header, electrical_components, mechanical_components })
}

/// `r` is the result of parsing the library document `s`.
pub open spec fn parsed_library(s: Seq<char>, r: Result<Library, ParseError>) -> bool {
    match r {
        Ok(l) => sp_library(s) matches Ok(t) && library_holds(l, t),
        Err(e) => sp_library(s) == Err::<LibraryText, ParseError>(e),
    }
}

/// Parsing one library text twice gives the same outcome: the same error,
/// or two libraries that hold the same texts.
pub proof fn lemma_parse_library_twice(s: Seq<char>, r1: Result<Library, ParseError>, r2: Result<Library, ParseError>)
    requires
        parsed_library(s, r1),
        parsed_library(s, r2),
    ensures
        match (r1, r2) {
            (Ok(l1), Ok(l2)) => exists|t: LibraryText| library_holds(l1, t) && library_holds(l2, t),
            (Err(e1), Err(e2)) => e1 == e2,
            _ => false,
        },
{
    if let (Ok(l1), Ok(l2)) = (r1, r2) {
        let t = sp_library(s)->Ok_0;
        assert(library_holds(l1, t) && library_holds(l2, t));
    }
}

} // verus!
