//! Checks that the references between documents resolve: components placed
//! on a board against its library, and boards placed on a panel against the
//! boards at hand.
use crate::board::BoardPanel;
use crate::component_placement::ComponentPlacement;
use crate::library::Library;
use crate::primitives::text_is;
use vstd::prelude::*;

verus! {

/// A reference that does not resolve, with the name it gives.
#[derive(Clone, Debug, PartialEq)]
pub enum ReferenceError {
    /// A board places a package that its library does not define.
    MissingComponent(String),
    /// A panel places a board that is not among the boards.
    MissingBoard(String),
}

/// What a reference error says.
pub enum Missing {
    Component(Seq<char>),
    Board(Seq<char>),
}

impl View for ReferenceError {
    type V = Missing;

    open spec fn view(&self) -> Missing {
        match self {
            ReferenceError::MissingComponent(n) => Missing::Component(n@),
            ReferenceError::MissingBoard(n) => Missing::Board(n@),
        }
    }
}

impl ReferenceError {
    /// The name that does not resolve.
    pub fn name(&self) -> (r: &String)
        ensures
            self@ == Missing::Component(r@) || self@ == Missing::Board(r@),
    {
        match self {
            ReferenceError::MissingComponent(n) => n,
            ReferenceError::MissingBoard(n) => n,
        }
    }
}

/// What a check's result says: nothing, or the reference that failed.
pub open spec fn check_view(r: Result<(), ReferenceError>) -> Option<Missing> {
    match r {
        Ok(_) => None,
        Err(e) => Some(e@),
    }
}

/// The placement places a board on a panel.
pub open spec fn places_board(p: ComponentPlacement) -> bool {
    p.reference_designator@ == "BOARD"@
}

/// The library defines a component, electrical or mechanical, named `name`.
pub open spec fn defines(l: Library, name: Seq<char>) -> bool {
    ||| exists|i: int|
        0 <= i < l.electrical_components@.len() && (#[trigger] l.electrical_components@[i]).geometry_name@
            == name
    ||| exists|i: int|
        0 <= i < l.mechanical_components@.len() && (#[trigger] l.mechanical_components@[i]).geometry_name@
            == name
}

/// One of the boards is named `name`.
pub open spec fn has_board(boards: Seq<BoardPanel>, name: Seq<char>) -> bool {
    exists|i: int| 0 <= i < boards.len() && (#[trigger] boards[i]).header.board_name@ == name
}

/// The package name of the first placement from `n` on that places a
/// component the library does not define.
pub open spec fn first_missing_component(l: Library, ps: Seq<ComponentPlacement>, n: int) -> Option<Seq<char>>
    decreases ps.len() - n,
{
    if n < 0 || n >= ps.len() {
        None
    } else if !places_board(ps[n]) && !defines(l, ps[n].package_name@) {
        Some(ps[n].package_name@)
    } else {
        first_missing_component(l, ps, n + 1)
    }
}

/// The package name of the first placement from `n` on that places a board
/// that is not among `boards`.
pub open spec fn first_missing_board(boards: Seq<BoardPanel>, ps: Seq<ComponentPlacement>, n: int) -> Option<Seq<char>>
    decreases ps.len() - n,
{
    if n < 0 || n >= ps.len() {
        None
    } else if places_board(ps[n]) && !has_board(boards, ps[n].package_name@) {
        Some(ps[n].package_name@)
    } else {
        first_missing_board(boards, ps, n + 1)
    }
}

/// The outcome of checking a board against its library.
pub open spec fn library_check(l: Library, b: BoardPanel) -> Option<Missing> {
    match first_missing_component(l, b.component_placements@, 0) {
        Some(n) => Some(Missing::Component(n)),
        None => None,
    }
}

/// The outcome of checking a panel against the boards.
pub open spec fn panel_check(panel: BoardPanel, boards: Seq<BoardPanel>) -> Option<Missing> {
    match first_missing_board(boards, panel.component_placements@, 0) {
        Some(n) => Some(Missing::Board(n)),
        None => None,
    }
}

fn library_defines(l: &Library, name: &String) -> (r: bool)
    ensures
        r == defines(*l, name@),
{
    let mut i: usize = 0;
    while i < l.electrical_components.len()
        invariant
            i <= l.electrical_components@.len(),
            forall|k: int| 0 <= k < i ==> (#[trigger] l.electrical_components@[k]).geometry_name@ != name@,
        decreases l.electrical_components.len() - i,
    {
        if l.electrical_components[i].geometry_name == *name {
            return true;
        }
        i = i + 1;
    }
    let mut i: usize = 0;
    while i < l.mechanical_components.len()
        invariant
            i <= l.mechanical_components@.len(),
            forall|k: int| 0 <= k < l.electrical_components@.len() ==> (#[trigger] l.electrical_components@[k]).geometry_name@ != name@,
            forall|k: int| 0 <= k < i ==> (#[trigger] l.mechanical_components@[k]).geometry_name@ != name@,
        decreases l.mechanical_components.len() - i,
    {
        if l.mechanical_components[i].geometry_name == *name {
            return true;
        }
        i = i + 1;
    }
    false
}

/// Checks that every component that `board` places, other than boards, is
/// defined in `library`; the error names the package of the first placement
/// that is not.
pub fn library_references_valid(library: &Library, board: &BoardPanel) -> (r: Result<(), ReferenceError>)
    ensures
        check_view(r) == library_check(*library, *board),
{
    let ps = &board.component_placements;
    let mut k: usize = 0;
    while k < ps.len()
        invariant
            k <= ps@.len(),
            ps@ == board.component_placements@,
            first_missing_component(*library, ps@, 0) == first_missing_component(*library, ps@, k as int),
        decreases ps.len() - k,
    {
        if !text_is(&ps[k].reference_designator, "BOARD") && !library_defines(library, &ps[k].package_name) {
            return Err(ReferenceError::MissingComponent(ps[k].package_name.clone()));
        }
        k = k + 1;
    }
    Ok(())
}

fn boards_have(boards: &[BoardPanel], name: &String) -> (r: bool)
    ensures
        r == has_board(boards@, name@),
{
    let mut i: usize = 0;
    while i < boards.len()
        invariant
            i <= boards@.len(),
            forall|k: int| 0 <= k < i ==> (#[trigger] boards@[k]).header.board_name@ != name@,
        decreases boards.len() - i,
    {
        if boards[i].header.board_name == *name {
            return true;
        }
        i = i + 1;
    }
    false
}

/// Checks that every board that `panel` places is among `boards`, by name;
/// the error names the first placed board that is not.
pub fn panel_references_valid(panel: &BoardPanel, boards: &[BoardPanel]) -> (r: Result<(), ReferenceError>)
    ensures
        check_view(r) == panel_check(*panel, boards@),
{
    let ps = &panel.component_placements;
    let mut k: usize = 0;
    while k < ps.len()
        invariant
            k <= ps@.len(),
            ps@ == panel.component_placements@,
            first_missing_board(boards@, ps@, 0) == first_missing_board(boards@, ps@, k as int),
        decreases ps.len() - k,
    {
        if text_is(&ps[k].reference_designator, "BOARD") && !boards_have(boards, &ps[k].package_name) {
            return Err(ReferenceError::MissingBoard(ps[k].package_name.clone()));
        }
        k = k + 1;
    }
    Ok(())
}

/// The outcome of checking an assembly: each board from `n` on against the
/// library, in order, then the panel, if any, against the boards.
pub open spec fn assembly_check(panel: Option<BoardPanel>, l: Library, boards: Seq<BoardPanel>, n: int) -> Option<Missing>
    decreases boards.len() - n,
{
    if 0 <= n < boards.len() {
        match library_check(l, boards[n]) {
            Some(m) => Some(m),
            None => assembly_check(panel, l, boards, n + 1),
        }
    } else {
        match panel {
            Some(p) => panel_check(p, boards),
            None => None,
        }
    }
}

/// Checks an assembly of an optional panel, a library and its boards: each
/// board against the library, then the panel against the boards; stops at the
/// first reference that does not resolve.
pub fn validate_assembly(panel: Option<&BoardPanel>, library: &Library, boards: &[BoardPanel]) -> (r: Result<(), ReferenceError>)
    ensures
        check_view(r) == assembly_check(
            match panel {
                Some(p) => Some(*p),
                None => None,
            },
            *library,
            boards@,
            0,
        ),
{
    let ghost pv = match panel {
        Some(p) => Some(*p),
        None => None,
    };
    let mut n: usize = 0;
    while n < boards.len()
        invariant
            n <= boards@.len(),
            pv == match panel {
                Some(p) => Some(*p),
                None => None::<BoardPanel>,
            },
            assembly_check(pv, *library, boards@, 0) == assembly_check(pv, *library, boards@, n as int),
        decreases boards.len() - n,
    {
        let r = library_references_valid(library, &boards[n]);
        if r.is_err() {
            return r;
        }
        n = n + 1;
    }
    match panel {
        Some(p) => panel_references_valid(p, boards),
        None => Ok(()),
    }
}

proof fn lemma_first_missing_component(l: Library, ps: Seq<ComponentPlacement>, n: int, k: int, x: Seq<char>)
    requires
        0 <= n <= k < ps.len(),
        !places_board(ps[k]) && !defines(l, ps[k].package_name@),
        forall|m: int|
            0 <= m < ps.len() && !places_board(ps[m]) && !defines(l, ps[m].package_name@) ==> (#[trigger] ps[m]).package_name@ == x,
    ensures
        first_missing_component(l, ps, n) == Some(x),
    decreases k - n,
{
    if n < k && (places_board(ps[n]) || defines(l, ps[n].package_name@)) {
        lemma_first_missing_component(l, ps, n + 1, k, x);
    }
}

/// Where a board places a component named `x` that its library does not
/// define, and no other name is missing, the check fails naming `x`.
pub proof fn lemma_missing_component_named(l: Library, b: BoardPanel, k: int, x: Seq<char>)
    requires
        0 <= k < b.component_placements@.len(),
        b.component_placements@[k].package_name@ == x,
        !places_board(b.component_placements@[k]),
        !defines(l, x),
        forall|m: int|
            0 <= m < b.component_placements@.len() && !places_board(b.component_placements@[m]) && !defines(
                l,
                b.component_placements@[m].package_name@,
            ) ==> (#[trigger] b.component_placements@[m]).package_name@ == x,
    ensures
        library_check(l, b) == Some(Missing::Component(x)),
{
    lemma_first_missing_component(l, b.component_placements@, 0, k, x);
}

proof fn lemma_first_missing_board(boards: Seq<BoardPanel>, ps: Seq<ComponentPlacement>, n: int, k: int, x: Seq<char>)
    requires
        0 <= n <= k < ps.len(),
        places_board(ps[k]) && !has_board(boards, ps[k].package_name@),
        forall|m: int|
            0 <= m < ps.len() && places_board(ps[m]) && !has_board(boards, ps[m].package_name@) ==> (#[trigger] ps[m]).package_name@ == x,
    ensures
        first_missing_board(boards, ps, n) == Some(x),
    decreases k - n,
{
    if n < k && !(places_board(ps[n]) && !has_board(boards, ps[n].package_name@)) {
        lemma_first_missing_board(boards, ps, n + 1, k, x);
    }
}

/// Where a panel places a board named `x` that is not among the boards, and
/// no other board is missing, the check fails naming `x`.
pub proof fn lemma_missing_board_named(panel: BoardPanel, boards: Seq<BoardPanel>, k: int, x: Seq<char>)
    requires
        0 <= k < panel.component_placements@.len(),
        panel.component_placements@[k].package_name@ == x,
        places_board(panel.component_placements@[k]),
        !has_board(boards, x),
        forall|m: int|
            0 <= m < panel.component_placements@.len() && places_board(panel.component_placements@[m])
                && !has_board(boards, panel.component_placements@[m].package_name@) ==> (#[trigger] panel.component_placements@[m]).package_name@ == x,
    ensures
        panel_check(panel, boards) == Some(Missing::Board(x)),
{
    lemma_first_missing_board(boards, panel.component_placements@, 0, k, x);
}

} // verus!
