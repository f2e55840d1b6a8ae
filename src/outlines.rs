//! The outline sections of board and panel documents: the primary outline,
//! other outlines, routing and placement outlines, keepouts and group areas.
use crate::point::{point_fields, point_kinds, point_matches, point_of, Point};
use crate::primitives::{string_of, to_chars, FieldKind, Number, ParseError, Vocab};
use crate::section::{
    body_ok, body_view, section, sections, sp_section, sp_sections, fields_ok, Group,
    SectionBody, Shape, ShapeView,
};
use vstd::prelude::*;

pub use crate::primitives::owner;

verus! {

/// The points of an outline hold the point records `recs`.
pub open spec fn points_match(pts: Seq<Point>, recs: Seq<Seq<Seq<char>>>) -> bool {
    pts.len() == recs.len() && forall|m: int| 0 <= m < pts.len() ==> point_matches(#[trigger] pts[m], recs[m])
}

/// The points of parsed point records.
pub fn points_of(recs: &Vec<Vec<String>>) -> (r: Vec<Point>)
    requires
        forall|m: int| 0 <= m < recs.deep_view().len() ==> fields_ok(point_kinds(), #[trigger] recs.deep_view()[m]),
    ensures
        points_match(r@, recs.deep_view()),
{
    let mut r: Vec<Point> = Vec::new();
    let mut k: usize = 0;
    while k < recs.len()
        invariant
            k <= recs.len(),
            forall|m: int| 0 <= m < recs.deep_view().len() ==> fields_ok(point_kinds(), #[trigger] recs.deep_view()[m]),
            r@.len() == k,
            forall|m: int| 0 <= m < k ==> point_matches(#[trigger] r@[m], recs.deep_view()[m]),
        decreases recs.len() - k,
    {
        assert(recs.deep_view()[k as int] == recs@[k as int].deep_view());
        r.push(point_of(&recs[k]));
        k = k + 1;
    }
    r
}

/// The shape of an outline section: its keywords, the owner and the given
/// fields after the opening keyword, then one or more point records.
pub open spec fn outline_shape(open: Seq<char>, close: Seq<char>, meta: Seq<FieldKind>) -> ShapeView {
    ShapeView {
        open,
        close,
        head: seq![FieldKind::Word(Vocab::Owner)] + meta,
        groups: seq![(point_kinds(), true)],
    }
}

fn outline_shape_of(open: &'static str, close: &'static str, meta: Vec<FieldKind>) -> (sh: Shape)
    ensures
        sh@ == outline_shape(open@, close@, meta@),
{
    let mut head = vec![FieldKind::Word(Vocab::Owner)];
    let ghost m = meta@;
    let mut meta = meta;
    head.append(&mut meta);
    let sh = Shape { open, close, head, groups: vec![Group { kinds: point_fields(), at_least_one: true }] };
    assert(sh@.head =~= seq![FieldKind::Word(Vocab::Owner)] + m);
    assert(sh@.groups =~= seq![(point_kinds(), true)]);
    sh
}

/// The section types that hold head fields and then one loop of points.
pub trait OutlineSection: Sized {
    /// The shape of the section.
    spec fn shape() -> ShapeView;

    /// The value holds the head fields `head` and the point records `pts`.
    spec fn holds(self, head: Seq<Seq<char>>, pts: Seq<Seq<Seq<char>>>) -> bool;

    fn shape_of() -> (sh: Shape)
        ensures
            sh@ == Self::shape();

    fn from_body(b: &SectionBody) -> (r: Self)
        requires
            body_ok(Self::shape(), b.head.deep_view(), b.groups.deep_view()),
        ensures
            r.holds(b.head.deep_view(), b.groups.deep_view()[0]);
}

/// `r` is the result of parsing one section of type `T` at the start of `s`:
/// the value and what follows the section, or the error.
pub open spec fn parsed_outline<T: OutlineSection>(s: Seq<char>, r: Result<(String, T), ParseError>) -> bool {
    match r {
        Ok((rest, o)) => sp_section(s, 0, T::shape()) matches Ok((h, g, j)) && o.holds(h, g[0])
            && rest@ == s.subrange(j, s.len() as int),
        Err(e) => sp_section(s, 0, T::shape()) == Err::<(Seq<Seq<char>>, Seq<Seq<Seq<Seq<char>>>>, int), ParseError>(e),
    }
}

/// Parses one section of type `T` at `i`.
pub fn outline_at<T: OutlineSection>(s: &Vec<char>, i: usize) -> (r: Result<(T, usize), ParseError>)
    requires
        i <= s.len(),
    ensures
        match r {
            Ok((o, j)) => sp_section(s@, i as int, T::shape()) matches Ok((h, g, k)) && o.holds(h, g[0]) && k == j
                && i <= j <= s.len(),
            Err(e) => sp_section(s@, i as int, T::shape()) == Err::<(Seq<Seq<char>>, Seq<Seq<Seq<Seq<char>>>>, int), ParseError>(e),
        },
{
    let sh = T::shape_of();
    match section(s, i, &sh) {
        Err(e) => Err(e),
        Ok((b, j)) => Ok((T::from_body(&b), j)),
    }
}

/// Parses one section of type `T` at the start of `input`; returns what follows it.
pub fn parse_outline<T: OutlineSection>(input: &str) -> (r: Result<(String, T), ParseError>)
    ensures
        parsed_outline(input@, r),
{
    let s = to_chars(input);
    match outline_at::<T>(&s, 0) {
        Err(e) => Err(e),
        Ok((o, j)) => Ok((string_of(&s, j, s.len()), o)),
    }
}

/// The values hold the parsed sections `bs`, one for one.
pub open spec fn all_hold<T: OutlineSection>(v: Seq<T>, bs: Seq<(Seq<Seq<char>>, Seq<Seq<Seq<Seq<char>>>>)>) -> bool {
    v.len() == bs.len() && forall|m: int| 0 <= m < v.len() ==> (#[trigger] v[m]).holds(bs[m].0, bs[m].1[0])
}

/// Parses zero or more sections of type `T` from `i`.
pub fn outlines_at<T: OutlineSection>(s: &Vec<char>, i: usize) -> (r: Result<(Vec<T>, usize), ParseError>)
    requires
        i <= s.len(),
    ensures
        match r {
            Ok((v, j)) => sp_sections(s@, i as int, T::shape()) matches Ok((bs, k)) && all_hold(v@, bs) && k == j
                && i <= j <= s.len(),
            Err(e) => sp_sections(s@, i as int, T::shape()) == Err::<(Seq<(Seq<Seq<char>>, Seq<Seq<Seq<Seq<char>>>>)>, int), ParseError>(e),
        },
{
    let sh = T::shape_of();
    match sections(s, i, &sh) {
        Err(e) => Err(e),
        Ok((bs, j)) => {
            let mut v: Vec<T> = Vec::new();
            let mut k: usize = 0;
            while k < bs.len()
                invariant
                    k <= bs@.len(),
                    sh@ == T::shape(),
                    forall|m: int| 0 <= m < bs@.len() ==> body_ok(sh@, (#[trigger] bs@[m]).head.deep_view(), bs@[m].groups.deep_view()),
                    v@.len() == k,
                    forall|m: int| 0 <= m < k ==> (#[trigger] v@[m]).holds(body_view(bs@[m]).0, body_view(bs@[m]).1[0]),
                decreases bs.len() - k,
            {
                v.push(T::from_body(&bs[k]));
                k = k + 1;
            }
            assert(all_hold(v@, bs@.map_values(|b: SectionBody| body_view(b))));
            Ok((v, j))
        },
    }
}


/// The board or panel outline, with its cutouts, and the board's thickness.
#[derive(Clone, Debug, PartialEq)]
pub struct BoardPanelOutline {
    /// ECAD, MCAD or UNOWNED.
    pub owner: String,
    pub thickness: Number,
    pub outline: Vec<Point>,
}


impl OutlineSection for BoardPanelOutline {
    open spec fn shape() -> ShapeView {
        outline_shape(".BOARD_OUTLINE"@, ".END_BOARD_OUTLINE"@, seq![FieldKind::Number])
    }

    open spec fn holds(self, head: Seq<Seq<char>>, pts: Seq<Seq<Seq<char>>>) -> bool {
        &&& self.owner@ == head[0]
        &&& self.thickness@ == head[1]
        &&& points_match(self.outline@, pts)
    }

    fn shape_of() -> (sh: Shape) {
        let sh = outline_shape_of(".BOARD_OUTLINE", ".END_BOARD_OUTLINE", vec![FieldKind::Number]);
        assert(sh@.head =~= Self::shape().head);
        sh
    }

    fn from_body(b: &SectionBody) -> (r: Self) {
        assert(b.head.deep_view()[0] == b.head@[0]@);
        assert(b.head.deep_view()[1] == b.head@[1]@);
        assert(b.groups.deep_view()[0] == b.groups@[0].deep_view());
        BoardPanelOutline {
            owner: b.head[0].clone(),
            thickness: Number::from_text(b.head[1].clone()),
            outline: points_of(&b.groups[0]),
        }
    }
}


/// The shape of a panel's outline section; a board's is that of
/// [`BoardPanelOutline`].
pub open spec fn panel_outline_shape() -> ShapeView {
    outline_shape(".PANEL_OUTLINE"@, ".END_PANEL_OUTLINE"@, seq![FieldKind::Number])
}

/// The shape of the primary outline section of a panel (`panel`) or a board.
pub open spec fn primary_shape(panel: bool) -> ShapeView {
    if panel {
        panel_outline_shape()
    } else {
        BoardPanelOutline::shape()
    }
}

/// Parses the primary outline section of a panel (`panel`) or a board at `i`.
pub fn primary_outline_at(s: &Vec<char>, i: usize, panel: bool) -> (r: Result<(BoardPanelOutline, usize), ParseError>)
    requires
        i <= s.len(),
    ensures
        match r {
            Ok((o, j)) => sp_section(s@, i as int, primary_shape(panel)) matches Ok((h, g, k)) && o.holds(h, g[0])
                && k == j && i <= j <= s.len(),
            Err(e) => sp_section(s@, i as int, primary_shape(panel)) == Err::<(Seq<Seq<char>>, Seq<Seq<Seq<Seq<char>>>>, int), ParseError>(e),
        },
{
    let sh = if panel {
        let sh = outline_shape_of(".PANEL_OUTLINE", ".END_PANEL_OUTLINE", vec![FieldKind::Number]);
        assert(sh@.head =~= panel_outline_shape().head);
        sh
    } else {
        BoardPanelOutline::shape_of()
    };
    match section(s, i, &sh) {
        Err(e) => Err(e),
        Ok((b, j)) => Ok((BoardPanelOutline::from_body(&b), j)),
    }
}

/// Parses a `.BOARD_OUTLINE` or, where none starts the input, a
/// `.PANEL_OUTLINE` section at the start of `input`; returns what follows it.
pub fn parse_board_panel_outline(input: &str) -> (r: Result<(String, BoardPanelOutline), ParseError>)
    ensures
        ({
            let panel = crate::section::sp_keyword(input@, 0, ".BOARD_OUTLINE"@) is None;
            match r {
                Ok((rest, o)) => sp_section(input@, 0, primary_shape(panel)) matches Ok((h, g, j)) && o.holds(h, g[0])
                    && rest@ == input@.subrange(j, input@.len() as int),
                Err(e) => sp_section(input@, 0, primary_shape(panel)) == Err::<(Seq<Seq<char>>, Seq<Seq<Seq<Seq<char>>>>, int), ParseError>(e),
            }
        }),
{
    let s = to_chars(input);
    let panel = crate::section::keyword(&s, 0, ".BOARD_OUTLINE").is_none();
    match primary_outline_at(&s, 0, panel) {
        Err(e) => Err(e),
        Ok((o, j)) => Ok((string_of(&s, j, s.len()), o)),
    }
}

/// An additional outline, for a heatsink or a board core, with an extrusion thickness.
#[derive(Clone, Debug, PartialEq)]
pub struct OtherOutline {
    /// ECAD, MCAD or UNOWNED.
    pub owner: String,
    pub id: String,
    pub extrude_thickness: Number,
    pub board_side: String,
    pub outline: Vec<Point>,
}

impl OutlineSection for OtherOutline {
    open spec fn shape() -> ShapeView {
        outline_shape(".OTHER_OUTLINE"@, ".END_OTHER_OUTLINE"@, seq![FieldKind::Token, FieldKind::Number, FieldKind::Token])
    }

    open spec fn holds(self, head: Seq<Seq<char>>, pts: Seq<Seq<Seq<char>>>) -> bool {
        &&& self.owner@ == head[0]
        &&& self.id@ == head[1]
        &&& self.extrude_thickness@ == head[2]
        &&& self.board_side@ == head[3]
        &&& points_match(self.outline@, pts)
    }

    fn shape_of() -> (sh: Shape) {
        let sh = outline_shape_of(".OTHER_OUTLINE", ".END_OTHER_OUTLINE", vec![FieldKind::Token, FieldKind::Number, FieldKind::Token]);
        assert(sh@.head =~= Self::shape().head);
        sh
    }

    fn from_body(b: &SectionBody) -> (r: Self) {
        assert(b.head.deep_view()[0] == b.head@[0]@);
        assert(b.head.deep_view()[1] == b.head@[1]@);
        assert(b.head.deep_view()[2] == b.head@[2]@);
        assert(b.head.deep_view()[3] == b.head@[3]@);
        assert(b.groups.deep_view()[0] == b.groups@[0].deep_view());
        OtherOutline {
            owner: b.head[0].clone(),
            id: b.head[1].clone(),
            extrude_thickness: Number::from_text(b.head[2].clone()),
            board_side: b.head[3].clone(),
            outline: points_of(&b.groups[0]),
        }
    }
}


/// Parses a `.OTHER_OUTLINE` section at the start of `input`; returns what follows it.
pub fn parse_other_outline(input: &str) -> (r: Result<(String, OtherOutline), ParseError>)
    ensures
        parsed_outline(input@, r),
{
    parse_outline::<OtherOutline>(input)
}

/// A region to which routing is confined, on the given layers.
#[derive(Clone, Debug, PartialEq)]
pub struct RoutingOutline {
    /// ECAD, MCAD or UNOWNED.
    pub owner: String,
    pub routing_layers: String,
    pub outline: Vec<Point>,
}

impl OutlineSection for RoutingOutline {
    open spec fn shape() -> ShapeView {
        outline_shape(".ROUTE_OUTLINE"@, ".END_ROUTE_OUTLINE"@, seq![FieldKind::Token])
    }

    open spec fn holds(self, head: Seq<Seq<char>>, pts: Seq<Seq<Seq<char>>>) -> bool {
        &&& self.owner@ == head[0]
        &&& self.routing_layers@ == head[1]
        &&& points_match(self.outline@, pts)
    }

    fn shape_of() -> (sh: Shape) {
        let sh = outline_shape_of(".ROUTE_OUTLINE", ".END_ROUTE_OUTLINE", vec![FieldKind::Token]);
        assert(sh@.head =~= Self::shape().head);
        sh
    }

    fn from_body(b: &SectionBody) -> (r: Self) {
        assert(b.head.deep_view()[0] == b.head@[0]@);
        assert(b.head.deep_view()[1] == b.head@[1]@);
        assert(b.groups.deep_view()[0] == b.groups@[0].deep_view());
        RoutingOutline {
            owner: b.head[0].clone(),
            routing_layers: b.head[1].clone(),
            outline: points_of(&b.groups[0]),
        }
    }
}


/// Parses a `.ROUTE_OUTLINE` section at the start of `input`; returns what follows it.
pub fn parse_routing_outline(input: &str) -> (r: Result<(String, RoutingOutline), ParseError>)
    ensures
        parsed_outline(input@, r),
{
    parse_outline::<RoutingOutline>(input)
}

/// A region within which components must be placed, with a height limit.
#[derive(Clone, Debug, PartialEq)]
pub struct PlacementOutline {
    /// ECAD, MCAD or UNOWNED.
    pub owner: String,
    pub board_side: String,
    pub outline_height: Number,
    pub outline: Vec<Point>,
}

impl OutlineSection for PlacementOutline {
    open spec fn shape() -> ShapeView {
        outline_shape(".PLACE_OUTLINE"@, ".END_PLACE_OUTLINE"@, seq![FieldKind::Token, FieldKind::Number])
    }

    open spec fn holds(self, head: Seq<Seq<char>>, pts: Seq<Seq<Seq<char>>>) -> bool {
        &&& self.owner@ == head[0]
        &&& self.board_side@ == head[1]
        &&& self.outline_height@ == head[2]
        &&& points_match(self.outline@, pts)
    }

    fn shape_of() -> (sh: Shape) {
        let sh = outline_shape_of(".PLACE_OUTLINE", ".END_PLACE_OUTLINE", vec![FieldKind::Token, FieldKind::Number]);
        assert(sh@.head =~= Self::shape().head);
        sh
    }

    fn from_body(b: &SectionBody) -> (r: Self) {
        assert(b.head.deep_view()[0] == b.head@[0]@);
        assert(b.head.deep_view()[1] == b.head@[1]@);
        assert(b.head.deep_view()[2] == b.head@[2]@);
        assert(b.groups.deep_view()[0] == b.groups@[0].deep_view());
        PlacementOutline {
            owner: b.head[0].clone(),
            board_side: b.head[1].clone(),
            outline_height: Number::from_text(b.head[2].clone()),
            outline: points_of(&b.groups[0]),
        }
    }
}


/// Parses a `.PLACE_OUTLINE` section at the start of `input`; returns what follows it.
pub fn parse_placement_outline(input: &str) -> (r: Result<(String, PlacementOutline), ParseError>)
    ensures
        parsed_outline(input@, r),
{
    parse_outline::<PlacementOutline>(input)
}

/// A region where routing is not allowed, on the given layers.
#[derive(Clone, Debug, PartialEq)]
pub struct RoutingKeepout {
    /// ECAD, MCAD or UNOWNED.
    pub owner: String,
    pub routing_layers: String,
    pub outline: Vec<Point>,
}

impl OutlineSection for RoutingKeepout {
    open spec fn shape() -> ShapeView {
        outline_shape(".ROUTE_KEEPOUT"@, ".END_ROUTE_KEEPOUT"@, seq![FieldKind::Token])
    }

    open spec fn holds(self, head: Seq<Seq<char>>, pts: Seq<Seq<Seq<char>>>) -> bool {
        &&& self.owner@ == head[0]
        &&& self.routing_layers@ == head[1]
        &&& points_match(self.outline@, pts)
    }

    fn shape_of() -> (sh: Shape) {
        let sh = outline_shape_of(".ROUTE_KEEPOUT", ".END_ROUTE_KEEPOUT", vec![FieldKind::Token]);
        assert(sh@.head =~= Self::shape().head);
        sh
    }

    fn from_body(b: &SectionBody) -> (r: Self) {
        assert(b.head.deep_view()[0] == b.head@[0]@);
        assert(b.head.deep_view()[1] == b.head@[1]@);
        assert(b.groups.deep_view()[0] == b.groups@[0].deep_view());
        RoutingKeepout {
            owner: b.head[0].clone(),
            routing_layers: b.head[1].clone(),
            outline: points_of(&b.groups[0]),
        }
    }
}


/// Parses a `.ROUTE_KEEPOUT` section at the start of `input`; returns what follows it.
pub fn parse_routing_keepout(input: &str) -> (r: Result<(String, RoutingKeepout), ParseError>)
    ensures
        parsed_outline(input@, r),
{
    parse_outline::<RoutingKeepout>(input)
}

/// A region where vias are not allowed.
#[derive(Clone, Debug, PartialEq)]
pub struct ViaKeepout {
    /// ECAD, MCAD or UNOWNED.
    pub owner: String,
    pub outline: Vec<Point>,
}

impl OutlineSection for ViaKeepout {
    open spec fn shape() -> ShapeView {
        outline_shape(".VIA_KEEPOUT"@, ".END_VIA_KEEPOUT"@, seq![])
    }

    open spec fn holds(self, head: Seq<Seq<char>>, pts: Seq<Seq<Seq<char>>>) -> bool {
        &&& self.owner@ == head[0]
        &&& points_match(self.outline@, pts)
    }

    fn shape_of() -> (sh: Shape) {
        let sh = outline_shape_of(".VIA_KEEPOUT", ".END_VIA_KEEPOUT", vec![]);
        assert(sh@.head =~= Self::shape().head);
        sh
    }

    fn from_body(b: &SectionBody) -> (r: Self) {
        assert(b.head.deep_view()[0] == b.head@[0]@);
        assert(b.groups.deep_view()[0] == b.groups@[0].deep_view());
        ViaKeepout {
            owner: b.head[0].clone(),
            outline: points_of(&b.groups[0]),
        }
    }
}


/// Parses a `.VIA_KEEPOUT` section at the start of `input`; returns what follows it.
pub fn parse_via_keepout(input: &str) -> (r: Result<(String, ViaKeepout), ParseError>)
    ensures
        parsed_outline(input@, r),
{
    parse_outline::<ViaKeepout>(input)
}

/// A region where components cannot be placed, above the given height.
#[derive(Clone, Debug, PartialEq)]
pub struct PlacementKeepout {
    /// ECAD, MCAD or UNOWNED.
    pub owner: String,
    pub board_side: String,
    pub keepout_height: Number,
    pub outline: Vec<Point>,
}

impl OutlineSection for PlacementKeepout {
    open spec fn shape() -> ShapeView {
        outline_shape(".PLACE_KEEPOUT"@, ".END_PLACE_KEEPOUT"@, seq![FieldKind::Token, FieldKind::Number])
    }

    open spec fn holds(self, head: Seq<Seq<char>>, pts: Seq<Seq<Seq<char>>>) -> bool {
        &&& self.owner@ == head[0]
        &&& self.board_side@ == head[1]
        &&& self.keepout_height@ == head[2]
        &&& points_match(self.outline@, pts)
    }

    fn shape_of() -> (sh: Shape) {
        let sh = outline_shape_of(".PLACE_KEEPOUT", ".END_PLACE_KEEPOUT", vec![FieldKind::Token, FieldKind::Number]);
        assert(sh@.head =~= Self::shape().head);
        sh
    }

    fn from_body(b: &SectionBody) -> (r: Self) {
        assert(b.head.deep_view()[0] == b.head@[0]@);
        assert(b.head.deep_view()[1] == b.head@[1]@);
        assert(b.head.deep_view()[2] == b.head@[2]@);
        assert(b.groups.deep_view()[0] == b.groups@[0].deep_view());
        PlacementKeepout {
            owner: b.head[0].clone(),
            board_side: b.head[1].clone(),
            keepout_height: Number::from_text(b.head[2].clone()),
            outline: points_of(&b.groups[0]),
        }
    }
}


/// Parses a `.PLACE_KEEPOUT` section at the start of `input`; returns what follows it.
pub fn parse_placement_keepout(input: &str) -> (r: Result<(String, PlacementKeepout), ParseError>)
    ensures
        parsed_outline(input@, r),
{
    parse_outline::<PlacementKeepout>(input)
}

/// An area where a named group of related components is to be placed.
#[derive(Clone, Debug, PartialEq)]
pub struct PlacementGroupArea {
    /// ECAD, MCAD or UNOWNED.
    pub owner: String,
    pub board_side: String,
    pub group_name: String,
    pub outline: Vec<Point>,
}

impl OutlineSection for PlacementGroupArea {
    open spec fn shape() -> ShapeView {
        outline_shape(".PLACE_REGION"@, ".END_PLACE_REGION"@, seq![FieldKind::Token, FieldKind::Text])
    }

    open spec fn holds(self, head: Seq<Seq<char>>, pts: Seq<Seq<Seq<char>>>) -> bool {
        &&& self.owner@ == head[0]
        &&& self.board_side@ == head[1]
        &&& self.group_name@ == head[2]
        &&& points_match(self.outline@, pts)
    }

    fn shape_of() -> (sh: Shape) {
        let sh = outline_shape_of(".PLACE_REGION", ".END_PLACE_REGION", vec![FieldKind::Token, FieldKind::Text]);
        assert(sh@.head =~= Self::shape().head);
        sh
    }

    fn from_body(b: &SectionBody) -> (r: Self) {
        assert(b.head.deep_view()[0] == b.head@[0]@);
        assert(b.head.deep_view()[1] == b.head@[1]@);
        assert(b.head.deep_view()[2] == b.head@[2]@);
        assert(b.groups.deep_view()[0] == b.groups@[0].deep_view());
        PlacementGroupArea {
            owner: b.head[0].clone(),
            board_side: b.head[1].clone(),
            group_name: b.head[2].clone(),
            outline: points_of(&b.groups[0]),
        }
    }
}


/// Parses a `.PLACE_REGION` section at the start of `input`; returns what follows it.
pub fn parse_placement_group_area(input: &str) -> (r: Result<(String, PlacementGroupArea), ParseError>)
    ensures
        parsed_outline(input@, r),
{
    parse_outline::<PlacementGroupArea>(input)
}


} // verus!
