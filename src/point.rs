//! Points of outline loops.
use crate::primitives::{
    count_of, digits_value, string_of, to_chars, FieldKind, Number, ParseError,
};
use crate::section::{fields, fields_ok, sp_fields};
use vstd::prelude::*;

verus! {

/// A point of a loop of points that outlines a component or a board region.
#[derive(Clone, Debug, PartialEq)]
pub struct Point {
    /// The loop the point belongs to: 0 for counter-clockwise, 1 for clockwise.
    pub loop_label: u32,
    pub x: Number,
    pub y: Number,
    /// 0 for a straight segment, up to 360 for an arc, 360 for a full circle.
    pub angle: Number,
}

/// A point record: loop label, x, y and angle.
pub open spec fn point_kinds() -> Seq<FieldKind> {
    seq![FieldKind::Count, FieldKind::Number, FieldKind::Number, FieldKind::Number]
}

pub fn point_fields() -> (r: Vec<FieldKind>)
    ensures
        r@ == point_kinds(),
{
    let r = vec![FieldKind::Count, FieldKind::Number, FieldKind::Number, FieldKind::Number];
    assert(r@ =~= point_kinds());
    r
}

/// `p` holds the fields `f` of a point record.
pub open spec fn point_matches(p: Point, f: Seq<Seq<char>>) -> bool {
    &&& p.loop_label == digits_value(f[0])
    &&& p.x@ == f[1]
    &&& p.y@ == f[2]
    &&& p.angle@ == f[3]
}

/// The point that a parsed point record describes.
pub fn point_of(f: &Vec<String>) -> (p: Point)
    requires
        fields_ok(point_kinds(), f.deep_view()),
    ensures
        point_matches(p, f.deep_view()),
{
    assert(f.deep_view()[0] == f@[0]@);
    Point {
        loop_label: count_of(&f[0]),
        x: Number::from_text(f[1].clone()),
        y: Number::from_text(f[2].clone()),
        angle: Number::from_text(f[3].clone()),
    }
}

/// Parses a point record at the start of `input`; returns what follows it.
pub fn point(input: &str) -> (r: Result<(String, Point), ParseError>)
    ensures
        match r {
            Ok((rest, p)) => sp_fields(input@, 0, point_kinds(), 0) matches Ok((f, j))
                && point_matches(p, f) && rest@ == input@.subrange(j, input@.len() as int),
            Err(e) => sp_fields(input@, 0, point_kinds(), 0) == Err::<(Seq<Seq<char>>, int), ParseError>(e),
        },
{
    let s = to_chars(input);
    match fields(&s, 0, &point_fields(), 0) {
        Err(e) => Err(e),
        Ok((f, j)) => Ok((string_of(&s, j, s.len()), point_of(&f))),
    }
}

} // verus!
