//! Electrical and mechanical components of library documents.
use crate::outlines::{points_match, points_of, OutlineSection};
use crate::point::{point_fields, point_kinds, Point};
use crate::primitives::{FieldKind, Number, ParseError, Vocab, text_is, to_chars, string_of};
use crate::section::{
    body_ok, fields_ok, section, sp_section, Group, SectionBody, Shape, ShapeView,
};
use vstd::prelude::*;

verus! {

/// A named property of an electrical component, such as `CAPACITANCE`.
#[derive(Clone, Debug, PartialEq)]
pub struct Property {
    pub name: String,
    pub value: Number,
}

/// An electrical component's footprint and properties.
#[derive(Clone, Debug, PartialEq)]
pub struct ElectricalComponent {
    pub geometry_name: String,
    pub part_number: String,
    pub units: String,
    pub height: Number,
    pub outline: Vec<Point>,
    /// One entry per property name, in the order of first appearance, with
    /// the value that the name was given last.
    pub properties: Vec<Property>,
}

/// A mechanical component's footprint.
#[derive(Clone, Debug, PartialEq)]
pub struct MechanicalComponent {
    pub geometry_name: String,
    pub part_number: String,
    pub units: String,
    pub height: Number,
    pub outline: Vec<Point>,
}

/// The head of a component section: geometry name, part number (quoted or
/// not), units and height.
pub open spec fn component_head() -> Seq<FieldKind> {
    seq![FieldKind::Token, FieldKind::Text, FieldKind::Token, FieldKind::Number]
}

fn component_head_of() -> (r: Vec<FieldKind>)
    ensures
        r@ == component_head(),
{
    let r = vec![FieldKind::Token, FieldKind::Text, FieldKind::Token, FieldKind::Number];
    assert(r@ =~= component_head());
    r
}

/// A property record: `PROP`, the name and the value.
pub open spec fn prop_kinds() -> Seq<FieldKind> {
    seq![FieldKind::Word(Vocab::Prop), FieldKind::Token, FieldKind::Number]
}

/// An electrical component section: the head, one or more points, then zero
/// or more property records.
pub open spec fn electrical_shape() -> ShapeView {
    ShapeView {
        open: ".ELECTRICAL"@,
        close: ".END_ELECTRICAL"@,
        head: component_head(),
        groups: seq![(point_kinds(), true), (prop_kinds(), false)],
    }
}

/// The properties that property records give, a later record of a name
/// replacing what an earlier one gave.
pub open spec fn props_map(recs: Seq<Seq<Seq<char>>>) -> Map<Seq<char>, Seq<char>>
    decreases recs.len(),
{
    if recs.len() == 0 {
        Map::empty()
    } else {
        props_map(recs.drop_last()).insert(recs.last()[1], recs.last()[2])
    }
}

/// The properties `ps` have distinct names and are the map `m`.
pub open spec fn props_are(ps: Seq<Property>, m: Map<Seq<char>, Seq<char>>) -> bool {
    &&& forall|a: int, b: int| 0 <= a < b < ps.len() ==> (#[trigger] ps[a]).name@ != (#[trigger] ps[b]).name@
    &&& forall|a: int| 0 <= a < ps.len() ==> m.contains_key((#[trigger] ps[a]).name@) && m[ps[a].name@] == ps[a].value@
    &&& forall|k: Seq<char>| m.contains_key(k) ==> exists|a: int| 0 <= a < ps.len() && (#[trigger] ps[a]).name@ == k
}

fn props_of(recs: &Vec<Vec<String>>) -> (r: Vec<Property>)
    requires
        forall|m: int| 0 <= m < recs.deep_view().len() ==> fields_ok(prop_kinds(), #[trigger] recs.deep_view()[m]),
    ensures
        props_are(r@, props_map(recs.deep_view())),
{
    let mut ps: Vec<Property> = Vec::new();
    let mut k: usize = 0;
    while k < recs.len()
        invariant
            k <= recs.len(),
            forall|m: int| 0 <= m < recs.deep_view().len() ==> fields_ok(prop_kinds(), #[trigger] recs.deep_view()[m]),
            props_are(ps@, props_map(recs.deep_view().subrange(0, k as int))),
        decreases recs.len() - k,
    {
        let ghost before = recs.deep_view().subrange(0, k as int);
        let ghost after = recs.deep_view().subrange(0, k + 1);
        let ghost rec = recs.deep_view()[k as int];
        assert(after.drop_last() =~= before);
        assert(rec == recs@[k as int].deep_view());
        assert(props_map(after) == props_map(before).insert(rec[1], rec[2]));
        let name = &recs[k][1];
        let value = &recs[k][2];
        assert(name@ == rec[1]);
        assert(value@ == rec[2]);
        let mut found: usize = ps.len();
        let mut a: usize = 0;
        while a < ps.len()
            invariant_except_break
                found == ps@.len(),
            invariant
                a <= ps@.len(),
                forall|b: int| 0 <= b < a ==> (#[trigger] ps@[b]).name@ != name@,
            ensures
                found < ps@.len() ==> ps@[found as int].name@ == name@,
                found >= ps@.len() ==> found == ps@.len() && forall|b: int|
                    0 <= b < ps@.len() ==> (#[trigger] ps@[b]).name@ != name@,
            decreases ps.len() - a,
        {
            if ps[a].name == *name {
                found = a;
                break;
            }
            a = a + 1;
        }
        let ghost m0 = props_map(before);
        let ghost old_ps = ps@;
        if found < ps.len() {
            ps.set(found, Property { name: name.clone(), value: Number::from_text(value.clone()) });
            let ghost m1 = props_map(after);
            assert(forall|a: int| 0 <= a < old_ps.len() && a != found ==> (#[trigger] ps@[a]) == old_ps[a]);
            assert(ps@[found as int].name@ == name@);
            assert(ps@[found as int].value@ == value@);
            assert forall|a: int, b: int| 0 <= a < b < ps@.len() implies (#[trigger] ps@[a]).name@
                != (#[trigger] ps@[b]).name@ by {
                assert(old_ps[a].name@ != old_ps[b].name@);
            }
            assert forall|a: int| 0 <= a < ps@.len() implies m1.contains_key((#[trigger] ps@[a]).name@)
                && m1[ps@[a].name@] == ps@[a].value@ by {
                if a != found {
                    assert(old_ps[a].name@ != old_ps[found as int].name@);
                }
            }
            assert forall|kk: Seq<char>| m1.contains_key(kk) implies exists|b: int|
                0 <= b < ps@.len() && (#[trigger] ps@[b]).name@ == kk by {
                if kk == name@ {
                    assert(ps@[found as int].name@ == kk);
                } else {
                    assert(m0.contains_key(kk));
                    let b = choose|b: int| 0 <= b < old_ps.len() && (#[trigger] old_ps[b]).name@ == kk;
                    assert(b != found);
                    assert(ps@[b].name@ == kk);
                }
            }
        } else {
            ps.push(Property { name: name.clone(), value: Number::from_text(value.clone()) });
            let ghost m1 = props_map(after);
            assert(forall|a: int| 0 <= a < old_ps.len() ==> (#[trigger] ps@[a]) == old_ps[a]);
            assert(ps@[old_ps.len() as int].name@ == name@);
            assert(ps@[old_ps.len() as int].value@ == value@);
            assert forall|a: int, b: int| 0 <= a < b < ps@.len() implies (#[trigger] ps@[a]).name@
                != (#[trigger] ps@[b]).name@ by {
                if b == old_ps.len() {
                    assert(old_ps[a].name@ != name@);
                }
            }
            assert forall|a: int| 0 <= a < ps@.len() implies m1.contains_key((#[trigger] ps@[a]).name@)
                && m1[ps@[a].name@] == ps@[a].value@ by {
                if a < old_ps.len() {
                    assert(old_ps[a].name@ != name@);
                }
            }
            assert forall|kk: Seq<char>| m1.contains_key(kk) implies exists|b: int|
                0 <= b < ps@.len() && (#[trigger] ps@[b]).name@ == kk by {
                if kk == name@ {
                    assert(ps@[old_ps.len() as int].name@ == kk);
                } else {
                    assert(m0.contains_key(kk));
                    let b = choose|b: int| 0 <= b < old_ps.len() && (#[trigger] old_ps[b]).name@ == kk;
                    assert(ps@[b].name@ == kk);
                }
            }
        }
        k = k + 1;
    }
    assert(recs.deep_view().subrange(0, recs.len() as int) =~= recs.deep_view());
    ps
}

impl ElectricalComponent {
    /// The head fields `head`, the point records `pts` and the property
    /// records `props` give this component.
    pub open spec fn holds(self, head: Seq<Seq<char>>, pts: Seq<Seq<Seq<char>>>, props: Seq<Seq<Seq<char>>>) -> bool {
        &&& self.geometry_name@ == head[0]
        &&& self.part_number@ == head[1]
        &&& self.units@ == head[2]
        &&& self.height@ == head[3]
        &&& points_match(self.outline@, pts)
        &&& props_are(self.properties@, props_map(props))
    }

    /// The value of the property `name`, if the component has one.
    pub fn property(&self, name: &str) -> (r: Option<&Number>)
        ensures
            match r {
                Some(v) => exists|a: int| 0 <= a < self.properties@.len() && (#[trigger] self.properties@[a]).name@ == name@
                    && self.properties@[a].value == *v,
                None => forall|a: int| 0 <= a < self.properties@.len() ==> (#[trigger] self.properties@[a]).name@ != name@,
            },
    {
        let mut a: usize = 0;
        while a < self.properties.len()
            invariant
                a <= self.properties@.len(),
                forall|b: int| 0 <= b < a ==> (#[trigger] self.properties@[b]).name@ != name@,
            decreases self.properties.len() - a,
        {
            if text_is(&self.properties[a].name, name) {
                return Some(&self.properties[a].value);
            }
            a = a + 1;
        }
        None
    }
}

fn electrical_shape_of() -> (sh: Shape)
    ensures
        sh@ == electrical_shape(),
{
    let sh = Shape {
        open: ".ELECTRICAL",
        close: ".END_ELECTRICAL",
        head: component_head_of(),
        groups: vec![
            Group { kinds: point_fields(), at_least_one: true },
            Group { kinds: vec![FieldKind::Word(Vocab::Prop), FieldKind::Token, FieldKind::Number], at_least_one: false },
        ],
    };
    assert(sh@.groups[1].0 =~= prop_kinds());
    assert(sh@.groups =~= electrical_shape().groups);
    sh
}

fn electrical_of(b: &SectionBody) -> (r: ElectricalComponent)
    requires
        body_ok(electrical_shape(), b.head.deep_view(), b.groups.deep_view()),
    ensures
        r.holds(b.head.deep_view(), b.groups.deep_view()[0], b.groups.deep_view()[1]),
{
    assert(b.head.deep_view()[0] == b.head@[0]@);
    assert(b.head.deep_view()[1] == b.head@[1]@);
    assert(b.head.deep_view()[2] == b.head@[2]@);
    assert(b.head.deep_view()[3] == b.head@[3]@);
    assert(b.groups.deep_view()[0] == b.groups@[0].deep_view());
    assert(b.groups.deep_view()[1] == b.groups@[1].deep_view());
    ElectricalComponent {
        geometry_name: b.head[0].clone(),
        part_number: b.head[1].clone(),
        units: b.head[2].clone(),
        height: Number::from_text(b.head[3].clone()),
        outline: points_of(&b.groups[0]),
        properties: props_of(&b.groups[1]),
    }
}

/// Parses an `.ELECTRICAL` section at `i`.
pub fn electrical_at(s: &Vec<char>, i: usize) -> (r: Result<(ElectricalComponent, usize), ParseError>)
    requires
        i <= s.len(),
    ensures
        match r {
            Ok((c, j)) => sp_section(s@, i as int, electrical_shape()) matches Ok((h, g, k)) && c.holds(h, g[0], g[1])
                && k == j && i <= j <= s.len(),
            Err(e) => sp_section(s@, i as int, electrical_shape()) == Err::<(Seq<Seq<char>>, Seq<Seq<Seq<Seq<char>>>>, int), ParseError>(e),
        },
{
    match section(s, i, &electrical_shape_of()) {
        Err(e) => Err(e),
        Ok((b, j)) => Ok((electrical_of(&b), j)),
    }
}

/// Parses an `.ELECTRICAL` section at the start of `input`; returns what
/// follows it.
pub fn electrical_component(input: &str) -> (r: Result<(String, ElectricalComponent), ParseError>)
    ensures
        match r {
            Ok((rest, c)) => sp_section(input@, 0, electrical_shape()) matches Ok((h, g, j)) && c.holds(h, g[0], g[1])
                && rest@ == input@.subrange(j, input@.len() as int),
            Err(e) => sp_section(input@, 0, electrical_shape()) == Err::<(Seq<Seq<char>>, Seq<Seq<Seq<Seq<char>>>>, int), ParseError>(e),
        },
{
    let s = to_chars(input);
    match electrical_at(&s, 0) {
        Err(e) => Err(e),
        Ok((c, j)) => Ok((string_of(&s, j, s.len()), c)),
    }
}

impl OutlineSection for MechanicalComponent {
    open spec fn shape() -> ShapeView {
        ShapeView {
            open: ".MECHANICAL"@,
            close: ".END_MECHANICAL"@,
            head: component_head(),
            groups: seq![(point_kinds(), true)],
        }
    }

    open spec fn holds(self, head: Seq<Seq<char>>, pts: Seq<Seq<Seq<char>>>) -> bool {
        &&& self.geometry_name@ == head[0]
        &&& self.part_number@ == head[1]
        &&& self.units@ == head[2]
        &&& self.height@ == head[3]
        &&& points_match(self.outline@, pts)
    }

    fn shape_of() -> (sh: Shape) {
        let sh = Shape {
            open: ".MECHANICAL",
            close: ".END_MECHANICAL",
            head: component_head_of(),
            groups: vec![Group { kinds: point_fields(), at_least_one: true }],
        };
        assert(sh@.groups =~= Self::shape().groups);
        sh
    }

    fn from_body(b: &SectionBody) -> (r: Self) {
        assert(b.head.deep_view()[0] == b.head@[0]@);
        assert(b.head.deep_view()[1] == b.head@[1]@);
        assert(b.head.deep_view()[2] == b.head@[2]@);
        assert(b.head.deep_view()[3] == b.head@[3]@);
        assert(b.groups.deep_view()[0] == b.groups@[0].deep_view());
        MechanicalComponent {
            geometry_name: b.head[0].clone(),
            part_number: b.head[1].clone(),
            units: b.head[2].clone(),
            height: Number::from_text(b.head[3].clone()),
            outline: points_of(&b.groups[0]),
        }
    }
}

/// Parses a `.MECHANICAL` section at the start of `input`; returns what
/// follows it.
pub fn mechanical_component(input: &str) -> (r: Result<(String, MechanicalComponent), ParseError>)
    ensures
        crate::outlines::parsed_outline(input@, r),
{
    crate::outlines::parse_outline::<MechanicalComponent>(input)
}

} // verus!
