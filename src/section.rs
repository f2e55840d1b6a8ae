//! The section framework: records of fields, repeated records, and sections
//! delimited by `.KEYWORD` and `.END_KEYWORD`.
use crate::primitives::{
    string_of, to_chars, ws, field, field_text_ok, lemma_run_end, lit_at, match_lit, run_end, scan, sp_field, CharClass,
    FieldKind,
    ParseError,
};
use vstd::prelude::*;

verus! {

/// A list of records of one shape inside a section, and whether it needs at
/// least one record.
pub struct Group {
    pub kinds: Vec<FieldKind>,
    pub at_least_one: bool,
}

/// The shape of a section: its opening and closing keywords, the fields that
/// follow the opening keyword, then the lists of records, in order.
pub struct Shape {
    pub open: &'static str,
    pub close: &'static str,
    pub head: Vec<FieldKind>,
    pub groups: Vec<Group>,
}

/// The shape of a section, as values: keywords, head kinds, and for each
/// group its kinds and whether it needs a record.
pub struct ShapeView {
    pub open: Seq<char>,
    pub close: Seq<char>,
    pub head: Seq<FieldKind>,
    pub groups: Seq<(Seq<FieldKind>, bool)>,
}

pub open spec fn groups_view(gs: Seq<Group>) -> Seq<(Seq<FieldKind>, bool)> {
    gs.map_values(|g: Group| (g.kinds@, g.at_least_one))
}

impl View for Shape {
    type V = ShapeView;

    open spec fn view(&self) -> ShapeView {
        ShapeView {
            open: self.open@,
            close: self.close@,
            head: self.head@,
            groups: groups_view(self.groups@),
        }
    }
}

/// What a section holds: the texts of its head fields and, for each group,
/// the texts of the fields of each record.
pub struct SectionBody {
    pub head: Vec<String>,
    pub groups: Vec<Vec<Vec<String>>>,
}

pub open spec fn cons_res<A>(f: A, r: Result<(Seq<A>, int), ParseError>) -> Result<
    (Seq<A>, int),
    ParseError,
> {
    match r {
        Ok((fs, k)) => Ok((seq![f] + fs, k)),
        Err(e) => Err(e),
    }
}

/// The fields of kinds `ks[n..]`, one after the other, from `i`.
pub open spec fn sp_fields(s: Seq<char>, i: int, ks: Seq<FieldKind>, n: int) -> Result<
    (Seq<Seq<char>>, int),
    ParseError,
>
    decreases ks.len() - n,
{
    if n < 0 || n >= ks.len() {
        Ok((seq![], i))
    } else {
        match sp_field(s, i, ks[n]) {
            Err(e) => Err(e),
            Ok((f, j)) => cons_res(f, sp_fields(s, j, ks, n + 1)),
        }
    }
}

/// The texts of a record satisfy what their kinds ask.
pub open spec fn fields_ok(ks: Seq<FieldKind>, fs: Seq<Seq<char>>) -> bool {
    fs.len() == ks.len() && forall|m: int| 0 <= m < fs.len() ==> field_text_ok(ks[m], #[trigger] fs[m])
}

/// Records of kinds `ks`, repeated greedily from `i` until the closing
/// keyword `stop` or a record that does not parse.
pub open spec fn sp_records(s: Seq<char>, i: int, ks: Seq<FieldKind>, stop: Seq<char>) -> (
    Seq<Seq<Seq<char>>>,
    int,
)
    decreases s.len() - i,
{
    if lit_at(s, run_end(s, i, CharClass::Space), stop) {
        (seq![], i)
    } else {
        match sp_fields(s, i, ks, 0) {
            Ok((f, j)) => if i < j <= s.len() {
                let rest = sp_records(s, j, ks, stop);
                (seq![f] + rest.0, rest.1)
            } else {
                (seq![], i)
            },
            Err(_) => (seq![], i),
        }
    }
}

/// The groups `gs[n..]` of a section closed by `close`, one after the other.
pub open spec fn sp_groups(
    s: Seq<char>,
    i: int,
    gs: Seq<(Seq<FieldKind>, bool)>,
    close: Seq<char>,
    n: int,
) -> Result<
    (Seq<Seq<Seq<Seq<char>>>>, int),
    ParseError,
>
    decreases gs.len() - n,
{
    if n < 0 || n >= gs.len() {
        Ok((seq![], i))
    } else {
        let (recs, j) = sp_records(s, i, gs[n].0, close);
        if gs[n].1 && recs.len() == 0 {
            Err(ParseError::Multiplicity(run_end(s, i, CharClass::Space) as usize))
        } else {
            cons_res(recs, sp_groups(s, j, gs, close, n + 1))
        }
    }
}

/// A keyword at `i`, with the separators around it: the position after it,
/// or `err` at the keyword's expected start.
pub open spec fn sp_keyword(s: Seq<char>, i: int, lit: Seq<char>) -> Option<int> {
    let a = run_end(s, i, CharClass::Space);
    if lit_at(s, a, lit) {
        Some(run_end(s, a + lit.len(), CharClass::Space))
    } else {
        None
    }
}

/// A whole section of shape `sh` at `i`: a syntax error where its opening
/// keyword is missing, the first error of its content, a multiplicity error
/// where a group that needs a record has none, and an unterminated-section
/// error where the closing keyword does not follow.
pub open spec fn sp_section(s: Seq<char>, i: int, sh: ShapeView) -> Result<
    (Seq<Seq<char>>, Seq<Seq<Seq<Seq<char>>>>, int),
    ParseError,
> {
    match sp_keyword(s, i, sh.open) {
        None => Err(ParseError::Syntax(run_end(s, i, CharClass::Space) as usize)),
        Some(b) => match sp_fields(s, b, sh.head, 0) {
            Err(e) => Err(e),
            Ok((head, c)) => match sp_groups(s, c, sh.groups, sh.close, 0) {
                Err(e) => Err(e),
                Ok((groups, d)) => match sp_keyword(s, d, sh.close) {
                    None => Err(ParseError::Unterminated(run_end(s, d, CharClass::Space) as usize)),
                    Some(e) => Ok((head, groups, e)),
                },
            },
        },
    }
}

/// The content of a parsed section satisfies what its shape asks.
pub open spec fn body_ok(sh: ShapeView, head: Seq<Seq<char>>, groups: Seq<Seq<Seq<Seq<char>>>>) -> bool {
    &&& fields_ok(sh.head, head)
    &&& groups.len() == sh.groups.len()
    &&& forall|g: int, m: int|
        0 <= g < groups.len() && 0 <= m < groups[g].len() ==> fields_ok(
            sh.groups[g].0,
            #[trigger] groups[g][m],
        )
    &&& forall|g: int| 0 <= g < groups.len() && sh.groups[g].1 ==> #[trigger] groups[g].len() > 0
}

/// Parses the fields of kinds `ks[n..]` from `i`.
pub fn fields(s: &Vec<char>, i: usize, ks: &Vec<FieldKind>, n: usize) -> (r: Result<
    (Vec<String>, usize),
    ParseError,
>)
    requires
        i <= s.len(),
        n <= ks.len(),
    ensures
        match r {
            Ok((fs, j)) => sp_fields(s@, i as int, ks@, n as int) == Ok::<(Seq<Seq<char>>, int), ParseError>((fs.deep_view(), j as int)),
            Err(e) => sp_fields(s@, i as int, ks@, n as int) == Err::<(Seq<Seq<char>>, int), ParseError>(e),
        },
        r matches Ok((fs, j)) ==> i <= j <= s.len() && fs@.len() == ks@.len() - n && forall|m: int|
            0 <= m < fs@.len() ==> field_text_ok(ks@[n + m], #[trigger] fs@[m]@),
    decreases ks.len() - n,
{
    if n >= ks.len() {
        let v: Vec<String> = Vec::new();
        assert(v.deep_view() =~= seq![]);
        return Ok((v, i));
    }
    match field(s, i, ks[n]) {
        Err(e) => Err(e),
        Ok((f, j)) => match fields(s, j, ks, n + 1) {
            Err(e) => Err(e),
            Ok((rest, k)) => {
                let ghost old_rest = rest;
                let mut rest = rest;
                rest.insert(0, f);
                proof {
                    assert(rest.deep_view() =~= seq![f@] + old_rest.deep_view());
                    assert forall|m: int| 0 <= m < rest@.len() implies field_text_ok(
                        ks@[n + m],
                        #[trigger] rest@[m]@,
                    ) by {
                        if m > 0 {
                            assert(rest@[m] == old_rest@[m - 1]);
                        }
                    }
                }
                Ok((rest, k))
            },
        },
    }
}

/// Parses records of kinds `ks` from `i` until the keyword `stop` or a record
/// that does not parse.
pub fn records(s: &Vec<char>, i: usize, ks: &Vec<FieldKind>, stop: &str) -> (r: (
    Vec<Vec<String>>,
    usize,
))
    requires
        i <= s.len(),
    ensures
        (r.0.deep_view(), r.1 as int) == sp_records(s@, i as int, ks@, stop@),
        i <= r.1 <= s.len(),
        forall|m: int|
            0 <= m < r.0.deep_view().len() ==> fields_ok(ks@, #[trigger] r.0.deep_view()[m]),
{
    let mut acc: Vec<Vec<String>> = Vec::new();
    let mut j: usize = i;
    assert(acc.deep_view() + sp_records(s@, j as int, ks@, stop@).0 =~= sp_records(
        s@,
        j as int,
        ks@,
        stop@,
    ).0);
    loop
        invariant
            i <= j <= s.len(),
            sp_records(s@, i as int, ks@, stop@) == (
                acc.deep_view() + sp_records(s@, j as int, ks@, stop@).0,
                sp_records(s@, j as int, ks@, stop@).1,
            ),
            forall|m: int|
                0 <= m < acc.deep_view().len() ==> fields_ok(ks@, #[trigger] acc.deep_view()[m]),
        ensures
            i <= j <= s.len(),
            sp_records(s@, j as int, ks@, stop@) == (Seq::<Seq<Seq<char>>>::empty(), j as int),
        decreases s.len() - j,
    {
        let a = scan(s, j, CharClass::Space);
        proof {
            lemma_run_end(s@, j as int, CharClass::Space);
        }
        if match_lit(s, a, stop) {
            break ;
        }
        match fields(s, j, ks, 0) {
            Ok((f, k)) => {
                if k > j {
                    let ghost prev = acc.deep_view();
                    let ghost fv = f.deep_view();
                    proof {
                        let rest = sp_records(s@, k as int, ks@, stop@);
                        assert(prev + (seq![fv] + rest.0) =~= (prev + seq![fv]) + rest.0);
                        assert(fields_ok(ks@, fv));
                    }
                    acc.push(f);
                    assert(acc.deep_view() =~= prev + seq![fv]);
                    j = k;
                } else {
                    break ;
                }
            },
            Err(_) => {
                break ;
            },
        }
    }
    assert(acc.deep_view() + Seq::<Seq<Seq<char>>>::empty() =~= acc.deep_view());
    (acc, j)
}

/// Parses the groups `gs[n..]` of a section closed by `close`.
pub fn groups(s: &Vec<char>, i: usize, gs: &Vec<Group>, close: &str, n: usize) -> (r: Result<
    (Vec<Vec<Vec<String>>>, usize),
    ParseError,
>)
    requires
        i <= s.len(),
        n <= gs.len(),
    ensures
        match r {
            Ok((g, j)) => sp_groups(s@, i as int, groups_view(gs@), close@, n as int) == Ok::<
                (Seq<Seq<Seq<Seq<char>>>>, int),
                ParseError,
            >((g.deep_view(), j as int)),
            Err(e) => sp_groups(s@, i as int, groups_view(gs@), close@, n as int) == Err::<
                (Seq<Seq<Seq<Seq<char>>>>, int),
                ParseError,
            >(e),
        },
        r matches Ok((g, j)) ==> {
            &&& i <= j <= s.len()
            &&& g.deep_view().len() == gs@.len() - n
            &&& forall|x: int, m: int|
                0 <= x < g.deep_view().len() && 0 <= m < g.deep_view()[x].len() ==> fields_ok(
                    groups_view(gs@)[n + x].0,
                    #[trigger] g.deep_view()[x][m],
                )
            &&& forall|x: int|
                0 <= x < g.deep_view().len() && groups_view(gs@)[n + x].1 ==> #[trigger] g.deep_view()[x].len()
                    > 0
        },
    decreases gs.len() - n,
{
    if n >= gs.len() {
        let v: Vec<Vec<Vec<String>>> = Vec::new();
        assert(v.deep_view() =~= seq![]);
        return Ok((v, i));
    }
    let (recs, j) = records(s, i, &gs[n].kinds, close);
    if gs[n].at_least_one && recs.len() == 0 {
        return Err(ParseError::Multiplicity(scan(s, i, CharClass::Space)));
    }
    match groups(s, j, gs, close, n + 1) {
        Err(e) => Err(e),
        Ok((rest, k)) => {
            let ghost old_rest = rest.deep_view();
            let ghost rv = recs.deep_view();
            let mut rest = rest;
            rest.insert(0, recs);
            proof {
                assert(rest.deep_view() =~= seq![rv] + old_rest);
                assert forall|x: int, m: int|
                    0 <= x < rest.deep_view().len() && 0 <= m < rest.deep_view()[x].len() implies fields_ok(
                    groups_view(gs@)[n + x].0,
                    #[trigger] rest.deep_view()[x][m],
                ) by {
                    if x > 0 {
                        assert(rest.deep_view()[x] == old_rest[x - 1]);
                    }
                }
                assert forall|x: int|
                    0 <= x < rest.deep_view().len() && groups_view(gs@)[n + x].1 implies #[trigger] rest.deep_view()[x].len()
                    > 0 by {
                    if x > 0 {
                        assert(rest.deep_view()[x] == old_rest[x - 1]);
                    }
                }
            }
            Ok((rest, k))
        },
    }
}

/// Matches the keyword `lit` at `i`, with the separators around it.
pub fn keyword(s: &Vec<char>, i: usize, lit: &str) -> (r: Option<usize>)
    requires
        i <= s.len(),
    ensures
        match r {
            Some(j) => sp_keyword(s@, i as int, lit@) == Some(j as int),
            None => sp_keyword(s@, i as int, lit@) is None,
        },
        r matches Some(j) ==> i + lit@.len() <= j <= s.len(),
{
    let a = ws(s, i);
    if match_lit(s, a, lit) {
        Some(ws(s, a + lit.unicode_len()))
    } else {
        None
    }
}

/// Parses a section of shape `sh` at `i`.
pub fn section(s: &Vec<char>, i: usize, sh: &Shape) -> (r: Result<(SectionBody, usize), ParseError>)
    requires
        i <= s.len(),
    ensures
        match r {
            Ok((b, j)) => sp_section(s@, i as int, sh@) == Ok::<
                (Seq<Seq<char>>, Seq<Seq<Seq<Seq<char>>>>, int),
                ParseError,
            >((b.head.deep_view(), b.groups.deep_view(), j as int)),
            Err(e) => sp_section(s@, i as int, sh@) == Err::<
                (Seq<Seq<char>>, Seq<Seq<Seq<Seq<char>>>>, int),
                ParseError,
            >(e),
        },
        r matches Ok((b, j)) ==> i + sh.open@.len() <= j <= s.len() && body_ok(
            sh@,
            b.head.deep_view(),
            b.groups.deep_view(),
        ),
{
    let b = match keyword(s, i, sh.open) {
        None => {
            return Err(ParseError::Syntax(scan(s, i, CharClass::Space)));
        },
        Some(b) => b,
    };
    let (head, c) = match fields(s, b, &sh.head, 0) {
        Err(e) => {
            return Err(e);
        },
        Ok(x) => x,
    };
    let (gs, d) = match groups(s, c, &sh.groups, sh.close, 0) {
        Err(e) => {
            return Err(e);
        },
        Ok(x) => x,
    };
    match keyword(s, d, sh.close) {
        None => Err(ParseError::Unterminated(scan(s, d, CharClass::Space))),
        Some(e) => {
            let body = SectionBody { head, groups: gs };
            proof {
                assert forall|m: int| 0 <= m < body.head.deep_view().len() implies field_text_ok(
                    sh@.head[m],
                    #[trigger] body.head.deep_view()[m],
                ) by {
                    assert(body.head.deep_view()[m] == body.head@[m]@);
                }
            }
            Ok((body, e))
        },
    }
}

/// The texts that a parsed section holds.
pub open spec fn body_view(b: SectionBody) -> (Seq<Seq<char>>, Seq<Seq<Seq<Seq<char>>>>) {
    (b.head.deep_view(), b.groups.deep_view())
}

pub open spec fn append_res<A>(a: Seq<A>, r: Result<(Seq<A>, int), ParseError>) -> Result<
    (Seq<A>, int),
    ParseError,
> {
    match r {
        Ok((x, k)) => Ok((a + x, k)),
        Err(e) => Err(e),
    }
}

/// Zero or more sections of shape `sh` from `i`: they repeat while the
/// opening keyword follows; an error inside one of them is the result.
pub open spec fn sp_sections(s: Seq<char>, i: int, sh: ShapeView) -> Result<
    (Seq<(Seq<Seq<char>>, Seq<Seq<Seq<Seq<char>>>>)>, int),
    ParseError,
>
    decreases s.len() - i,
{
    if sp_keyword(s, i, sh.open) is None {
        Ok((seq![], i))
    } else {
        match sp_section(s, i, sh) {
            Err(e) => Err(e),
            Ok((h, g, j)) => if i < j <= s.len() {
                cons_res((h, g), sp_sections(s, j, sh))
            } else {
                Ok((seq![], i))
            },
        }
    }
}

pub proof fn lemma_append_cons<A>(a: Seq<A>, x: A, r: Result<(Seq<A>, int), ParseError>)
    ensures
        append_res(a, cons_res(x, r)) == append_res(a.push(x), r),
{
    if let Ok((y, k)) = r {
        assert(a + (seq![x] + y) =~= a.push(x) + y);
    }
}

/// Parses zero or more sections of shape `sh` from `i`.
pub fn sections(s: &Vec<char>, i: usize, sh: &Shape) -> (r: Result<(Vec<SectionBody>, usize), ParseError>)
    requires
        i <= s.len(),
    ensures
        match r {
            Ok((v, j)) => sp_sections(s@, i as int, sh@) == Ok::<
                (Seq<(Seq<Seq<char>>, Seq<Seq<Seq<Seq<char>>>>)>, int),
                ParseError,
            >((v@.map_values(|b: SectionBody| body_view(b)), j as int)),
            Err(e) => sp_sections(s@, i as int, sh@) == Err::<
                (Seq<(Seq<Seq<char>>, Seq<Seq<Seq<Seq<char>>>>)>, int),
                ParseError,
            >(e),
        },
        r matches Ok((v, j)) ==> i <= j <= s.len() && forall|m: int|
            0 <= m < v@.len() ==> body_ok(
                sh@,
                (#[trigger] v@[m]).head.deep_view(),
                v@[m].groups.deep_view(),
            ),
{
    let mut acc: Vec<SectionBody> = Vec::new();
    let mut j: usize = i;
    assert(append_res(acc@.map_values(|b: SectionBody| body_view(b)), sp_sections(s@, j as int, sh@))
        == sp_sections(s@, j as int, sh@)) by {
        if let Ok((x, k)) = sp_sections(s@, j as int, sh@) {
            assert(acc@.map_values(|b: SectionBody| body_view(b)) + x =~= x);
        }
    }
    loop
        invariant
            i <= j <= s.len(),
            sp_sections(s@, i as int, sh@) == append_res(
                acc@.map_values(|b: SectionBody| body_view(b)),
                sp_sections(s@, j as int, sh@),
            ),
            forall|m: int|
                0 <= m < acc@.len() ==> body_ok(
                    sh@,
                    (#[trigger] acc@[m]).head.deep_view(),
                    acc@[m].groups.deep_view(),
                ),
        ensures
            i <= j <= s.len(),
            sp_sections(s@, j as int, sh@) == Ok::<
                (Seq<(Seq<Seq<char>>, Seq<Seq<Seq<Seq<char>>>>)>, int),
                ParseError,
            >((seq![], j as int)),
        decreases s.len() - j,
    {
        if keyword(s, j, sh.open).is_none() {
            break ;
        }
        match section(s, j, sh) {
            Err(e) => {
                return Err(e);
            },
            Ok((b, k)) => {
                if k > j {
                    let ghost prev = acc@.map_values(|b: SectionBody| body_view(b));
                    proof {
                        lemma_append_cons(prev, body_view(b), sp_sections(s@, k as int, sh@));
                    }
                    acc.push(b);
                    assert(acc@.map_values(|b: SectionBody| body_view(b)) =~= prev.push(
                        body_view(b),
                    ));
                    j = k;
                } else {
                    break ;
                }
            },
        }
    }
    assert(acc@.map_values(|b: SectionBody| body_view(b)) + seq![] =~= acc@.map_values(
        |b: SectionBody| body_view(b),
    ));
    Ok((acc, j))
}

/// The types whose values are read from one record of fields.
pub trait Record: Sized {
    /// The kinds of the record's fields, in order.
    spec fn kinds() -> Seq<FieldKind>;

    /// The value holds the field texts `f`.
    spec fn holds(self, f: Seq<Seq<char>>) -> bool;

    fn kinds_of() -> (r: Vec<FieldKind>)
        ensures
            r@ == Self::kinds();

    fn from_fields(f: &Vec<String>) -> (r: Self)
        requires
            fields_ok(Self::kinds(), f.deep_view()),
        ensures
            r.holds(f.deep_view());
}

/// The values hold the records `recs`, one for one.
pub open spec fn all_records_hold<T: Record>(v: Seq<T>, recs: Seq<Seq<Seq<char>>>) -> bool {
    v.len() == recs.len() && forall|m: int| 0 <= m < v.len() ==> (#[trigger] v[m]).holds(recs[m])
}

/// The values that parsed records describe.
pub fn records_of<T: Record>(recs: &Vec<Vec<String>>) -> (r: Vec<T>)
    requires
        forall|m: int|
            0 <= m < recs.deep_view().len() ==> fields_ok(T::kinds(), #[trigger] recs.deep_view()[m]),
    ensures
        all_records_hold(r@, recs.deep_view()),
{
    let mut r: Vec<T> = Vec::new();
    let mut k: usize = 0;
    while k < recs.len()
        invariant
            k <= recs.len(),
            forall|m: int|
                0 <= m < recs.deep_view().len() ==> fields_ok(T::kinds(), #[trigger] recs.deep_view()[m]),
            r@.len() == k,
            forall|m: int| 0 <= m < k ==> (#[trigger] r@[m]).holds(recs.deep_view()[m]),
        decreases recs.len() - k,
    {
        assert(recs.deep_view()[k as int] == recs@[k as int].deep_view());
        r.push(T::from_fields(&recs[k]));
        k = k + 1;
    }
    r
}

/// `r` is the result of parsing one record of type `T` at the start of `s`:
/// the value and what follows the record, or the error.
pub open spec fn parsed_record<T: Record>(s: Seq<char>, r: Result<(String, T), ParseError>) -> bool {
    match r {
        Ok((rest, v)) => sp_fields(s, 0, T::kinds(), 0) matches Ok((f, j)) && v.holds(f) && rest@
            == s.subrange(j, s.len() as int),
        Err(e) => sp_fields(s, 0, T::kinds(), 0) == Err::<(Seq<Seq<char>>, int), ParseError>(e),
    }
}

/// Parses one record of type `T` at the start of `input`; returns what follows it.
pub fn parse_record<T: Record>(input: &str) -> (r: Result<(String, T), ParseError>)
    ensures
        parsed_record(input@, r),
{
    let s = to_chars(input);
    let ks = T::kinds_of();
    match fields(&s, 0, &ks, 0) {
        Err(e) => Err(e),
        Ok((f, j)) => {
            assert(fields_ok(T::kinds(), f.deep_view())) by {
                assert forall|m: int| 0 <= m < f.deep_view().len() implies field_text_ok(
                    T::kinds()[m],
                    #[trigger] f.deep_view()[m],
                ) by {
                    assert(f.deep_view()[m] == f@[m]@);
                }
            }
            Ok((string_of(&s, j, s.len()), T::from_fields(&f)))
        },
    }
}

/// The shape of a section that holds a list of records and nothing else.
pub open spec fn list_shape(open: Seq<char>, close: Seq<char>, kinds: Seq<FieldKind>, at_least_one: bool) -> ShapeView {
    ShapeView { open, close, head: seq![], groups: seq![(kinds, at_least_one)] }
}

/// Parses a section at `i` that holds a list of records of type `T`.
pub fn list_at<T: Record>(
    s: &Vec<char>,
    i: usize,
    open: &'static str,
    close: &'static str,
    at_least_one: bool,
) -> (r: Result<(Vec<T>, usize), ParseError>)
    requires
        i <= s.len(),
    ensures
        match r {
            Ok((v, j)) => sp_section(s@, i as int, list_shape(open@, close@, T::kinds(), at_least_one)) matches Ok(
                (h, g, k),
            ) && all_records_hold(v@, g[0]) && k == j && i <= j <= s.len(),
            Err(e) => sp_section(s@, i as int, list_shape(open@, close@, T::kinds(), at_least_one)) == Err::<
                (Seq<Seq<char>>, Seq<Seq<Seq<Seq<char>>>>, int),
                ParseError,
            >(e),
        },
{
    let sh = Shape {
        open,
        close,
        head: Vec::new(),
        groups: vec![Group { kinds: T::kinds_of(), at_least_one }],
    };
    assert(sh@ =~= list_shape(open@, close@, T::kinds(), at_least_one)) by {
        assert(sh@.head =~= seq![]);
        assert(sh@.groups =~= seq![(T::kinds(), at_least_one)]);
    }
    match section(s, i, &sh) {
        Err(e) => Err(e),
        Ok((b, j)) => {
            assert(b.groups.deep_view()[0] == b.groups@[0].deep_view());
            Ok((records_of(&b.groups[0]), j))
        },
    }
}

/// `r` is the result of parsing, at the start of `s`, a section that holds a
/// list of records of type `T`: the values and what follows, or the error.
pub open spec fn parsed_list<T: Record>(
    s: Seq<char>,
    open: Seq<char>,
    close: Seq<char>,
    at_least_one: bool,
    r: Result<(String, Vec<T>), ParseError>,
) -> bool {
    match r {
        Ok((rest, v)) => sp_section(s, 0, list_shape(open, close, T::kinds(), at_least_one)) matches Ok(
            (h, g, j),
        ) && all_records_hold(v@, g[0]) && rest@ == s.subrange(j, s.len() as int),
        Err(e) => sp_section(s, 0, list_shape(open, close, T::kinds(), at_least_one)) == Err::<
            (Seq<Seq<char>>, Seq<Seq<Seq<Seq<char>>>>, int),
            ParseError,
        >(e),
    }
}

/// Parses a section that holds a list of records of type `T` at the start of
/// `input`; returns what follows it.
pub fn parse_list<T: Record>(
    input: &str,
    open: &'static str,
    close: &'static str,
    at_least_one: bool,
) -> (r: Result<(String, Vec<T>), ParseError>)
    ensures
        parsed_list(input@, open@, close@, at_least_one, r),
{
    let s = to_chars(input);
    match list_at::<T>(&s, 0, open, close, at_least_one) {
        Err(e) => Err(e),
        Ok((v, j)) => Ok((string_of(&s, j, s.len()), v)),
    }
}

} // verus!
