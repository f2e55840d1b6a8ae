//! Sections written out as text, one record per line, and the proof that
//! parsing reads back exactly what was written.
use crate::board::{
    holes_shape, notes_shape, placement_shape, primary_is_panel, sp_board, sp_board_outlines,
    sp_board_tail,
    BoardText, SectionText,
};
use crate::components::{component_head, electrical_shape, prop_kinds};
use crate::headers::header_shape;
use crate::library::{sp_components, sp_library, LibraryText};
use crate::components::MechanicalComponent;
use crate::point::point_kinds;
use crate::outlines::{
    primary_shape, OtherOutline, OutlineSection, PlacementGroupArea, PlacementKeepout,
    PlacementOutline, RoutingKeepout, RoutingOutline, ViaKeepout,
};
use crate::primitives::{
    char_at, field_at, sp_field, first_word, in_class, is_number_text, is_space,
    is_u32_text, lemma_run_end, lit_at, mantissa_end, number_end, run_end,
    sign_end, vocab_words, CharClass, FieldKind, ParseError, Vocab,
};
use crate::section::{
    sp_fields, sp_groups, sp_keyword, sp_records, sp_section, ShapeView,
};
use vstd::prelude::*;

verus! {

/// No character of `t` is a separator.
pub open spec fn no_space(t: Seq<char>) -> bool {
    forall|m: int| 0 <= m < t.len() ==> !is_space(#[trigger] t[m])
}

/// `t` can be written as a field of kind `k` and read back.
pub open spec fn field_fits(k: FieldKind, t: Seq<char>) -> bool {
    match k {
        FieldKind::Token => t.len() > 0 && no_space(t),
        FieldKind::Text => t.len() > 0 && no_space(t) && t[0] != '"',
        FieldKind::Quoted => forall|m: int| 0 <= m < t.len() ==> #[trigger] t[m] != '"',
        FieldKind::Number => is_number_text(t),
        FieldKind::Count => is_u32_text(t),
        FieldKind::Word(v) => first_word(t, 0, vocab_words(v), 0) == Some(t),
    }
}

/// How a field of kind `k` with text `t` is written: quoted strings between
/// double quotes, anything else as it is.
pub open spec fn render_field(k: FieldKind, t: Seq<char>) -> Seq<char> {
    if k is Quoted {
        seq!['"'] + t + seq!['"']
    } else {
        t
    }
}

/// The fields `fs[n..]` of a record of kinds `ks`, written one after the
/// other, separated by spaces and ended by a line feed.
pub open spec fn render_record(ks: Seq<FieldKind>, fs: Seq<Seq<char>>, n: int) -> Seq<char>
    decreases ks.len() - n,
{
    if n < 0 || n >= ks.len() {
        seq![]
    } else {
        render_field(ks[n], fs[n]) + seq![if n + 1 == ks.len() { '\n' } else { ' ' }] + render_record(
            ks,
            fs,
            n + 1,
        )
    }
}

/// The record `fs` fits the kinds `ks`, and its line does not start with
/// `.`, which starts keyword lines.
pub open spec fn record_fits(ks: Seq<FieldKind>, fs: Seq<Seq<char>>) -> bool {
    &&& ks.len() > 0
    &&& fs.len() == ks.len()
    &&& forall|m: int| 0 <= m < ks.len() ==> field_fits(ks[m], #[trigger] fs[m])
    &&& render_field(ks[0], fs[0])[0] != '.'
}

/// The records `recs`, one line each.
pub open spec fn render_records(ks: Seq<FieldKind>, recs: Seq<Seq<Seq<char>>>) -> Seq<char>
    decreases recs.len(),
{
    if recs.len() == 0 {
        seq![]
    } else {
        render_record(ks, recs[0], 0) + render_records(ks, recs.drop_first())
    }
}

proof fn lemma_run_end_exact(s: Seq<char>, x: int, y: int, k: CharClass)
    requires
        0 <= x <= y <= s.len(),
        forall|m: int| x <= m < y ==> in_class(#[trigger] s[m], k),
        y < s.len() ==> !in_class(s[y], k),
    ensures
        run_end(s, x, k) == y,
    decreases y - x,
{
    if x < y {
        lemma_run_end_exact(s, x + 1, y, k);
    }
}

proof fn lemma_run_end_shift(s: Seq<char>, t: Seq<char>, a: int, x: int, k: CharClass)
    requires
        0 <= a,
        a + t.len() <= s.len(),
        s.subrange(a, a + t.len()) == t,
        0 <= x <= t.len(),
        a + t.len() < s.len() ==> !in_class(s[a + t.len()], k),
    ensures
        run_end(s, a + x, k) == a + run_end(t, x, k),
    decreases t.len() - x,
{
    if x < t.len() {
        assert(s[a + x] == t[x]);
        if in_class(t[x], k) {
            lemma_run_end_shift(s, t, a, x + 1, k);
        }
    }
}

proof fn lemma_char_at_shift(s: Seq<char>, t: Seq<char>, a: int, x: int, c: char)
    requires
        0 <= a,
        a + t.len() <= s.len(),
        s.subrange(a, a + t.len()) == t,
        0 <= x <= t.len(),
        a + t.len() < s.len() ==> is_space(s[a + t.len()]),
        !is_space(c),
    ensures
        char_at(s, a + x, c) == char_at(t, x, c),
{
    if x < t.len() {
        assert(s[a + x] == t[x]);
    }
}

proof fn lemma_number_shift(s: Seq<char>, t: Seq<char>, a: int)
    requires
        0 <= a,
        a + t.len() <= s.len(),
        s.subrange(a, a + t.len()) == t,
        a + t.len() < s.len() ==> is_space(s[a + t.len()]),
        is_number_text(t),
    ensures
        number_end(s, a) == Some(a + t.len()),
        t.len() > 0,
        !is_space(t[0]),
        t[0] != '"',
{
    let d = CharClass::Digit;
    lemma_char_at_shift(s, t, a, 0, '+');
    lemma_char_at_shift(s, t, a, 0, '-');
    let x0 = sign_end(t, 0);
    lemma_run_end(t, 0, d);
    if t.len() > 0 {
        lemma_run_end(t, 1, d);
    }
    lemma_run_end_shift(s, t, a, x0, d);
    lemma_run_end(t, x0, d);
    let b = run_end(t, x0, d);
    lemma_char_at_shift(s, t, a, b, '.');
    lemma_char_at_shift(s, t, a, x0, '.');
    if char_at(t, b, '.') {
        lemma_run_end_shift(s, t, a, b + 1, d);
        lemma_run_end(t, b + 1, d);
    }
    if char_at(t, x0, '.') {
        lemma_run_end_shift(s, t, a, x0 + 1, d);
        lemma_run_end(t, x0 + 1, d);
    }
    if let Some(m) = mantissa_end(t, 0) {
        assert(mantissa_end(s, a) == Some(a + m));
        lemma_char_at_shift(s, t, a, m, 'e');
        lemma_char_at_shift(s, t, a, m, 'E');
        if char_at(t, m, 'e') || char_at(t, m, 'E') {
            lemma_char_at_shift(s, t, a, m + 1, '+');
            lemma_char_at_shift(s, t, a, m + 1, '-');
            let c = sign_end(t, m + 1);
            lemma_run_end_shift(s, t, a, c, d);
            lemma_run_end(t, c, d);
        }
    }
}

proof fn lemma_vocab_no_space(v: Vocab)
    ensures
        forall|m: int| 0 <= m < vocab_words(v).len() ==> no_space(#[trigger] vocab_words(v)[m]),
{
    reveal_strlit("PANEL_FILE");
    reveal_strlit("LIBRARY_FILE");
    reveal_strlit("BOARD_FILE");
    reveal_strlit("3.0");
    reveal_strlit("THOU");
    reveal_strlit("MM");
    reveal_strlit("ECAD");
    reveal_strlit("MCAD");
    reveal_strlit("UNOWNED");
    reveal_strlit("PTH");
    reveal_strlit("NPTH");
    reveal_strlit("PIN");
    reveal_strlit("VIA");
    reveal_strlit("MTG");
    reveal_strlit("TOOL");
    reveal_strlit("TOP");
    reveal_strlit("BOTTOM");
    reveal_strlit("PLACED");
    reveal_strlit("UNPLACED");
    reveal_strlit("PROP");
}

proof fn lemma_word_shift(s: Seq<char>, t: Seq<char>, a: int, ws: Seq<Seq<char>>, n: int)
    requires
        0 <= a,
        a + t.len() <= s.len(),
        s.subrange(a, a + t.len()) == t,
        a + t.len() < s.len() ==> is_space(s[a + t.len()]),
        forall|m: int| 0 <= m < ws.len() ==> no_space(#[trigger] ws[m]),
    ensures
        first_word(s, a, ws, n) == first_word(t, 0, ws, n),
    decreases ws.len() - n,
{
    if 0 <= n < ws.len() {
        let w = ws[n];
        if w.len() <= t.len() {
            assert(s.subrange(a, a + w.len()) =~= t.subrange(0, w.len() as int));
        } else if lit_at(s, a, w) {
            assert(s[a + t.len()] == s.subrange(a, a + w.len())[t.len() as int]);
            assert(!is_space(w[t.len() as int]));
        }
        lemma_word_shift(s, t, a, ws, n + 1);
    }
}

proof fn lemma_word_first_char(t: Seq<char>, ws: Seq<Seq<char>>, n: int)
    requires
        first_word(t, 0, ws, n) == Some(t),
        forall|m: int| 0 <= m < ws.len() ==> no_space(#[trigger] ws[m]),
    ensures
        no_space(t),
    decreases ws.len() - n,
{
    if 0 <= n < ws.len() && !lit_at(t, 0, ws[n]) {
        lemma_word_first_char(t, ws, n + 1);
    } else if 0 <= n < ws.len() {
        assert(ws[n] == t);
    }
}

/// A field written at `a` and followed by a separator reads back as its text.
proof fn lemma_field_reads_back(s: Seq<char>, a: int, k: FieldKind, t: Seq<char>)
    requires
        field_fits(k, t),
        0 <= a,
        a + render_field(k, t).len() < s.len(),
        s.subrange(a, a + render_field(k, t).len()) == render_field(k, t),
        is_space(s[a + render_field(k, t).len()]),
    ensures
        render_field(k, t).len() > 0,
        !is_space(render_field(k, t)[0]),
        field_at(s, a, k) matches Some((x, y, b)) && s.subrange(x, y) == t && b == a + render_field(
            k,
            t,
        ).len(),
{
    let r = render_field(k, t);
    let e = a + r.len();
    assert forall|m: int| 0 <= m < r.len() implies s[a + m] == #[trigger] r[m] by {
        assert(s.subrange(a, e)[m] == s[a + m]);
    }
    match k {
        FieldKind::Token => {
            assert forall|m: int| a <= m < e implies in_class(#[trigger] s[m], CharClass::NonSpace) by {
                assert(s[m] == t[m - a]);
            }
            lemma_run_end_exact(s, a, e, CharClass::NonSpace);
            assert(s.subrange(a, e) == t);
        },
        FieldKind::Text => {
            assert(s[a] == t[0]);
            assert forall|m: int| a <= m < e implies in_class(#[trigger] s[m], CharClass::NonSpace) by {
                assert(s[m] == t[m - a]);
            }
            lemma_run_end_exact(s, a, e, CharClass::NonSpace);
        },
        FieldKind::Quoted => {
            assert(r[0] == '"');
            assert(r[r.len() - 1] == '"');
            assert(s[a] == '"');
            assert forall|m: int| a + 1 <= m < e - 1 implies in_class(#[trigger] s[m], CharClass::NonQuote) by {
                assert(s[m] == r[m - a]);
                assert(r[m - a] == t[m - a - 1]);
            }
            assert(s[e - 1] == r[r.len() - 1]);
            lemma_run_end_exact(s, a + 1, e - 1, CharClass::NonQuote);
            assert forall|m: int| 0 <= m < t.len() implies s.subrange(a + 1, e - 1)[m] == t[m] by {
                assert(s[a + 1 + m] == r[m + 1]);
                assert(r[m + 1] == t[m]);
            }
            assert(s.subrange(a + 1, e - 1) =~= t);
        },
        FieldKind::Number => {
            lemma_number_shift(s, t, a);
        },
        FieldKind::Count => {
            assert forall|m: int| a <= m < e implies in_class(#[trigger] s[m], CharClass::Digit) by {
                assert(s[m] == t[m - a]);
            }
            lemma_run_end_exact(s, a, e, CharClass::Digit);
        },
        FieldKind::Word(v) => {
            lemma_vocab_no_space(v);
            lemma_word_shift(s, t, a, vocab_words(v), 0);
            lemma_word_first_char(t, vocab_words(v), 0);
            crate::primitives::lemma_vocab_nonempty(v);
            assert(t.len() > 0) by {
                lemma_first_word_nonempty(t, vocab_words(v), 0);
            }
        },
    }
}

proof fn lemma_first_word_nonempty(t: Seq<char>, ws: Seq<Seq<char>>, n: int)
    requires
        first_word(t, 0, ws, n) == Some(t),
        forall|m: int| 0 <= m < ws.len() ==> (#[trigger] ws[m]).len() > 0,
    ensures
        t.len() > 0,
    decreases ws.len() - n,
{
    if 0 <= n < ws.len() && !lit_at(t, 0, ws[n]) {
        lemma_first_word_nonempty(t, ws, n + 1);
    }
}

proof fn lemma_render_first(k: FieldKind, t: Seq<char>)
    requires
        field_fits(k, t),
    ensures
        render_field(k, t).len() > 0,
        !is_space(render_field(k, t)[0]),
{
    let s = render_field(k, t) + seq![' '];
    assert(s.subrange(0, render_field(k, t).len() as int) =~= render_field(k, t));
    lemma_field_reads_back(s, 0, k, t);
}

proof fn lemma_subrange_of(s: Seq<char>, a: int, r: Seq<char>, x: int, y: int)
    requires
        0 <= a,
        a + r.len() <= s.len(),
        s.subrange(a, a + r.len()) == r,
        0 <= x <= y <= r.len(),
    ensures
        s.subrange(a + x, a + y) == r.subrange(x, y),
{
    assert forall|m: int| 0 <= m < y - x implies s.subrange(a + x, a + y)[m] == r.subrange(x, y)[m] by {
        assert(s.subrange(a, a + r.len())[x + m] == s[a + x + m]);
    }
    assert(s.subrange(a + x, a + y) =~= r.subrange(x, y));
}

proof fn lemma_record_reads_back(s: Seq<char>, a: int, ks: Seq<FieldKind>, fs: Seq<Seq<char>>, n: int)
    requires
        0 <= n <= ks.len(),
        fs.len() == ks.len(),
        forall|m: int| 0 <= m < ks.len() ==> field_fits(ks[m], #[trigger] fs[m]),
        0 <= a,
        a + render_record(ks, fs, n).len() <= s.len(),
        s.subrange(a, a + render_record(ks, fs, n).len()) == render_record(ks, fs, n),
        a + render_record(ks, fs, n).len() < s.len() ==> !is_space(s[a + render_record(ks, fs, n).len()]),
    ensures
        sp_fields(s, a, ks, n) == Ok::<(Seq<Seq<char>>, int), ParseError>(
            (fs.subrange(n, ks.len() as int), a + render_record(ks, fs, n).len()),
        ),
    decreases ks.len() - n,
{
    let big = render_record(ks, fs, n);
    if n == ks.len() {
        assert(fs.subrange(n, ks.len() as int) =~= seq![]);
    } else {
        let r = render_field(ks[n], fs[n]);
        let sep = if n + 1 == ks.len() { '\n' } else { ' ' };
        let rest = render_record(ks, fs, n + 1);
        assert(big == r + seq![sep] + rest);
        let e = a + r.len();
        lemma_subrange_of(s, a, big, 0, r.len() as int);
        assert(big.subrange(0, r.len() as int) =~= r);
        assert(s[e] == big[r.len() as int]);
        assert(big[r.len() as int] == sep);
        lemma_field_reads_back(s, a, ks[n], fs[n]);
        lemma_render_first(ks[n], fs[n]);
        assert(s[a] == r[0]) by {
            assert(s.subrange(a, e)[0] == s[a]);
        }
        lemma_run_end_exact(s, a, a, CharClass::Space);
        lemma_subrange_of(s, a, big, r.len() + 1int, big.len() as int);
        assert(big.subrange(r.len() + 1int, big.len() as int) =~= rest);
        if n + 1 < ks.len() {
            lemma_render_first(ks[n + 1], fs[n + 1]);
            assert(rest[0] == render_field(ks[n + 1], fs[n + 1])[0]);
            assert(s[e + 1] == big[r.len() + 1int]);
        }
        lemma_run_end_exact(s, e, e + 1, CharClass::Space);
        lemma_record_reads_back(s, e + 1, ks, fs, n + 1);
        assert(seq![fs[n]] + fs.subrange(n + 1, ks.len() as int) =~= fs.subrange(n, ks.len() as int));
    }
}

proof fn lemma_records_read_back(s: Seq<char>, a: int, ks: Seq<FieldKind>, recs: Seq<Seq<Seq<char>>>, stop: Seq<char>)
    requires
        forall|m: int| 0 <= m < recs.len() ==> record_fits(ks, #[trigger] recs[m]),
        0 <= a,
        a + render_records(ks, recs).len() <= s.len(),
        s.subrange(a, a + render_records(ks, recs).len()) == render_records(ks, recs),
        stop.len() > 0,
        stop[0] == '.',
        a + render_records(ks, recs).len() < s.len(),
        !is_space(s[a + render_records(ks, recs).len()]),
        lit_at(s, a + render_records(ks, recs).len(), stop) || sp_fields(
            s,
            a + render_records(ks, recs).len(),
            ks,
            0,
        ) is Err,
    ensures
        sp_records(s, a, ks, stop) == (recs, a + render_records(ks, recs).len()),
    decreases recs.len(),
{
    let all = render_records(ks, recs);
    let end = a + all.len();
    if recs.len() == 0 {
        lemma_run_end_exact(s, a, a, CharClass::Space);
        assert(recs =~= seq![]);
    } else {
        let line = render_record(ks, recs[0], 0);
        let more = render_records(ks, recs.drop_first());
        assert(all == line + more);
        lemma_subrange_of(s, a, all, 0, line.len() as int);
        assert(all.subrange(0, line.len() as int) =~= line);
        lemma_subrange_of(s, a, all, line.len() as int, all.len() as int);
        assert(all.subrange(line.len() as int, all.len() as int) =~= more);
        let f0 = render_field(ks[0], recs[0][0]);
        lemma_render_first(ks[0], recs[0][0]);
        assert(line == f0 + seq![if 1 == ks.len() { '\n' } else { ' ' }] + render_record(ks, recs[0], 1));
        assert(s[a] == line[0]) by {
            assert(s.subrange(a, a + line.len())[0] == s[a]);
        }
        lemma_run_end_exact(s, a, a, CharClass::Space);
        assert(!lit_at(s, a, stop)) by {
            if lit_at(s, a, stop) {
                assert(s.subrange(a, a + stop.len())[0] == s[a]);
            }
        }
        let next = a + line.len();
        if more.len() > 0 {
            assert forall|m: int| 0 <= m < recs.drop_first().len() implies record_fits(ks, #[trigger] recs.drop_first()[m]) by {
                assert(recs.drop_first()[m] == recs[m + 1]);
            }
            assert(recs.drop_first().len() > 0);
            let l1 = render_record(ks, recs.drop_first()[0], 0);
            assert(more == l1 + render_records(ks, recs.drop_first().drop_first()));
            lemma_render_first(ks[0], recs.drop_first()[0][0]);
            assert(l1 == render_field(ks[0], recs.drop_first()[0][0]) + seq![if 1 == ks.len() { '\n' } else { ' ' }] + render_record(ks, recs.drop_first()[0], 1));
            assert(s[next] == more[0]) by {
                assert(s.subrange(next, next + more.len())[0] == s[next]);
            }
        }
        lemma_record_reads_back(s, a, ks, recs[0], 0);
        assert(recs[0].subrange(0, ks.len() as int) =~= recs[0]);
        assert forall|m: int| 0 <= m < recs.drop_first().len() implies record_fits(ks, #[trigger] recs.drop_first()[m]) by {
            assert(recs.drop_first()[m] == recs[m + 1]);
        }
        lemma_records_read_back(s, next, ks, recs.drop_first(), stop);
        assert(seq![recs[0]] + recs.drop_first() =~= recs);
    }
}

/// A section of shape `sh`, which has at most one group: the opening keyword
/// on a line of its own, the head fields on the next line, a line per record
/// of its group, then the closing keyword on a line of its own.
#[verifier::opaque]
pub open spec fn render_section(
    sh: ShapeView,
    head: Seq<Seq<char>>,
    recs: Seq<Seq<Seq<char>>>,
) -> Seq<char> {
    sh.open + seq!['\n'] + render_record(sh.head, head, 0) + (if sh.groups.len() == 1 {
        render_records(sh.groups[0].0, recs)
    } else {
        seq![]
    }) + sh.close + seq!['\n']
}

/// The head `head` and the records `recs` fit the shape `sh`, and its
/// keywords are of the usual form.
pub open spec fn section_fits(sh: ShapeView, head: Seq<Seq<char>>, recs: Seq<Seq<Seq<char>>>) -> bool {
    keywords_ok(sh) && content_fits(sh, head, recs)
}

/// The keywords of `sh` are of the usual form: the opening one starts with
/// something other than a separator, the closing one with `.`.
pub open spec fn keywords_ok(sh: ShapeView) -> bool {
    &&& sh.open.len() > 0
    &&& !is_space(sh.open[0])
    &&& sh.close.len() > 0
    &&& sh.close[0] == '.'
}

/// The head `head` and the records `recs` fit the shape `sh`, which has at
/// most one group.
pub open spec fn content_fits(sh: ShapeView, head: Seq<Seq<char>>, recs: Seq<Seq<Seq<char>>>) -> bool {
    &&& head.len() == sh.head.len()
    &&& forall|m: int| 0 <= m < head.len() ==> field_fits(sh.head[m], #[trigger] head[m])
    &&& sh.groups.len() <= 1
    &&& sh.groups.len() == 0 ==> recs.len() == 0
    &&& sh.groups.len() == 1 ==> {
        &&& sh.groups[0].1 ==> recs.len() > 0
        &&& forall|m: int| 0 <= m < recs.len() ==> record_fits(sh.groups[0].0, #[trigger] recs[m])
    }
}

/// The groups of a section of shape `sh` that holds the records `recs`.
pub open spec fn section_groups(sh: ShapeView, recs: Seq<Seq<Seq<char>>>) -> Seq<Seq<Seq<Seq<char>>>> {
    if sh.groups.len() == 1 {
        seq![recs]
    } else {
        seq![]
    }
}

proof fn lemma_record_first(ks: Seq<FieldKind>, fs: Seq<Seq<char>>)
    requires
        ks.len() > 0,
        fs.len() == ks.len(),
        forall|m: int| 0 <= m < ks.len() ==> field_fits(ks[m], #[trigger] fs[m]),
    ensures
        render_record(ks, fs, 0).len() > 0,
        render_record(ks, fs, 0)[0] == render_field(ks[0], fs[0])[0],
        !is_space(render_record(ks, fs, 0)[0]),
{
    lemma_render_first(ks[0], fs[0]);
    assert(render_record(ks, fs, 0) == render_field(ks[0], fs[0]) + seq![if 1 == ks.len() { '\n' } else { ' ' }]
        + render_record(ks, fs, 1));
}

/// A section written at `a` by [`render_section`] and followed by the end of
/// the input or by a character other than a separator parses as what was
/// written, and ends where it was written to end.
#[verifier::rlimit(60)]
pub proof fn lemma_section_reads_back(
    s: Seq<char>,
    a: int,
    sh: ShapeView,
    head: Seq<Seq<char>>,
    recs: Seq<Seq<Seq<char>>>,
)
    requires
        section_fits(sh, head, recs),
        0 <= a,
        a + render_section(sh, head, recs).len() <= s.len(),
        s.subrange(a, a + render_section(sh, head, recs).len()) == render_section(sh, head, recs),
        a + render_section(sh, head, recs).len() < s.len() ==> !is_space(
            s[a + render_section(sh, head, recs).len()],
        ),
    ensures
        sp_section(s, a, sh) == Ok::<(Seq<Seq<char>>, Seq<Seq<Seq<Seq<char>>>>, int), ParseError>(
            (head, section_groups(sh, recs), a + render_section(sh, head, recs).len()),
        ),
{
    reveal(render_section);
    let t = render_section(sh, head, recs);
    let hl = render_record(sh.head, head, 0);
    let body = if sh.groups.len() == 1 {
        render_records(sh.groups[0].0, recs)
    } else {
        seq![]
    };
    let b: int = a + sh.open.len() + 1int;
    let c: int = b + hl.len();
    let d: int = c + body.len();
    let e: int = d + sh.close.len();
    assert(t == sh.open + seq!['\n'] + hl + body + sh.close + seq!['\n']);
    assert(t.subrange(0, sh.open.len() as int) =~= sh.open);
    lemma_subrange_of(s, a, t, 0, sh.open.len() as int);
    assert(t.subrange(b - a, c - a) =~= hl);
    lemma_subrange_of(s, a, t, b - a, c - a);
    assert(t.subrange(c - a, d - a) =~= body);
    lemma_subrange_of(s, a, t, c - a, d - a);
    assert(t.subrange(d - a, e - a) =~= sh.close);
    lemma_subrange_of(s, a, t, d - a, e - a);
    let sub = s.subrange(a, a + t.len());
    assert(sub[0] == s[a]);
    assert(sub[b - 1 - a] == s[b - 1]);
    assert(sub[b - a] == s[b]);
    assert(sub[c - a] == s[c]);
    assert(sub[d - a] == s[d]);
    assert(sub[e - a] == s[e]);
    assert(s[a] == sh.open[0]);
    lemma_run_end_exact(s, a, a, CharClass::Space);
    assert(t[sh.open.len() as int] == '\n');
    assert(s[b - 1] == t[b - 1 - a]);
    assert(s[b - 1] == '\n');
    assert(s[d] == sh.close[0]);
    // what follows the head line starts the records, or the closing keyword
    if sh.groups.len() == 1 && recs.len() > 0 {
        lemma_record_first(sh.groups[0].0, recs[0]);
        assert(body == render_record(sh.groups[0].0, recs[0], 0) + render_records(sh.groups[0].0, recs.drop_first()));
        assert(s[c] == body[0]);
    } else {
        assert(body =~= seq![]);
        assert(s[c] == sh.close[0]);
    }
    if head.len() > 0 {
        lemma_record_first(sh.head, head);
        assert(s[b] == hl[0]);
    } else {
        assert(hl =~= seq![]);
    }
    lemma_run_end_exact(s, b - 1, b, CharClass::Space);
    lemma_record_reads_back(s, b, sh.head, head, 0);
    assert(head.subrange(0, sh.head.len() as int) =~= head);
    assert(crate::primitives::lit_at(s, d, sh.close)) by {
        assert(s.subrange(d, d + sh.close.len()) =~= sh.close);
    }
    if sh.groups.len() == 1 {
        lemma_records_read_back(s, c, sh.groups[0].0, recs, sh.close);
        assert(sp_groups(s, d, sh.groups, sh.close, 1) == Ok::<(Seq<Seq<Seq<Seq<char>>>>, int), ParseError>((seq![], d)));
        assert(seq![recs] + seq![] =~= seq![recs]);
    }
    lemma_run_end_exact(s, d, d, CharClass::Space);
    assert(t.len() == e - a + 1);
    assert(t[e - a] == '\n');
    assert(s[e] == t[e - a]);
    assert(s[e] == '\n');
    lemma_run_end_exact(s, e, e + 1, CharClass::Space);
}

/// A board or panel document written section by section with
/// [`render_section`]: the header, the primary outline with the points
/// `points`, the holes, the notes section where there are notes, and the
/// placements.
#[verifier::opaque]
pub open spec fn render_board(
    header: Seq<Seq<char>>,
    outline_head: Seq<Seq<char>>,
    points: Seq<Seq<Seq<char>>>,
    holes: Seq<Seq<Seq<char>>>,
    notes: Seq<Seq<Seq<char>>>,
    places: Seq<Seq<Seq<char>>>,
) -> Seq<char> {
    render_section(header_shape(true), header, seq![]) + render_section(
        primary_shape(primary_is_panel(header[0]) == Some(true)),
        outline_head,
        points,
    ) + render_section(holes_shape(), seq![], holes) + (if notes.len() > 0 {
        render_section(notes_shape(), seq![], notes)
    } else {
        seq![]
    }) + render_section(placement_shape(), seq![], places)
}

proof fn lemma_board_keywords()
    ensures
        keywords_ok(header_shape(true)),
        keywords_ok(primary_shape(true)),
        keywords_ok(primary_shape(false)),
        keywords_ok(holes_shape()),
        keywords_ok(notes_shape()),
        keywords_ok(placement_shape()),
        ".DRILLED_HOLES"@.len() > 1 && ".DRILLED_HOLES"@[0] == '.' && ".DRILLED_HOLES"@[1] == 'D',
        ".NOTES"@.len() > 1 && ".NOTES"@[1] == 'N',
        ".PLACEMENT"@.len() > 1 && ".PLACEMENT"@[1] == 'P',
        OtherOutline::shape().open.len() > 1 && OtherOutline::shape().open[1] == 'O',
        RoutingOutline::shape().open.len() > 1 && RoutingOutline::shape().open[1] == 'R',
        PlacementOutline::shape().open.len() > 1 && PlacementOutline::shape().open[1] == 'P',
        RoutingKeepout::shape().open.len() > 1 && RoutingKeepout::shape().open[1] == 'R',
        ViaKeepout::shape().open.len() > 1 && ViaKeepout::shape().open[1] == 'V',
        PlacementKeepout::shape().open.len() > 1 && PlacementKeepout::shape().open[1] == 'P',
        PlacementGroupArea::shape().open.len() > 1 && PlacementGroupArea::shape().open[1] == 'P',
{
    reveal_strlit(".HEADER");
    reveal_strlit(".END_HEADER");
    reveal_strlit(".BOARD_OUTLINE");
    reveal_strlit(".END_BOARD_OUTLINE");
    reveal_strlit(".PANEL_OUTLINE");
    reveal_strlit(".END_PANEL_OUTLINE");
    reveal_strlit(".DRILLED_HOLES");
    reveal_strlit(".END_DRILLED_HOLES");
    reveal_strlit(".NOTES");
    reveal_strlit(".END_NOTES");
    reveal_strlit(".PLACEMENT");
    reveal_strlit(".END_PLACEMENT");
    reveal_strlit(".OTHER_OUTLINE");
    reveal_strlit(".ROUTE_OUTLINE");
    reveal_strlit(".PLACE_OUTLINE");
    reveal_strlit(".ROUTE_KEEPOUT");
    reveal_strlit(".VIA_KEEPOUT");
    reveal_strlit(".PLACE_KEEPOUT");
    reveal_strlit(".PLACE_REGION");
}

proof fn lemma_other_keyword_absent(s: Seq<char>, j: int, here: Seq<char>, other: Seq<char>)
    requires
        lit_at(s, j, here),
        here.len() > 1,
        other.len() > 1,
        here[1] != other[1],
        j < s.len() && !is_space(s[j]),
    ensures
        sp_keyword(s, j, other) is None,
{
    lemma_run_end_exact(s, j, j, CharClass::Space);
    if lit_at(s, j, other) {
        assert(s.subrange(j, j + here.len())[1] == s.subrange(j, j + other.len())[1]);
    }
}

proof fn lemma_section_at(s: Seq<char>, a: int, t: Seq<char>, rest: Seq<char>, sh: ShapeView, head: Seq<Seq<char>>, recs: Seq<Seq<Seq<char>>>)
    requires
        section_fits(sh, head, recs),
        t == render_section(sh, head, recs),
        0 <= a <= s.len(),
        s.subrange(a, s.len() as int) == t + rest,
        rest.len() > 0 ==> !is_space(rest[0]),
    ensures
        sp_section(s, a, sh) == Ok::<(Seq<Seq<char>>, Seq<Seq<Seq<Seq<char>>>>, int), ParseError>(
            (head, section_groups(sh, recs), a + t.len()),
        ),
        a + t.len() <= s.len(),
        s.subrange(a + t.len(), s.len() as int) == rest,
        lit_at(s, a, sh.open),
        s[a] == sh.open[0],
{
    reveal(render_section);
    let whole = t + rest;
    assert(s.len() == a + whole.len());
    lemma_subrange_of(s, a, whole, 0, t.len() as int);
    assert(whole.subrange(0, t.len() as int) =~= t);
    lemma_subrange_of(s, a, whole, t.len() as int, whole.len() as int);
    assert(whole.subrange(t.len() as int, whole.len() as int) =~= rest);
    if rest.len() > 0 {
        assert(s[a + t.len()] == s.subrange(a + t.len(), s.len() as int)[0]);
    }
    lemma_section_reads_back(s, a, sh, head, recs);
    assert(t == sh.open + (seq!['\n'] + render_record(sh.head, head, 0) + (if sh.groups.len() == 1 {
        render_records(sh.groups[0].0, recs)
    } else {
        seq![]
    }) + sh.close + seq!['\n']));
    lemma_subrange_of(s, a, t, 0, sh.open.len() as int);
    assert(t.subrange(0, sh.open.len() as int) =~= sh.open);
    assert(s[a] == s.subrange(a, a + sh.open.len())[0]);
}

proof fn lemma_no_more_outlines(s: Seq<char>, j: int)
    requires
        0 <= j < s.len(),
        lit_at(s, j, ".DRILLED_HOLES"@),
        s[j] == '.',
    ensures
        sp_board_outlines(s, j) == Ok::<(Seq<Seq<SectionText>>, int), ParseError>(
            (seq![seq![], seq![], seq![], seq![], seq![], seq![], seq![]], j),
        ),
{
    lemma_board_keywords();
    lemma_other_keyword_absent(s, j, ".DRILLED_HOLES"@, OtherOutline::shape().open);
    lemma_other_keyword_absent(s, j, ".DRILLED_HOLES"@, RoutingOutline::shape().open);
    lemma_other_keyword_absent(s, j, ".DRILLED_HOLES"@, PlacementOutline::shape().open);
    lemma_other_keyword_absent(s, j, ".DRILLED_HOLES"@, RoutingKeepout::shape().open);
    lemma_other_keyword_absent(s, j, ".DRILLED_HOLES"@, ViaKeepout::shape().open);
    lemma_other_keyword_absent(s, j, ".DRILLED_HOLES"@, PlacementKeepout::shape().open);
    lemma_other_keyword_absent(s, j, ".DRILLED_HOLES"@, PlacementGroupArea::shape().open);
}

#[verifier::rlimit(60)]
proof fn lemma_board_tail_reads_back(
    s: Seq<char>,
    after_outline: int,
    holes: Seq<Seq<Seq<char>>>,
    notes: Seq<Seq<Seq<char>>>,
    places: Seq<Seq<Seq<char>>>,
)
    requires
        0 <= after_outline <= s.len(),
        content_fits(holes_shape(), seq![], holes),
        content_fits(notes_shape(), seq![], notes),
        content_fits(placement_shape(), seq![], places),
        s.subrange(after_outline, s.len() as int) == render_section(holes_shape(), seq![], holes) + ((if notes.len() > 0 {
            render_section(notes_shape(), seq![], notes)
        } else {
            seq![]
        }) + render_section(placement_shape(), seq![], places)),
    ensures
        sp_board_tail(s, after_outline) == Ok::<(Seq<Seq<Seq<char>>>, Seq<Seq<Seq<char>>>, Seq<Seq<Seq<char>>>), ParseError>(
            (holes, notes, places),
        ),
{
    lemma_board_keywords();
    let t2 = render_section(holes_shape(), seq![], holes);
    let t3 = if notes.len() > 0 {
        render_section(notes_shape(), seq![], notes)
    } else {
        seq![]
    };
    let t4 = render_section(placement_shape(), seq![], places);
    let after_holes = after_outline + t2.len();
    let after_notes = after_holes + t3.len();
    lemma_section_first(placement_shape(), seq![], places);
    lemma_section_first(notes_shape(), seq![], notes);
    if notes.len() > 0 {
        assert(t3[0] == notes_shape().open[0]);
    } else {
        assert(t3 =~= seq![]);
        assert(t3 + t4 =~= t4);
    }
    lemma_section_at(s, after_outline, t2, t3 + t4, holes_shape(), seq![], holes);
    if notes.len() > 0 {
        lemma_section_at(s, after_holes, t3, t4, notes_shape(), seq![], notes);
        lemma_section_at(s, after_notes, t4, seq![], placement_shape(), seq![], places);
        assert(t4 + seq![] =~= t4);
        lemma_other_keyword_absent(s, after_notes, ".PLACEMENT"@, ".NOTES"@);
    } else {
        assert(notes =~= seq![]);
        assert(t4 + seq![] =~= t4);
        lemma_section_at(s, after_notes, t4, seq![], placement_shape(), seq![], places);
        lemma_other_keyword_absent(s, after_notes, ".PLACEMENT"@, ".NOTES"@);
    }
}

proof fn lemma_section_first(sh: ShapeView, head: Seq<Seq<char>>, recs: Seq<Seq<Seq<char>>>)
    requires
        keywords_ok(sh),
    ensures
        render_section(sh, head, recs).len() > 0,
        render_section(sh, head, recs)[0] == sh.open[0],
{
    reveal(render_section);
}

proof fn lemma_board_steps(
    s: Seq<char>,
    header: Seq<Seq<char>>,
    outline_head: Seq<Seq<char>>,
    points: Seq<Seq<Seq<char>>>,
    holes: Seq<Seq<Seq<char>>>,
    notes: Seq<Seq<Seq<char>>>,
    places: Seq<Seq<Seq<char>>>,
    after_header: int,
    after_outline: int,
    panel: bool,
)
    requires
        sp_section(s, 0, header_shape(true)) == Ok::<(Seq<Seq<char>>, Seq<Seq<Seq<Seq<char>>>>, int), ParseError>(
            (header, seq![], after_header),
        ),
        primary_is_panel(header[0]) == Some(panel),
        sp_section(s, after_header, primary_shape(panel)) == Ok::<(Seq<Seq<char>>, Seq<Seq<Seq<Seq<char>>>>, int), ParseError>(
            (outline_head, seq![points], after_outline),
        ),
        sp_board_outlines(s, after_outline) == Ok::<(Seq<Seq<SectionText>>, int), ParseError>(
            (seq![seq![], seq![], seq![], seq![], seq![], seq![], seq![]], after_outline),
        ),
        sp_board_tail(s, after_outline) == Ok::<(Seq<Seq<Seq<char>>>, Seq<Seq<Seq<char>>>, Seq<Seq<Seq<char>>>), ParseError>(
            (holes, notes, places),
        ),
    ensures
        sp_board(s) == Ok::<BoardText, ParseError>(
            BoardText {
                header,
                outline: (outline_head, seq![points]),
                other_outlines: seq![],
                routing_outlines: seq![],
                placement_outlines: seq![],
                routing_keepouts: seq![],
                via_keepouts: seq![],
                placement_keepouts: seq![],
                placement_group_areas: seq![],
                drilled_holes: holes,
                notes,
                component_placements: places,
            },
        ),
{
}

#[verifier::rlimit(60)]
proof fn lemma_board_head_reads_back(
    s: Seq<char>,
    header: Seq<Seq<char>>,
    outline_head: Seq<Seq<char>>,
    points: Seq<Seq<Seq<char>>>,
    panel: bool,
    tail: Seq<char>,
)
    requires
        content_fits(header_shape(true), header, seq![]),
        content_fits(primary_shape(panel), outline_head, points),
        keywords_ok(header_shape(true)),
        keywords_ok(primary_shape(panel)),
        s == render_section(header_shape(true), header, seq![]) + (render_section(primary_shape(panel), outline_head, points) + tail),
        tail.len() > 0,
        !is_space(tail[0]),
    ensures
        ({
            let after_header = render_section(header_shape(true), header, seq![]).len() as int;
            let after_outline = after_header + render_section(primary_shape(panel), outline_head, points).len();
            &&& sp_section(s, 0, header_shape(true)) == Ok::<(Seq<Seq<char>>, Seq<Seq<Seq<Seq<char>>>>, int), ParseError>(
                (header, seq![], after_header),
            )
            &&& sp_section(s, after_header, primary_shape(panel)) == Ok::<(Seq<Seq<char>>, Seq<Seq<Seq<Seq<char>>>>, int), ParseError>(
                (outline_head, seq![points], after_outline),
            )
            &&& 0 <= after_outline <= s.len()
            &&& s.subrange(after_outline, s.len() as int) == tail
        }),
{
    let t0 = render_section(header_shape(true), header, seq![]);
    let t1 = render_section(primary_shape(panel), outline_head, points);
    lemma_section_first(primary_shape(panel), outline_head, points);
    assert(s.subrange(0, s.len() as int) =~= t0 + (t1 + tail));
    lemma_section_at(s, 0, t0, t1 + tail, header_shape(true), header, seq![]);
    assert(section_groups(header_shape(true), seq![]) =~= seq![]);
    lemma_section_at(s, t0.len() as int, t1, tail, primary_shape(panel), outline_head, points);
}

proof fn lemma_board_layout(
    header: Seq<Seq<char>>,
    outline_head: Seq<Seq<char>>,
    points: Seq<Seq<Seq<char>>>,
    holes: Seq<Seq<Seq<char>>>,
    notes: Seq<Seq<Seq<char>>>,
    places: Seq<Seq<Seq<char>>>,
)
    ensures
        render_board(header, outline_head, points, holes, notes, places) == render_section(header_shape(true), header, seq![]) + (
        render_section(primary_shape(primary_is_panel(header[0]) == Some(true)), outline_head, points) + (
        render_section(holes_shape(), seq![], holes) + ((if notes.len() > 0 {
            render_section(notes_shape(), seq![], notes)
        } else {
            seq![]
        }) + render_section(placement_shape(), seq![], places)))),
{
    reveal(render_board);
    let t0 = render_section(header_shape(true), header, seq![]);
    let t1 = render_section(primary_shape(primary_is_panel(header[0]) == Some(true)), outline_head, points);
    let t2 = render_section(holes_shape(), seq![], holes);
    let t3 = if notes.len() > 0 {
        render_section(notes_shape(), seq![], notes)
    } else {
        seq![]
    };
    let t4 = render_section(placement_shape(), seq![], places);
    assert(t0 + t1 + t2 + t3 + t4 =~= t0 + (t1 + (t2 + (t3 + t4))));
}

/// A board or panel document written section by section, with fields that
/// fit their kinds and a file type of `BOARD_FILE` or `PANEL_FILE`, parses:
/// nothing is left over, and each section yields exactly the records written
/// in it, one per line.
#[verifier::rlimit(100)]
#[verifier::spinoff_prover]
pub proof fn lemma_board_reads_back(
    header: Seq<Seq<char>>,
    outline_head: Seq<Seq<char>>,
    points: Seq<Seq<Seq<char>>>,
    holes: Seq<Seq<Seq<char>>>,
    notes: Seq<Seq<Seq<char>>>,
    places: Seq<Seq<Seq<char>>>,
)
    requires
        header.len() > 0,
        primary_is_panel(header[0]) is Some,
        content_fits(header_shape(true), header, seq![]),
        content_fits(primary_shape(primary_is_panel(header[0]) == Some(true)), outline_head, points),
        content_fits(holes_shape(), seq![], holes),
        content_fits(notes_shape(), seq![], notes),
        content_fits(placement_shape(), seq![], places),
    ensures
        sp_board(render_board(header, outline_head, points, holes, notes, places)) == Ok::<BoardText, ParseError>(
            BoardText {
                header,
                outline: (outline_head, seq![points]),
                other_outlines: seq![],
                routing_outlines: seq![],
                placement_outlines: seq![],
                routing_keepouts: seq![],
                via_keepouts: seq![],
                placement_keepouts: seq![],
                placement_group_areas: seq![],
                drilled_holes: holes,
                notes,
                component_placements: places,
            },
        ),
{
    lemma_board_keywords();
    let panel = primary_is_panel(header[0]) == Some(true);
    let t0 = render_section(header_shape(true), header, seq![]);
    let t1 = render_section(primary_shape(panel), outline_head, points);
    let t2 = render_section(holes_shape(), seq![], holes);
    let t3 = if notes.len() > 0 {
        render_section(notes_shape(), seq![], notes)
    } else {
        seq![]
    };
    let t4 = render_section(placement_shape(), seq![], places);
    let tail = t2 + (t3 + t4);
    let s = render_board(header, outline_head, points, holes, notes, places);
    lemma_board_layout(header, outline_head, points, holes, notes, places);
    let after_header = t0.len() as int;
    let after_outline = after_header + t1.len();
    lemma_section_first(holes_shape(), seq![], holes);
    assert(tail[0] == holes_shape().open[0]);
    lemma_board_head_reads_back(s, header, outline_head, points, panel, tail);
    assert(sp_board_outlines(s, after_outline) == Ok::<(Seq<Seq<SectionText>>, int), ParseError>(
        (seq![seq![], seq![], seq![], seq![], seq![], seq![], seq![]], after_outline),
    )) by {
        lemma_section_first(notes_shape(), seq![], notes);
        lemma_section_first(placement_shape(), seq![], places);
        assert((t3 + t4)[0] == if notes.len() > 0 { notes_shape().open[0] } else { placement_shape().open[0] });
        lemma_section_at(s, after_outline, t2, t3 + t4, holes_shape(), seq![], holes);
        lemma_no_more_outlines(s, after_outline);
    }
    lemma_board_tail_reads_back(s, after_outline, holes, notes, places);
    lemma_board_steps(s, header, outline_head, points, holes, notes, places, after_header, after_outline, panel);
}

/// An electrical component section: the opening keyword on a line of its
/// own, the head fields on the next line, a line per point, a line per
/// property, then the closing keyword on a line of its own.
pub open spec fn render_electrical(
    head: Seq<Seq<char>>,
    points: Seq<Seq<Seq<char>>>,
    props: Seq<Seq<Seq<char>>>,
) -> Seq<char> {
    ".ELECTRICAL"@ + seq!['\n'] + render_record(component_head(), head, 0) + render_records(point_kinds(), points)
        + render_records(prop_kinds(), props) + ".END_ELECTRICAL"@ + seq!['\n']
}

proof fn lemma_prop_line_starts_with_p(f: Seq<Seq<char>>)
    requires
        record_fits(prop_kinds(), f),
    ensures
        render_record(prop_kinds(), f, 0).len() > 0,
        render_record(prop_kinds(), f, 0)[0] == 'P',
{
    reveal_strlit("PROP");
    lemma_record_first(prop_kinds(), f);
    assert(field_fits(FieldKind::Word(Vocab::Prop), f[0]));
    let w = vocab_words(Vocab::Prop);
    assert(w.len() == 1 && w[0] == "PROP"@);
    assert(first_word(f[0], 0, w, 1) is None);
    assert(first_word(f[0], 0, w, 0) == Some(f[0]));
    assert(f[0] == "PROP"@);
}

proof fn lemma_electrical_keywords()
    ensures
        keywords_ok(electrical_shape()),
{
    reveal_strlit(".ELECTRICAL");
    reveal_strlit(".END_ELECTRICAL");
}

/// An electrical section of shape `sh` as written: keyword line, head line,
/// point lines, property lines, closing keyword line.
pub open spec fn render_two_groups(
    sh: ShapeView,
    head: Seq<Seq<char>>,
    points: Seq<Seq<Seq<char>>>,
    props: Seq<Seq<Seq<char>>>,
) -> Seq<char> {
    sh.open + seq!['\n'] + render_record(component_head(), head, 0) + render_records(point_kinds(), points)
        + render_records(prop_kinds(), props) + sh.close + seq!['\n']
}

#[verifier::rlimit(100)]
proof fn lemma_points_then_props_read_back(
    s: Seq<char>,
    a: int,
    sh: ShapeView,
    head: Seq<Seq<char>>,
    points: Seq<Seq<Seq<char>>>,
    props: Seq<Seq<Seq<char>>>,
)
    requires
        keywords_ok(sh),
        sh.head == component_head(),
        sh.groups == seq![(point_kinds(), true), (prop_kinds(), false)],
        head.len() == component_head().len(),
        forall|m: int| 0 <= m < head.len() ==> field_fits(component_head()[m], #[trigger] head[m]),
        points.len() > 0,
        forall|m: int| 0 <= m < points.len() ==> record_fits(point_kinds(), #[trigger] points[m]),
        forall|m: int| 0 <= m < props.len() ==> record_fits(prop_kinds(), #[trigger] props[m]),
        0 <= a,
        a + render_two_groups(sh, head, points, props).len() <= s.len(),
        s.subrange(a, a + render_two_groups(sh, head, points, props).len()) == render_two_groups(sh, head, points, props),
        a + render_two_groups(sh, head, points, props).len() < s.len() ==> !is_space(
            s[a + render_two_groups(sh, head, points, props).len()],
        ),
    ensures
        sp_section(s, a, sh) == Ok::<(Seq<Seq<char>>, Seq<Seq<Seq<Seq<char>>>>, int), ParseError>(
            (head, seq![points, props], a + render_two_groups(sh, head, points, props).len()),
        ),
{
    let t = render_two_groups(sh, head, points, props);
    let open = sh.open;
    let close = sh.close;
    let hl = render_record(component_head(), head, 0);
    let pl = render_records(point_kinds(), points);
    let ql = render_records(prop_kinds(), props);
    let b: int = a + open.len() + 1int;
    let c: int = b + hl.len();
    let c2: int = c + pl.len();
    let d: int = c2 + ql.len();
    let e: int = d + close.len();
    assert(t.len() == e - a + 1);
    assert(t.subrange(0, open.len() as int) =~= open);
    lemma_subrange_of(s, a, t, 0, open.len() as int);
    assert(t.subrange(b - a, c - a) =~= hl);
    lemma_subrange_of(s, a, t, b - a, c - a);
    assert(t.subrange(c - a, c2 - a) =~= pl);
    lemma_subrange_of(s, a, t, c - a, c2 - a);
    assert(t.subrange(c2 - a, d - a) =~= ql);
    lemma_subrange_of(s, a, t, c2 - a, d - a);
    assert(t.subrange(d - a, e - a) =~= close);
    lemma_subrange_of(s, a, t, d - a, e - a);
    let sub = s.subrange(a, a + t.len());
    assert(sub[0] == s[a]);
    assert(sub[b - 1 - a] == s[b - 1]);
    assert(sub[e - a] == s[e]);
    assert(t[open.len() as int] == '\n');
    assert(t[e - a] == '\n');
    assert(s[a] == open[0]);
    lemma_run_end_exact(s, a, a, CharClass::Space);
    assert(s[b - 1] == '\n');
    lemma_record_first(point_kinds(), points[0]);
    assert(pl == render_record(point_kinds(), points[0], 0) + render_records(point_kinds(), points.drop_first()));
    assert(s[c] == s.subrange(c, c2)[0]);
    lemma_record_first(component_head(), head);
    assert(s[b] == s.subrange(b, c)[0]);
    lemma_run_end_exact(s, b - 1, b, CharClass::Space);
    lemma_record_reads_back(s, b, component_head(), head, 0);
    assert(head.subrange(0, component_head().len() as int) =~= head);
    assert(lit_at(s, d, close));
    assert(s[d] == s.subrange(d, e)[0]);
    if props.len() > 0 {
        lemma_prop_line_starts_with_p(props[0]);
        assert(ql == render_record(prop_kinds(), props[0], 0) + render_records(prop_kinds(), props.drop_first()));
        assert(s[c2] == s.subrange(c2, d)[0]);
        lemma_run_end_exact(s, c2, c2, CharClass::Space);
        lemma_run_end_exact(s, c2, c2, CharClass::Digit);
        assert(sp_field(s, c2, FieldKind::Count) is Err);
        assert(sp_fields(s, c2, point_kinds(), 0) is Err);
    } else {
        assert(ql =~= seq![]);
        assert(s[c2] == close[0]);
    }
    lemma_records_read_back(s, c, point_kinds(), points, close);
    lemma_records_read_back(s, c2, prop_kinds(), props, close);
    let gs = sh.groups;
    assert(sp_groups(s, d, gs, close, 2) == Ok::<(Seq<Seq<Seq<Seq<char>>>>, int), ParseError>((seq![], d)));
    assert(sp_groups(s, c2, gs, close, 1) == Ok::<(Seq<Seq<Seq<Seq<char>>>>, int), ParseError>((seq![props], d))) by {
        assert(seq![props] + seq![] =~= seq![props]);
    }
    assert(sp_groups(s, c, gs, close, 0) == Ok::<(Seq<Seq<Seq<Seq<char>>>>, int), ParseError>((seq![points, props], d))) by {
        assert(seq![points] + seq![props] =~= seq![points, props]);
    }
    lemma_run_end_exact(s, d, d, CharClass::Space);
    assert(s[e] == '\n');
    lemma_run_end_exact(s, e, e + 1, CharClass::Space);
}

/// An electrical component section written with [`render_electrical`],
/// with one or more points and fields that fit their kinds, parses whole,
/// and yields exactly the points and the property records written, one per
/// line.
pub proof fn lemma_electrical_reads_back(head: Seq<Seq<char>>, points: Seq<Seq<Seq<char>>>, props: Seq<Seq<Seq<char>>>)
    requires
        head.len() == component_head().len(),
        forall|m: int| 0 <= m < head.len() ==> field_fits(component_head()[m], #[trigger] head[m]),
        points.len() > 0,
        forall|m: int| 0 <= m < points.len() ==> record_fits(point_kinds(), #[trigger] points[m]),
        forall|m: int| 0 <= m < props.len() ==> record_fits(prop_kinds(), #[trigger] props[m]),
    ensures
        sp_section(render_electrical(head, points, props), 0, electrical_shape()) == Ok::<
            (Seq<Seq<char>>, Seq<Seq<Seq<Seq<char>>>>, int),
            ParseError,
        >((head, seq![points, props], render_electrical(head, points, props).len() as int)),
{
    lemma_electrical_keywords();
    let t = render_electrical(head, points, props);
    assert(t == render_two_groups(electrical_shape(), head, points, props));
    assert(t.subrange(0, t.len() as int) =~= t);
    lemma_points_then_props_read_back(t, 0, electrical_shape(), head, points, props);
}
/// A component section as written: `true` with the head, the points and
/// the properties of an electrical component, or `false` with the head and
/// the points of a mechanical one.
pub type ComponentLines = (bool, Seq<Seq<char>>, Seq<Seq<Seq<char>>>, Seq<Seq<Seq<char>>>);

/// How a component section is written.
pub open spec fn render_component(c: ComponentLines) -> Seq<char> {
    if c.0 {
        render_two_groups(electrical_shape(), c.1, c.2, c.3)
    } else {
        render_section(MechanicalComponent::shape(), c.1, c.2)
    }
}

/// The component sections `cs`, one after the other.
pub open spec fn render_components(cs: Seq<ComponentLines>) -> Seq<char>
    decreases cs.len(),
{
    if cs.len() == 0 {
        seq![]
    } else {
        render_component(cs[0]) + render_components(cs.drop_first())
    }
}

/// A library document written section by section: the header, then the
/// component sections `cs` in order.
pub open spec fn render_library(header: Seq<Seq<char>>, cs: Seq<ComponentLines>) -> Seq<char> {
    render_section(header_shape(false), header, seq![]) + render_components(cs)
}

/// The component `c` has fields that fit their kinds and at least one
/// point; a mechanical one has no properties.
pub open spec fn component_fits(c: ComponentLines) -> bool {
    &&& c.1.len() == component_head().len()
    &&& forall|m: int| 0 <= m < c.1.len() ==> field_fits(component_head()[m], #[trigger] c.1[m])
    &&& c.2.len() > 0
    &&& forall|m: int| 0 <= m < c.2.len() ==> record_fits(point_kinds(), #[trigger] c.2[m])
    &&& c.0 ==> forall|m: int| 0 <= m < c.3.len() ==> record_fits(prop_kinds(), #[trigger] c.3[m])
    &&& !c.0 ==> c.3.len() == 0
}

/// The texts that parsing a written component section gives.
pub open spec fn written_component(c: ComponentLines) -> (bool, SectionText) {
    (c.0, (c.1, if c.0 { seq![c.2, c.3] } else { seq![c.2] }))
}

proof fn lemma_library_keywords()
    ensures
        keywords_ok(header_shape(false)),
        keywords_ok(electrical_shape()),
        keywords_ok(MechanicalComponent::shape()),
        MechanicalComponent::shape().open[0] == '.',
        electrical_shape().open[0] == '.',
        ".ELECTRICAL"@.len() > 1 && ".ELECTRICAL"@[1] == 'E',
        ".MECHANICAL"@.len() > 1 && ".MECHANICAL"@[1] == 'M',
{
    reveal_strlit(".HEADER");
    reveal_strlit(".END_HEADER");
    reveal_strlit(".ELECTRICAL");
    reveal_strlit(".END_ELECTRICAL");
    reveal_strlit(".MECHANICAL");
    reveal_strlit(".END_MECHANICAL");
}

proof fn lemma_component_first(c: ComponentLines)
    ensures
        render_component(c).len() > 0,
        render_component(c)[0] == '.',
{
    lemma_library_keywords();
    if c.0 {
        assert(render_component(c)[0] == electrical_shape().open[0]);
    } else {
        lemma_section_first(MechanicalComponent::shape(), c.1, c.2);
    }
}

proof fn lemma_components_first(cs: Seq<ComponentLines>)
    requires
        cs.len() > 0,
    ensures
        render_components(cs).len() > 0,
        render_components(cs)[0] == '.',
{
    lemma_component_first(cs[0]);
}

#[verifier::rlimit(60)]
proof fn lemma_components_read_back(s: Seq<char>, a: int, cs: Seq<ComponentLines>)
    requires
        0 <= a <= s.len(),
        s.subrange(a, s.len() as int) == render_components(cs),
        forall|m: int| 0 <= m < cs.len() ==> component_fits(#[trigger] cs[m]),
    ensures
        sp_components(s, a) == Ok::<(Seq<(bool, SectionText)>, int), ParseError>(
            (cs.map_values(|c: ComponentLines| written_component(c)), s.len() as int),
        ),
    decreases cs.len(),
{
    lemma_library_keywords();
    if cs.len() == 0 {
        assert(s.len() == a);
        lemma_run_end_exact(s, a, a, CharClass::Space);
        assert(cs.map_values(|c: ComponentLines| written_component(c)) =~= seq![]);
    } else {
        let c = cs[0];
        let t = render_component(c);
        let rest = render_components(cs.drop_first());
        assert(s.subrange(a, s.len() as int) == t + rest);
        assert forall|m: int| 0 <= m < cs.drop_first().len() implies component_fits(#[trigger] cs.drop_first()[m]) by {
            assert(cs.drop_first()[m] == cs[m + 1]);
        }
        if rest.len() > 0 {
            assert(cs.drop_first().len() > 0);
            lemma_components_first(cs.drop_first());
        }
        lemma_component_first(c);
        let whole = t + rest;
        lemma_subrange_of(s, a, whole, 0, t.len() as int);
        assert(whole.subrange(0, t.len() as int) =~= t);
        lemma_subrange_of(s, a, whole, t.len() as int, whole.len() as int);
        assert(whole.subrange(t.len() as int, whole.len() as int) =~= rest);
        assert(s[a] == '.') by {
            assert(s.subrange(a, a + t.len())[0] == s[a]);
        }
        if rest.len() > 0 {
            assert(s[a + t.len()] == s.subrange(a + t.len(), s.len() as int)[0]);
        }
        if c.0 {
            lemma_points_then_props_read_back(s, a, electrical_shape(), c.1, c.2, c.3);
            assert(lit_at(s, a, electrical_shape().open)) by {
                let open = electrical_shape().open;
                assert(t.subrange(0, open.len() as int) =~= open);
                lemma_subrange_of(s, a, t, 0, open.len() as int);
            }
            lemma_run_end_exact(s, a, a, CharClass::Space);
        } else {
            lemma_section_at(s, a, t, rest, MechanicalComponent::shape(), c.1, c.2);
            lemma_other_keyword_absent(s, a, ".MECHANICAL"@, ".ELECTRICAL"@);
            lemma_run_end_exact(s, a, a, CharClass::Space);
            assert(section_groups(MechanicalComponent::shape(), c.2) == seq![c.2]);
        }
        lemma_components_read_back(s, a + t.len(), cs.drop_first());
        assert(seq![written_component(c)] + cs.drop_first().map_values(|c: ComponentLines| written_component(c))
            =~= cs.map_values(|c: ComponentLines| written_component(c)));
    }
}

/// A library document written section by section, with a header whose file
/// type is `LIBRARY_FILE` and component sections whose fields fit their
/// kinds, parses: nothing is left over, and each component section yields
/// exactly the points and properties written in it, one per line, in
/// document order.
pub proof fn lemma_library_reads_back(header: Seq<Seq<char>>, cs: Seq<ComponentLines>)
    requires
        content_fits(header_shape(false), header, seq![]),
        header[0] == "LIBRARY_FILE"@,
        forall|m: int| 0 <= m < cs.len() ==> component_fits(#[trigger] cs[m]),
    ensures
        sp_library(render_library(header, cs)) == Ok::<LibraryText, ParseError>(
            LibraryText { header, components: cs.map_values(|c: ComponentLines| written_component(c)) },
        ),
{
    lemma_library_keywords();
    let s = render_library(header, cs);
    let t0 = render_section(header_shape(false), header, seq![]);
    let rest = render_components(cs);
    assert(s.subrange(0, s.len() as int) =~= t0 + rest);
    if cs.len() > 0 {
        lemma_components_first(cs);
    }
    lemma_section_at(s, 0, t0, rest, header_shape(false), header, seq![]);
    assert(section_groups(header_shape(false), seq![]) =~= seq![]);
    lemma_components_read_back(s, t0.len() as int, cs);
}

} // verus!
