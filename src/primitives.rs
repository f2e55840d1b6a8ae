//! Lexical primitives: character classes, runs, literals and strings.
use vstd::prelude::*;
use vstd::std_specs::iter::IteratorSpec;

pub use crate::point::{point, Point};

verus! {

broadcast use vstd::string::group_string_axioms;

/// Why a parse failed, with the character offset at which it did.
#[derive(Clone, Copy, Debug, PartialEq, Eq)]
pub enum ParseError {
    /// An expected keyword or field could not be matched here.
    Syntax(usize),
    /// A section's content parsed, but its closing keyword is not here.
    Unterminated(usize),
    /// A section or a list of records occurs a number of times its rules forbid.
    Multiplicity(usize),
    /// The document parsed, but input remains from here on.
    TrailingData(usize),
}

/// The classes of characters that the grammar scans runs of.
#[derive(Clone, Copy, Debug, PartialEq, Eq)]
pub enum CharClass {
    Space,
    NonSpace,
    Digit,
    NonQuote,
}

/// Field separators: space, tab, carriage return and line feed.
pub open spec fn is_space(c: char) -> bool {
    c == ' ' || c == '\t' || c == '\r' || c == '\n'
}

pub open spec fn is_digit(c: char) -> bool {
    '0' <= c && c <= '9'
}

pub open spec fn in_class(c: char, k: CharClass) -> bool {
    match k {
        CharClass::Space => is_space(c),
        CharClass::NonSpace => !is_space(c),
        CharClass::Digit => is_digit(c),
        CharClass::NonQuote => c != '"',
    }
}

fn class_has(c: char, k: CharClass) -> (r: bool)
    ensures
        r == in_class(c, k),
{
    match k {
        CharClass::Space => c == ' ' || c == '\t' || c == '\r' || c == '\n',
        CharClass::NonSpace => !(c == ' ' || c == '\t' || c == '\r' || c == '\n'),
        CharClass::Digit => '0' <= c && c <= '9',
        CharClass::NonQuote => c != '"',
    }
}

/// The end of the longest run of characters of class `k` that starts at `i`.
pub open spec fn run_end(s: Seq<char>, i: int, k: CharClass) -> int
    decreases s.len() - i,
{
    if 0 <= i < s.len() && in_class(s[i], k) {
        run_end(s, i + 1, k)
    } else {
        i
    }
}

pub proof fn lemma_run_end(s: Seq<char>, i: int, k: CharClass)
    requires
        0 <= i <= s.len(),
    ensures
        i <= run_end(s, i, k) <= s.len(),
        forall|m: int| i <= m < run_end(s, i, k) ==> in_class(#[trigger] s[m], k),
        run_end(s, i, k) < s.len() ==> !in_class(s[run_end(s, i, k)], k),
    decreases s.len() - i,
{
    if i < s.len() && in_class(s[i], k) {
        lemma_run_end(s, i + 1, k);
    }
}

/// Returns the end of the run of class `k` that starts at `i`.
pub fn scan(s: &Vec<char>, i: usize, k: CharClass) -> (r: usize)
    requires
        i <= s.len(),
    ensures
        r == run_end(s@, i as int, k),
{
    let mut j: usize = i;
    while j < s.len() && class_has(s[j], k)
        invariant
            i <= j <= s.len(),
            run_end(s@, j as int, k) == run_end(s@, i as int, k),
        decreases s.len() - j,
    {
        j = j + 1;
    }
    j
}

/// Skips the separators at `i`: returns where the next field or keyword starts.
pub fn ws(s: &Vec<char>, i: usize) -> (r: usize)
    requires
        i <= s.len(),
    ensures
        r == run_end(s@, i as int, CharClass::Space),
        i <= r <= s.len(),
{
    proof {
        lemma_run_end(s@, i as int, CharClass::Space);
    }
    scan(s, i, CharClass::Space)
}

/// The characters of a string, in order.
pub fn to_chars(text: &str) -> (r: Vec<char>)
    ensures
        r@ == text@,
{
    let mut r: Vec<char> = Vec::new();
    for c in it: text.chars()
        invariant
            r@ == it.seq().take(it.index() as int),
    {
        r.push(c);
    }
    assert(r@ =~= text@);
    r
}

/// Relies on `String::push`: the string gains `c` at its end.
#[verifier::external_body]
fn push_char(t: &mut String, c: char)
    ensures
        final(t)@ == old(t)@.push(c),
{
    t.push(c)
}

/// The characters of `s` from `a` up to `b`, as a string.
pub fn string_of(s: &Vec<char>, a: usize, b: usize) -> (r: String)
    requires
        a <= b <= s.len(),
    ensures
        r@ == s@.subrange(a as int, b as int),
{
    let mut t = String::new();
    let mut k: usize = a;
    while k < b
        invariant
            a <= k <= b,
            b <= s.len(),
            t@ == s@.subrange(a as int, k as int),
        decreases b - k,
    {
        push_char(&mut t, s[k]);
        k = k + 1;
        assert(t@ =~= s@.subrange(a as int, k as int));
    }
    t
}

/// `lit` occurs in `s` at `i`.
pub open spec fn lit_at(s: Seq<char>, i: int, lit: Seq<char>) -> bool {
    0 <= i && i + lit.len() <= s.len() && s.subrange(i, i + lit.len()) == lit
}

/// Whether `lit` occurs in `s` at `i`.
pub fn match_lit(s: &Vec<char>, i: usize, lit: &str) -> (r: bool)
    requires
        i <= s.len(),
    ensures
        r == lit_at(s@, i as int, lit@),
{
    let n = lit.unicode_len();
    if n > s.len() - i {
        return false;
    }
    let mut k: usize = 0;
    while k < n
        invariant
            k <= n,
            i + n <= s.len(),
            n == lit@.len(),
            forall|m: int| 0 <= m < k ==> s@[i + m] == lit@[m],
        decreases n - k,
    {
        if s[i + k] != lit.get_char(k) {
            assert(s@.subrange(i as int, i + n)[k as int] != lit@[k as int]);
            return false;
        }
        k = k + 1;
    }
    assert(s@.subrange(i as int, i + n) =~= lit@);
    true
}

/// The value of a run of decimal digits.
pub open spec fn digits_value(t: Seq<char>) -> int
    decreases t.len(),
{
    if t.len() == 0 {
        0
    } else {
        digits_value(t.drop_last()) * 10 + ((t.last() as u32) - ('0' as u32))
    }
}

/// A non-empty run of digits whose value fits in a `u32`.
pub open spec fn is_u32_text(t: Seq<char>) -> bool {
    &&& t.len() > 0
    &&& forall|m: int| 0 <= m < t.len() ==> is_digit(#[trigger] t[m])
    &&& digits_value(t) <= u32::MAX
}

proof fn lemma_digits_value_nonneg(t: Seq<char>)
    requires
        forall|m: int| 0 <= m < t.len() ==> is_digit(#[trigger] t[m]),
    ensures
        digits_value(t) >= 0,
    decreases t.len(),
{
    if t.len() > 0 {
        lemma_digits_value_nonneg(t.drop_last());
    }
}

proof fn lemma_digits_value_grows(t: Seq<char>, c: char)
    requires
        forall|m: int| 0 <= m < t.len() ==> is_digit(#[trigger] t[m]),
        is_digit(c),
    ensures
        digits_value(t.push(c)) == digits_value(t) * 10 + ((c as u32) - ('0' as u32)),
        digits_value(t.push(c)) >= digits_value(t),
{
    assert(t.push(c).drop_last() =~= t);
    lemma_digits_value_nonneg(t);
}

proof fn lemma_digits_value_prefix(s: Seq<char>, a: int, j: int, b: int)
    requires
        0 <= a <= j <= b <= s.len(),
        forall|m: int| a <= m < b ==> is_digit(#[trigger] s[m]),
    ensures
        digits_value(s.subrange(a, j)) <= digits_value(s.subrange(a, b)),
    decreases b - j,
{
    if j < b {
        lemma_digits_value_prefix(s, a, j + 1, b);
        assert(s.subrange(a, j + 1) =~= s.subrange(a, j).push(s[j]));
        lemma_digits_value_grows(s.subrange(a, j), s[j]);
    }
}

/// The value of the digits of `s` from `a` up to `b`, or `None` where it exceeds `u32::MAX`.
pub fn digits_u32(s: &Vec<char>, a: usize, b: usize) -> (r: Option<u32>)
    requires
        a <= b <= s.len(),
        forall|m: int| a <= m < b ==> is_digit(#[trigger] s@[m]),
    ensures
        r matches Some(v) ==> v == digits_value(s@.subrange(a as int, b as int)),
        r is None <==> digits_value(s@.subrange(a as int, b as int)) > u32::MAX,
{
    let mut v: u32 = 0;
    let mut k: usize = a;
    while k < b
        invariant
            a <= k <= b <= s.len(),
            forall|m: int| a <= m < b ==> is_digit(#[trigger] s@[m]),
            v == digits_value(s@.subrange(a as int, k as int)),
        decreases b - k,
    {
        let d = (s[k] as u32) - ('0' as u32);
        proof {
            assert(s@.subrange(a as int, k + 1) =~= s@.subrange(a as int, k as int).push(s@[k as int]));
            lemma_digits_value_grows(s@.subrange(a as int, k as int), s@[k as int]);
        }
        if v > (u32::MAX - d) / 10 {
            proof {
                lemma_digits_value_prefix(s@, a as int, k + 1, b as int);
            }
            return None;
        }
        v = v * 10 + d;
        k = k + 1;
    }
    Some(v)
}

/// `c` stands at `i`.
pub open spec fn char_at(s: Seq<char>, i: int, c: char) -> bool {
    0 <= i < s.len() && s[i] == c
}

fn has_char(s: &Vec<char>, i: usize, c: char) -> (r: bool)
    ensures
        r == char_at(s@, i as int, c),
{
    i < s.len() && s[i] == c
}

/// Past an optional `+` or `-` at `i`.
pub open spec fn sign_end(s: Seq<char>, i: int) -> int {
    if char_at(s, i, '+') || char_at(s, i, '-') {
        i + 1
    } else {
        i
    }
}

/// The end of a decimal mantissa at `i`: an optional sign, then digits with an
/// optional fraction, or a point followed by digits.
pub open spec fn mantissa_end(s: Seq<char>, i: int) -> Option<int> {
    let a = sign_end(s, i);
    let b = run_end(s, a, CharClass::Digit);
    if b > a {
        if char_at(s, b, '.') {
            Some(run_end(s, b + 1, CharClass::Digit))
        } else {
            Some(b)
        }
    } else if char_at(s, a, '.') && run_end(s, a + 1, CharClass::Digit) > a + 1 {
        Some(run_end(s, a + 1, CharClass::Digit))
    } else {
        None
    }
}

/// The end of a decimal floating-point literal at `i`: a mantissa, then an
/// optional exponent (`e` or `E`, an optional sign, digits).
pub open spec fn number_end(s: Seq<char>, i: int) -> Option<int> {
    match mantissa_end(s, i) {
        None => None,
        Some(m) => if char_at(s, m, 'e') || char_at(s, m, 'E') {
            let c = sign_end(s, m + 1);
            let d = run_end(s, c, CharClass::Digit);
            if d > c {
                Some(d)
            } else {
                None
            }
        } else {
            Some(m)
        },
    }
}

/// Returns the end of the decimal literal at `i`, if one stands there.
pub fn scan_number(s: &Vec<char>, i: usize) -> (r: Option<usize>)
    requires
        i <= s.len(),
    ensures
        r matches Some(e) ==> number_end(s@, i as int) == Some(e as int),
        r is None ==> number_end(s@, i as int) is None,
{
    let a = if has_char(s, i, '+') || has_char(s, i, '-') {
        i + 1
    } else {
        i
    };
    let b = scan(s, a, CharClass::Digit);
    let m;
    if b > a {
        if has_char(s, b, '.') {
            m = scan(s, b + 1, CharClass::Digit);
        } else {
            m = b;
        }
    } else if has_char(s, a, '.') && scan(s, a + 1, CharClass::Digit) > a + 1 {
        m = scan(s, a + 1, CharClass::Digit);
    } else {
        return None;
    }
    proof {
        lemma_run_end(s@, a as int, CharClass::Digit);
    }
    if has_char(s, m, 'e') || has_char(s, m, 'E') {
        let c = if has_char(s, m + 1, '+') || has_char(s, m + 1, '-') {
            m + 2
        } else {
            m + 1
        };
        let d = scan(s, c, CharClass::Digit);
        if d > c {
            Some(d)
        } else {
            None
        }
    } else {
        Some(m)
    }
}

/// The fixed keyword sets that enumerated fields choose from.
#[derive(Clone, Copy, Debug, PartialEq, Eq)]
pub enum Vocab {
    FileType,
    Version,
    Units,
    Owner,
    Plating,
    HoleType,
    Side,
    Status,
    Prop,
}

/// The keywords of a set, in the order in which they are tried.
pub open spec fn vocab_words(v: Vocab) -> Seq<Seq<char>> {
    match v {
        Vocab::FileType => seq!["PANEL_FILE"@, "LIBRARY_FILE"@, "BOARD_FILE"@],
        Vocab::Version => seq!["3.0"@],
        Vocab::Units => seq!["THOU"@, "MM"@],
        Vocab::Owner => seq!["ECAD"@, "MCAD"@, "UNOWNED"@],
        Vocab::Plating => seq!["PTH"@, "NPTH"@],
        Vocab::HoleType => seq!["PIN"@, "VIA"@, "MTG"@, "TOOL"@],
        Vocab::Side => seq!["TOP"@, "BOTTOM"@],
        Vocab::Status => seq!["PLACED"@, "UNPLACED"@, "ECAD"@, "MCAD"@],
        Vocab::Prop => seq!["PROP"@],
    }
}

fn words(v: Vocab) -> (r: Vec<&'static str>)
    ensures
        r@.len() == vocab_words(v).len(),
        forall|m: int| 0 <= m < r@.len() ==> (#[trigger] r@[m])@ == vocab_words(v)[m],
{
    let r = match v {
        Vocab::FileType => vec!["PANEL_FILE", "LIBRARY_FILE", "BOARD_FILE"],
        Vocab::Version => vec!["3.0"],
        Vocab::Units => vec!["THOU", "MM"],
        Vocab::Owner => vec!["ECAD", "MCAD", "UNOWNED"],
        Vocab::Plating => vec!["PTH", "NPTH"],
        Vocab::HoleType => vec!["PIN", "VIA", "MTG", "TOOL"],
        Vocab::Side => vec!["TOP", "BOTTOM"],
        Vocab::Status => vec!["PLACED", "UNPLACED", "ECAD", "MCAD"],
        Vocab::Prop => vec!["PROP"],
    };
    r
}

/// The first keyword of `ws`, from index `n` on, that occurs at `i`.
pub open spec fn first_word(s: Seq<char>, i: int, ws: Seq<Seq<char>>, n: int) -> Option<Seq<char>>
    decreases ws.len() - n,
{
    if n < 0 || n >= ws.len() {
        None
    } else if lit_at(s, i, ws[n]) {
        Some(ws[n])
    } else {
        first_word(s, i, ws, n + 1)
    }
}

/// Returns the length of the first keyword of `v` that occurs at `i`.
fn match_word(s: &Vec<char>, i: usize, v: Vocab) -> (r: Option<usize>)
    requires
        i <= s.len(),
    ensures
        r matches Some(n) ==> first_word(s@, i as int, vocab_words(v), 0) matches Some(w) && w.len()
            == n,
        r is None ==> first_word(s@, i as int, vocab_words(v), 0) is None,
{
    let ws = words(v);
    let mut n: usize = 0;
    while n < ws.len()
        invariant
            n <= ws@.len(),
            i <= s.len(),
            ws@.len() == vocab_words(v).len(),
            forall|m: int| 0 <= m < ws@.len() ==> (#[trigger] ws@[m])@ == vocab_words(v)[m],
            first_word(s@, i as int, vocab_words(v), 0) == first_word(
                s@,
                i as int,
                vocab_words(v),
                n as int,
            ),
        decreases ws@.len() - n,
    {
        let w = ws[n];
        assert(w@ == vocab_words(v)[n as int]);
        if match_lit(s, i, w) {
            return Some(w.unicode_len());
        }
        n = n + 1;
    }
    None
}

/// The kinds of whitespace-separated fields.
#[derive(Clone, Copy, Debug, PartialEq, Eq)]
pub enum FieldKind {
    /// A run of non-space characters.
    Token,
    /// A double-quoted string; the field holds what stands between the quotes.
    Quoted,
    /// A double-quoted string, or else a token.
    Text,
    /// A decimal floating-point literal.
    Number,
    /// Decimal digits whose value fits in a `u32`.
    Count,
    /// The first keyword of a fixed set that the input starts with.
    Word(Vocab),
}

/// Where a field of kind `k` that starts at `a` has its content (start and
/// end) and where it ends.
pub open spec fn field_at(s: Seq<char>, a: int, k: FieldKind) -> Option<(int, int, int)> {
    match k {
        FieldKind::Token => token_at(s, a),
        FieldKind::Quoted => quoted_at(s, a),
        FieldKind::Text => match quoted_at(s, a) {
            Some(q) => Some(q),
            None => token_at(s, a),
        },
        FieldKind::Number => match number_end(s, a) {
            Some(b) => Some((a, b, b)),
            None => None,
        },
        FieldKind::Count => {
            let b = run_end(s, a, CharClass::Digit);
            if b > a && digits_value(s.subrange(a, b)) <= u32::MAX {
                Some((a, b, b))
            } else {
                None
            }
        },
        FieldKind::Word(v) => match first_word(s, a, vocab_words(v), 0) {
            Some(w) => Some((a, a + w.len(), a + w.len())),
            None => None,
        },
    }
}

/// A run of non-space characters at `a`.
pub open spec fn token_at(s: Seq<char>, a: int) -> Option<(int, int, int)> {
    let b = run_end(s, a, CharClass::NonSpace);
    if b > a {
        Some((a, b, b))
    } else {
        None
    }
}

/// A double-quoted string at `a`: the content lies between the quotes.
pub open spec fn quoted_at(s: Seq<char>, a: int) -> Option<(int, int, int)> {
    if char_at(s, a, '"') {
        let b = run_end(s, a + 1, CharClass::NonQuote);
        if b < s.len() {
            Some((a + 1, b, b + 1))
        } else {
            None
        }
    } else {
        None
    }
}

/// One field at `i`, with the separators around it: its text and the
/// position after it, or a syntax error at the field's start.
pub open spec fn sp_field(s: Seq<char>, i: int, k: FieldKind) -> Result<(Seq<char>, int), ParseError> {
    let a = run_end(s, i, CharClass::Space);
    match field_at(s, a, k) {
        Some((x, y, b)) => Ok((s.subrange(x, y), run_end(s, b, CharClass::Space))),
        None => Err(ParseError::Syntax(a as usize)),
    }
}

/// What a field's text satisfies, by kind.
pub open spec fn field_text_ok(k: FieldKind, t: Seq<char>) -> bool {
    k is Count ==> is_u32_text(t)
}

proof fn lemma_field_at(s: Seq<char>, a: int, k: FieldKind)
    requires
        0 <= a <= s.len(),
    ensures
        field_at(s, a, k) matches Some((x, y, b)) ==> a <= x <= y <= b <= s.len() && b > a
            && field_text_ok(k, s.subrange(x, y)),
{
    lemma_run_end(s, a, CharClass::NonSpace);
    lemma_run_end(s, a, CharClass::Digit);
    if a + 1 <= s.len() {
        lemma_run_end(s, a + 1, CharClass::NonQuote);
    }
    let sa = sign_end(s, a);
    lemma_run_end(s, sa, CharClass::Digit);
    let b = run_end(s, sa, CharClass::Digit);
    if b + 1 <= s.len() {
        lemma_run_end(s, b + 1, CharClass::Digit);
    }
    if sa + 1 <= s.len() {
        lemma_run_end(s, sa + 1, CharClass::Digit);
    }
    if let Some(m) = mantissa_end(s, a) {
        let c = sign_end(s, m + 1);
        if c <= s.len() {
            lemma_run_end(s, c, CharClass::Digit);
        }
    }
    if let FieldKind::Word(v) = k {
        lemma_vocab_nonempty(v);
        lemma_first_word(s, a, vocab_words(v), 0);
    }
    if k is Count {
        let e = run_end(s, a, CharClass::Digit);
        let t = s.subrange(a, e);
        assert forall|m: int| 0 <= m < t.len() implies is_digit(#[trigger] t[m]) by {
            assert(t[m] == s[a + m]);
        }
    }
}

pub proof fn lemma_vocab_nonempty(v: Vocab)
    ensures
        forall|m: int| 0 <= m < vocab_words(v).len() ==> (#[trigger] vocab_words(v)[m]).len() > 0,
{
    reveal_strlit("PANEL_FILE");
    reveal_strlit("LIBRARY_FILE");
    reveal_strlit("BOARD_FILE");
    reveal_strlit("3.0");
    reveal_strlit("THOU");
    reveal_strlit("MM");
    reveal_strlit("ECAD");
    reveal_strlit("MCAD");
    reveal_strlit("UNOWNED");
    reveal_strlit("PTH");
    reveal_strlit("NPTH");
    reveal_strlit("PIN");
    reveal_strlit("VIA");
    reveal_strlit("MTG");
    reveal_strlit("TOOL");
    reveal_strlit("TOP");
    reveal_strlit("BOTTOM");
    reveal_strlit("PLACED");
    reveal_strlit("UNPLACED");
    reveal_strlit("PROP");
}

proof fn lemma_first_word(s: Seq<char>, i: int, ws: Seq<Seq<char>>, n: int)
    requires
        0 <= i,
        forall|m: int| 0 <= m < ws.len() ==> (#[trigger] ws[m]).len() > 0,
    ensures
        first_word(s, i, ws, n) matches Some(w) ==> w.len() > 0 && i + w.len() <= s.len(),
    decreases ws.len() - n,
{
    if 0 <= n < ws.len() && !lit_at(s, i, ws[n]) {
        lemma_first_word(s, i, ws, n + 1);
    }
}

/// Parses one field of kind `k` at `i`, with the separators around it.
pub fn field(s: &Vec<char>, i: usize, k: FieldKind) -> (r: Result<(String, usize), ParseError>)
    requires
        i <= s.len(),
    ensures
        match r {
            Ok((t, j)) => sp_field(s@, i as int, k) == Ok::<(Seq<char>, int), ParseError>((t@, j as int)),
            Err(e) => sp_field(s@, i as int, k) == Err::<(Seq<char>, int), ParseError>(e),
        },
        r matches Ok((t, j)) ==> i < j <= s.len() && field_text_ok(k, t@),
{
    let a = ws(s, i);
    proof {
        lemma_field_at(s@, a as int, k);
    }
    match field_span(s, a, k) {
        Some((x, y, b)) => {
            Ok((string_of(s, x, y), ws(s, b)))
        },
        None => Err(ParseError::Syntax(a)),
    }
}

fn field_span(s: &Vec<char>, a: usize, k: FieldKind) -> (r: Option<(usize, usize, usize)>)
    requires
        a <= s.len(),
    ensures
        match r {
            Some((x, y, b)) => field_at(s@, a as int, k) == Some((x as int, y as int, b as int)),
            None => field_at(s@, a as int, k) is None,
        },
{
    proof {
        lemma_field_at(s@, a as int, k);
    }
    match k {
        FieldKind::Token => token_span(s, a),
        FieldKind::Quoted => quoted_span(s, a),
        FieldKind::Text => match quoted_span(s, a) {
            Some(q) => Some(q),
            None => token_span(s, a),
        },
        FieldKind::Number => match scan_number(s, a) {
            Some(b) => Some((a, b, b)),
            None => None,
        },
        FieldKind::Count => {
            let b = scan(s, a, CharClass::Digit);
            proof {
                lemma_run_end(s@, a as int, CharClass::Digit);
            }
            if b > a {
                match digits_u32(s, a, b) {
                    Some(_) => Some((a, b, b)),
                    None => None,
                }
            } else {
                None
            }
        },
        FieldKind::Word(v) => match match_word(s, a, v) {
            Some(n) => Some((a, a + n, a + n)),
            None => None,
        },
    }
}

fn token_span(s: &Vec<char>, a: usize) -> (r: Option<(usize, usize, usize)>)
    requires
        a <= s.len(),
    ensures
        match r {
            Some((x, y, b)) => field_at(s@, a as int, FieldKind::Token) == Some(
                (x as int, y as int, b as int),
            ),
            None => field_at(s@, a as int, FieldKind::Token) is None,
        },
{
    let b = scan(s, a, CharClass::NonSpace);
    if b > a {
        Some((a, b, b))
    } else {
        None
    }
}

fn quoted_span(s: &Vec<char>, a: usize) -> (r: Option<(usize, usize, usize)>)
    requires
        a <= s.len(),
    ensures
        match r {
            Some((x, y, b)) => quoted_at(s@, a as int) == Some((x as int, y as int, b as int)),
            None => quoted_at(s@, a as int) is None,
        },
{
    if has_char(s, a, '"') {
        let b = scan(s, a + 1, CharClass::NonQuote);
        if b < s.len() {
            Some((a + 1, b, b + 1))
        } else {
            None
        }
    } else {
        None
    }
}

/// A decimal floating-point literal, kept as the text that the document
/// holds: the value is exact, and any floating-point type can be read from it.
#[derive(Clone, Debug, PartialEq)]
pub struct Number {
    text: String,
}

/// The whole of `t` is one decimal floating-point literal.
pub open spec fn is_number_text(t: Seq<char>) -> bool {
    number_end(t, 0) == Some(t.len() as int)
}

impl View for Number {
    type V = Seq<char>;

    closed spec fn view(&self) -> Seq<char> {
        self.text@
    }
}

impl Number {
    pub(crate) fn from_text(text: String) -> (r: Number)
        ensures
            r@ == text@,
    {
        Number { text }
    }

    /// The literal `text`, where it is one.
    pub fn new(text: &str) -> (r: Option<Number>)
        ensures
            r is Some <==> is_number_text(text@),
            r matches Some(n) ==> n@ == text@,
    {
        let cs = to_chars(text);
        match scan_number(&cs, 0) {
            Some(e) => if e == cs.len() {
                Some(Number { text: string_of(&cs, 0, e) })
            } else {
                None
            },
            None => None,
        }
    }

    /// The literal's text.
    pub fn as_str(&self) -> (r: &str)
        ensures
            r@ == self@,
    {
        self.text.as_str()
    }
}

/// The value of a count field's text.
pub fn count_of(t: &String) -> (r: u32)
    requires
        is_u32_text(t@),
    ensures
        r == digits_value(t@),
{
    let cs = to_chars(t.as_str());
    assert(cs@.subrange(0, cs@.len() as int) =~= t@);
    match digits_u32(&cs, 0, cs.len()) {
        Some(v) => v,
        None => 0,
    }
}

/// Parses an owner keyword (ECAD, MCAD or UNOWNED) at the start of `input`;
/// returns what follows it and the keyword.
pub fn owner(input: &str) -> (r: Result<(String, String), ParseError>)
    ensures
        match r {
            Ok((rest, w)) => sp_field(input@, 0, FieldKind::Word(Vocab::Owner)) matches Ok((t, j)) && w@ == t
                && rest@ == input@.subrange(j, input@.len() as int),
            Err(e) => sp_field(input@, 0, FieldKind::Word(Vocab::Owner)) == Err::<(Seq<char>, int), ParseError>(e),
        },
{
    let s = to_chars(input);
    match field(&s, 0, FieldKind::Word(Vocab::Owner)) {
        Err(e) => Err(e),
        Ok((w, j)) => Ok((string_of(&s, j, s.len()), w)),
    }
}

/// Whether the string `t` is exactly `lit`.
pub fn text_is(t: &String, lit: &str) -> (r: bool)
    ensures
        r == (t@ == lit@),
{
    let cs = to_chars(t.as_str());
    let m = match_lit(&cs, 0, lit);
    if m && cs.len() == lit.unicode_len() {
        assert(cs@.subrange(0, lit@.len() as int) =~= cs@);
        true
    } else {
        proof {
            if t@ == lit@ {
                assert(cs@.subrange(0, lit@.len() as int) =~= cs@);
            }
        }
        false
    }
}

} // verus!
