//! Clue description templates.
//!
//! A template is text in which `{tN}` stands for the clue's tile number `N`.
//! This module renders templates from their pieces and parses them back.

use vstd::prelude::*;

verus! {

/// One parsed piece of a template: literal text, or a reference to a tile of the clue.
#[derive(Debug)]
pub enum TemplateElement {
    Label(String),
    Tile(usize),
}

/// The mathematical value of a [`TemplateElement`].
pub enum TemplatePiece {
    Label(Seq<char>),
    Tile(usize),
}

impl View for TemplateElement {
    type V = TemplatePiece;

    open spec fn view(&self) -> TemplatePiece {
        match self {
            TemplateElement::Label(s) => TemplatePiece::Label(s@),
            TemplateElement::Tile(i) => TemplatePiece::Tile(*i),
        }
    }
}

/// The pieces that a vector of elements stands for.
pub open spec fn pieces(v: Seq<TemplateElement>) -> Seq<TemplatePiece> {
    v.map_values(|e: TemplateElement| e@)
}

// ---------------------------------------------------------------------------
// Decimal numbers
// ---------------------------------------------------------------------------

pub open spec fn is_digit(c: char) -> bool {
    '0' <= c <= '9'
}

/// The value of a decimal digit character.
pub open spec fn digit_value(c: char) -> nat {
    (c as int - '0' as int) as nat
}

/// The character of a decimal digit `d < 10`.
pub open spec fn digit_char(d: nat) -> char {
    (d + '0' as nat) as char
}

pub open spec fn all_digits(d: Seq<char>) -> bool {
    forall|i: int| 0 <= i < d.len() ==> is_digit(#[trigger] d[i])
}

/// The number that a string of decimal digits writes, most significant digit first.
pub open spec fn digits_value(d: Seq<char>) -> nat
    decreases d.len(),
{
    if d.len() == 0 {
        0
    } else {
        digits_value(d.drop_last()) * 10 + digit_value(d.last())
    }
}

/// The shortest decimal writing of `n`.
pub open spec fn decimal(n: nat) -> Seq<char>
    decreases n,
{
    if n < 10 {
        seq![digit_char(n)]
    } else {
        decimal(n / 10).push(digit_char(n % 10))
    }
}

/// What is left of `t` once one leading `+` is taken off, where something follows it.
pub open spec fn unsigned_digits(t: Seq<char>) -> Seq<char> {
    if t.len() > 1 && t[0] == '+' {
        t.drop_first()
    } else {
        t
    }
}

/// The value of `t` read as an unsigned machine-size integer: an optional `+`, then one
/// or more decimal digits whose value fits in `usize`; `None` for anything else.
pub open spec fn parse_index(t: Seq<char>) -> Option<usize> {
    let d = unsigned_digits(t);
    if d.len() > 0 && all_digits(d) && digits_value(d) <= usize::MAX {
        Some(digits_value(d) as usize)
    } else {
        None
    }
}

pub proof fn lemma_digit_char(d: nat)
    requires
        d < 10,
    ensures
        is_digit(digit_char(d)),
        digit_value(digit_char(d)) == d,
{
}

/// The decimal writing of `n` is a non-empty string of digits whose value is `n`.
pub proof fn lemma_decimal(n: nat)
    ensures
        decimal(n).len() > 0,
        all_digits(decimal(n)),
        digits_value(decimal(n)) == n,
    decreases n,
{
    if n < 10 {
        lemma_digit_char(n);
        assert(decimal(n).drop_last() =~= Seq::<char>::empty());
        assert(digits_value(Seq::<char>::empty()) == 0);
    } else {
        lemma_decimal(n / 10);
        lemma_digit_char(n % 10);
        let d = decimal(n);
        assert(d.drop_last() =~= decimal(n / 10));
        assert(d.last() == digit_char(n % 10));
        assert((n / 10) * 10 + n % 10 == n) by (nonlinear_arith);
        assert forall|i: int| 0 <= i < d.len() implies is_digit(#[trigger] d[i]) by {
            if i < d.len() - 1 {
                assert(d[i] == decimal(n / 10)[i]);
            }
        }
    }
}

/// Reading back the decimal writing of a `usize` gives the number.
pub proof fn lemma_parse_decimal(n: usize)
    ensures
        parse_index(decimal(n as nat)) == Some(n),
{
    lemma_decimal(n as nat);
    let d = decimal(n as nat);
    assert(is_digit(d[0]));
    assert(unsigned_digits(d) == d);
}

/// A prefix of a string of digits writes a number no larger than the whole.
pub proof fn lemma_digits_value_prefix(d: Seq<char>, m: int)
    requires
        0 <= m <= d.len(),
    ensures
        digits_value(d.take(m)) <= digits_value(d),
    decreases d.len() - m,
{
    if m < d.len() {
        lemma_digits_value_prefix(d, m + 1);
        assert(d.take(m + 1).drop_last() =~= d.take(m));
    } else {
        assert(d.take(m) =~= d);
    }
}


// ---------------------------------------------------------------------------
// Parsing
// ---------------------------------------------------------------------------

/// `s` with its leading `t` characters taken off.
pub open spec fn trim_leading_t(s: Seq<char>) -> Seq<char>
    decreases s.len(),
{
    if s.len() > 0 && s[0] == 't' {
        trim_leading_t(s.drop_first())
    } else {
        s
    }
}

/// The position of the first `}` in `s`, or `s.len()` where there is none.
pub open spec fn close_offset(s: Seq<char>) -> nat
    decreases s.len(),
{
    if s.len() == 0 || s[0] == '}' {
        0
    } else {
        1 + close_offset(s.drop_first())
    }
}

pub proof fn lemma_close_offset_bound(s: Seq<char>)
    ensures
        close_offset(s) <= s.len(),
        close_offset(s) < s.len() ==> s[close_offset(s) as int] == '}',
        forall|q: int| 0 <= q < close_offset(s) ==> s[q] != '}',
    decreases s.len(),
{
    if s.len() > 0 && s[0] != '}' {
        lemma_close_offset_bound(s.drop_first());
        assert forall|q: int| 0 <= q < close_offset(s) implies s[q] != '}' by {
            if q > 0 {
                assert(s[q] == s.drop_first()[q - 1]);
            }
        }
    }
}

/// The label for text gathered so far: none where nothing was gathered.
pub open spec fn flush(cur: Seq<char>) -> Seq<TemplatePiece> {
    if cur.len() == 0 {
        Seq::empty()
    } else {
        seq![TemplatePiece::Label(cur)]
    }
}

/// What a token between braces stands for: a tile where, once its leading `t`s are
/// taken off, it reads as a number; nothing otherwise.
pub open spec fn token_pieces(token: Seq<char>) -> Seq<TemplatePiece> {
    match parse_index(trim_leading_t(token)) {
        Some(i) => seq![TemplatePiece::Tile(i)],
        None => Seq::empty(),
    }
}

/// The pieces of `s`, where `cur` is the text gathered since the last token.
///
/// Text outside braces gathers into labels; a `{` ends the label and opens a token that
/// runs to the next `}`, or to the end of the template where no `}` follows.
pub open spec fn parse_from(s: Seq<char>, cur: Seq<char>) -> Seq<TemplatePiece>
    decreases s.len(),
{
    if s.len() == 0 {
        flush(cur)
    } else if s[0] == '{' {
        let body = s.drop_first();
        let k = close_offset(body);
        proof {
            lemma_close_offset_bound(body);
        }
        let after = if k < body.len() {
            body.skip(k + 1int)
        } else {
            Seq::empty()
        };
        flush(cur) + token_pieces(body.take(k as int)) + parse_from(after, Seq::empty())
    } else {
        parse_from(s.drop_first(), cur.push(s[0]))
    }
}

/// The pieces of a whole template.
pub open spec fn parse_template(s: Seq<char>) -> Seq<TemplatePiece> {
    parse_from(s, Seq::empty())
}

// ---------------------------------------------------------------------------
// Rendering
// ---------------------------------------------------------------------------

/// The token `{tN}` for tile `N`.
pub open spec fn tile_token(i: usize) -> Seq<char> {
    seq!['{', 't'] + decimal(i as nat) + seq!['}']
}

pub open spec fn piece_text(p: TemplatePiece) -> Seq<char> {
    match p {
        TemplatePiece::Label(t) => t,
        TemplatePiece::Tile(i) => tile_token(i),
    }
}

/// The template text that writes the given pieces one after the other.
pub open spec fn render(ps: Seq<TemplatePiece>) -> Seq<char>
    decreases ps.len(),
{
    if ps.len() == 0 {
        Seq::empty()
    } else {
        render(ps.drop_last()) + piece_text(ps.last())
    }
}

/// Pieces that a template can be written from and read back unchanged: every label is
/// non-empty and holds no `{`, and no two labels follow each other.
pub open spec fn well_formed_pieces(ps: Seq<TemplatePiece>) -> bool {
    &&& forall|i: int|
        0 <= i < ps.len() ==> (#[trigger] ps[i] matches TemplatePiece::Label(t) ==> t.len() > 0
            && !t.contains('{'))
    &&& forall|i: int|
        0 <= i < ps.len() - 1 ==> !(#[trigger] ps[i] is Label && ps[i + 1] is Label)
}

pub proof fn lemma_render_append(a: Seq<TemplatePiece>, b: Seq<TemplatePiece>)
    ensures
        render(a + b) == render(a) + render(b),
    decreases b.len(),
{
    if b.len() == 0 {
        assert(a + b =~= a);
        assert(render(a) + render(b) =~= render(a));
    } else {
        lemma_render_append(a, b.drop_last());
        assert((a + b).drop_last() =~= a + b.drop_last());
        assert((a + b).last() == b.last());
        assert(render(a) + render(b.drop_last()) + piece_text(b.last()) =~= render(a) + (render(
            b.drop_last(),
        ) + piece_text(b.last())));
    }
}

/// Text without `{` only gathers into the current label.
proof fn lemma_parse_text(t: Seq<char>, rest: Seq<char>, cur: Seq<char>)
    requires
        !t.contains('{'),
    ensures
        parse_from(t + rest, cur) == parse_from(rest, cur + t),
    decreases t.len(),
{
    if t.len() == 0 {
        assert(t + rest =~= rest);
        assert(cur + t =~= cur);
    } else {
        assert((t + rest)[0] == t[0]);
        assert((t + rest).drop_first() =~= t.drop_first() + rest);
        assert(cur.push(t[0]) + t.drop_first() =~= cur + t);
        assert(!t.drop_first().contains('{')) by {
            if t.drop_first().contains('{') {
                let q = choose|q: int| 0 <= q < t.drop_first().len() && t.drop_first()[q] == '{';
                assert(t[q + 1] == '{');
            }
        }
        lemma_parse_text(t.drop_first(), rest, cur.push(t[0]));
    }
}

proof fn lemma_close_offset_of(a: Seq<char>, b: Seq<char>)
    requires
        !a.contains('}'),
    ensures
        close_offset(a + seq!['}'] + b) == a.len(),
    decreases a.len(),
{
    let s = a + seq!['}'] + b;
    if a.len() == 0 {
        assert(s[0] == '}');
    } else {
        assert(s[0] == a[0]);
        assert(s.drop_first() =~= a.drop_first() + seq!['}'] + b);
        assert(!a.drop_first().contains('}')) by {
            if a.drop_first().contains('}') {
                let q = choose|q: int| 0 <= q < a.drop_first().len() && a.drop_first()[q] == '}';
                assert(a[q + 1] == '}');
            }
        }
        lemma_close_offset_of(a.drop_first(), b);
    }
}

/// A tile token reads back as its tile, and parsing goes on right after it.
proof fn lemma_parse_tile(i: usize, rest: Seq<char>, cur: Seq<char>)
    ensures
        parse_from(tile_token(i) + rest, cur) == flush(cur) + seq![TemplatePiece::Tile(i)]
            + parse_from(rest, Seq::empty()),
{
    let d = decimal(i as nat);
    lemma_decimal(i as nat);
    lemma_parse_decimal(i);
    let s = tile_token(i) + rest;
    let a = seq!['t'] + d;
    assert(s[0] == '{');
    let body = s.drop_first();
    assert(body =~= a + seq!['}'] + rest);
    assert(!a.contains('}')) by {
        if a.contains('}') {
            let q = choose|q: int| 0 <= q < a.len() && a[q] == '}';
            if q > 0 {
                assert(d[q - 1] == a[q]);
                assert(is_digit(d[q - 1]));
            }
        }
    }
    lemma_close_offset_of(a, rest);
    let k = close_offset(body);
    assert(k == d.len() + 1);
    assert(body.take(k as int) =~= a);
    assert(body.skip(k + 1int) =~= rest);
    assert(a.drop_first() =~= d);
    assert(is_digit(d[0]));
    assert(trim_leading_t(a) == trim_leading_t(d));
    assert(trim_leading_t(d) == d);
    assert(token_pieces(a) =~= seq![TemplatePiece::Tile(i)]);
}

proof fn lemma_well_formed_rest(ps: Seq<TemplatePiece>)
    requires
        well_formed_pieces(ps),
        ps.len() > 0,
    ensures
        well_formed_pieces(ps.drop_first()),
{
    let rest = ps.drop_first();
    assert forall|i: int| 0 <= i < rest.len() implies (#[trigger] rest[i] matches TemplatePiece::Label(
        t,
    ) ==> t.len() > 0 && !t.contains('{')) by {
        assert(rest[i] == ps[i + 1]);
    }
    assert forall|i: int| 0 <= i < rest.len() - 1 implies !(#[trigger] rest[i] is Label && rest[i
        + 1] is Label) by {
        assert(rest[i] == ps[i + 1]);
        assert(rest[i + 1] == ps[i + 2]);
    }
}

proof fn lemma_render_front(ps: Seq<TemplatePiece>)
    requires
        ps.len() > 0,
    ensures
        render(ps) == piece_text(ps[0]) + render(ps.drop_first()),
{
    let rest = ps.drop_first();
    assert(ps =~= seq![ps[0]] + rest);
    lemma_render_append(seq![ps[0]], rest);
    assert(seq![ps[0]].drop_last() =~= Seq::<TemplatePiece>::empty());
    assert(seq![ps[0]].last() == ps[0]);
    assert(render(Seq::<TemplatePiece>::empty()) == Seq::<char>::empty());
    assert(render(seq![ps[0]]) =~= piece_text(ps[0]));
}

proof fn lemma_parse_render_from(ps: Seq<TemplatePiece>, cur: Seq<char>)
    requires
        well_formed_pieces(ps),
        cur.len() > 0 ==> ps.len() == 0 || ps[0] is Tile,
    ensures
        parse_from(render(ps), cur) == flush(cur) + ps,
    decreases ps.len(),
{
    if ps.len() == 0 {
        assert(flush(cur) + ps =~= flush(cur));
    } else {
        let rest = ps.drop_first();
        lemma_render_front(ps);
        lemma_well_formed_rest(ps);
        match ps[0] {
            TemplatePiece::Label(t) => {
                assert(ps[0] is Label);
                assert(t.len() > 0 && !t.contains('{'));
                lemma_parse_text(t, render(rest), cur);
                assert(cur + t =~= t);
                if rest.len() > 0 {
                    assert(rest[0] == ps[1]);
                    assert(!(ps[0] is Label && ps[1] is Label));
                }
                lemma_parse_render_from(rest, t);
                assert(flush(cur) + ps =~= flush(t) + rest);
            },
            TemplatePiece::Tile(i) => {
                lemma_parse_tile(i, render(rest), cur);
                lemma_parse_render_from(rest, Seq::empty());
                assert(flush(Seq::<char>::empty()) =~= Seq::<TemplatePiece>::empty());
                assert(flush(cur) + seq![TemplatePiece::Tile(i)] + (flush(Seq::<char>::empty())
                    + rest) =~= flush(cur) + ps);
            },
        }
    }
}

/// Reading a template back gives the pieces it was written from, for any well-formed
/// pieces.
pub proof fn lemma_parse_render(ps: Seq<TemplatePiece>)
    requires
        well_formed_pieces(ps),
    ensures
        parse_template(render(ps)) == ps,
{
    lemma_parse_render_from(ps, Seq::empty());
    assert(flush(Seq::<char>::empty()) + ps =~= ps);
}


/// Every label among the pieces is non-empty and holds no `{`.
pub open spec fn labels_plain(ps: Seq<TemplatePiece>) -> bool {
    forall|i: int|
        0 <= i < ps.len() ==> (#[trigger] ps[i] matches TemplatePiece::Label(t) ==> t.len() > 0
            && !t.contains('{'))
}

proof fn lemma_labels_plain_concat(a: Seq<TemplatePiece>, b: Seq<TemplatePiece>)
    requires
        labels_plain(a),
        labels_plain(b),
    ensures
        labels_plain(a + b),
{
    assert forall|i: int| 0 <= i < (a + b).len() implies (#[trigger] (a + b)[i] matches TemplatePiece::Label(
        t,
    ) ==> t.len() > 0 && !t.contains('{')) by {
        if i < a.len() {
            assert((a + b)[i] == a[i]);
        } else {
            assert((a + b)[i] == b[i - a.len()]);
        }
    }
}

proof fn lemma_parse_from_labels_plain(s: Seq<char>, cur: Seq<char>)
    requires
        !cur.contains('{'),
    ensures
        labels_plain(parse_from(s, cur)),
    decreases s.len(),
{
    if s.len() == 0 {
    } else if s[0] == '{' {
        let body = s.drop_first();
        let k = close_offset(body);
        lemma_close_offset_bound(body);
        let after = if k < body.len() {
            body.skip(k + 1int)
        } else {
            Seq::empty()
        };
        lemma_parse_from_labels_plain(after, Seq::empty());
        let tp = token_pieces(body.take(k as int));
        assert(labels_plain(tp));
        lemma_labels_plain_concat(flush(cur), tp);
        lemma_labels_plain_concat(flush(cur) + tp, parse_from(after, Seq::empty()));
    } else {
        assert(!cur.push(s[0]).contains('{')) by {
            if cur.push(s[0]).contains('{') {
                let q = choose|q: int| 0 <= q < cur.push(s[0]).len() && cur.push(s[0])[q] == '{';
                if q < cur.len() {
                    assert(cur[q] == '{');
                }
            }
        }
        lemma_parse_from_labels_plain(s.drop_first(), cur.push(s[0]));
    }
}

/// Every label the parser yields is non-empty and holds no `{`.
pub proof fn lemma_parse_labels_plain(s: Seq<char>)
    ensures
        labels_plain(parse_template(s)),
{
    lemma_parse_from_labels_plain(s, Seq::empty());
}

// ---------------------------------------------------------------------------
// Executable parsing
// ---------------------------------------------------------------------------

/// The characters of `s`, in order.
fn chars_of(s: &str) -> (v: Vec<char>)
    ensures
        v@ == s@,
{
    broadcast use vstd::string::group_string_axioms;

    let mut v: Vec<char> = Vec::new();
    for c in it: s.chars()
        invariant
            it.seq() == s@,
            v@ == it.seq().take(it.index() as int),
    {
        v.push(c);
        assert(v@ =~= it.seq().take(it.index() + 1));
    }
    assert(v@ =~= s@);
    v
}


/// Reads `chars[start..end]` as an unsigned machine-size integer.
fn parse_index_at(chars: &Vec<char>, start: usize, end: usize) -> (r: Option<usize>)
    requires
        start <= end <= chars@.len(),
    ensures
        r == parse_index(chars@.subrange(start as int, end as int)),
{
    let ghost t = chars@.subrange(start as int, end as int);
    let mut k = start;
    if end - start > 1 && chars[start] == '+' {
        k = start + 1;
    }
    let ghost d0 = k as int;
    assert(unsigned_digits(t) =~= chars@.subrange(d0, end as int));
    let ghost d = chars@.subrange(d0, end as int);
    if k == end {
        return None;
    }
    let mut acc: usize = 0;
    assert(d.take(0) =~= Seq::<char>::empty());
    while k < end
        invariant
            0 <= d0 <= k <= end <= chars@.len(),
            d == chars@.subrange(d0, end as int),
            d.len() == end - d0,
            t == chars@.subrange(start as int, end as int),
            unsigned_digits(t) == d,
            d.len() > 0,
            all_digits(d.take(k - d0)),
            acc == digits_value(d.take(k - d0)),
        decreases end - k,
    {
        let c = chars[k];
        let ghost m = k - d0;
        assert(d[m] == c);
        if !('0' <= c && c <= '9') {
            assert(!is_digit(d[m]));
            assert(!all_digits(d));
            return None;
        }
        let dv = (c as u32 - '0' as u32) as usize;
        assert(d.take(m + 1).drop_last() =~= d.take(m));
        assert(d.take(m + 1).last() == c);
        assert(digits_value(d.take(m + 1)) == acc * 10 + dv);
        assert forall|i: int| 0 <= i < d.take(m + 1).len() implies is_digit(
            #[trigger] d.take(m + 1)[i],
        ) by {
            if i < m {
                assert(d.take(m + 1)[i] == d.take(m)[i]);
            }
        }
        let next = match acc.checked_mul(10) {
            Some(a) => a.checked_add(dv),
            None => None,
        };
        match next {
            Some(v) => {
                acc = v;
            },
            None => {
                proof {
                    if all_digits(d) {
                        lemma_digits_value_prefix(d, m + 1);
                    }
                }
                return None;
            },
        }
        k = k + 1;
    }
    assert(d.take(d.len() as int) =~= d);
    Some(acc)
}

/// Splits a template into literal labels and tile references.
///
/// Text outside braces becomes labels; `{tN}` (any number of leading `t`s, then an
/// optional `+` and decimal digits) becomes tile `N`; a token that does not read as a
/// number is dropped; a `{` with no closing `}` takes the rest of the template as its token.
pub fn parse_template_elements(template: &str) -> (elements: Vec<TemplateElement>)
    ensures
        pieces(elements@) == parse_template(template@),
{
    let chars = chars_of(template);
    let n = chars.len();
    let mut elements: Vec<TemplateElement> = Vec::new();
    let mut text_start: usize = 0;
    let mut i: usize = 0;
    let ghost whole = chars@;
    assert(whole.skip(0) =~= whole);
    assert(whole.subrange(0, 0) =~= Seq::<char>::empty());
    while i < n
        invariant
            0 <= text_start <= i <= n,
            n == whole.len(),
            whole == chars@,
            whole == template@,
            pieces(elements@) + parse_from(whole.skip(i as int), whole.subrange(
                text_start as int,
                i as int,
            )) == parse_template(whole),
        decreases n - i,
    {
        let ghost s = whole.skip(i as int);
        let ghost cur = whole.subrange(text_start as int, i as int);
        assert(s[0] == chars[i as int]);
        if chars[i] == '{' {
            let ghost before = pieces(elements@);
            if text_start < i {
                let label = String::from_str(template.substring_char(text_start, i));
                elements.push(TemplateElement::Label(label));
            }
            assert(pieces(elements@) =~= before + flush(cur));
            let mut j = i + 1;
            while j < n && chars[j] != '}'
                invariant
                    i < j <= n,
                    n == chars@.len(),
                    forall|q: int| i < q < j ==> chars@[q] != '}',
                decreases n - j,
            {
                j = j + 1;
            }
            let ghost body = s.drop_first();
            assert(body =~= whole.skip(i + 1));
            proof {
                lemma_close_offset_bound(body);
                let k = close_offset(body) as int;
                if k < j - (i + 1) {
                    assert(body[k] == chars@[i + 1 + k]);
                }
                if k > j - (i + 1) {
                    assert(body[j - (i + 1)] == chars@[j as int]);
                }
                assert(k == j - (i + 1));
            }
            let ghost token = chars@.subrange(i + 1, j as int);
            assert(body.take(j - (i + 1)) =~= token);
            let mut p = i + 1;
            while p < j && chars[p] == 't'
                invariant
                    i + 1 <= p <= j <= n,
                    n == chars@.len(),
                    trim_leading_t(token) == trim_leading_t(chars@.subrange(p as int, j as int)),
                decreases j - p,
            {
                assert(chars@.subrange(p as int, j as int).drop_first() =~= chars@.subrange(
                    p + 1,
                    j as int,
                ));
                p = p + 1;
            }
            assert(trim_leading_t(chars@.subrange(p as int, j as int)) == chars@.subrange(
                p as int,
                j as int,
            ));
            let ghost mid = pieces(elements@);
            match parse_index_at(&chars, p, j) {
                Some(idx) => {
                    elements.push(TemplateElement::Tile(idx));
                },
                None => {},
            }
            assert(pieces(elements@) =~= mid + token_pieces(token));
            if j < n {
                assert(body.skip(j - (i + 1) + 1) =~= whole.skip(j + 1));
                i = j + 1;
            } else {
                assert(whole.skip(n as int) =~= Seq::<char>::empty());
                i = j;
            }
            text_start = i;
            assert(whole.subrange(i as int, i as int) =~= Seq::<char>::empty());
        } else {
            assert(s.drop_first() =~= whole.skip(i + 1));
            assert(cur.push(s[0]) =~= whole.subrange(text_start as int, i + 1));
            i = i + 1;
        }
    }
    let ghost before = pieces(elements@);
    if text_start < n {
        let label = String::from_str(template.substring_char(text_start, n));
        elements.push(TemplateElement::Label(label));
    }
    assert(pieces(elements@) =~= before + flush(whole.subrange(text_start as int, n as int)));
    elements
}


// ---------------------------------------------------------------------------
// Executable rendering
// ---------------------------------------------------------------------------

/// Appends the decimal writing of `n`.
pub fn push_decimal(s: &mut String, n: usize)
    ensures
        final(s)@ == old(s)@ + decimal(n as nat),
    decreases n,
{
    if n >= 10 {
        push_decimal(s, n / 10);
    }
    let d = n % 10;
    let digits = "0123456789";
    proof {
        reveal_strlit("0123456789");
    }
    let digit = digits.substring_char(d, d + 1);
    assert(digit@ =~= seq![digit_char(d as nat)]);
    s.append(digit);
    assert(s@ =~= old(s)@ + decimal(n as nat));
}

/// Appends the token `{tN}` for tile `N`.
pub fn push_tile_token(s: &mut String, i: usize)
    ensures
        final(s)@ == old(s)@ + tile_token(i),
{
    let open = "{t";
    let close = "}";
    proof {
        reveal_strlit("{t");
        reveal_strlit("}");
    }
    s.append(open);
    push_decimal(s, i);
    s.append(close);
    assert(s@ =~= old(s)@ + tile_token(i));
}


pub proof fn lemma_render_push(ps: Seq<TemplatePiece>, p: TemplatePiece)
    ensures
        render(ps.push(p)) == render(ps) + piece_text(p),
{
    assert(ps.push(p).drop_last() =~= ps);
    assert(ps.push(p).last() == p);
}

/// Writes the template for the given elements: labels as they are, tiles as `{tN}`.
pub fn render_template(elements: &Vec<TemplateElement>) -> (t: String)
    ensures
        t@ == render(pieces(elements@)),
{
    let mut s = String::new();
    let n = elements.len();
    assert(pieces(elements@).take(0) =~= Seq::<TemplatePiece>::empty());
    for k in 0..n
        invariant
            n == elements@.len(),
            s@ == render(pieces(elements@).take(k as int)),
    {
        let ghost before = pieces(elements@).take(k as int);
        match &elements[k] {
            TemplateElement::Label(text) => {
                s.append(text.as_str());
            },
            TemplateElement::Tile(i) => {
                push_tile_token(&mut s, *i);
            },
        }
        proof {
            assert(pieces(elements@).take(k + 1) =~= before.push(elements@[k as int]@));
            lemma_render_push(before, elements@[k as int]@);
        }
    }
    assert(pieces(elements@).take(n as int) =~= pieces(elements@));
    s
}

} // verus!
