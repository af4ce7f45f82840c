//! The description shown in a clue's tooltip: a template naming the clue's tiles.

use vstd::prelude::*;

use crate::model::{
    Clue, ClueSpec, ClueType, HorizontalClueType, TileAssertion, VerticalClueType,
};
use crate::template::{
    lemma_parse_render, parse_template, pieces, render, render_template, well_formed_pieces,
    TemplateElement, TemplatePiece,
};

verus! {

/// The positions, in order, of the assertions whose flag is `flag`.
pub open spec fn indices_where(a: Seq<TileAssertion>, flag: bool) -> Seq<usize>
    decreases a.len(),
{
    if a.len() == 0 {
        Seq::empty()
    } else if a.last().assertion == flag {
        indices_where(a.drop_last(), flag).push((a.len() - 1) as usize)
    } else {
        indices_where(a.drop_last(), flag)
    }
}

/// Whether a clue can be described: a column clue "two in a column, without a third"
/// must assert exactly two tiles and deny exactly one.
pub open spec fn description_defined(c: ClueSpec) -> bool {
    c.clue_type == ClueType::Vertical(VerticalClueType::TwoInColumnWithout) ==> {
        &&& indices_where(c.assertions, true).len() == 2
        &&& indices_where(c.assertions, false).len() == 1
    }
}

/// `{t0} {t1} ... {tN-1}`: the first `n` tiles, one space between each two.
pub open spec fn numbered_tiles(n: nat) -> Seq<TemplatePiece>
    decreases n,
{
    if n == 0 {
        Seq::empty()
    } else if n == 1 {
        seq![TemplatePiece::Tile(0)]
    } else {
        numbered_tiles((n - 1) as nat).push(TemplatePiece::Label(seq![' '])).push(
            TemplatePiece::Tile((n - 1) as usize),
        )
    }
}

pub open spec fn label(s: &str) -> TemplatePiece {
    TemplatePiece::Label(s@)
}

/// The pieces of a clue's description, by the kind of clue.
pub open spec fn description_pieces(c: ClueSpec) -> Seq<TemplatePiece> {
    let n = c.assertions.len();
    match c.clue_type {
        ClueType::Horizontal(h) => match h {
            HorizontalClueType::TwoAdjacent | HorizontalClueType::ThreeAdjacent => numbered_tiles(
                n,
            ).push(label(" are adjacent (forward, backward).")),
            HorizontalClueType::TwoApartNotMiddle => seq![
                TemplatePiece::Tile(0),
                label(" is two away from "),
                TemplatePiece::Tile(2),
                label(", without "),
                TemplatePiece::Tile(1),
                label(" in the middle (forward, backward)."),
            ],
            HorizontalClueType::LeftOf => seq![
                TemplatePiece::Tile(0),
                label(" is left of "),
                TemplatePiece::Tile(1),
                label(" (any number of tiles in between)."),
            ],
            HorizontalClueType::NotAdjacent => seq![
                TemplatePiece::Tile(0),
                label(" is not next to "),
                TemplatePiece::Tile(1),
                label(" (forward, backward)."),
            ],
        },
        ClueType::Vertical(v) => match v {
            VerticalClueType::ThreeInColumn | VerticalClueType::TwoInColumn => numbered_tiles(
                n,
            ).push(label(" are in the same column.")),
            VerticalClueType::TwoInColumnWithout => {
                let pos = indices_where(c.assertions, true);
                let neg = indices_where(c.assertions, false);
                seq![
                    TemplatePiece::Tile(pos[0]),
                    label(" and "),
                    TemplatePiece::Tile(pos[1]),
                    label(" are in the same column, but "),
                    TemplatePiece::Tile(neg[0]),
                    label(" isn't."),
                ]
            },
            VerticalClueType::NotInSameColumn => seq![
                TemplatePiece::Tile(0),
                label(" is not in the same column as "),
                TemplatePiece::Tile(1),
            ],
            VerticalClueType::OneMatchesEither => seq![
                TemplatePiece::Tile(0),
                label(" is either in the same column as "),
                TemplatePiece::Tile(1),
                label(" or "),
                TemplatePiece::Tile(2),
                label(", but not both."),
            ],
        },
    }
}

fn push_label(v: &mut Vec<TemplateElement>, text: &str)
    ensures
        pieces(final(v)@) == pieces(old(v)@).push(TemplatePiece::Label(text@)),
{
    v.push(TemplateElement::Label(String::from_str(text)));
    assert(pieces(v@) =~= pieces(old(v)@).push(TemplatePiece::Label(text@)));
}

fn push_tile(v: &mut Vec<TemplateElement>, i: usize)
    ensures
        pieces(final(v)@) == pieces(old(v)@).push(TemplatePiece::Tile(i)),
{
    v.push(TemplateElement::Tile(i));
    assert(pieces(v@) =~= pieces(old(v)@).push(TemplatePiece::Tile(i)));
}

/// Appends `{t0} {t1} ... {tN-1}` as elements.
fn push_numbered_tiles(v: &mut Vec<TemplateElement>, n: usize)
    ensures
        pieces(final(v)@) == pieces(old(v)@) + numbered_tiles(n as nat),
{
    let ghost start = pieces(v@);
    assert(start + numbered_tiles(0) =~= start);
    for i in 0..n
        invariant
            pieces(v@) == start + numbered_tiles(i as nat),
    {
        let ghost prev = pieces(v@);
        if i > 0 {
            push_label(v, " ");
            proof {
                reveal_strlit(" ");
            }
            assert(" "@ =~= seq![' ']);
            push_tile(v, i);
            assert(numbered_tiles((i + 1) as nat) == numbered_tiles(i as nat).push(
                TemplatePiece::Label(seq![' ']),
            ).push(TemplatePiece::Tile(i)));
        } else {
            push_tile(v, i);
            assert(numbered_tiles(0) =~= Seq::<TemplatePiece>::empty());
            assert(numbered_tiles(1) =~= seq![TemplatePiece::Tile(0)]);
        }
        assert(pieces(v@) =~= start + numbered_tiles((i + 1) as nat));
    }
}

/// The positions of the assertions whose flag is `flag`.
fn positions_where(a: &Vec<TileAssertion>, flag: bool) -> (r: Vec<usize>)
    ensures
        r@ == indices_where(a@, flag),
{
    let mut r: Vec<usize> = Vec::new();
    let n = a.len();
    assert(a@.take(0) =~= Seq::<TileAssertion>::empty());
    for i in 0..n
        invariant
            n == a@.len(),
            r@ == indices_where(a@.take(i as int), flag),
    {
        assert(a@.take(i + 1).drop_last() =~= a@.take(i as int));
        if a[i].assertion == flag {
            r.push(i);
        }
    }
    assert(a@.take(n as int) =~= a@);
    r
}

/// The pieces of a clue's tooltip description.
pub fn description_elements(clue: &Clue) -> (v: Vec<TemplateElement>)
    requires
        description_defined(clue@),
    ensures
        pieces(v@) == description_pieces(clue@),
{
    let mut v: Vec<TemplateElement> = Vec::new();
    assert(pieces(v@) =~= Seq::<TemplatePiece>::empty());
    match clue.clue_type {
        ClueType::Horizontal(h) => match h {
            HorizontalClueType::TwoAdjacent | HorizontalClueType::ThreeAdjacent => {
                push_numbered_tiles(&mut v, clue.assertions.len());
                push_label(&mut v, " are adjacent (forward, backward).");
                assert(numbered_tiles(clue.assertions@.len()) + Seq::<TemplatePiece>::empty()
                    =~= numbered_tiles(clue.assertions@.len()));
            },
            HorizontalClueType::TwoApartNotMiddle => {
                push_tile(&mut v, 0);
                push_label(&mut v, " is two away from ");
                push_tile(&mut v, 2);
                push_label(&mut v, ", without ");
                push_tile(&mut v, 1);
                push_label(&mut v, " in the middle (forward, backward).");
            },
            HorizontalClueType::LeftOf => {
                push_tile(&mut v, 0);
                push_label(&mut v, " is left of ");
                push_tile(&mut v, 1);
                push_label(&mut v, " (any number of tiles in between).");
            },
            HorizontalClueType::NotAdjacent => {
                push_tile(&mut v, 0);
                push_label(&mut v, " is not next to ");
                push_tile(&mut v, 1);
                push_label(&mut v, " (forward, backward).");
            },
        },
        ClueType::Vertical(vt) => match vt {
            VerticalClueType::ThreeInColumn | VerticalClueType::TwoInColumn => {
                push_numbered_tiles(&mut v, clue.assertions.len());
                push_label(&mut v, " are in the same column.");
                assert(numbered_tiles(clue.assertions@.len()) + Seq::<TemplatePiece>::empty()
                    =~= numbered_tiles(clue.assertions@.len()));
            },
            VerticalClueType::TwoInColumnWithout => {
                let pos = positions_where(&clue.assertions, true);
                let neg = positions_where(&clue.assertions, false);
                push_tile(&mut v, pos[0]);
                push_label(&mut v, " and ");
                push_tile(&mut v, pos[1]);
                push_label(&mut v, " are in the same column, but ");
                push_tile(&mut v, neg[0]);
                push_label(&mut v, " isn't.");
            },
            VerticalClueType::NotInSameColumn => {
                push_tile(&mut v, 0);
                push_label(&mut v, " is not in the same column as ");
                push_tile(&mut v, 1);
            },
            VerticalClueType::OneMatchesEither => {
                push_tile(&mut v, 0);
                push_label(&mut v, " is either in the same column as ");
                push_tile(&mut v, 1);
                push_label(&mut v, " or ");
                push_tile(&mut v, 2);
                push_label(&mut v, ", but not both.");
            },
        },
    }
    v
}

/// The tooltip description template of a clue, such as
/// `{t0} is left of {t1} (any number of tiles in between).`
pub fn description_template(clue: &Clue) -> (t: String)
    requires
        description_defined(clue@),
    ensures
        t@ == render(description_pieces(clue@)),
{
    let elements = description_elements(clue);
    render_template(&elements)
}


/// A label that can stand in a template: non-empty and without `{`.
pub open spec fn plain_label(t: Seq<char>) -> bool {
    t.len() > 0 && !t.contains('{')
}

proof fn lemma_push_label(ps: Seq<TemplatePiece>, t: Seq<char>)
    requires
        well_formed_pieces(ps),
        ps.len() == 0 || ps.last() is Tile,
        plain_label(t),
    ensures
        well_formed_pieces(ps.push(TemplatePiece::Label(t))),
{
    let qs = ps.push(TemplatePiece::Label(t));
    assert forall|i: int| 0 <= i < qs.len() - 1 implies !(#[trigger] qs[i] is Label && qs[i
        + 1] is Label) by {
        if i < ps.len() - 1 {
            assert(qs[i] == ps[i] && qs[i + 1] == ps[i + 1]);
        }
    }
    assert forall|i: int| 0 <= i < qs.len() implies (#[trigger] qs[i] matches TemplatePiece::Label(u)
        ==> u.len() > 0 && !u.contains('{')) by {
        if i < ps.len() {
            assert(qs[i] == ps[i]);
        }
    }
}

proof fn lemma_push_tile(ps: Seq<TemplatePiece>, n: usize)
    requires
        well_formed_pieces(ps),
    ensures
        well_formed_pieces(ps.push(TemplatePiece::Tile(n))),
{
    let qs = ps.push(TemplatePiece::Tile(n));
    assert forall|i: int| 0 <= i < qs.len() - 1 implies !(#[trigger] qs[i] is Label && qs[i
        + 1] is Label) by {
        if i < ps.len() - 1 {
            assert(qs[i] == ps[i] && qs[i + 1] == ps[i + 1]);
        }
    }
    assert forall|i: int| 0 <= i < qs.len() implies (#[trigger] qs[i] matches TemplatePiece::Label(u)
        ==> u.len() > 0 && !u.contains('{')) by {
        if i < ps.len() {
            assert(qs[i] == ps[i]);
        }
    }
}

proof fn lemma_numbered_tiles(n: nat)
    ensures
        well_formed_pieces(numbered_tiles(n)),
        n > 0 ==> numbered_tiles(n).last() is Tile,
        n == 0 ==> numbered_tiles(n).len() == 0,
    decreases n,
{
    if n == 1 {
        lemma_push_tile(Seq::empty(), 0);
        assert(Seq::<TemplatePiece>::empty().push(TemplatePiece::Tile(0)) =~= seq![
            TemplatePiece::Tile(0),
        ]);
    } else if n > 1 {
        lemma_numbered_tiles((n - 1) as nat);
        let ps = numbered_tiles((n - 1) as nat);
        assert(plain_label(seq![' '])) by {
            assert(seq![' '][0] != '{');
        }
        lemma_push_label(ps, seq![' ']);
        lemma_push_tile(ps.push(TemplatePiece::Label(seq![' '])), (n - 1) as usize);
    }
}

proof fn lemma_description_labels()
    ensures
        plain_label(" are adjacent (forward, backward)."@),
        plain_label(" is two away from "@),
        plain_label(", without "@),
        plain_label(" in the middle (forward, backward)."@),
        plain_label(" is left of "@),
        plain_label(" (any number of tiles in between)."@),
        plain_label(" is not next to "@),
        plain_label(" (forward, backward)."@),
        plain_label(" are in the same column."@),
        plain_label(" and "@),
        plain_label(" are in the same column, but "@),
        plain_label(" isn't."@),
        plain_label(" is not in the same column as "@),
        plain_label(" is either in the same column as "@),
        plain_label(" or "@),
        plain_label(", but not both."@),
{
    reveal_strlit(" are adjacent (forward, backward).");
    reveal_strlit(" is two away from ");
    reveal_strlit(", without ");
    reveal_strlit(" in the middle (forward, backward).");
    reveal_strlit(" is left of ");
    reveal_strlit(" (any number of tiles in between).");
    reveal_strlit(" is not next to ");
    reveal_strlit(" (forward, backward).");
    reveal_strlit(" are in the same column.");
    reveal_strlit(" and ");
    reveal_strlit(" are in the same column, but ");
    reveal_strlit(" isn't.");
    reveal_strlit(" is not in the same column as ");
    reveal_strlit(" is either in the same column as ");
    reveal_strlit(" or ");
    reveal_strlit(", but not both.");
}

/// The pieces of every clue description are well formed.
pub proof fn lemma_description_well_formed(c: ClueSpec)
    requires
        description_defined(c),
    ensures
        well_formed_pieces(description_pieces(c)),
{
    lemma_description_labels();
    lemma_numbered_tiles(c.assertions.len());
    let e = Seq::<TemplatePiece>::empty();
    match c.clue_type {
        ClueType::Horizontal(HorizontalClueType::TwoAdjacent)
        | ClueType::Horizontal(HorizontalClueType::ThreeAdjacent) => {
            lemma_push_label(numbered_tiles(c.assertions.len()), " are adjacent (forward, backward)."@);
        },
        ClueType::Vertical(VerticalClueType::ThreeInColumn)
        | ClueType::Vertical(VerticalClueType::TwoInColumn) => {
            lemma_push_label(numbered_tiles(c.assertions.len()), " are in the same column."@);
        },
        _ => {
            let ps = description_pieces(c);
            assert forall|i: int| 0 <= i < ps.len() - 1 implies !(#[trigger] ps[i] is Label && ps[i
                + 1] is Label) by {}
            assert forall|i: int| 0 <= i < ps.len() implies (#[trigger] ps[i] matches TemplatePiece::Label(
                u,
            ) ==> u.len() > 0 && !u.contains('{')) by {}
        },
    }
}

/// Every clue description reads back, through the template parser, as the pieces it was
/// written from.
pub proof fn lemma_description_parses(c: ClueSpec)
    requires
        description_defined(c),
    ensures
        parse_template(render(description_pieces(c))) == description_pieces(c),
{
    lemma_description_well_formed(c);
    lemma_parse_render(description_pieces(c));
}

// ---------------------------------------------------------------------------
// What a description says
// ---------------------------------------------------------------------------

/// The tile positions that pieces refer to, in order.
pub open spec fn tile_refs(ps: Seq<TemplatePiece>) -> Seq<usize>
    decreases ps.len(),
{
    if ps.len() == 0 {
        Seq::empty()
    } else {
        match ps.last() {
            TemplatePiece::Tile(i) => tile_refs(ps.drop_last()).push(i),
            TemplatePiece::Label(_) => tile_refs(ps.drop_last()),
        }
    }
}

/// Two clues agree in kind, length and the flag of every assertion.
pub open spec fn same_shape(c1: ClueSpec, c2: ClueSpec) -> bool {
    &&& c1.clue_type == c2.clue_type
    &&& c1.assertions.len() == c2.assertions.len()
    &&& forall|k: int|
        0 <= k < c1.assertions.len() ==> #[trigger] c1.assertions[k].assertion
            == c2.assertions[k].assertion
}

proof fn lemma_tile_refs_push(ps: Seq<TemplatePiece>, p: TemplatePiece)
    ensures
        tile_refs(ps.push(p)) == match p {
            TemplatePiece::Tile(i) => tile_refs(ps).push(i),
            TemplatePiece::Label(_) => tile_refs(ps),
        },
{
    assert(ps.push(p).drop_last() =~= ps);
}

proof fn lemma_tile_refs_numbered(n: nat)
    ensures
        tile_refs(numbered_tiles(n)) == Seq::new(n, |k: int| k as usize),
    decreases n,
{
    if n == 0 {
        assert(tile_refs(numbered_tiles(0)) =~= Seq::new(0, |k: int| k as usize));
    } else if n == 1 {
        lemma_tile_refs_push(Seq::empty(), TemplatePiece::Tile(0));
        assert(Seq::<TemplatePiece>::empty().push(TemplatePiece::Tile(0)) =~= numbered_tiles(1));
        assert(tile_refs(Seq::<TemplatePiece>::empty()) =~= Seq::<usize>::empty());
        assert(tile_refs(numbered_tiles(1)) =~= Seq::new(1, |k: int| k as usize));
    } else {
        lemma_tile_refs_numbered((n - 1) as nat);
        let ps = numbered_tiles((n - 1) as nat);
        lemma_tile_refs_push(ps, TemplatePiece::Label(seq![' ']));
        lemma_tile_refs_push(
            ps.push(TemplatePiece::Label(seq![' '])),
            TemplatePiece::Tile((n - 1) as usize),
        );
        assert(tile_refs(numbered_tiles(n)) =~= Seq::new(n, |k: int| k as usize));
    }
}

/// The positions `indices_where` gives are in range, carry the flag, increase, and
/// include every position with the flag.
pub proof fn lemma_indices_where(a: Seq<TileAssertion>, flag: bool)
    requires
        a.len() <= usize::MAX,
    ensures
        forall|k: int|
            0 <= k < indices_where(a, flag).len() ==> (#[trigger] indices_where(a, flag)[k]) < a.len()
                && a[indices_where(a, flag)[k] as int].assertion == flag,
        forall|k: int, l: int|
            0 <= k < l < indices_where(a, flag).len() ==> #[trigger] indices_where(a, flag)[k]
                < #[trigger] indices_where(a, flag)[l],
        forall|j: int|
            0 <= j < a.len() && #[trigger] a[j].assertion == flag ==> indices_where(
                a,
                flag,
            ).contains(j as usize),
    decreases a.len(),
{
    if a.len() > 0 {
        let b = a.drop_last();
        lemma_indices_where(b, flag);
        let r = indices_where(a, flag);
        let rb = indices_where(b, flag);
        if a.last().assertion == flag {
            assert(r == rb.push((a.len() - 1) as usize));
        } else {
            assert(r == rb);
        }
        assert forall|k: int| 0 <= k < r.len() implies (#[trigger] r[k]) < a.len() && a[r[k] as int].assertion
            == flag by {
            if k < rb.len() {
                assert(r[k] == rb[k]);
                assert(a[rb[k] as int] == b[rb[k] as int]);
            }
        }
        assert forall|k: int, l: int| 0 <= k < l < r.len() implies #[trigger] r[k] < #[trigger] r[l] by {
            if l < rb.len() {
                assert(r[k] == rb[k] && r[l] == rb[l]);
            } else {
                assert(r[k] == rb[k]);
                assert(rb[k] < b.len());
            }
        }
        assert forall|j: int| 0 <= j < a.len() && #[trigger] a[j].assertion == flag implies r.contains(
            j as usize,
        ) by {
            if j < a.len() - 1 {
                assert(b[j] == a[j]);
                assert(rb.contains(j as usize));
                let q = choose|q: int| 0 <= q < rb.len() && rb[q] == j as usize;
                assert(r[q] == rb[q]);
            } else {
                assert(r[r.len() - 1] == j as usize);
            }
        }
    }
}

pub proof fn lemma_indices_where_len(a: Seq<TileAssertion>)
    ensures
        indices_where(a, true).len() + indices_where(a, false).len() == a.len(),
    decreases a.len(),
{
    if a.len() > 0 {
        lemma_indices_where_len(a.drop_last());
    }
}

proof fn lemma_indices_where_shape(a1: Seq<TileAssertion>, a2: Seq<TileAssertion>, flag: bool)
    requires
        a1.len() == a2.len(),
        forall|k: int| 0 <= k < a1.len() ==> #[trigger] a1[k].assertion == a2[k].assertion,
    ensures
        indices_where(a1, flag) == indices_where(a2, flag),
    decreases a1.len(),
{
    if a1.len() > 0 {
        let b1 = a1.drop_last();
        let b2 = a2.drop_last();
        assert forall|k: int| 0 <= k < b1.len() implies #[trigger] b1[k].assertion == b2[k].assertion by {
            assert(b1[k] == a1[k] && b2[k] == a2[k]);
        }
        lemma_indices_where_shape(b1, b2, flag);
        assert(a1.last().assertion == a2.last().assertion);
    }
}

/// A description depends only on the clue's kind, its number of assertions and their
/// flags: never on which tiles the clue names.
pub proof fn lemma_description_ignores_tiles(c1: ClueSpec, c2: ClueSpec)
    requires
        same_shape(c1, c2),
    ensures
        description_pieces(c1) == description_pieces(c2),
{
    lemma_indices_where_shape(c1.assertions, c2.assertions, true);
    lemma_indices_where_shape(c1.assertions, c2.assertions, false);
}

/// The tile positions each kind of description names, in order. "Adjacent" and "same
/// column" clues name every position of the clue in order; "two in a column, without"
/// names its two asserted positions in increasing order, then its denied position, which
/// together are every position of the clue; every other kind names fixed positions.
pub proof fn lemma_description_tile_refs(c: ClueSpec)
    requires
        description_defined(c),
        c.assertions.len() <= usize::MAX,
    ensures
        ({
            let r = tile_refs(description_pieces(c));
            let a = c.assertions;
            match c.clue_type {
                ClueType::Horizontal(HorizontalClueType::TwoAdjacent)
                | ClueType::Horizontal(HorizontalClueType::ThreeAdjacent)
                | ClueType::Vertical(VerticalClueType::ThreeInColumn)
                | ClueType::Vertical(VerticalClueType::TwoInColumn) => r.len() == a.len() && forall|
                    k: int,
                | 0 <= k < r.len() ==> #[trigger] r[k] as int == k,
                ClueType::Horizontal(HorizontalClueType::TwoApartNotMiddle) => r == seq![
                    0usize,
                    2usize,
                    1usize,
                ],
                ClueType::Horizontal(HorizontalClueType::LeftOf) => r == seq![0usize, 1usize],
                ClueType::Horizontal(HorizontalClueType::NotAdjacent) => r == seq![0usize, 1usize],
                ClueType::Vertical(VerticalClueType::NotInSameColumn) => r == seq![0usize, 1usize],
                ClueType::Vertical(VerticalClueType::OneMatchesEither) => r == seq![
                    0usize,
                    1usize,
                    2usize,
                ],
                ClueType::Vertical(VerticalClueType::TwoInColumnWithout) => {
                    &&& a.len() == 3
                    &&& r.len() == 3
                    &&& r[0] < r[1] < 3
                    &&& r[2] < 3
                    &&& a[r[0] as int].assertion
                    &&& a[r[1] as int].assertion
                    &&& !a[r[2] as int].assertion
                    &&& forall|k: int| 0 <= k < 3 ==> #[trigger] r.contains(k as usize)
                },
            }
        }),
{
    let a = c.assertions;
    reveal_with_fuel(tile_refs, 7);
    lemma_tile_refs_numbered(a.len());
    let n = numbered_tiles(a.len());
    match c.clue_type {
        ClueType::Horizontal(HorizontalClueType::TwoAdjacent)
        | ClueType::Horizontal(HorizontalClueType::ThreeAdjacent) => {
            lemma_tile_refs_push(n, label(" are adjacent (forward, backward)."));
            assert(description_pieces(c) == n.push(label(" are adjacent (forward, backward).")));
        },
        ClueType::Vertical(VerticalClueType::ThreeInColumn)
        | ClueType::Vertical(VerticalClueType::TwoInColumn) => {
            lemma_tile_refs_push(n, label(" are in the same column."));
            assert(description_pieces(c) == n.push(label(" are in the same column.")));
        },
        ClueType::Vertical(VerticalClueType::TwoInColumnWithout) => {
            lemma_indices_where(a, true);
            lemma_indices_where(a, false);
            lemma_indices_where_len(a);
            let pos = indices_where(a, true);
            let neg = indices_where(a, false);
            let r = tile_refs(description_pieces(c));
            assert(r =~= seq![pos[0], pos[1], neg[0]]);
            assert(pos[0] < pos[1]);
            assert forall|k: int| 0 <= k < 3 implies #[trigger] r.contains(k as usize) by {
                if a[k].assertion {
                    assert(pos.contains(k as usize));
                    let q = choose|q: int| 0 <= q < pos.len() && pos[q] == k as usize;
                    if q == 0 {
                        assert(r[0] == k as usize);
                    } else {
                        assert(r[1] == k as usize);
                    }
                } else {
                    assert(a[k].assertion == false);
                    assert(neg.contains(k as usize));
                    let q = choose|q: int| 0 <= q < neg.len() && neg[q] == k as usize;
                    assert(r[2] == k as usize);
                }
            }
        },
        _ => {},
    }
}

} // verus!
