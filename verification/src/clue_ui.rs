//! The display state of one clue slot in a clue panel: what its three cells show,
//! whether it is visible, its style classes, its tooltip, and its size.

use vstd::prelude::*;

use crate::description::{
    description_defined, description_pieces, description_template, lemma_description_parses,
    lemma_description_tile_refs, lemma_indices_where_len, tile_refs,
};
use crate::model::{
    Clue, ClueOrientation, ClueSpec, ClueType, CluesSizing, HorizontalClueType,
    LayoutConfiguration, Tile, TileAssertion, VerticalClueType,
};
use crate::template::{parse_template, parse_template_elements, pieces, TemplateElement, TemplatePiece};

verus! {

/// The number of cells in a clue slot.
pub const CLUE_CELL_COUNT: usize = 3;

/// What a cell shows over its tile.
#[derive(Clone, Copy, Debug, PartialEq, Eq, Structural)]
pub enum CellMark {
    Plain,
    /// The tile may or may not be the one meant ("one matches either").
    Maybe,
    /// Any number of tiles stand here ("left of").
    TripleDot,
}

/// What one cell of a clue slot shows.
#[derive(Clone, Copy, Debug, PartialEq, Eq, Structural)]
pub struct CellContent {
    pub tile: Option<TileAssertion>,
    pub mark: CellMark,
}

/// The size a clue slot asks for, and, for vertical clues, its start margin.
#[derive(Clone, Copy, Debug, PartialEq, Eq, Structural)]
pub struct LayoutRequest {
    pub width: i32,
    pub height: i32,
    pub margin_start: Option<i32>,
}

/// One item of a tooltip description: marked-up text, or the icon of a tile.
#[derive(Debug)]
pub enum TooltipItem {
    Text(String),
    Icon(Tile),
}

/// The mathematical value of a [`TooltipItem`].
pub enum TooltipPiece {
    Text(Seq<char>),
    Icon(Tile),
}

impl View for TooltipItem {
    type V = TooltipPiece;

    open spec fn view(&self) -> TooltipPiece {
        match self {
            TooltipItem::Text(s) => TooltipPiece::Text(s@),
            TooltipItem::Icon(t) => TooltipPiece::Icon(*t),
        }
    }
}

pub open spec fn tooltip_items(v: Seq<TooltipItem>) -> Seq<TooltipPiece> {
    v.map_values(|t: TooltipItem| t@)
}

/// The tooltip of a clue: its kind, which gives the title, and its description.
#[derive(Debug)]
pub struct ClueTooltip {
    pub clue_type: ClueType,
    pub description: Vec<TooltipItem>,
}

/// The assertion at position `i`, if there is one.
pub open spec fn assertion_at(a: Seq<TileAssertion>, i: int) -> Option<TileAssertion> {
    if 0 <= i < a.len() {
        Some(a[i])
    } else {
        None
    }
}

pub open spec fn plain_cell(a: Seq<TileAssertion>, i: int) -> CellContent {
    CellContent { tile: assertion_at(a, i), mark: CellMark::Plain }
}

pub open spec fn empty_cell() -> CellContent {
    CellContent { tile: None, mark: CellMark::Plain }
}

/// The cells of a slot that shows no clue.
pub open spec fn empty_cells() -> Seq<CellContent> {
    seq![empty_cell(), empty_cell(), empty_cell()]
}

/// The cells of a horizontal slot: "left of" shows its two tiles at the ends with dots
/// between; every other clue shows its tiles in order.
pub open spec fn horizontal_cells(c: ClueSpec) -> Seq<CellContent> {
    let a = c.assertions;
    if c.clue_type == ClueType::Horizontal(HorizontalClueType::LeftOf) {
        seq![
            plain_cell(a, 0),
            CellContent { tile: None, mark: CellMark::TripleDot },
            plain_cell(a, 1),
        ]
    } else {
        seq![plain_cell(a, 0), plain_cell(a, 1), plain_cell(a, 2)]
    }
}

/// The cells of a vertical slot: "one matches either" marks its second and third tiles
/// as maybes; every other clue shows its tiles in order.
pub open spec fn vertical_cells(c: ClueSpec) -> Seq<CellContent> {
    let a = c.assertions;
    if c.clue_type == ClueType::Vertical(VerticalClueType::OneMatchesEither) {
        seq![
            plain_cell(a, 0),
            CellContent { tile: assertion_at(a, 1), mark: CellMark::Maybe },
            CellContent { tile: assertion_at(a, 2), mark: CellMark::Maybe },
        ]
    } else {
        seq![plain_cell(a, 0), plain_cell(a, 1), plain_cell(a, 2)]
    }
}

pub open spec fn cells_for(orientation: ClueOrientation, c: ClueSpec) -> Seq<CellContent> {
    match orientation {
        ClueOrientation::Horizontal => horizontal_cells(c),
        ClueOrientation::Vertical => vertical_cells(c),
    }
}

/// The tooltip items for template pieces: labels as text, and the icon of each tile
/// reference that names both a cell of the slot and an assertion of the clue.
pub open spec fn tooltip_pieces(
    ps: Seq<TemplatePiece>,
    cell_count: nat,
    a: Seq<TileAssertion>,
) -> Seq<TooltipPiece>
    decreases ps.len(),
{
    if ps.len() == 0 {
        Seq::empty()
    } else {
        let before = tooltip_pieces(ps.drop_last(), cell_count, a);
        match ps.last() {
            TemplatePiece::Label(t) => before.push(TooltipPiece::Text(t)),
            TemplatePiece::Tile(i) => if i < cell_count && i < a.len() {
                before.push(TooltipPiece::Icon(a[i as int].tile))
            } else {
                before
            },
        }
    }
}

/// The size a slot asks for: the clue size of its panel, and, in the vertical panel,
/// the group spacing as start margin where the clue starts a new group.
pub open spec fn layout_request(
    orientation: ClueOrientation,
    layout: CluesSizing,
    new_group: bool,
) -> LayoutRequest {
    match orientation {
        ClueOrientation::Horizontal => LayoutRequest {
            width: layout.horizontal_clue_panel.clue_dimensions.width,
            height: layout.horizontal_clue_panel.clue_dimensions.height,
            margin_start: None,
        },
        ClueOrientation::Vertical => LayoutRequest {
            width: layout.vertical_clue_panel.clue_dimensions.width,
            height: layout.vertical_clue_panel.clue_dimensions.height,
            margin_start: Some(
                if new_group {
                    layout.vertical_clue_panel.group_spacing
                } else {
                    0
                },
            ),
        },
    }
}

/// Where cell `i` of a slot stands in the slot's grid, as (column, row).
pub fn cell_grid_position(orientation: ClueOrientation, i: usize) -> (p: (i32, i32))
    requires
        i < CLUE_CELL_COUNT,
    ensures
        p == (match orientation {
            ClueOrientation::Horizontal => (i as i32, 0i32),
            ClueOrientation::Vertical => (0i32, i as i32),
        }),
{
    match orientation {
        ClueOrientation::Horizontal => (i as i32, 0),
        ClueOrientation::Vertical => (0, i as i32),
    }
}

fn assertion_at_exec(clue: &Clue, i: usize) -> (r: Option<TileAssertion>)
    ensures
        r == assertion_at(clue@.assertions, i as int),
{
    if i < clue.assertions.len() {
        Some(clue.assertions[i])
    } else {
        None
    }
}

fn tile_cell(clue: &Clue, i: usize) -> (r: CellContent)
    ensures
        r == plain_cell(clue@.assertions, i as int),
{
    CellContent { tile: assertion_at_exec(clue, i), mark: CellMark::Plain }
}

/// The state of one clue slot.
pub struct ClueUI {
    orientation: ClueOrientation,
    layout: CluesSizing,
    cells: Vec<CellContent>,
    clue: Option<Clue>,
    visible: bool,
    new_group: bool,
    completed: bool,
}

/// The mathematical value of a [`ClueUI`].
pub struct ClueUIView {
    pub orientation: ClueOrientation,
    pub layout: CluesSizing,
    pub cells: Seq<CellContent>,
    pub clue: Option<ClueSpec>,
    pub visible: bool,
    pub new_group: bool,
    pub completed: bool,
}

impl View for ClueUI {
    type V = ClueUIView;

    closed spec fn view(&self) -> ClueUIView {
        ClueUIView {
            orientation: self.orientation,
            layout: self.layout,
            cells: self.cells@,
            clue: match self.clue {
                Some(c) => Some(c@),
                None => None,
            },
            visible: self.visible,
            new_group: self.new_group,
            completed: self.completed,
        }
    }
}

impl ClueUI {
    /// A slot always has three cells, shows only clues it can describe, and is marked as
    /// starting a group only while it shows a vertical clue.
    #[verifier::type_invariant]
    spec fn well_formed(self) -> bool {
        &&& self.cells@.len() == CLUE_CELL_COUNT
        &&& self.clue matches Some(c) ==> description_defined(c@)
        &&& self.new_group ==> (self.clue matches Some(c) && c.clue_type is Vertical)
    }

    /// A visible slot with three empty cells and no clue.
    pub fn new(orientation: ClueOrientation, layout: CluesSizing) -> (ui: ClueUI)
        ensures
            ui@.orientation == orientation,
            ui@.layout == layout,
            ui@.cells == empty_cells(),
            ui@.clue is None,
            ui@.visible,
            !ui@.new_group,
            !ui@.completed,
    {
        let cells = vec![
            CellContent { tile: None, mark: CellMark::Plain },
            CellContent { tile: None, mark: CellMark::Plain },
            CellContent { tile: None, mark: CellMark::Plain },
        ];
        assert(cells@ =~= empty_cells());
        ClueUI {
            orientation,
            layout,
            cells,
            clue: None,
            visible: true,
            new_group: false,
            completed: false,
        }
    }

    pub fn orientation(&self) -> (o: ClueOrientation)
        ensures
            o == self@.orientation,
    {
        self.orientation
    }

    /// What the cells show, in order.
    pub fn cells(&self) -> (v: Vec<CellContent>)
        ensures
            v@ == self@.cells,
            v@.len() == CLUE_CELL_COUNT,
    {
        proof {
            use_type_invariant(self);
        }
        let mut v: Vec<CellContent> = Vec::new();
        for i in 0..self.cells.len()
            invariant
                v@ == self.cells@.take(i as int),
        {
            v.push(self.cells[i]);
            assert(v@ =~= self.cells@.take(i + 1));
        }
        assert(self.cells@.take(self.cells@.len() as int) =~= self.cells@);
        v
    }

    /// The clue sizes the slot currently follows.
    pub fn layout(&self) -> (l: CluesSizing)
        ensures
            l == self@.layout,
    {
        self.layout
    }

    pub fn is_visible(&self) -> (b: bool)
        ensures
            b == self@.visible,
    {
        self.visible
    }

    /// Whether the slot is styled as the first clue of a new group.
    pub fn starts_new_group(&self) -> (b: bool)
        ensures
            b == self@.new_group,
    {
        self.new_group
    }

    /// Whether the slot is styled as a clue the player has marked as used.
    pub fn is_completed(&self) -> (b: bool)
        ensures
            b == self@.completed,
    {
        self.completed
    }

    /// The size the slot asks for, from its panel and whether it starts a group.
    pub fn apply_layout(&self) -> (r: LayoutRequest)
        ensures
            r == layout_request(self@.orientation, self@.layout, self@.new_group),
    {
        match self.orientation {
            ClueOrientation::Horizontal => LayoutRequest {
                width: self.layout.horizontal_clue_panel.clue_dimensions.width,
                height: self.layout.horizontal_clue_panel.clue_dimensions.height,
                margin_start: None,
            },
            ClueOrientation::Vertical => {
                let margin = if self.new_group {
                    self.layout.vertical_clue_panel.group_spacing
                } else {
                    0
                };
                LayoutRequest {
                    width: self.layout.vertical_clue_panel.clue_dimensions.width,
                    height: self.layout.vertical_clue_panel.clue_dimensions.height,
                    margin_start: Some(margin),
                }
            },
        }
    }

    /// Takes the clue sizes of a new layout, and returns the size the slot now asks for.
    pub fn update_layout(&mut self, layout: &LayoutConfiguration) -> (r: LayoutRequest)
        ensures
            final(self)@ == (ClueUIView { layout: layout.clues, ..old(self)@ }),
            r == layout_request(old(self)@.orientation, layout.clues, old(self)@.new_group),
    {
        proof {
            use_type_invariant(&*self);
        }
        self.layout = layout.clues;
        self.apply_layout()
    }

    /// The tooltip items for a template, given the clue it describes: text for labels,
    /// and an icon for each tile reference that names both a cell and an assertion.
    pub fn parse_template(&self, template: &str, clue: &Clue) -> (v: Vec<TooltipItem>)
        ensures
            tooltip_items(v@) == tooltip_pieces(
                parse_template(template@),
                CLUE_CELL_COUNT as nat,
                clue@.assertions,
            ),
    {
        proof {
            use_type_invariant(self);
        }
        let elements = parse_template_elements(template);
        let ghost ps = pieces(elements@);
        let mut v: Vec<TooltipItem> = Vec::new();
        let n = elements.len();
        assert(ps.take(0) =~= Seq::<TemplatePiece>::empty());
        for k in 0..n
            invariant
                n == elements@.len(),
                ps == pieces(elements@),
                self.cells@.len() == CLUE_CELL_COUNT,
                tooltip_items(v@) == tooltip_pieces(
                    ps.take(k as int),
                    CLUE_CELL_COUNT as nat,
                    clue@.assertions,
                ),
        {
            let ghost before = tooltip_items(v@);
            assert(ps.take(k + 1).drop_last() =~= ps.take(k as int));
            assert(ps.take(k + 1).last() == elements@[k as int]@);
            match &elements[k] {
                TemplateElement::Label(text) => {
                    v.push(TooltipItem::Text(text.clone()));
                    assert(tooltip_items(v@) =~= before.push(TooltipPiece::Text(text@)));
                },
                TemplateElement::Tile(idx) => {
                    let i = *idx;
                    if i < self.cells.len() && i < clue.assertions.len() {
                        v.push(TooltipItem::Icon(clue.assertions[i].tile));
                        assert(tooltip_items(v@) =~= before.push(
                            TooltipPiece::Icon(clue@.assertions[i as int].tile),
                        ));
                    }
                },
            }
        }
        assert(ps.take(n as int) =~= ps);
        v
    }

    /// The tooltip for the shown clue: its kind, and its description with tile icons;
    /// none while no clue is shown.
    pub fn create_tooltip_widget(&self) -> (r: Option<ClueTooltip>)
        ensures
            match self@.clue {
                None => r is None,
                Some(c) => r matches Some(t) && t.clue_type == c.clue_type && tooltip_items(
                    t.description@,
                ) == tooltip_pieces(description_pieces(c), CLUE_CELL_COUNT as nat, c.assertions),
            },
    {
        proof {
            use_type_invariant(self);
        }
        match &self.clue {
            None => None,
            Some(c) => {
                let template = description_template(c);
                proof {
                    lemma_description_parses(c@);
                }
                let description = self.parse_template(template.as_str(), c);
                Some(ClueTooltip { clue_type: c.clue_type, description })
            },
        }
    }

    fn set_vert_clue(&mut self, clue: &Clue)
        requires
            old(self).orientation == ClueOrientation::Vertical,
        ensures
            final(self).cells@ == vertical_cells(clue@),
            final(self).orientation == old(self).orientation,
            final(self).layout == old(self).layout,
            final(self).clue == old(self).clue,
            final(self).visible == old(self).visible,
            final(self).new_group == old(self).new_group,
            final(self).completed == old(self).completed,
    {
        proof {
            use_type_invariant(&*self);
        }
        let first = tile_cell(clue, 0);
        let cells = match clue.clue_type {
            ClueType::Vertical(VerticalClueType::OneMatchesEither) => vec![
                first,
                CellContent { tile: assertion_at_exec(clue, 1), mark: CellMark::Maybe },
                CellContent { tile: assertion_at_exec(clue, 2), mark: CellMark::Maybe },
            ],
            _ => vec![first, tile_cell(clue, 1), tile_cell(clue, 2)],
        };
        assert(cells@ =~= vertical_cells(clue@));
        self.cells = cells;
    }

    fn set_horiz_clue(&mut self, clue: &Clue)
        requires
            old(self).orientation == ClueOrientation::Horizontal,
        ensures
            final(self).cells@ == horizontal_cells(clue@),
            final(self).orientation == old(self).orientation,
            final(self).layout == old(self).layout,
            final(self).clue == old(self).clue,
            final(self).visible == old(self).visible,
            final(self).new_group == old(self).new_group,
            final(self).completed == old(self).completed,
    {
        proof {
            use_type_invariant(&*self);
        }
        let first = tile_cell(clue, 0);
        let cells = match clue.clue_type {
            ClueType::Horizontal(HorizontalClueType::LeftOf) => vec![
                first,
                CellContent { tile: None, mark: CellMark::TripleDot },
                tile_cell(clue, 1),
            ],
            _ => vec![first, tile_cell(clue, 1), tile_cell(clue, 2)],
        };
        assert(cells@ =~= horizontal_cells(clue@));
        self.cells = cells;
    }

    /// Shows a clue, or clears the slot.
    ///
    /// With a clue, the slot keeps a copy of it, shows its tiles, becomes visible, and
    /// starts a new group exactly where the clue is vertical and `is_new_group` holds.
    /// Without one, the slot forgets its clue, empties its cells, hides, and leaves no group.
    pub fn set_clue(&mut self, clue: Option<&Clue>, is_new_group: bool)
        requires
            clue matches Some(c) ==> description_defined(c@),
        ensures
            final(self)@.orientation == old(self)@.orientation,
            final(self)@.layout == old(self)@.layout,
            final(self)@.completed == old(self)@.completed,
            match clue {
                Some(c) => {
                    &&& final(self)@.clue == Some(c@)
                    &&& final(self)@.cells == cells_for(old(self)@.orientation, c@)
                    &&& final(self)@.visible
                    &&& final(self)@.new_group == (c@.clue_type is Vertical && is_new_group)
                },
                None => {
                    &&& final(self)@.clue is None
                    &&& final(self)@.cells == empty_cells()
                    &&& !final(self)@.visible
                    &&& !final(self)@.new_group
                },
            },
    {
        match clue {
            Some(c) => {
                let kept = c.copy();
                let vertical = c.is_vertical();
                let mut next = ClueUI {
                    orientation: self.orientation,
                    layout: self.layout,
                    cells: vec![
                        CellContent { tile: None, mark: CellMark::Plain },
                        CellContent { tile: None, mark: CellMark::Plain },
                        CellContent { tile: None, mark: CellMark::Plain },
                    ],
                    clue: Some(kept),
                    visible: true,
                    new_group: vertical && is_new_group,
                    completed: self.completed,
                };
                match self.orientation {
                    ClueOrientation::Horizontal => next.set_horiz_clue(c),
                    ClueOrientation::Vertical => next.set_vert_clue(c),
                }
                *self = next;
            },
            None => {
                let cells = vec![
                    CellContent { tile: None, mark: CellMark::Plain },
                    CellContent { tile: None, mark: CellMark::Plain },
                    CellContent { tile: None, mark: CellMark::Plain },
                ];
                assert(cells@ =~= empty_cells());
                *self = ClueUI {
                    orientation: self.orientation,
                    layout: self.layout,
                    cells,
                    clue: None,
                    visible: false,
                    new_group: false,
                    completed: self.completed,
                };
            },
        }
    }

    /// Marks the clue as used by the player, or not.
    pub fn set_completed(&mut self, completed: bool)
        ensures
            final(self)@ == (ClueUIView { completed, ..old(self)@ }),
    {
        proof {
            use_type_invariant(&*self);
        }
        self.completed = completed;
    }
}

// ---------------------------------------------------------------------------
// Laws
// ---------------------------------------------------------------------------

/// The tiles of the icons among tooltip items, in order.
pub open spec fn icons(ts: Seq<TooltipPiece>) -> Seq<Tile>
    decreases ts.len(),
{
    if ts.len() == 0 {
        Seq::empty()
    } else {
        match ts.last() {
            TooltipPiece::Icon(t) => icons(ts.drop_last()).push(t),
            TooltipPiece::Text(_) => icons(ts.drop_last()),
        }
    }
}

/// The texts among tooltip items, in order.
pub open spec fn texts(ts: Seq<TooltipPiece>) -> Seq<Seq<char>>
    decreases ts.len(),
{
    if ts.len() == 0 {
        Seq::empty()
    } else {
        match ts.last() {
            TooltipPiece::Text(t) => texts(ts.drop_last()).push(t),
            TooltipPiece::Icon(_) => texts(ts.drop_last()),
        }
    }
}

/// The texts of the labels among template pieces, in order.
pub open spec fn label_texts(ps: Seq<TemplatePiece>) -> Seq<Seq<char>>
    decreases ps.len(),
{
    if ps.len() == 0 {
        Seq::empty()
    } else {
        match ps.last() {
            TemplatePiece::Label(t) => label_texts(ps.drop_last()).push(t),
            TemplatePiece::Tile(_) => label_texts(ps.drop_last()),
        }
    }
}

proof fn lemma_projections_push(ts: Seq<TooltipPiece>, t: TooltipPiece)
    ensures
        icons(ts.push(t)) == match t {
            TooltipPiece::Icon(x) => icons(ts).push(x),
            TooltipPiece::Text(_) => icons(ts),
        },
        texts(ts.push(t)) == match t {
            TooltipPiece::Text(x) => texts(ts).push(x),
            TooltipPiece::Icon(_) => texts(ts),
        },
{
    assert(ts.push(t).drop_last() =~= ts);
}

/// A tile reference adds the icon of the assertion it names, whether that assertion is
/// asserted or denied, where it names both a cell and an assertion; otherwise it adds
/// nothing. A label adds its text.
pub proof fn lemma_tooltip_step(
    ps: Seq<TemplatePiece>,
    p: TemplatePiece,
    cell_count: nat,
    a: Seq<TileAssertion>,
)
    ensures
        match p {
            TemplatePiece::Label(t) => tooltip_pieces(ps.push(p), cell_count, a) == tooltip_pieces(
                ps,
                cell_count,
                a,
            ).push(TooltipPiece::Text(t)),
            TemplatePiece::Tile(i) => tooltip_pieces(ps.push(p), cell_count, a) == if i
                < cell_count && i < a.len() {
                tooltip_pieces(ps, cell_count, a).push(TooltipPiece::Icon(a[i as int].tile))
            } else {
                tooltip_pieces(ps, cell_count, a)
            },
        },
{
    assert(ps.push(p).drop_last() =~= ps);
}

/// Where every tile reference names both a cell and an assertion, the tooltip's icons are
/// the tiles of the named assertions, one per reference and in order, whatever their
/// flags; and its texts are the template's labels in order.
pub proof fn lemma_tooltip_icons(ps: Seq<TemplatePiece>, cell_count: nat, a: Seq<TileAssertion>)
    requires
        forall|k: int|
            0 <= k < tile_refs(ps).len() ==> #[trigger] tile_refs(ps)[k] < cell_count
                && tile_refs(ps)[k] < a.len(),
    ensures
        icons(tooltip_pieces(ps, cell_count, a)) == tile_refs(ps).map_values(
            |i: usize| a[i as int].tile,
        ),
        texts(tooltip_pieces(ps, cell_count, a)) == label_texts(ps),
    decreases ps.len(),
{
    if ps.len() == 0 {
        assert(tile_refs(ps).map_values(|i: usize| a[i as int].tile) =~= Seq::<Tile>::empty());
    } else {
        let qs = ps.drop_last();
        assert(ps == qs.push(ps.last()));
        let rq = tile_refs(qs);
        assert forall|k: int| 0 <= k < rq.len() implies #[trigger] rq[k] < cell_count && rq[k]
            < a.len() by {
            assert(tile_refs(ps)[k] == rq[k]);
        }
        lemma_tooltip_icons(qs, cell_count, a);
        lemma_tooltip_step(qs, ps.last(), cell_count, a);
        let before = tooltip_pieces(qs, cell_count, a);
        match ps.last() {
            TemplatePiece::Label(t) => {
                lemma_projections_push(before, TooltipPiece::Text(t));
                assert(tile_refs(ps) == rq);
            },
            TemplatePiece::Tile(i) => {
                assert(tile_refs(ps) == rq.push(i));
                assert(tile_refs(ps)[rq.len() as int] == i);
                lemma_projections_push(before, TooltipPiece::Icon(a[i as int].tile));
                assert(tile_refs(ps).map_values(|j: usize| a[j as int].tile) =~= rq.map_values(
                    |j: usize| a[j as int].tile,
                ).push(a[i as int].tile));
            },
        }
    }
}

/// The tooltip of a "two in a column, without" clue shows three icons: the tile of every
/// assertion of the clue, the denied one included.
pub proof fn lemma_two_in_column_without_tooltip(c: ClueSpec)
    requires
        c.clue_type == ClueType::Vertical(VerticalClueType::TwoInColumnWithout),
        description_defined(c),
    ensures
        ({
            let shown = icons(
                tooltip_pieces(description_pieces(c), CLUE_CELL_COUNT as nat, c.assertions),
            );
            &&& shown.len() == 3
            &&& forall|k: int| 0 <= k < c.assertions.len() ==> shown.contains(
                #[trigger] c.assertions[k].tile,
            )
        }),
{
    lemma_indices_where_len(c.assertions);
    lemma_description_tile_refs(c);
    let r = tile_refs(description_pieces(c));
    lemma_tooltip_icons(description_pieces(c), CLUE_CELL_COUNT as nat, c.assertions);
    let shown = icons(
        tooltip_pieces(description_pieces(c), CLUE_CELL_COUNT as nat, c.assertions),
    );
    assert forall|k: int| 0 <= k < c.assertions.len() implies shown.contains(
        #[trigger] c.assertions[k].tile,
    ) by {
        assert(r.contains(k as usize));
        let q = choose|q: int| 0 <= q < r.len() && r[q] == k as usize;
        assert(shown[q] == c.assertions[k].tile);
    }
}

/// What the three cells of a slot show, for every orientation and clue: the triple dot
/// only in the middle cell of a horizontal "left of" clue, whose two tiles stand at the
/// ends; maybe marks only on the second and third cells of a vertical "one matches
/// either" clue; and otherwise cell `i` shows assertion `i`, or nothing past the last.
pub proof fn lemma_cells_shown(orientation: ClueOrientation, c: ClueSpec)
    ensures
        ({
            let cells = cells_for(orientation, c);
            let a = c.assertions;
            let left_of = orientation == ClueOrientation::Horizontal && c.clue_type
                == ClueType::Horizontal(HorizontalClueType::LeftOf);
            let either = orientation == ClueOrientation::Vertical && c.clue_type
                == ClueType::Vertical(VerticalClueType::OneMatchesEither);
            &&& cells.len() == 3
            &&& forall|i: int|
                0 <= i < 3 ==> ((#[trigger] cells[i]).mark == CellMark::TripleDot <==> (left_of && i
                    == 1))
            &&& forall|i: int|
                0 <= i < 3 ==> ((#[trigger] cells[i]).mark == CellMark::Maybe <==> (either && 1 <= i))
            &&& !left_of ==> forall|i: int|
                0 <= i < 3 ==> (#[trigger] cells[i]).tile == if i < a.len() {
                    Some(a[i])
                } else {
                    None::<TileAssertion>
                }
            &&& left_of ==> {
                &&& cells[0].tile == if 0 < a.len() {
                    Some(a[0])
                } else {
                    None::<TileAssertion>
                }
                &&& cells[1].tile is None
                &&& cells[2].tile == if 1 < a.len() {
                    Some(a[1])
                } else {
                    None::<TileAssertion>
                }
            }
        }),
{
}

/// The size every slot asks for: a horizontal slot asks for the horizontal panel's clue
/// size and no margin; a vertical slot asks for the vertical panel's clue size, with the
/// group spacing as margin where it starts a group and no margin otherwise.
pub proof fn lemma_layout_request(orientation: ClueOrientation, layout: CluesSizing, new_group: bool)
    ensures
        ({
            let r = layout_request(orientation, layout, new_group);
            match orientation {
                ClueOrientation::Horizontal => {
                    &&& r.width == layout.horizontal_clue_panel.clue_dimensions.width
                    &&& r.height == layout.horizontal_clue_panel.clue_dimensions.height
                    &&& r.margin_start is None
                },
                ClueOrientation::Vertical => {
                    &&& r.width == layout.vertical_clue_panel.clue_dimensions.width
                    &&& r.height == layout.vertical_clue_panel.clue_dimensions.height
                    &&& r.margin_start == Some(
                        if new_group {
                            layout.vertical_clue_panel.group_spacing
                        } else {
                            0i32
                        },
                    )
                },
            }
        }),
{
}

} // verus!
