//! Plain-value puzzle types that the clue panel and the window read.

use vstd::prelude::*;

verus! {

/// A puzzle tile: the grid row it belongs to and its variant letter.
#[derive(Clone, Copy, Debug, PartialEq, Eq, Structural)]
pub struct Tile {
    pub row: usize,
    pub variant: char,
}

/// A tile named by a clue, with whether the clue asserts it (`true`) or denies it (`false`).
#[derive(Clone, Copy, Debug, PartialEq, Eq, Structural)]
pub struct TileAssertion {
    pub tile: Tile,
    pub assertion: bool,
}

/// Kinds of clue read along a row.
#[derive(Clone, Copy, Debug, PartialEq, Eq, Structural)]
pub enum HorizontalClueType {
    TwoAdjacent,
    ThreeAdjacent,
    TwoApartNotMiddle,
    LeftOf,
    NotAdjacent,
}

/// Kinds of clue read down a column.
#[derive(Clone, Copy, Debug, PartialEq, Eq, Structural)]
pub enum VerticalClueType {
    ThreeInColumn,
    TwoInColumn,
    TwoInColumnWithout,
    NotInSameColumn,
    OneMatchesEither,
}

/// The kind of a clue.
#[derive(Clone, Copy, Debug, PartialEq, Eq, Structural)]
pub enum ClueType {
    Horizontal(HorizontalClueType),
    Vertical(VerticalClueType),
}

/// Which panel a clue is shown in.
#[derive(Clone, Copy, Debug, PartialEq, Eq, Structural)]
pub enum ClueOrientation {
    Horizontal,
    Vertical,
}

/// A clue: its kind and the tiles it speaks of, in order.
#[derive(Debug)]
pub struct Clue {
    pub clue_type: ClueType,
    pub assertions: Vec<TileAssertion>,
}

/// The mathematical value of a clue.
pub struct ClueSpec {
    pub clue_type: ClueType,
    pub assertions: Seq<TileAssertion>,
}

impl View for Clue {
    type V = ClueSpec;

    open spec fn view(&self) -> ClueSpec {
        ClueSpec { clue_type: self.clue_type, assertions: self.assertions@ }
    }
}

impl Clue {
    /// Whether the clue is read down a column.
    pub fn is_vertical(&self) -> (r: bool)
        ensures
            r == (self.clue_type is Vertical),
    {
        match self.clue_type {
            ClueType::Vertical(_) => true,
            ClueType::Horizontal(_) => false,
        }
    }

    /// A copy of the clue with the same kind and the same assertions.
    pub fn copy(&self) -> (c: Clue)
        ensures
            c@ == self@,
    {
        let mut assertions: Vec<TileAssertion> = Vec::new();
        let n = self.assertions.len();
        for i in 0..n
            invariant
                n == self.assertions@.len(),
                assertions@ == self.assertions@.take(i as int),
        {
            assertions.push(self.assertions[i]);
            assert(assertions@ =~= self.assertions@.take(i + 1));
        }
        assert(self.assertions@.take(n as int) =~= self.assertions@);
        Clue { clue_type: self.clue_type, assertions }
    }
}

/// Width and height of a widget, in pixels.
#[derive(Clone, Copy, Debug, PartialEq, Eq, Structural)]
pub struct Dimensions {
    pub width: i32,
    pub height: i32,
}

/// Sizes used by the horizontal clue panel.
#[derive(Clone, Copy, Debug, PartialEq, Eq, Structural)]
pub struct HorizontalCluePanelSizing {
    pub clue_dimensions: Dimensions,
}

/// Sizes used by the vertical clue panel.
#[derive(Clone, Copy, Debug, PartialEq, Eq, Structural)]
pub struct VerticalCluePanelSizing {
    pub clue_dimensions: Dimensions,
    pub group_spacing: i32,
}

/// Sizes of both clue panels.
#[derive(Clone, Copy, Debug, PartialEq, Eq, Structural)]
pub struct CluesSizing {
    pub horizontal_clue_panel: HorizontalCluePanelSizing,
    pub vertical_clue_panel: VerticalCluePanelSizing,
}

/// The part of the window layout that the clue panels read.
#[derive(Clone, Copy, Debug, PartialEq, Eq, Structural)]
pub struct LayoutConfiguration {
    pub clues: CluesSizing,
}

/// Game difficulty, as offered by the window's selector.
#[derive(Clone, Copy, Debug, PartialEq, Eq, Structural)]
pub enum Difficulty {
    Easy,
    Moderate,
    Hard,
    Veteran,
}

} // verus!
