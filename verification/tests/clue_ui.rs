use gwatson::clue_ui::{cell_grid_position, CellContent, CellMark, ClueUI, LayoutRequest, TooltipItem};
use gwatson::model::{
    Clue, ClueOrientation, ClueType, CluesSizing, Dimensions, HorizontalCluePanelSizing,
    HorizontalClueType, LayoutConfiguration, Tile, TileAssertion, VerticalCluePanelSizing,
    VerticalClueType,
};

fn ta(row: usize, variant: char, assertion: bool) -> TileAssertion {
    TileAssertion { tile: Tile { row, variant }, assertion }
}

fn sizing(hw: i32, hh: i32, vw: i32, vh: i32, spacing: i32) -> CluesSizing {
    CluesSizing {
        horizontal_clue_panel: HorizontalCluePanelSizing {
            clue_dimensions: Dimensions { width: hw, height: hh },
        },
        vertical_clue_panel: VerticalCluePanelSizing {
            clue_dimensions: Dimensions { width: vw, height: vh },
            group_spacing: spacing,
        },
    }
}

fn plain(t: Option<TileAssertion>) -> CellContent {
    CellContent { tile: t, mark: CellMark::Plain }
}

fn empty() -> CellContent {
    plain(None)
}

#[test]
fn new_slot_is_visible_and_empty() {
    let ui = ClueUI::new(ClueOrientation::Horizontal, sizing(1, 2, 3, 4, 5));
    assert!(ui.is_visible());
    assert!(!ui.starts_new_group());
    assert!(!ui.is_completed());
    assert_eq!(ui.cells(), vec![empty(), empty(), empty()]);
    assert!(ui.create_tooltip_widget().is_none());
    assert_eq!(ui.orientation(), ClueOrientation::Horizontal);
}

#[test]
fn horizontal_left_of_puts_dots_between() {
    let mut ui = ClueUI::new(ClueOrientation::Horizontal, sizing(1, 2, 3, 4, 5));
    let c = Clue {
        clue_type: ClueType::Horizontal(HorizontalClueType::LeftOf),
        assertions: vec![ta(0, 'a', true), ta(1, 'b', true)],
    };
    ui.set_clue(Some(&c), true);
    assert_eq!(
        ui.cells(),
        vec![
            plain(Some(ta(0, 'a', true))),
            CellContent { tile: None, mark: CellMark::TripleDot },
            plain(Some(ta(1, 'b', true))),
        ]
    );
    assert!(ui.is_visible());
    // a horizontal clue never starts a group
    assert!(!ui.starts_new_group());
}

#[test]
fn horizontal_other_clues_show_tiles_in_order() {
    let mut ui = ClueUI::new(ClueOrientation::Horizontal, sizing(1, 2, 3, 4, 5));
    let c = Clue {
        clue_type: ClueType::Horizontal(HorizontalClueType::NotAdjacent),
        assertions: vec![ta(0, 'a', true), ta(1, 'b', true)],
    };
    ui.set_clue(Some(&c), false);
    assert_eq!(
        ui.cells(),
        vec![plain(Some(ta(0, 'a', true))), plain(Some(ta(1, 'b', true))), empty()]
    );
}

#[test]
fn vertical_one_matches_either_marks_maybes() {
    let mut ui = ClueUI::new(ClueOrientation::Vertical, sizing(1, 2, 3, 4, 5));
    let c = Clue {
        clue_type: ClueType::Vertical(VerticalClueType::OneMatchesEither),
        assertions: vec![ta(0, 'a', true), ta(1, 'b', true), ta(1, 'c', true)],
    };
    ui.set_clue(Some(&c), true);
    assert_eq!(
        ui.cells(),
        vec![
            plain(Some(ta(0, 'a', true))),
            CellContent { tile: Some(ta(1, 'b', true)), mark: CellMark::Maybe },
            CellContent { tile: Some(ta(1, 'c', true)), mark: CellMark::Maybe },
        ]
    );
    assert!(ui.starts_new_group());
    assert_eq!(ui.apply_layout(), LayoutRequest { width: 3, height: 4, margin_start: Some(5) });
}

#[test]
fn vertical_without_new_group_has_no_margin() {
    let mut ui = ClueUI::new(ClueOrientation::Vertical, sizing(1, 2, 3, 4, 5));
    let c = Clue {
        clue_type: ClueType::Vertical(VerticalClueType::TwoInColumn),
        assertions: vec![ta(0, 'a', true), ta(1, 'b', true)],
    };
    ui.set_clue(Some(&c), false);
    assert!(!ui.starts_new_group());
    assert_eq!(ui.apply_layout(), LayoutRequest { width: 3, height: 4, margin_start: Some(0) });
    assert_eq!(
        ui.cells(),
        vec![plain(Some(ta(0, 'a', true))), plain(Some(ta(1, 'b', true))), empty()]
    );
}

#[test]
fn clearing_hides_and_empties() {
    let mut ui = ClueUI::new(ClueOrientation::Vertical, sizing(1, 2, 3, 4, 5));
    let c = Clue {
        clue_type: ClueType::Vertical(VerticalClueType::ThreeInColumn),
        assertions: vec![ta(0, 'a', true), ta(1, 'b', true), ta(2, 'c', true)],
    };
    ui.set_clue(Some(&c), true);
    ui.set_completed(true);
    ui.set_clue(None, true);
    assert!(!ui.is_visible());
    assert!(!ui.starts_new_group());
    assert_eq!(ui.cells(), vec![empty(), empty(), empty()]);
    assert!(ui.create_tooltip_widget().is_none());
    // completion is kept
    assert!(ui.is_completed());
}

#[test]
fn horizontal_layout_has_no_margin() {
    let mut ui = ClueUI::new(ClueOrientation::Horizontal, sizing(10, 20, 30, 40, 50));
    assert_eq!(ui.apply_layout(), LayoutRequest { width: 10, height: 20, margin_start: None });
    let r = ui.update_layout(&LayoutConfiguration { clues: sizing(11, 21, 31, 41, 51) });
    assert_eq!(r, LayoutRequest { width: 11, height: 21, margin_start: None });
    assert_eq!(ui.apply_layout(), r);
}

#[test]
fn completed_toggles() {
    let mut ui = ClueUI::new(ClueOrientation::Horizontal, sizing(1, 2, 3, 4, 5));
    ui.set_completed(true);
    assert!(ui.is_completed());
    ui.set_completed(false);
    assert!(!ui.is_completed());
}

#[test]
fn tooltip_lists_text_and_icons() {
    let mut ui = ClueUI::new(ClueOrientation::Horizontal, sizing(1, 2, 3, 4, 5));
    let c = Clue {
        clue_type: ClueType::Horizontal(HorizontalClueType::LeftOf),
        assertions: vec![ta(0, 'a', true), ta(3, 'd', true)],
    };
    ui.set_clue(Some(&c), false);
    let tip = ui.create_tooltip_widget().unwrap();
    assert_eq!(tip.clue_type, ClueType::Horizontal(HorizontalClueType::LeftOf));
    assert_eq!(tip.description.len(), 4);
    assert!(matches!(tip.description[0], TooltipItem::Icon(Tile { row: 0, variant: 'a' })));
    assert!(matches!(&tip.description[1], TooltipItem::Text(s) if s == " is left of "));
    assert!(matches!(tip.description[2], TooltipItem::Icon(Tile { row: 3, variant: 'd' })));
    assert!(
        matches!(&tip.description[3], TooltipItem::Text(s) if s == " (any number of tiles in between).")
    );
}

#[test]
fn tooltip_skips_tiles_the_clue_does_not_have() {
    let ui = ClueUI::new(ClueOrientation::Horizontal, sizing(1, 2, 3, 4, 5));
    let c = Clue {
        clue_type: ClueType::Horizontal(HorizontalClueType::TwoAdjacent),
        assertions: vec![ta(0, 'a', true), ta(1, 'b', true), ta(2, 'c', true), ta(3, 'd', true)],
    };
    // tile 2 is past the clue's assertions? no: the clue has four; tile 3 is past the cells
    let items = ui.parse_template("{t0}{t3}{t9} x", &c);
    assert_eq!(items.len(), 2);
    assert!(matches!(items[0], TooltipItem::Icon(Tile { row: 0, variant: 'a' })));
    assert!(matches!(&items[1], TooltipItem::Text(s) if s == " x"));
    let short = Clue {
        clue_type: ClueType::Horizontal(HorizontalClueType::TwoAdjacent),
        assertions: vec![ta(5, 'e', true)],
    };
    let items = ui.parse_template("{t1}{t0}", &short);
    assert_eq!(items.len(), 1);
    assert!(matches!(items[0], TooltipItem::Icon(Tile { row: 5, variant: 'e' })));
}

#[test]
fn grid_positions() {
    assert_eq!(cell_grid_position(ClueOrientation::Horizontal, 2), (2, 0));
    assert_eq!(cell_grid_position(ClueOrientation::Vertical, 2), (0, 2));
    assert_eq!(cell_grid_position(ClueOrientation::Vertical, 0), (0, 0));
}
