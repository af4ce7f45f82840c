use gwatson::description::description_template;
use gwatson::model::{Clue, ClueType, HorizontalClueType, Tile, TileAssertion, VerticalClueType};
use gwatson::template::{parse_template_elements, push_decimal, push_tile_token, render_template, TemplateElement};

fn label(e: &TemplateElement) -> Option<&str> {
    match e {
        TemplateElement::Label(s) => Some(s.as_str()),
        TemplateElement::Tile(_) => None,
    }
}

fn tile(e: &TemplateElement) -> Option<usize> {
    match e {
        TemplateElement::Label(_) => None,
        TemplateElement::Tile(i) => Some(*i),
    }
}

fn ta(row: usize, variant: char, assertion: bool) -> TileAssertion {
    TileAssertion { tile: Tile { row, variant }, assertion }
}

fn clue(clue_type: ClueType, assertions: Vec<TileAssertion>) -> Clue {
    Clue { clue_type, assertions }
}

#[test]
fn parse_splits_labels_and_tiles() {
    let e = parse_template_elements("{t0} is left of {t1} (any number of tiles in between).");
    assert_eq!(e.len(), 4);
    assert_eq!(tile(&e[0]), Some(0));
    assert_eq!(label(&e[1]), Some(" is left of "));
    assert_eq!(tile(&e[2]), Some(1));
    assert_eq!(label(&e[3]), Some(" (any number of tiles in between)."));
}

#[test]
fn parse_plain_text_is_one_label() {
    let e = parse_template_elements("no tiles here");
    assert_eq!(e.len(), 1);
    assert_eq!(label(&e[0]), Some("no tiles here"));
}

#[test]
fn parse_empty_template() {
    assert!(parse_template_elements("").is_empty());
}

#[test]
fn parse_drops_tokens_that_are_not_numbers() {
    let e = parse_template_elements("a{x}b{t}c{t-1}d");
    assert_eq!(e.len(), 4);
    assert_eq!(label(&e[0]), Some("a"));
    assert_eq!(label(&e[1]), Some("b"));
    assert_eq!(label(&e[2]), Some("c"));
    assert_eq!(label(&e[3]), Some("d"));
}

#[test]
fn parse_accepts_many_leading_ts_and_a_plus() {
    let e = parse_template_elements("{ttt12}{t+7}{5}{t007}");
    let tiles: Vec<Option<usize>> = e.iter().map(tile).collect();
    assert_eq!(tiles, vec![Some(12), Some(7), Some(5), Some(7)]);
}

#[test]
fn parse_rejects_a_lone_plus_and_a_double_plus() {
    assert!(parse_template_elements("{t+}{t++3}{+}").is_empty());
}

#[test]
fn parse_rejects_an_index_past_usize() {
    let e = parse_template_elements("{t99999999999999999999999999}x");
    assert_eq!(e.len(), 1);
    assert_eq!(label(&e[0]), Some("x"));
    let max = format!("{{t{}}}", usize::MAX);
    let e = parse_template_elements(&max);
    assert_eq!(e.len(), 1);
    assert_eq!(tile(&e[0]), Some(usize::MAX));
}

#[test]
fn parse_unclosed_brace_takes_the_rest() {
    let e = parse_template_elements("ab{t3");
    assert_eq!(e.len(), 2);
    assert_eq!(label(&e[0]), Some("ab"));
    assert_eq!(tile(&e[1]), Some(3));
    let e = parse_template_elements("ab{t3 more text");
    assert_eq!(e.len(), 1);
}

#[test]
fn parse_closing_brace_outside_a_token_is_text() {
    let e = parse_template_elements("a}b{t1}}");
    assert_eq!(e.len(), 3);
    assert_eq!(label(&e[0]), Some("a}b"));
    assert_eq!(tile(&e[1]), Some(1));
    assert_eq!(label(&e[2]), Some("}"));
}

#[test]
fn parse_keeps_non_ascii_text() {
    let e = parse_template_elements("é{t2}ü");
    assert_eq!(e.len(), 3);
    assert_eq!(label(&e[0]), Some("é"));
    assert_eq!(tile(&e[1]), Some(2));
    assert_eq!(label(&e[2]), Some("ü"));
}

#[test]
fn decimal_writing() {
    let mut s = String::from("n=");
    push_decimal(&mut s, 0);
    assert_eq!(s, "n=0");
    let mut s = String::new();
    push_decimal(&mut s, 1203);
    assert_eq!(s, "1203");
    let mut s = String::new();
    push_decimal(&mut s, usize::MAX);
    assert_eq!(s, usize::MAX.to_string());
}

#[test]
fn tile_token_writing() {
    let mut s = String::from("x");
    push_tile_token(&mut s, 42);
    assert_eq!(s, "x{t42}");
}

#[test]
fn render_then_parse_gives_back_the_elements() {
    let elements = vec![
        TemplateElement::Label("see ".to_string()),
        TemplateElement::Tile(10),
        TemplateElement::Label(" and ".to_string()),
        TemplateElement::Tile(0),
    ];
    let text = render_template(&elements);
    assert_eq!(text, "see {t10} and {t0}");
    let back = parse_template_elements(&text);
    assert_eq!(back.len(), 4);
    assert_eq!(label(&back[0]), Some("see "));
    assert_eq!(tile(&back[1]), Some(10));
    assert_eq!(label(&back[2]), Some(" and "));
    assert_eq!(tile(&back[3]), Some(0));
}

#[test]
fn adjacent_descriptions_number_every_tile() {
    let c = clue(
        ClueType::Horizontal(HorizontalClueType::ThreeAdjacent),
        vec![ta(0, 'a', true), ta(1, 'b', true), ta(2, 'c', true)],
    );
    assert_eq!(description_template(&c), "{t0} {t1} {t2} are adjacent (forward, backward).");
    let c = clue(
        ClueType::Horizontal(HorizontalClueType::TwoAdjacent),
        vec![ta(0, 'a', true), ta(1, 'b', true)],
    );
    assert_eq!(description_template(&c), "{t0} {t1} are adjacent (forward, backward).");
    let c = clue(ClueType::Horizontal(HorizontalClueType::TwoAdjacent), vec![]);
    assert_eq!(description_template(&c), " are adjacent (forward, backward).");
}

#[test]
fn column_descriptions() {
    let c = clue(
        ClueType::Vertical(VerticalClueType::TwoInColumn),
        vec![ta(0, 'a', true), ta(1, 'b', true)],
    );
    assert_eq!(description_template(&c), "{t0} {t1} are in the same column.");
    let c = clue(
        ClueType::Vertical(VerticalClueType::ThreeInColumn),
        vec![ta(0, 'a', true), ta(1, 'b', true), ta(2, 'c', true)],
    );
    assert_eq!(description_template(&c), "{t0} {t1} {t2} are in the same column.");
    let c = clue(
        ClueType::Vertical(VerticalClueType::NotInSameColumn),
        vec![ta(0, 'a', true), ta(1, 'b', true)],
    );
    assert_eq!(description_template(&c), "{t0} is not in the same column as {t1}");
    let c = clue(
        ClueType::Vertical(VerticalClueType::OneMatchesEither),
        vec![ta(0, 'a', true), ta(1, 'b', true), ta(2, 'c', true)],
    );
    assert_eq!(
        description_template(&c),
        "{t0} is either in the same column as {t1} or {t2}, but not both."
    );
}

#[test]
fn two_in_column_without_names_the_denied_tile_last() {
    let c = clue(
        ClueType::Vertical(VerticalClueType::TwoInColumnWithout),
        vec![ta(0, 'a', true), ta(1, 'b', false), ta(2, 'c', true)],
    );
    assert_eq!(
        description_template(&c),
        "{t0} and {t2} are in the same column, but {t1} isn't."
    );
    let c = clue(
        ClueType::Vertical(VerticalClueType::TwoInColumnWithout),
        vec![ta(0, 'a', false), ta(1, 'b', true), ta(2, 'c', true)],
    );
    assert_eq!(
        description_template(&c),
        "{t1} and {t2} are in the same column, but {t0} isn't."
    );
}

#[test]
fn row_descriptions() {
    let two = vec![ta(0, 'a', true), ta(1, 'b', true)];
    let c = clue(ClueType::Horizontal(HorizontalClueType::LeftOf), two.clone());
    assert_eq!(description_template(&c), "{t0} is left of {t1} (any number of tiles in between).");
    let c = clue(ClueType::Horizontal(HorizontalClueType::NotAdjacent), two);
    assert_eq!(description_template(&c), "{t0} is not next to {t1} (forward, backward).");
    let c = clue(
        ClueType::Horizontal(HorizontalClueType::TwoApartNotMiddle),
        vec![ta(0, 'a', true), ta(1, 'b', false), ta(2, 'c', true)],
    );
    assert_eq!(
        description_template(&c),
        "{t0} is two away from {t2}, without {t1} in the middle (forward, backward)."
    );
}

#[test]
fn descriptions_read_back_as_their_pieces() {
    let c = clue(
        ClueType::Vertical(VerticalClueType::TwoInColumnWithout),
        vec![ta(0, 'a', true), ta(1, 'b', true), ta(2, 'c', false)],
    );
    let e = parse_template_elements(&description_template(&c));
    assert_eq!(e.len(), 6);
    assert_eq!(tile(&e[0]), Some(0));
    assert_eq!(label(&e[1]), Some(" and "));
    assert_eq!(tile(&e[2]), Some(1));
    assert_eq!(label(&e[3]), Some(" are in the same column, but "));
    assert_eq!(tile(&e[4]), Some(2));
    assert_eq!(label(&e[5]), Some(" isn't."));
}

#[test]
fn written_tile_numbers_read_back() {
    for n in [0usize, 9, 10, 99, 100, 65535, usize::MAX] {
        let mut s = String::new();
        push_tile_token(&mut s, n);
        let e = parse_template_elements(&s);
        assert_eq!(e.len(), 1);
        assert_eq!(tile(&e[0]), Some(n));
    }
}
