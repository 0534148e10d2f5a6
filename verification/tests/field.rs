use dice_game::{Field, Pair, PlaceError};

/// The tags of all cells, row by row.
fn tags(field: &Field) -> Vec<Vec<u8>> {
    let mut rows = Vec::new();
    for row in 0..field.height() {
        let mut tags = Vec::new();
        for col in 0..field.width() {
            tags.push(field.tag(row, col));
        }
        rows.push(tags);
    }
    rows
}

#[test]
fn it_works() {
    assert_eq!(2 + 2, 4);
}

#[test]
fn display_field() {
    let expected = "####\n####\n####\n####\n";
    let field = Field::new(4, 4);
    // The four lines of cells, without the box and the row numbers, and
    // with `#` for an empty cell.
    let mut cells = String::new();
    for line in field.to_text().lines().skip(2).take(4) {
        for glyph in line.chars().skip(3).take(4) {
            cells.push(if glyph == '□' { '#' } else { glyph });
        }
        cells.push('\n');
    }
    assert_eq!(expected, cells);
}

#[test]
fn new_field_has_its_size_and_is_empty() {
    let field = Field::new(7, 3);
    assert_eq!(field.width(), 7);
    assert_eq!(field.height(), 3);
    assert_eq!(tags(&field), vec![vec![0u8; 7]; 3]);
}

#[test]
fn new_field_may_have_no_cells() {
    let field = Field::new(0, 0);
    assert_eq!(field.width(), 0);
    assert_eq!(field.height(), 0);
    assert_eq!(tags(&field), Vec::<Vec<u8>>::new());
    let field = Field::new(5, 0);
    assert_eq!(field.width(), 5);
    assert_eq!(field.height(), 0);
}

#[test]
fn place_top_left_sets_exactly_the_rectangle() {
    let mut field = Field::new(5, 4);
    assert_eq!(field.place_rect(1, Pair(0, 0), Pair(3, 2), true), Ok(()));
    assert_eq!(
        tags(&field),
        vec![
            vec![1, 1, 1, 0, 0],
            vec![1, 1, 1, 0, 0],
            vec![0, 0, 0, 0, 0],
            vec![0, 0, 0, 0, 0],
        ]
    );
}

#[test]
fn place_bottom_right_sets_exactly_the_rectangle() {
    let mut field = Field::new(5, 4);
    assert_eq!(field.place_rect(2, Pair(4, 3), Pair(2, 3), false), Ok(()));
    assert_eq!(
        tags(&field),
        vec![
            vec![0, 0, 0, 0, 0],
            vec![0, 0, 0, 2, 2],
            vec![0, 0, 0, 2, 2],
            vec![0, 0, 0, 2, 2],
        ]
    );
}

#[test]
fn place_inside_the_field_from_either_corner() {
    let mut field = Field::new(6, 6);
    assert_eq!(field.place_rect(1, Pair(1, 2), Pair(2, 3), true), Ok(()));
    assert_eq!(field.place_rect(2, Pair(4, 2), Pair(2, 2), false), Ok(()));
    assert_eq!(
        tags(&field),
        vec![
            vec![0, 0, 0, 0, 0, 0],
            vec![0, 0, 0, 2, 2, 0],
            vec![0, 1, 1, 2, 2, 0],
            vec![0, 1, 1, 0, 0, 0],
            vec![0, 1, 1, 0, 0, 0],
            vec![0, 0, 0, 0, 0, 0],
        ]
    );
}

#[test]
fn place_keeps_the_other_cells() {
    let mut field = Field::new(3, 3);
    assert_eq!(field.place_rect(1, Pair(0, 0), Pair(3, 3), true), Ok(()));
    assert_eq!(field.place_rect(2, Pair(1, 1), Pair(1, 1), true), Ok(()));
    assert_eq!(tags(&field), vec![vec![1, 1, 1], vec![1, 2, 1], vec![1, 1, 1]]);
}

#[test]
fn place_the_whole_field() {
    let mut field = Field::new(2, 3);
    assert_eq!(field.place_rect(2, Pair(1, 2), Pair(2, 3), false), Ok(()));
    assert_eq!(tags(&field), vec![vec![2, 2], vec![2, 2], vec![2, 2]]);
}

#[test]
fn place_top_left_too_wide_is_refused() {
    let mut field = Field::new(4, 4);
    assert_eq!(field.place_rect(1, Pair(0, 0), Pair(1, 1), true), Ok(()));
    assert_eq!(field.place_rect(2, Pair(2, 0), Pair(3, 1), true), Err(PlaceError::OutOfBounds));
    assert_eq!(field.place_rect(2, Pair(0, 3), Pair(1, 2), true), Err(PlaceError::OutOfBounds));
    assert_eq!(field.place_rect(2, Pair(4, 4), Pair(1, 1), true), Err(PlaceError::OutOfBounds));
    assert_eq!(
        field.place_rect(2, Pair(255, 255), Pair(255, 255), true),
        Err(PlaceError::OutOfBounds)
    );
    assert_eq!(
        tags(&field),
        vec![vec![1, 0, 0, 0], vec![0, 0, 0, 0], vec![0, 0, 0, 0], vec![0, 0, 0, 0]]
    );
}

#[test]
fn place_bottom_right_beyond_the_edge_is_refused() {
    let mut field = Field::new(4, 4);
    // Wider than the anchor allows: the left edge would lie before column 0.
    assert_eq!(field.place_rect(2, Pair(1, 3), Pair(3, 1), false), Err(PlaceError::OutOfBounds));
    // Higher than the anchor allows.
    assert_eq!(field.place_rect(2, Pair(3, 0), Pair(1, 2), false), Err(PlaceError::OutOfBounds));
    // The anchor itself lies outside.
    assert_eq!(field.place_rect(2, Pair(4, 3), Pair(1, 1), false), Err(PlaceError::OutOfBounds));
    assert_eq!(field.place_rect(2, Pair(3, 4), Pair(1, 1), false), Err(PlaceError::OutOfBounds));
    assert_eq!(tags(&field), vec![vec![0u8; 4]; 4]);
    // Just fitting.
    assert_eq!(field.place_rect(2, Pair(1, 3), Pair(2, 4), false), Ok(()));
    assert_eq!(
        tags(&field),
        vec![vec![2, 2, 0, 0], vec![2, 2, 0, 0], vec![2, 2, 0, 0], vec![2, 2, 0, 0]]
    );
}

#[test]
fn place_without_cells_changes_nothing() {
    let mut field = Field::new(3, 2);
    assert_eq!(field.place_rect(1, Pair(1, 0), Pair(0, 2), true), Ok(()));
    assert_eq!(field.place_rect(1, Pair(3, 2), Pair(0, 0), true), Ok(()));
    assert_eq!(field.place_rect(1, Pair(2, 1), Pair(0, 0), false), Ok(()));
    assert_eq!(field.place_rect(1, Pair(4, 0), Pair(0, 0), true), Err(PlaceError::OutOfBounds));
    assert_eq!(tags(&field), vec![vec![0u8; 3]; 2]);
}

#[test]
fn fits_tells_what_place_rect_accepts() {
    let field = Field::new(10, 10);
    assert!(field.fits(Pair(0, 0), Pair(10, 10), true));
    assert!(!field.fits(Pair(0, 0), Pair(11, 10), true));
    assert!(!field.fits(Pair(1, 0), Pair(10, 10), true));
    assert!(field.fits(Pair(9, 9), Pair(10, 10), false));
    assert!(!field.fits(Pair(9, 9), Pair(10, 11), false));
    assert!(!field.fits(Pair(10, 9), Pair(1, 1), false));
    assert!(field.fits(Pair(4, 6), Pair(5, 7), false));
    assert!(!field.fits(Pair(4, 6), Pair(6, 7), false));
}

#[test]
fn a_field_wider_than_a_byte_takes_a_rectangle() {
    let mut field = Field::new(300, 2);
    assert_eq!(field.place_rect(1, Pair(200, 1), Pair(100, 1), true), Ok(()));
    assert_eq!(field.tag(1, 199), 0);
    assert_eq!(field.tag(1, 200), 1);
    assert_eq!(field.tag(1, 299), 1);
    assert_eq!(field.tag(0, 299), 0);
    assert_eq!(field.place_rect(1, Pair(200, 1), Pair(101, 1), true), Err(PlaceError::OutOfBounds));
}
