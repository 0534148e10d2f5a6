//! The playing field: a grid of owner tags, and the placing of rectangles.

use vstd::prelude::*;
use crate::pair::Pair;

verus! {

/// The tag of a cell that nobody owns.
pub const EMPTY: u8 = 0;

/// The tag of a cell that the first player owns.
pub const PLAYER_ONE: u8 = 1;

/// The tag of a cell that the second player owns.
pub const PLAYER_TWO: u8 = 2;

/// Why a rectangle was not placed.
#[derive(Debug, Clone, Copy, PartialEq, Eq, Structural)]
pub enum PlaceError {
    /// The rectangle would not lie wholly inside the field.
    OutOfBounds,
}

/// The cells that a rectangle covers: the columns `left..right` of the rows
/// `top..bottom`, both ranges half open.
pub struct Footprint {
    pub left: int,
    pub top: int,
    pub right: int,
    pub bottom: int,
}

impl Footprint {
    /// The footprint of a rectangle of size `rect` at the anchor `pos`.
    /// With `left_corner` the anchor is the rectangle's top-left cell,
    /// without it the anchor is its bottom-right cell.
    pub open spec fn of(pos: Pair, rect: Pair, left_corner: bool) -> Footprint {
        if left_corner {
            Footprint {
                left: pos.0 as int,
                top: pos.1 as int,
                right: pos.0 + rect.0,
                bottom: pos.1 + rect.1,
            }
        } else {
            Footprint {
                left: pos.0 + 1 - rect.0,
                top: pos.1 + 1 - rect.1,
                right: pos.0 + 1,
                bottom: pos.1 + 1,
            }
        }
    }

    /// Whether the cell in row `row` and column `col` is covered.
    pub open spec fn contains(self, row: int, col: int) -> bool {
        self.top <= row < self.bottom && self.left <= col < self.right
    }

    /// Whether both ranges lie inside a field of the given size.
    pub open spec fn within(self, width: int, height: int) -> bool {
        0 <= self.left && self.right <= width && 0 <= self.top && self.bottom <= height
    }

    /// The covered cells as a set of `(row, column)` pairs.
    pub open spec fn cells(self) -> Set<(int, int)> {
        Set::new(|cell: (int, int)| self.contains(cell.0, cell.1))
    }
}

/// A field of the given size in which every cell is empty.
pub open spec fn blank(width: nat, height: nat) -> Seq<Seq<u8>> {
    Seq::new(height, |row: int| Seq::new(width, |col: int| EMPTY))
}

/// The rows `rows` after every cell of `area` has been given to `owner`.
/// Cells outside `area` keep their tag.
pub open spec fn stamped(rows: Seq<Seq<u8>>, owner: u8, area: Footprint) -> Seq<Seq<u8>> {
    Seq::new(
        rows.len(),
        |row: int|
            Seq::new(
                rows[row].len(),
                |col: int|
                    if area.contains(row, col) {
                        owner
                    } else {
                        rows[row][col]
                    },
            ),
    )
}

/// Where the cell in row `row` and column `col` lies in a row-major array
/// of rows `width` long.
pub open spec fn flat_index(width: int, row: int, col: int) -> int {
    row * width + col
}

proof fn lemma_flat_index_bound(width: int, height: int, row: int, col: int)
    by (nonlinear_arith)
    requires
        0 <= row < height,
        0 <= col < width,
    ensures
        0 <= row * width,
        0 <= flat_index(width, row, col) < width * height,
{
}

proof fn lemma_flat_index_injective(width: int, row1: int, col1: int, row2: int, col2: int)
    by (nonlinear_arith)
    requires
        0 <= col1 < width,
        0 <= col2 < width,
        flat_index(width, row1, col1) == flat_index(width, row2, col2),
    ensures
        row1 == row2,
        col1 == col2,
{
    assert((row1 - row2) * width == col2 - col1);
    if row1 > row2 {
        assert((row1 - row2) * width >= width);
    }
    if row1 < row2 {
        assert((row2 - row1) * width >= width);
    }
}

/// A grid of `width` by `height` cells. Each cell holds the tag of its owner.
///
/// The tags are kept row by row in one array.
#[derive(Debug)]
pub struct Field {
    width: usize,
    height: usize,
    cells: Vec<u8>,
}

impl View for Field {
    type V = Seq<Seq<u8>>;

    /// The field as a sequence of rows, each a sequence of tags.
    closed spec fn view(&self) -> Seq<Seq<u8>> {
        Seq::new(
            self.height as nat,
            |row: int|
                Seq::new(
                    self.width as nat,
                    |col: int| self.cells@[flat_index(self.width as int, row, col)],
                ),
        )
    }
}

impl Field {
    /// Whether the field holds one tag for each of its `width * height`
    /// cells. Every field that this module hands out does.
    pub closed spec fn well_formed(&self) -> bool {
        self.cells@.len() == self.width * self.height <= usize::MAX
    }

    /// The number of columns.
    pub closed spec fn spec_width(&self) -> usize {
        self.width
    }

    /// The number of rows.
    pub closed spec fn spec_height(&self) -> usize {
        self.height
    }

    /// The view has `height` rows of `width` cells each.
    pub proof fn lemma_view_shape(&self)
        ensures
            self@.len() == self.height(),
            forall|row: int|
                0 <= row < self.height() ==> (#[trigger] self@[row]).len() == self.width(),
    {
    }

    /// The number of columns.
    #[verifier::when_used_as_spec(spec_width)]
    pub fn width(&self) -> (width: usize)
        ensures
            width == self.spec_width(),
    {
        self.width
    }

    /// The number of rows.
    #[verifier::when_used_as_spec(spec_height)]
    pub fn height(&self) -> (height: usize)
        ensures
            height == self.spec_height(),
    {
        self.height
    }

    /// A field of `width` by `height` cells, all of them empty.
    pub fn new(width: usize, height: usize) -> (field: Self)
        requires
            width * height <= usize::MAX,
        ensures
            field.well_formed(),
            field.width() == width,
            field.height() == height,
            field@ == blank(width as nat, height as nat),
    {
        let field = Field { width, height, cells: vec![EMPTY; width * height] };
        proof {
            assert forall|row: int, col: int| 0 <= row < height && 0 <= col < width implies
                field.cells@[#[trigger] flat_index(width as int, row, col)] == EMPTY by {
                lemma_flat_index_bound(width as int, height as int, row, col);
            }
            assert(field@ =~~= blank(width as nat, height as nat));
        }
        field
    }

    /// The tag of the cell in row `row` and column `col`.
    pub fn tag(&self, row: usize, col: usize) -> (tag: u8)
        requires
            self.well_formed(),
            row < self.height(),
            col < self.width(),
        ensures
            tag == self@[row as int][col as int],
    {
        proof {
            lemma_flat_index_bound(self.width as int, self.height as int, row as int, col as int);
        }
        self.cells[row * self.width + col]
    }

    /// Whether a rectangle of size `rect` anchored at `pos` lies wholly
    /// inside the field (see [`Footprint::of`] for the anchoring).
    pub fn fits(&self, pos: Pair, rect: Pair, left_corner: bool) -> (fits: bool)
        ensures
            fits == Footprint::of(pos, rect, left_corner).within(
                self.width() as int,
                self.height() as int,
            ),
    {
        let x: usize = pos.0 as usize;
        let y: usize = pos.1 as usize;
        let w: usize = rect.0 as usize;
        let h: usize = rect.1 as usize;
        if left_corner {
            x + w <= self.width && y + h <= self.height
        } else {
            w <= x + 1 && x + 1 <= self.width && h <= y + 1 && y + 1 <= self.height
        }
    }

    /// Gives every cell of a rectangle to `player`.
    ///
    /// The rectangle has the size `rect` (width, height). With `left_corner`
    /// its top-left cell is at `pos` (column, row); without it its
    /// bottom-right cell is at `pos`. A rectangle that does not lie wholly
    /// inside the field is refused, and the field stays as it was. A
    /// rectangle without cells is held to the same bounds and changes
    /// nothing.
    pub fn place_rect(&mut self, player: u8, pos: Pair, rect: Pair, left_corner: bool) -> (result:
        Result<(), PlaceError>)
        requires
            old(self).well_formed(),
        ensures
            final(self).well_formed(),
            final(self).width() == old(self).width(),
            final(self).height() == old(self).height(),
            Footprint::of(pos, rect, left_corner).within(
                old(self).width() as int,
                old(self).height() as int,
            ) ==> result is Ok && final(self)@ == stamped(
                old(self)@,
                player,
                Footprint::of(pos, rect, left_corner),
            ),
            !Footprint::of(pos, rect, left_corner).within(
                old(self).width() as int,
                old(self).height() as int,
            ) ==> result == Err::<(), PlaceError>(PlaceError::OutOfBounds) && *final(self) == *old(
                self,
            ),
    {
        if !self.fits(pos, rect, left_corner) {
            return Err(PlaceError::OutOfBounds);
        }
        let ghost area = Footprint::of(pos, rect, left_corner);
        let ghost before = self.cells@;
        let ghost width = self.width as int;
        let ghost height = self.height as int;
        let left: usize = if left_corner {
            pos.0 as usize
        } else {
            pos.0 as usize + 1 - rect.0 as usize
        };
        let top: usize = if left_corner {
            pos.1 as usize
        } else {
            pos.1 as usize + 1 - rect.1 as usize
        };
        let right: usize = left + rect.0 as usize;
        let bottom: usize = top + rect.1 as usize;
        let mut row: usize = top;
        while row < bottom
            invariant
                area == (Footprint {
                    left: left as int,
                    top: top as int,
                    right: right as int,
                    bottom: bottom as int,
                }),
                top <= row <= bottom <= height,
                left <= right <= width,
                self.width == width,
                self.height == height,
                before.len() == width * height <= usize::MAX,
                self.cells@.len() == before.len(),
                forall|r: int, c: int|
                    0 <= r < height && 0 <= c < width ==> self.cells@[#[trigger] flat_index(
                        width,
                        r,
                        c,
                    )] == if area.contains(r, c) && r < row {
                        player
                    } else {
                        before[flat_index(width, r, c)]
                    },
            decreases bottom - row,
        {
            let mut col: usize = left;
            while col < right
                invariant
                    area == (Footprint {
                        left: left as int,
                        top: top as int,
                        right: right as int,
                        bottom: bottom as int,
                    }),
                    top <= row < bottom <= height,
                    left <= col <= right <= width,
                    self.width == width,
                    self.height == height,
                    before.len() == width * height <= usize::MAX,
                    self.cells@.len() == before.len(),
                    forall|r: int, c: int|
                        0 <= r < height && 0 <= c < width ==> self.cells@[#[trigger] flat_index(
                            width,
                            r,
                            c,
                        )] == if area.contains(r, c) && (r < row || (r == row && c < col)) {
                            player
                        } else {
                            before[flat_index(width, r, c)]
                        },
                decreases right - col,
            {
                proof {
                    lemma_flat_index_bound(width, height, row as int, col as int);
                }
                let index: usize = row * self.width + col;
                self.cells.set(index, player);
                proof {
                    assert forall|r: int, c: int|
                        0 <= r < height && 0 <= c < width implies self.cells@[#[trigger] flat_index(
                        width,
                        r,
                        c,
                    )] == if area.contains(r, c) && (r < row || (r == row && c < col + 1)) {
                        player
                    } else {
                        before[flat_index(width, r, c)]
                    } by {
                        lemma_flat_index_bound(width, height, r, c);
                        if flat_index(width, r, c) == index as int {
                            lemma_flat_index_injective(width, r, c, row as int, col as int);
                        }
                    }
                }
                col += 1;
            }
            row += 1;
        }
        proof {
            assert(self@ =~~= stamped(old(self)@, player, area));
        }
        Ok(())
    }
}

/// A rectangle placed with its top-left cell in the top-left corner of a
/// field that is at least as wide and as high is accepted. It gives `owner`
/// exactly the cells in the first `rect.1` rows and the first `rect.0`
/// columns, and every other cell keeps its tag.
pub proof fn lemma_place_top_left(field: Field, owner: u8, rect: Pair)
    requires
        rect.0 <= field.width(),
        rect.1 <= field.height(),
    ensures
        Footprint::of(Pair(0, 0), rect, true).within(field.width() as int, field.height() as int),
        forall|row: int, col: int|
            0 <= row < field.height() && 0 <= col < field.width() ==> #[trigger] stamped(
                field@,
                owner,
                Footprint::of(Pair(0, 0), rect, true),
            )[row][col] == if row < rect.1 && col < rect.0 {
                owner
            } else {
                field@[row][col]
            },
{
    field.lemma_view_shape();
}

/// A rectangle placed with its bottom-right cell in the bottom-right corner
/// `corner` of a field that is at least as wide and as high is accepted. It
/// gives `owner` exactly the cells in the last `rect.1` rows and the last
/// `rect.0` columns, and every other cell keeps its tag.
pub proof fn lemma_place_bottom_right(field: Field, owner: u8, corner: Pair, rect: Pair)
    requires
        corner.0 == field.width() - 1,
        corner.1 == field.height() - 1,
        rect.0 <= field.width(),
        rect.1 <= field.height(),
    ensures
        Footprint::of(corner, rect, false).within(field.width() as int, field.height() as int),
        forall|row: int, col: int|
            0 <= row < field.height() && 0 <= col < field.width() ==> #[trigger] stamped(
                field@,
                owner,
                Footprint::of(corner, rect, false),
            )[row][col] == if field.height() - rect.1 <= row && field.width() - rect.0 <= col {
                owner
            } else {
                field@[row][col]
            },
{
    field.lemma_view_shape();
}

} // verus!
