//! The game: a field of ten by ten cells, two players, and the opening in
//! which each of them gets a rectangle as large as two dice say.
//!
//! Only the opening is defined. There are no rules yet for the moves that
//! follow nor for winning, so nothing in here decides a winner.

use vstd::prelude::*;
use rand::rngs::ThreadRng;
use crate::dice::{is_dice, is_die, sample_inclusive, DIE_MAX, DIE_MIN};
use crate::field::{
    blank, stamped, Field, Footprint, PlaceError, EMPTY, PLAYER_ONE, PLAYER_TWO,
};
use crate::pair::Pair;
use crate::player::Player;

verus! {

/// The number of columns, and of rows, of the field of a game.
pub const BOARD_SIZE: usize = 10;

/// The number of the last column, and of the last row.
pub const BOARD_END: u8 = 9;

/// The cells that the first player gets for the dice `dice`: a rectangle
/// `dice.0` wide and `dice.1` high in the top-left corner of the field.
pub open spec fn first_area(dice: Pair) -> Footprint {
    Footprint::of(Pair(0, 0), dice, true)
}

/// The cells that the second player gets for the dice `dice`: a rectangle
/// `dice.0` wide and `dice.1` high in the bottom-right corner of the field.
pub open spec fn second_area(dice: Pair) -> Footprint {
    Footprint::of(Pair(BOARD_END, BOARD_END), dice, false)
}

/// Whether both rectangles of an opening lie inside the field.
pub open spec fn opening_fits(first: Pair, second: Pair) -> bool {
    first_area(first).within(BOARD_SIZE as int, BOARD_SIZE as int) && second_area(second).within(
        BOARD_SIZE as int,
        BOARD_SIZE as int,
    )
}

/// The rows `rows` after the opening: first the first player's rectangle
/// is placed, then the second player's, which therefore wins every cell
/// that both cover.
pub open spec fn opening_layout(rows: Seq<Seq<u8>>, first: Pair, second: Pair) -> Seq<Seq<u8>> {
    stamped(stamped(rows, PLAYER_ONE, first_area(first)), PLAYER_TWO, second_area(second))
}

/// The player who moves after `player`.
pub open spec fn other_player(player: u8) -> u8 {
    if player == PLAYER_ONE {
        PLAYER_TWO
    } else {
        PLAYER_ONE
    }
}

/// What the two players rolled in the opening.
#[derive(Debug, Clone, Copy)]
pub struct Opening {
    pub first: Pair,
    pub second: Pair,
}

/// A game as contracts see it.
pub struct GameView {
    /// The rows of the field.
    pub field: Seq<Seq<u8>>,
    /// The first player's name.
    pub player1: Seq<char>,
    /// The second player's name.
    pub player2: Seq<char>,
    /// The tag of the player who has won, if any.
    pub winner: Option<u8>,
    /// The tag of the player whose turn it is.
    pub current_turn: u8,
}

/// A game between two players.
pub struct Game {
    field: Field,
    player1: Player,
    player2: Player,
    winner: Option<u8>,
    current_turn: u8,
    random: ThreadRng,
}

impl View for Game {
    type V = GameView;

    closed spec fn view(&self) -> GameView {
        GameView {
            field: self.field@,
            player1: self.player1.name@,
            player2: self.player2.name@,
            winner: self.winner,
            current_turn: self.current_turn,
        }
    }
}

impl Game {
    /// Whether the game is in order: its field is well formed and ten by
    /// ten cells large, and it is the turn of one of the two players. Every
    /// game that this module hands out is.
    pub closed spec fn well_formed(&self) -> bool {
        &&& self.field.well_formed()
        &&& self.field.width() == BOARD_SIZE
        &&& self.field.height() == BOARD_SIZE
        &&& (self.current_turn == PLAYER_ONE || self.current_turn == PLAYER_TWO)
    }

    /// In a game that is in order it is the turn of one of the two players.
    pub proof fn lemma_turn(&self)
        requires
            self.well_formed(),
        ensures
            self@.current_turn == PLAYER_ONE || self@.current_turn == PLAYER_TWO,
    {
    }

    /// A new game between `player1` and `player2`: the field is empty,
    /// nobody has won, and it is the first player's turn.
    pub fn new(player1: Player, player2: Player) -> (game: Self)
        ensures
            game.well_formed(),
            game@ == (GameView {
                field: blank(BOARD_SIZE as nat, BOARD_SIZE as nat),
                player1: player1.name@,
                player2: player2.name@,
                winner: None,
                current_turn: PLAYER_ONE,
            }),
    {
        Game {
            field: Field::new(BOARD_SIZE, BOARD_SIZE),
            player1,
            player2,
            winner: None,
            current_turn: PLAYER_ONE,
            random: rand::thread_rng(),
        }
    }

    /// The field of the game.
    pub fn field(&self) -> (field: &Field)
        ensures
            field@ == self@.field,
            self.well_formed() ==> field.well_formed() && field.width() == BOARD_SIZE
                && field.height() == BOARD_SIZE,
    {
        &self.field
    }

    /// The first player.
    pub fn player1(&self) -> (player: &Player)
        ensures
            player.name@ == self@.player1,
    {
        &self.player1
    }

    /// The second player.
    pub fn player2(&self) -> (player: &Player)
        ensures
            player.name@ == self@.player2,
    {
        &self.player2
    }

    /// The tag of the player who has won, if any.
    pub fn winner(&self) -> (winner: Option<u8>)
        ensures
            winner == self@.winner,
    {
        self.winner
    }

    /// The tag of the player whose turn it is.
    pub fn current_turn(&self) -> (player: u8)
        ensures
            player == self@.current_turn,
    {
        self.current_turn
    }

    /// Records who has won, or that nobody has.
    pub fn set_winner(&mut self, winner: Option<u8>)
        ensures
            final(self)@ == (GameView { winner, ..old(self)@ }),
            final(self).well_formed() == old(self).well_formed(),
    {
        self.winner = winner;
    }

    /// Rolls one die: a number from 1 to 6. The game is otherwise left as
    /// it was.
    pub fn roll_dice(&mut self) -> (value: u8)
        ensures
            is_die(value),
            final(self)@ == old(self)@,
            final(self).well_formed() == old(self).well_formed(),
    {
        sample_inclusive(&mut self.random, DIE_MIN, DIE_MAX)
    }

    /// Rolls two dice. The game is otherwise left as it was.
    pub fn dice_pair(&mut self) -> (dice: Pair)
        ensures
            is_dice(dice),
            final(self)@ == old(self)@,
            final(self).well_formed() == old(self).well_formed(),
    {
        let first: u8 = self.roll_dice();
        let second: u8 = self.roll_dice();
        Pair(first, second)
    }

    /// Places the two rectangles of the opening for given dice: the first
    /// player's in the top-left corner of the field, then the second
    /// player's in the bottom-right corner. If one of them does not lie
    /// inside the field, neither is placed.
    pub fn place_opening(&mut self, first: Pair, second: Pair) -> (result: Result<(), PlaceError>)
        requires
            old(self).well_formed(),
        ensures
            final(self).well_formed(),
            opening_fits(first, second) ==> result is Ok && final(self)@ == (GameView {
                field: opening_layout(old(self)@.field, first, second),
                ..old(self)@
            }),
            !opening_fits(first, second) ==> result == Err::<(), PlaceError>(
                PlaceError::OutOfBounds,
            ) && final(self)@ == old(self)@,
    {
        let top_left = Pair(0, 0);
        let bottom_right = Pair(BOARD_END, BOARD_END);
        if !self.field.fits(top_left, first, true) || !self.field.fits(bottom_right, second, false) {
            return Err(PlaceError::OutOfBounds);
        }
        self.field.place_rect(PLAYER_ONE, top_left, first, true)?;
        self.field.place_rect(PLAYER_TWO, bottom_right, second, false)?;
        Ok(())
    }

    /// Plays the opening: rolls two dice for the first player and two for
    /// the second, places their rectangles, and tells what was rolled.
    ///
    /// The game stops there. What a move is and how the game is won has not
    /// been laid down, so no turn is taken and no winner is set.
    pub fn run(&mut self) -> (opening: Opening)
        requires
            old(self).well_formed(),
        ensures
            final(self).well_formed(),
            is_dice(opening.first),
            is_dice(opening.second),
            final(self)@ == (GameView {
                field: opening_layout(old(self)@.field, opening.first, opening.second),
                ..old(self)@
            }),
    {
        let first = self.dice_pair();
        let second = self.dice_pair();
        let placed = self.place_opening(first, second);
        assert(placed is Ok);
        Opening { first, second }
    }

    /// Passes the turn on: returns the tag of the player whose turn it was,
    /// who moves now, and makes it the other player's turn.
    pub fn next_turn(&mut self) -> (mover: u8)
        requires
            old(self).well_formed(),
        ensures
            final(self).well_formed(),
            mover == old(self)@.current_turn,
            final(self)@ == (GameView { current_turn: other_player(mover), ..old(self)@ }),
    {
        let mover: u8 = self.current_turn;
        if mover == PLAYER_ONE {
            self.current_turn = PLAYER_TWO;
        } else {
            self.current_turn = PLAYER_ONE;
        }
        mover
    }

    /// The player with the tag `tag`.
    pub fn player(&self, tag: u8) -> (player: &Player)
        requires
            tag == PLAYER_ONE || tag == PLAYER_TWO,
        ensures
            player.name@ == if tag == PLAYER_ONE {
                self@.player1
            } else {
                self@.player2
            },
    {
        if tag == PLAYER_ONE {
            &self.player1
        } else {
            &self.player2
        }
    }

    /// The player who has won.
    pub fn winning_player(&self) -> (player: &Player)
        requires
            self@.winner == Some(PLAYER_ONE) || self@.winner == Some(PLAYER_TWO),
        ensures
            player.name@ == if self@.winner == Some(PLAYER_ONE) {
                self@.player1
            } else {
                self@.player2
            },
    {
        self.player(self.winner.unwrap())
    }
}

/// The cells of `rows` that hold the tag `tag`, as `(row, column)` pairs.
pub open spec fn cells_tagged(rows: Seq<Seq<u8>>, tag: u8) -> Set<(int, int)> {
    Set::new(
        |cell: (int, int)|
            0 <= cell.0 < rows.len() && 0 <= cell.1 < rows[cell.0].len() && rows[cell.0][cell.1]
                == tag,
    )
}

/// Whatever the dice show, both rectangles of the opening lie inside the
/// field.
pub proof fn lemma_dice_fit(first: Pair, second: Pair)
    requires
        is_dice(first),
        is_dice(second),
    ensures
        opening_fits(first, second),
{
}

/// After the opening on an empty field, the second player owns exactly the
/// cells of the second rectangle, and the first player owns exactly the
/// cells of the first rectangle that the second does not cover. The two
/// rectangles share a cell only if together they are both wider and higher
/// than the field; if they share none, the first player owns the whole
/// first rectangle. Every other cell is empty.
pub proof fn lemma_opening_cells(first: Pair, second: Pair)
    requires
        opening_fits(first, second),
    ensures
        ({
            let rows = opening_layout(blank(BOARD_SIZE as nat, BOARD_SIZE as nat), first, second);
            let one = first_area(first).cells();
            let two = second_area(second).cells();
            &&& cells_tagged(rows, PLAYER_TWO) == two
            &&& cells_tagged(rows, PLAYER_ONE) == one.difference(two)
            &&& one.disjoint(two) <==> (first.0 == 0 || first.1 == 0 || second.0 == 0 || second.1
                == 0 || first.0 + second.0 <= BOARD_SIZE || first.1 + second.1 <= BOARD_SIZE)
            &&& one.disjoint(two) ==> cells_tagged(rows, PLAYER_ONE) == one
            &&& forall|row: int, col: int|
                0 <= row < BOARD_SIZE && 0 <= col < BOARD_SIZE && !one.contains((row, col))
                    && !two.contains((row, col)) ==> #[trigger] rows[row][col] == EMPTY
        }),
{
    let rows = opening_layout(blank(BOARD_SIZE as nat, BOARD_SIZE as nat), first, second);
    let one = first_area(first).cells();
    let two = second_area(second).cells();
    assert(cells_tagged(rows, PLAYER_TWO) =~= two);
    assert(cells_tagged(rows, PLAYER_ONE) =~= one.difference(two));
    if first.0 > 0 && first.1 > 0 && second.0 > 0 && second.1 > 0 && first.0 + second.0
        > BOARD_SIZE && first.1 + second.1 > BOARD_SIZE {
        let shared = (first.1 - 1, first.0 - 1);
        assert(one.contains(shared) && two.contains(shared));
    }
    if one.disjoint(two) {
        assert(one.difference(two) =~= one);
    }
}

} // verus!
