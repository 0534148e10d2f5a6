use dice_game::{Field, Game, Pair, PlaceError, Player};

fn players() -> (Player, Player) {
    (Player { name: String::from("Ada") }, Player { name: String::from("Bob") })
}

fn new_game() -> Game {
    let (first, second) = players();
    Game::new(first, second)
}

/// The tag that the opening gives the cell in row `row` and column `col`
/// of an empty field.
fn opening_tag(first: Pair, second: Pair, row: usize, col: usize) -> u8 {
    if row + usize::from(second.1) >= 10 && col + usize::from(second.0) >= 10 {
        2
    } else if row < usize::from(first.1) && col < usize::from(first.0) {
        1
    } else {
        0
    }
}

fn assert_opening(field: &Field, first: Pair, second: Pair) {
    for row in 0..10 {
        for col in 0..10 {
            assert_eq!(field.tag(row, col), opening_tag(first, second, row, col));
        }
    }
}

#[test]
fn new_game_state() {
    let game = new_game();
    assert_eq!(game.player1().name, "Ada");
    assert_eq!(game.player2().name, "Bob");
    assert_eq!(game.winner(), None);
    assert_eq!(game.current_turn(), 1);
    assert_eq!(game.field().width(), 10);
    assert_eq!(game.field().height(), 10);
    assert_eq!(game.field().to_text(), Field::new(10, 10).to_text());
}

#[test]
fn dice_are_between_one_and_six() {
    let mut game = new_game();
    let mut seen = [0usize; 7];
    for _ in 0..6000 {
        let value = game.roll_dice();
        assert!((1..=6).contains(&value));
        seen[usize::from(value)] += 1;
    }
    for face in 1..=6 {
        assert!(seen[face] > 0);
    }
}

#[test]
fn dice_pairs_are_between_one_and_six() {
    let mut game = new_game();
    for _ in 0..1000 {
        let dice = game.dice_pair();
        assert!((1..=6).contains(&dice.0));
        assert!((1..=6).contains(&dice.1));
    }
    assert_eq!(game.field().to_text(), Field::new(10, 10).to_text());
    assert_eq!(game.current_turn(), 1);
    assert_eq!(game.winner(), None);
}

#[test]
fn opening_without_shared_cells() {
    let mut game = new_game();
    assert_eq!(game.place_opening(Pair(3, 2), Pair(4, 1)), Ok(()));
    assert_eq!(
        game.field().to_text(),
        "╔═══════════╗\n\
         ║  0 1 2 3 4 5 6 7 8 9 ║\n\
         ║0 ▣▣▣□□□□□□□║\n\
         ║1 ▣▣▣□□□□□□□║\n\
         ║2 □□□□□□□□□□║\n\
         ║3 □□□□□□□□□□║\n\
         ║4 □□□□□□□□□□║\n\
         ║5 □□□□□□□□□□║\n\
         ║6 □□□□□□□□□□║\n\
         ║7 □□□□□□□□□□║\n\
         ║8 □□□□□□□□□□║\n\
         ║9 □□□□□□▦▦▦▦║\n\
         ╚═══════════╝\n"
    );
    assert_opening(game.field(), Pair(3, 2), Pair(4, 1));
}

#[test]
fn opening_with_shared_cells_goes_to_the_second_player() {
    let mut game = new_game();
    assert_eq!(game.place_opening(Pair(6, 6), Pair(6, 6)), Ok(()));
    assert_eq!(
        game.field().to_text(),
        "╔═══════════╗\n\
         ║  0 1 2 3 4 5 6 7 8 9 ║\n\
         ║0 ▣▣▣▣▣▣□□□□║\n\
         ║1 ▣▣▣▣▣▣□□□□║\n\
         ║2 ▣▣▣▣▣▣□□□□║\n\
         ║3 ▣▣▣▣▣▣□□□□║\n\
         ║4 ▣▣▣▣▦▦▦▦▦▦║\n\
         ║5 ▣▣▣▣▦▦▦▦▦▦║\n\
         ║6 □□□□▦▦▦▦▦▦║\n\
         ║7 □□□□▦▦▦▦▦▦║\n\
         ║8 □□□□▦▦▦▦▦▦║\n\
         ║9 □□□□▦▦▦▦▦▦║\n\
         ╚═══════════╝\n"
    );
}

#[test]
fn opening_for_all_dice() {
    for a in 1..=6u8 {
        for b in 1..=6u8 {
            for c in 1..=6u8 {
                for d in 1..=6u8 {
                    let mut game = new_game();
                    assert_eq!(game.place_opening(Pair(a, b), Pair(c, d)), Ok(()));
                    assert_opening(game.field(), Pair(a, b), Pair(c, d));
                }
            }
        }
    }
}

#[test]
fn opening_too_large_is_refused_and_places_nothing() {
    let mut game = new_game();
    assert_eq!(game.place_opening(Pair(11, 1), Pair(1, 1)), Err(PlaceError::OutOfBounds));
    assert_eq!(game.place_opening(Pair(1, 1), Pair(1, 11)), Err(PlaceError::OutOfBounds));
    assert_eq!(game.field().to_text(), Field::new(10, 10).to_text());
    assert_eq!(game.place_opening(Pair(10, 10), Pair(10, 1)), Ok(()));
    assert_eq!(game.field().tag(8, 9), 1);
    assert_eq!(game.field().tag(9, 0), 2);
}

#[test]
fn run_places_what_was_rolled() {
    for _ in 0..200 {
        let mut game = new_game();
        let opening = game.run();
        for value in [opening.first.0, opening.first.1, opening.second.0, opening.second.1] {
            assert!((1..=6).contains(&value));
        }
        assert_opening(game.field(), opening.first, opening.second);
        assert_eq!(game.winner(), None);
        assert_eq!(game.current_turn(), 1);
        assert_eq!(game.player1().name, "Ada");
        assert_eq!(game.player2().name, "Bob");
    }
}

#[test]
fn turns_alternate() {
    let mut game = new_game();
    assert_eq!(game.next_turn(), 1);
    assert_eq!(game.current_turn(), 2);
    assert_eq!(game.next_turn(), 2);
    assert_eq!(game.current_turn(), 1);
    assert_eq!(game.next_turn(), 1);
    assert_eq!(game.winner(), None);
    assert_eq!(game.field().to_text(), Field::new(10, 10).to_text());
}

#[test]
fn winner_is_the_player_with_the_tag() {
    let mut game = new_game();
    game.set_winner(Some(2));
    assert_eq!(game.winner(), Some(2));
    assert_eq!(game.winning_player().name, "Bob");
    assert_eq!(game.winning_player().win_message(), "Player Bob Wins!");
    game.set_winner(Some(1));
    assert_eq!(game.winning_player().name, "Ada");
    game.set_winner(None);
    assert_eq!(game.winner(), None);
    assert_eq!(game.player(1).name, "Ada");
    assert_eq!(game.player(2).name, "Bob");
    assert_eq!(game.player(game.current_turn()).move_message(), "Ada move");
}
