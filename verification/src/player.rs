//! A player: a name, and the lines that announce what the player does.

use vstd::prelude::*;
use crate::pair::Pair;

verus! {

/// One of the two players.
#[derive(Debug)]
pub struct Player {
    pub name: String,
}

impl Player {
    /// The line that tells what the player rolled: the name, ` got `, and
    /// the two dice as a pair.
    pub open spec fn roll_text(&self, dice: Pair) -> Seq<char> {
        self.name@ + seq![' ', 'g', 'o', 't', ' '] + dice.text()
    }

    /// The line that tells that it is the player's move: the name and ` move`.
    pub open spec fn move_text(&self) -> Seq<char> {
        self.name@ + seq![' ', 'm', 'o', 'v', 'e']
    }

    /// The line that tells that the player has won: `Player `, the name,
    /// and ` Wins!`.
    pub open spec fn win_text(&self) -> Seq<char> {
        seq!['P', 'l', 'a', 'y', 'e', 'r', ' '] + self.name@ + seq![' ', 'W', 'i', 'n', 's', '!']
    }

    /// The player as text: the name.
    pub fn to_text(&self) -> (out: String)
        ensures
            out@ == self.name@,
    {
        self.name.clone()
    }

    /// The line that tells what the player rolled.
    pub fn roll_message(&self, dice: Pair) -> (out: String)
        ensures
            out@ == self.roll_text(dice),
    {
        proof {
            reveal_strlit(" got ");
        }
        let mut out = self.name.clone();
        out.append(" got ");
        let pair = dice.to_text();
        out.append(pair.as_str());
        assert(out@ =~= self.roll_text(dice));
        out
    }

    /// The line that tells that it is the player's move.
    pub fn move_message(&self) -> (out: String)
        ensures
            out@ == self.move_text(),
    {
        proof {
            reveal_strlit(" move");
        }
        let mut out = self.name.clone();
        out.append(" move");
        assert(out@ =~= self.move_text());
        out
    }

    /// The line that tells that the player has won.
    pub fn win_message(&self) -> (out: String)
        ensures
            out@ == self.win_text(),
    {
        proof {
            reveal_strlit("Player ");
            reveal_strlit(" Wins!");
        }
        let mut out = String::new();
        out.append("Player ");
        out.append(self.name.as_str());
        out.append(" Wins!");
        assert(out@ =~= self.win_text());
        out
    }
}

} // verus!
