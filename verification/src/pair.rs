//! A pair of small numbers: a coordinate, a size, or two dice.

use vstd::prelude::*;
use crate::text::{append_decimal, decimal};

verus! {

/// Two small numbers. As a coordinate or a size the first is horizontal
/// (a column, a width) and the second vertical (a row, a height).
#[derive(Debug, Clone, Copy)]
pub struct Pair(pub u8, pub u8);

impl Pair {
    /// How the pair is written: `(a b)`.
    pub open spec fn text(self) -> Seq<char> {
        seq!['('] + decimal(self.0 as nat) + seq![' '] + decimal(self.1 as nat) + seq![')']
    }

    /// Writes the pair as `(a b)`, both numbers in decimal.
    pub fn to_text(&self) -> (out: String)
        ensures
            out@ == self.text(),
    {
        proof {
            reveal_strlit("(");
            reveal_strlit(" ");
            reveal_strlit(")");
        }
        let mut out = String::new();
        out.append("(");
        append_decimal(&mut out, self.0 as usize);
        out.append(" ");
        append_decimal(&mut out, self.1 as usize);
        out.append(")");
        assert(out@ =~= self.text());
        out
    }
}

} // verus!
