//! The field drawn as text: a box with a line of column numbers and one
//! line for each row.
//!
//! ```text
//! ╔═════╗
//! ║  0 1 2 3 ║
//! ║0 □□□□║
//! ║1 □□□□║
//! ║2 □□□□║
//! ║3 □□□□║
//! ╚═════╝
//! ```

use vstd::prelude::*;
use crate::field::{blank, Field, EMPTY, PLAYER_ONE, PLAYER_TWO};
use crate::text::{append_decimal, decimal};

verus! {

/// The character that a cell with the tag `tag` is drawn as.
pub open spec fn glyph(tag: u8) -> char {
    if tag == EMPTY {
        '□'
    } else if tag == PLAYER_ONE {
        '▣'
    } else if tag == PLAYER_TWO {
        '▦'
    } else {
        '?'
    }
}

/// The top or the bottom line of the box around a field `width` cells wide:
/// a corner, `width + 1` bars, a corner, and the end of the line.
pub open spec fn border(top: bool, width: nat) -> Seq<char> {
    seq![if top { '╔' } else { '╚' }] + Seq::new(width + 1, |i: int| '═') + seq![
        if top { '╗' } else { '╝' },
        '\n',
    ]
}

/// The numbers `0`, `1`, up to `count - 1`, each followed by a blank.
pub open spec fn column_labels(count: nat) -> Seq<char>
    decreases count,
{
    if count == 0 {
        Seq::empty()
    } else {
        column_labels((count - 1) as nat) + decimal((count - 1) as nat) + seq![' ']
    }
}

/// The line that numbers the columns.
pub open spec fn header(width: nat) -> Seq<char> {
    seq!['║', ' ', ' '] + column_labels(width) + seq!['║', '\n']
}

/// The cells of one row, one character each.
pub open spec fn row_glyphs(row: Seq<u8>) -> Seq<char> {
    Seq::new(row.len(), |col: int| glyph(row[col]))
}

/// The line for the row with the number `index`.
pub open spec fn row_text(index: nat, row: Seq<u8>) -> Seq<char> {
    seq!['║'] + decimal(index) + seq![' '] + row_glyphs(row) + seq!['║', '\n']
}

/// The lines for the first `count` rows.
pub open spec fn rows_text(rows: Seq<Seq<u8>>, count: nat) -> Seq<char>
    decreases count,
{
    if count == 0 {
        Seq::empty()
    } else {
        rows_text(rows, (count - 1) as nat) + row_text((count - 1) as nat, rows[count - 1])
    }
}

/// The whole drawing of a field `width` cells wide with the rows `rows`.
pub open spec fn grid_text(width: nat, rows: Seq<Seq<u8>>) -> Seq<char> {
    border(true, width) + header(width) + rows_text(rows, rows.len()) + border(false, width)
}

/// The one-character string that a cell with the tag `tag` is drawn as.
fn glyph_str(tag: u8) -> (s: &'static str)
    ensures
        s@ == seq![glyph(tag)],
{
    proof {
        reveal_strlit("□");
        reveal_strlit("▣");
        reveal_strlit("▦");
        reveal_strlit("?");
    }
    let s: &'static str = if tag == EMPTY {
        "□"
    } else if tag == PLAYER_ONE {
        "▣"
    } else if tag == PLAYER_TWO {
        "▦"
    } else {
        "?"
    };
    assert(s@ =~= seq![glyph(tag)]);
    s
}

fn append_border(out: &mut String, top: bool, width: usize)
    ensures
        final(out)@ == old(out)@ + border(top, width as nat),
{
    proof {
        reveal_strlit("╔");
        reveal_strlit("╚");
        reveal_strlit("═");
        reveal_strlit("╗\n");
        reveal_strlit("╝\n");
    }
    out.append(if top { "╔" } else { "╚" });
    out.append("═");
    let ghost corner = seq![if top { '╔' } else { '╚' }];
    let mut i: usize = 0;
    while i < width
        invariant
            i <= width,
            out@ == old(out)@ + corner + Seq::new((i + 1) as nat, |k: int| '═'),
        decreases width - i,
    {
        out.append("═");
        i += 1;
        proof {
            reveal_strlit("═");
        }
        assert(out@ =~= old(out)@ + corner + Seq::new((i + 1) as nat, |k: int| '═'));
    }
    out.append(if top { "╗\n" } else { "╝\n" });
    assert(out@ =~= old(out)@ + border(top, width as nat));
}

fn append_header(out: &mut String, width: usize)
    ensures
        final(out)@ == old(out)@ + header(width as nat),
{
    proof {
        reveal_strlit("║  ");
        reveal_strlit("║\n");
        reveal_strlit(" ");
    }
    out.append("║  ");
    let ghost lead = seq!['║', ' ', ' '];
    assert(out@ =~= old(out)@ + lead + column_labels(0));
    let mut col: usize = 0;
    while col < width
        invariant
            col <= width,
            out@ == old(out)@ + lead + column_labels(col as nat),
        decreases width - col,
    {
        append_decimal(out, col);
        out.append(" ");
        col += 1;
        proof {
            reveal_strlit(" ");
        }
        assert(out@ =~= old(out)@ + lead + column_labels(col as nat));
    }
    out.append("║\n");
    assert(out@ =~= old(out)@ + header(width as nat));
}

impl Field {
    /// What [`Field::to_text`] returns.
    pub open spec fn text(&self) -> Seq<char> {
        grid_text(self.width() as nat, self@)
    }

    fn append_row(&self, out: &mut String, row: usize)
        requires
            self.well_formed(),
            row < self.height(),
        ensures
            final(out)@ == old(out)@ + row_text(row as nat, self@[row as int]),
    {
        proof {
            reveal_strlit("║");
            reveal_strlit("║\n");
            reveal_strlit(" ");
            self.lemma_view_shape();
        }
        out.append("║");
        append_decimal(out, row);
        out.append(" ");
        let ghost lead = seq!['║'] + decimal(row as nat) + seq![' '];
        let ghost tags = self@[row as int];
        assert(out@ =~= old(out)@ + lead + Seq::new(0, |c: int| glyph(tags[c])));
        let mut col: usize = 0;
        while col < self.width()
            invariant
                self.well_formed(),
                row < self.height(),
                col <= self.width(),
                tags == self@[row as int],
                tags.len() == self.width(),
                out@ == old(out)@ + lead + Seq::new(col as nat, |c: int| glyph(tags[c])),
            decreases self.width() - col,
        {
            out.append(glyph_str(self.tag(row, col)));
            col += 1;
            assert(out@ =~= old(out)@ + lead + Seq::new(col as nat, |c: int| glyph(tags[c])));
        }
        out.append("║\n");
        assert(out@ =~= old(out)@ + row_text(row as nat, tags));
    }

    /// Draws the field: the top of the box, the line of column numbers, one
    /// line for each row (its number, a blank, and one character for each
    /// cell), and the bottom of the box. Every line ends with a line feed.
    pub fn to_text(&self) -> (out: String)
        requires
            self.well_formed(),
        ensures
            out@ == self.text(),
    {
        proof {
            self.lemma_view_shape();
        }
        let mut out = String::new();
        append_border(&mut out, true, self.width());
        append_header(&mut out, self.width());
        let ghost top = border(true, self.width() as nat) + header(self.width() as nat);
        assert(out@ =~= top + rows_text(self@, 0));
        let mut row: usize = 0;
        while row < self.height()
            invariant
                self.well_formed(),
                row <= self.height(),
                out@ == top + rows_text(self@, row as nat),
            decreases self.height() - row,
        {
            self.append_row(&mut out, row);
            row += 1;
            assert(out@ =~= top + rows_text(self@, row as nat));
        }
        append_border(&mut out, false, self.width());
        assert(out@ =~= self.text());
        out
    }
}

/// The number of lines of `text`: how many line feeds it holds.
pub open spec fn line_count(text: Seq<char>) -> nat
    decreases text.len(),
{
    if text.len() == 0 {
        0
    } else {
        line_count(text.drop_last()) + if text.last() == '\n' {
            1nat
        } else {
            0nat
        }
    }
}

proof fn lemma_line_count_concat(a: Seq<char>, b: Seq<char>)
    ensures
        line_count(a + b) == line_count(a) + line_count(b),
    decreases b.len(),
{
    if b.len() == 0 {
        assert(a + b =~= a);
    } else {
        assert((a + b).drop_last() =~= a + b.drop_last());
        lemma_line_count_concat(a, b.drop_last());
    }
}

proof fn lemma_line_count_none(text: Seq<char>)
    requires
        forall|i: int| 0 <= i < text.len() ==> text[i] != '\n',
    ensures
        line_count(text) == 0,
    decreases text.len(),
{
    if text.len() > 0 {
        lemma_line_count_none(text.drop_last());
    }
}

proof fn lemma_line_count_end(text: Seq<char>)
    ensures
        line_count(text.push('\n')) == line_count(text) + 1,
{
    assert(text.push('\n').drop_last() =~= text);
}

proof fn lemma_line_count_decimal(n: nat)
    ensures
        line_count(decimal(n)) == 0,
    decreases n,
{
    if n < 10 {
        lemma_line_count_none(decimal(n));
    } else {
        lemma_line_count_decimal(n / 10);
        assert(decimal(n).drop_last() =~= decimal(n / 10));
    }
}

proof fn lemma_line_count_labels(count: nat)
    ensures
        line_count(column_labels(count)) == 0,
    decreases count,
{
    if count > 0 {
        let before = column_labels((count - 1) as nat);
        let number = decimal((count - 1) as nat);
        lemma_line_count_labels((count - 1) as nat);
        lemma_line_count_decimal((count - 1) as nat);
        lemma_line_count_none(seq![' ']);
        lemma_line_count_concat(before, number);
        lemma_line_count_concat(before + number, seq![' ']);
    }
}

proof fn lemma_line_count_border(top: bool, width: nat)
    ensures
        line_count(border(top, width)) == 1,
{
    let body = seq![if top { '╔' } else { '╚' }] + Seq::new(width + 1, |i: int| '═') + seq![
        if top { '╗' } else { '╝' },
    ];
    lemma_line_count_none(body);
    lemma_line_count_end(body);
    assert(border(top, width) =~= body.push('\n'));
}

proof fn lemma_line_count_header(width: nat)
    ensures
        line_count(header(width)) == 1,
{
    let lead = seq!['║', ' ', ' '];
    let body = lead + column_labels(width) + seq!['║'];
    lemma_line_count_none(lead);
    lemma_line_count_none(seq!['║']);
    lemma_line_count_labels(width);
    lemma_line_count_concat(lead, column_labels(width));
    lemma_line_count_concat(lead + column_labels(width), seq!['║']);
    lemma_line_count_end(body);
    assert(header(width) =~= body.push('\n'));
}

proof fn lemma_line_count_row(index: nat, row: Seq<u8>)
    ensures
        line_count(row_text(index, row)) == 1,
{
    let lead = seq!['║'];
    let rest = seq![' '] + row_glyphs(row) + seq!['║'];
    let body = lead + decimal(index) + rest;
    lemma_line_count_none(lead);
    lemma_line_count_none(rest);
    lemma_line_count_decimal(index);
    lemma_line_count_concat(lead, decimal(index));
    lemma_line_count_concat(lead + decimal(index), rest);
    lemma_line_count_end(body);
    assert(row_text(index, row) =~= body.push('\n'));
}

proof fn lemma_line_count_rows(rows: Seq<Seq<u8>>, count: nat)
    ensures
        line_count(rows_text(rows, count)) == count,
    decreases count,
{
    if count > 0 {
        lemma_line_count_rows(rows, (count - 1) as nat);
        lemma_line_count_row((count - 1) as nat, rows[count - 1]);
        lemma_line_count_concat(
            rows_text(rows, (count - 1) as nat),
            row_text((count - 1) as nat, rows[count - 1]),
        );
    }
}

/// The drawing of a field has three lines more than the field has rows:
/// the top of the box, the column numbers, the rows, and the bottom of the
/// box. The last line, too, ends with a line feed.
pub proof fn lemma_text_lines(width: nat, rows: Seq<Seq<u8>>)
    ensures
        line_count(grid_text(width, rows)) == rows.len() + 3,
        grid_text(width, rows).last() == '\n',
{
    let top = border(true, width);
    let head = header(width);
    let body = rows_text(rows, rows.len());
    let bottom = border(false, width);
    lemma_line_count_border(true, width);
    lemma_line_count_header(width);
    lemma_line_count_rows(rows, rows.len());
    lemma_line_count_border(false, width);
    lemma_line_count_concat(top, head);
    lemma_line_count_concat(top + head, body);
    lemma_line_count_concat(top + head + body, bottom);
}

/// In the drawing of an empty field every cell of every row is drawn as
/// `□`.
pub proof fn lemma_blank_rows(width: nat, height: nat)
    ensures
        forall|row: int|
            0 <= row < height ==> row_glyphs(#[trigger] blank(width, height)[row]) == Seq::new(
                width,
                |col: int| '□',
            ),
{
    assert forall|row: int| 0 <= row < height implies row_glyphs(
        #[trigger] blank(width, height)[row],
    ) == Seq::new(width, |col: int| '□') by {
        assert(row_glyphs(blank(width, height)[row]) =~= Seq::new(width, |col: int| '□'));
    }
}

/// Drawing a field twice gives the same text both times: the text is
/// decided by the field's width and cells, and drawing changes neither.
pub proof fn lemma_text_repeatable(field: Field, first: String, second: String)
    requires
        first@ == field.text(),
        second@ == field.text(),
    ensures
        first@ == second@,
{
}

} // verus!
