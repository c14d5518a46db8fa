//! The text of each piece of the picture, on the background of its color.

use vstd::prelude::*;
use vstd::string::StringExecFns;
use colored::Colorize;
use crate::cell::Cell;
use crate::render::Tile;

verus! {

/// The character that begins a control sequence of the terminal.
pub const ESCAPE: char = '\x1b';

/// The control sequence that sets the background to a color; none for `EMPTY`.
pub open spec fn background_code(color: Cell) -> Seq<char> {
    match color {
        Cell::RED => seq![ESCAPE, '[', '4', '1', 'm'],
        Cell::YELLOW => seq![ESCAPE, '[', '4', '3', 'm'],
        Cell::GREEN => seq![ESCAPE, '[', '4', '2', 'm'],
        Cell::BLUE => seq![ESCAPE, '[', '4', '4', 'm'],
        Cell::EMPTY => Seq::empty(),
    }
}

/// The control sequence that ends all coloring.
pub open spec fn reset_code() -> Seq<char> {
    seq![ESCAPE, '[', '0', 'm']
}

/// A text between the control sequences that show it on a background.
pub open spec fn painted(text: Seq<char>, color: Cell) -> Seq<char> {
    background_code(color) + text + reset_code()
}

/// Whether a text holds nothing that a terminal would take for the start of
/// a control sequence.
pub open spec fn is_plain(text: Seq<char>) -> bool {
    forall|i: int| 0 <= i < text.len() ==> text[i] != ESCAPE
}

/// Formats what `colored::Colorize::on_red` makes of a text.
///
/// Believed of it, and not proved: for a text without control sequences the
/// result is the text between the sequence for a red background and the
/// reset sequence, or, where the crate finds that colors are switched off
/// (`NO_COLOR`, `CLICOLOR`, an output that is no terminal, or its own
/// override), the text alone. This supposes that no other thread changes
/// that override while the call runs.
#[verifier::external_body]
fn on_red(text: &str) -> (out: String)
    requires
        is_plain(text@),
    ensures
        out@ == text@ || out@ == painted(text@, Cell::RED),
{
    format!("{}", text.on_red())
}

/// Formats what `colored::Colorize::on_yellow` makes of a text.
///
/// Believed of it, and not proved: for a text without control sequences the
/// result is the text between the sequence for a yellow background and the
/// reset sequence, or, where colors are switched off as for `on_red`, the
/// text alone.
#[verifier::external_body]
fn on_yellow(text: &str) -> (out: String)
    requires
        is_plain(text@),
    ensures
        out@ == text@ || out@ == painted(text@, Cell::YELLOW),
{
    format!("{}", text.on_yellow())
}

/// Formats what `colored::Colorize::on_green` makes of a text.
///
/// Believed of it, and not proved: for a text without control sequences the
/// result is the text between the sequence for a green background and the
/// reset sequence, or, where colors are switched off as for `on_red`, the
/// text alone.
#[verifier::external_body]
fn on_green(text: &str) -> (out: String)
    requires
        is_plain(text@),
    ensures
        out@ == text@ || out@ == painted(text@, Cell::GREEN),
{
    format!("{}", text.on_green())
}

/// Formats what `colored::Colorize::on_blue` makes of a text.
///
/// Believed of it, and not proved: for a text without control sequences the
/// result is the text between the sequence for a blue background and the
/// reset sequence, or, where colors are switched off as for `on_red`, the
/// text alone.
#[verifier::external_body]
fn on_blue(text: &str) -> (out: String)
    requires
        is_plain(text@),
    ensures
        out@ == text@ || out@ == painted(text@, Cell::BLUE),
{
    format!("{}", text.on_blue())
}

/// The text of an empty cell.
pub open spec fn empty_label() -> Seq<char> {
    seq!['[', ' ', ']']
}

/// The text of a horse.
pub open spec fn horse_label() -> Seq<char> {
    seq!['[', 'H', ']']
}

/// The text of a free place in a stable.
pub open spec fn stall_label() -> Seq<char> {
    seq![' ', ' ', ' ']
}

/// The character of a decimal digit.
pub open spec fn digit(d: nat) -> char {
    if d == 0 {
        '0'
    } else if d == 1 {
        '1'
    } else if d == 2 {
        '2'
    } else if d == 3 {
        '3'
    } else if d == 4 {
        '4'
    } else if d == 5 {
        '5'
    } else if d == 6 {
        '6'
    } else if d == 7 {
        '7'
    } else if d == 8 {
        '8'
    } else {
        '9'
    }
}

/// A number written in decimal digits.
pub open spec fn decimal(n: nat) -> Seq<char>
    decreases n,
{
    if n < 10 {
        seq![digit(n)]
    } else {
        decimal(n / 10).push(digit(n % 10))
    }
}

/// The text of a free slot of a stairway: its number between brackets.
pub open spec fn step_label(number: nat) -> Seq<char> {
    seq!['['] + decimal(number) + seq![']']
}

/// Decimal digits hold no control sequence.
pub proof fn lemma_decimal_is_plain(n: nat)
    ensures
        is_plain(decimal(n)),
    decreases n,
{
    if n >= 10 {
        lemma_decimal_is_plain(n / 10);
    }
}

/// The text of a decimal digit.
fn digit_text(d: usize) -> (text: &'static str)
    requires
        d < 10,
    ensures
        text@ == seq![digit(d as nat)],
{
    proof {
        reveal_strlit("0");
        reveal_strlit("1");
        reveal_strlit("2");
        reveal_strlit("3");
        reveal_strlit("4");
        reveal_strlit("5");
        reveal_strlit("6");
        reveal_strlit("7");
        reveal_strlit("8");
        reveal_strlit("9");
    }
    if d == 0 {
        "0"
    } else if d == 1 {
        "1"
    } else if d == 2 {
        "2"
    } else if d == 3 {
        "3"
    } else if d == 4 {
        "4"
    } else if d == 5 {
        "5"
    } else if d == 6 {
        "6"
    } else if d == 7 {
        "7"
    } else if d == 8 {
        "8"
    } else {
        "9"
    }
}

/// A number written in decimal digits.
pub fn decimal_text(n: usize) -> (text: String)
    ensures
        text@ == decimal(n as nat),
    decreases n,
{
    if n < 10 {
        String::from_str(digit_text(n))
    } else {
        let mut text: String = decimal_text(n / 10);
        text.append(digit_text(n % 10));
        text
    }
}

/// Writes a text on the background of a color, and, as the empty marker
/// has no background, an empty cell in place of the text for it.
fn on_color(text: &str, color: Cell) -> (out: String)
    requires
        is_plain(text@),
    ensures
        color == Cell::EMPTY ==> out@ == empty_label(),
        color != Cell::EMPTY ==> out@ == text@ || out@ == painted(text@, color),
{
    match color {
        Cell::RED => on_red(text),
        Cell::YELLOW => on_yellow(text),
        Cell::GREEN => on_green(text),
        Cell::BLUE => on_blue(text),
        Cell::EMPTY => {
            proof {
                reveal_strlit("[ ]");
            }
            String::from_str("[ ]")
        },
    }
}

impl Cell {
    /// The text of a cell where colors are switched off.
    pub open spec fn plain(self) -> Seq<char> {
        if self == Cell::EMPTY {
            empty_label()
        } else {
            horse_label()
        }
    }

    /// Whether a text is one that may be written for a cell: its plain
    /// text, or, for a horse, that text on the background of its color.
    pub open spec fn is_text(self, out: Seq<char>) -> bool {
        out == self.plain() || (self != Cell::EMPTY && out == painted(self.plain(), self))
    }

    /// The text of a cell: a horse on the background of its color, or the
    /// empty cell.
    pub fn text(&self) -> (out: String)
        ensures
            self.is_text(out@),
    {
        proof {
            reveal_strlit("[H]");
        }
        assert("[H]"@ =~= horse_label());
        on_color("[H]", *self)
    }
}

impl Tile {
    /// The color on whose background a piece is drawn; `EMPTY` for a gap.
    pub open spec fn color(self) -> Cell {
        match self {
            Tile::Square(color) => color,
            Tile::Stall(color) => color,
            Tile::Step(color, _) => color,
            Tile::Gap(_) => Cell::EMPTY,
        }
    }

    /// The text of a piece where colors are switched off. A piece that is
    /// given the empty marker for its color is written as an empty cell.
    pub open spec fn plain(self) -> Seq<char> {
        match self {
            Tile::Gap(width) => Seq::new(width as nat, |i: int| ' '),
            Tile::Square(color) => color.plain(),
            Tile::Stall(color) => if color == Cell::EMPTY {
                empty_label()
            } else {
                stall_label()
            },
            Tile::Step(color, number) => if color == Cell::EMPTY {
                empty_label()
            } else {
                step_label(number as nat)
            },
        }
    }

    /// Whether a text is one that may be written for a piece: its plain
    /// text, or, for a piece with a color, that text on the background of
    /// the color.
    pub open spec fn is_text(self, out: Seq<char>) -> bool {
        out == self.plain() || (self.color() != Cell::EMPTY && out == painted(
            self.plain(),
            self.color(),
        ))
    }

    /// The number of columns that a piece takes.
    pub open spec fn width(self) -> nat {
        self.plain().len()
    }

    /// The text of a piece.
    pub fn text(&self) -> (out: String)
        ensures
            self.is_text(out@),
    {
        match *self {
            Tile::Square(color) => color.text(),
            Tile::Stall(color) => {
                proof {
                    reveal_strlit("   ");
                }
                assert("   "@ =~= stall_label());
                on_color("   ", color)
            },
            Tile::Step(color, number) => {
                let mut step: String = String::from_str("[");
                let digits: String = decimal_text(number);
                step.append(digits.as_str());
                step.append("]");
                proof {
                    reveal_strlit("[");
                    reveal_strlit("]");
                    lemma_decimal_is_plain(number as nat);
                }
                assert(step@ =~= step_label(number as nat));
                on_color(step.as_str(), color)
            },
            Tile::Gap(width) => {
                let mut blanks: String = String::new();
                let mut i: usize = 0;
                proof {
                    reveal_strlit(" ");
                }
                while i < width
                    invariant
                        i <= width,
                        " "@ =~= seq![' '],
                        blanks@ =~= Seq::new(i as nat, |k: int| ' '),
                    decreases width - i,
                {
                    blanks.append(" ");
                    i = i + 1;
                }
                blanks
            },
        }
    }
}

/// The number of columns that a row of pieces takes.
pub open spec fn row_width(row: Seq<Tile>) -> nat
    decreases row.len(),
{
    if row.len() == 0 {
        0
    } else {
        row_width(row.drop_last()) + row.last().width()
    }
}

} // verus!
