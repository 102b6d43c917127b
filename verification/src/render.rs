use vstd::prelude::*;
use crate::board::{cell, CellValue};

verus! {

/// The header row of the rendered board: column letters between bars.
pub open spec fn header_chars() -> Seq<char> {
    seq![' ', '|', 'A', '|', 'B', '|', 'C', '|']
}

/// The digit labelling a data row, rows being numbered from 1.
pub open spec fn row_digit(y: int) -> char {
    if y == 0 {
        '1'
    } else if y == 1 {
        '2'
    } else {
        '3'
    }
}

/// One rendered data row: its number, then the row's three cells
/// separated and closed by bars.
pub open spec fn row_chars(b: [[CellValue; 3]; 3], y: int) -> Seq<char> {
    seq![
        row_digit(y),
        '|',
        cell(b, 0, y).to_char_spec(),
        '|',
        cell(b, 1, y).to_char_spec(),
        '|',
        cell(b, 2, y).to_char_spec(),
        '|',
    ]
}

/// The one-character string a cell is rendered as.
fn cell_str(c: CellValue) -> (r: &'static str)
    ensures
        r@ == seq![c.to_char_spec()],
{
    match c {
        CellValue::Empty => {
            let s = " ";
            proof {
                reveal_strlit(" ");
                assert(s@ =~= seq![' ']);
            }
            s
        },
        CellValue::Nought => {
            let s = "o";
            proof {
                reveal_strlit("o");
                assert(s@ =~= seq!['o']);
            }
            s
        },
        CellValue::Cross => {
            let s = "x";
            proof {
                reveal_strlit("x");
                assert(s@ =~= seq!['x']);
            }
            s
        },
    }
}

/// One data row of the rendered board.
fn render_row(board: &[[CellValue; 3]; 3], y: usize) -> (r: String)
    requires
        y < 3,
    ensures
        r@ == row_chars(*board, y as int),
{
    let mut row = if y == 0 {
        String::from_str("1")
    } else if y == 1 {
        String::from_str("2")
    } else {
        String::from_str("3")
    };
    proof {
        reveal_strlit("1");
        reveal_strlit("2");
        reveal_strlit("3");
        reveal_strlit("|");
        assert(row@ =~= seq![row_digit(y as int)]);
    }
    row.append("|");
    row.append(cell_str(board[0][y]));
    row.append("|");
    row.append(cell_str(board[1][y]));
    row.append("|");
    row.append(cell_str(board[2][y]));
    row.append("|");
    proof {
        assert(row@ =~= row_chars(*board, y as int));
    }
    row
}

/// The fixed textual rendering of a board: the header row of column
/// letters, then one row per grid row, each cell between bars and an
/// empty cell shown as a space.
pub fn render_board(board: &[[CellValue; 3]; 3]) -> (rows: Vec<String>)
    ensures
        rows@.len() == 4,
        rows@[0]@ == header_chars(),
        forall|y: int| 0 <= y < 3 ==> #[trigger] rows@[y + 1]@ == row_chars(*board, y),
{
    let mut rows: Vec<String> = Vec::new();
    let header = String::from_str(" |A|B|C|");
    proof {
        reveal_strlit(" |A|B|C|");
        assert(header@ =~= header_chars());
    }
    rows.push(header);
    rows.push(render_row(board, 0));
    rows.push(render_row(board, 1));
    rows.push(render_row(board, 2));
    rows
}

/// The final result line: the winning mark's player name followed by
/// " wins.", or the draw line when no mark won.
pub open spec fn winner_message_chars(w: CellValue) -> Seq<char> {
    if w == CellValue::Empty {
        "It's a draw!"@
    } else {
        w.player_name_spec() + " wins."@
    }
}

/// The line printed when the game ends. `winner` is the mark of the
/// winning line, or the empty value for a draw.
pub fn winner_message(winner: CellValue) -> (r: String)
    ensures
        r@ == winner_message_chars(winner),
{
    if winner == CellValue::Empty {
        String::from_str("It's a draw!")
    } else {
        let mut s = winner.player_name();
        s.append(" wins.");
        s
    }
}

} // verus!
