use vstd::prelude::*;
use crate::vector2::Vector2;

verus! {

/// The state of one cell of the grid: empty, or holding one of the
/// two players' marks.
#[derive(Debug, Copy, Clone, PartialEq, Eq, Structural)]
pub enum CellValue {
    Empty,
    Nought,
    Cross,
}

impl CellValue {
    /// The character a cell is rendered as.
    pub open spec fn to_char_spec(self) -> char {
        match self {
            CellValue::Empty => ' ',
            CellValue::Nought => 'o',
            CellValue::Cross => 'x',
        }
    }

    pub fn to_char(&self) -> (c: char)
        ensures
            c == self.to_char_spec(),
    {
        match self {
            CellValue::Empty => ' ',
            CellValue::Nought => 'o',
            CellValue::Cross => 'x',
        }
    }

    /// The display name of the player owning this mark.
    pub open spec fn player_name_spec(self) -> Seq<char> {
        match self {
            CellValue::Empty => "None"@,
            CellValue::Nought => "Noughts"@,
            CellValue::Cross => "Crosses"@,
        }
    }

    pub fn player_name(&self) -> (r: String)
        ensures
            r@ == self.player_name_spec(),
    {
        match self {
            CellValue::Empty => String::from_str("None"),
            CellValue::Nought => String::from_str("Noughts"),
            CellValue::Cross => String::from_str("Crosses"),
        }
    }
}

/// The cell at column `c`, row `r` of a board.
pub open spec fn cell(b: [[CellValue; 3]; 3], c: int, r: int) -> CellValue {
    b[c][r]
}

/// Whether `(c, r)` lies on the 3x3 grid.
pub open spec fn coord_in_range(c: int, r: int) -> bool {
    0 <= c < 3 && 0 <= r < 3
}

/// A board is full when no cell is empty.
pub open spec fn board_full_spec(b: [[CellValue; 3]; 3]) -> bool {
    forall|c: int, r: int| coord_in_range(c, r) ==> #[trigger] cell(b, c, r) != CellValue::Empty
}

/// True iff every cell of the board is occupied.
pub fn board_full(board: &[[CellValue; 3]; 3]) -> (full: bool)
    ensures
        full == board_full_spec(*board),
{
    let mut x: usize = 0;
    while x < 3
        invariant
            x <= 3,
            forall|c: int, r: int| 0 <= c < x && 0 <= r < 3 ==> cell(*board, c, r) != CellValue::Empty,
        decreases 3 - x,
    {
        let mut y: usize = 0;
        while y < 3
            invariant
                x < 3,
                y <= 3,
                forall|c: int, r: int| 0 <= c < x && 0 <= r < 3 ==> cell(*board, c, r) != CellValue::Empty,
                forall|r: int| 0 <= r < y ==> cell(*board, x as int, r) != CellValue::Empty,
            decreases 3 - y,
        {
            if board[x][y] == CellValue::Empty {
                assert(coord_in_range(x as int, y as int) && cell(*board, x as int, y as int)
                    == CellValue::Empty);
                assert(!board_full_spec(*board));
                return false;
            }
            y = y + 1;
        }
        x = x + 1;
    }
    true
}

/// One of the eight triples of cells that win the game when uniformly
/// marked: three rows, three columns, and the two diagonals.
#[derive(Debug, Copy, Clone, PartialEq, Eq, Structural)]
pub enum Line {
    Row0,
    Row1,
    Row2,
    Col0,
    Col1,
    Col2,
    MainDiag,
    AntiDiag,
}

/// Column of the `k`-th cell (k in 0..3) of a line.
pub open spec fn line_col(l: Line, k: int) -> int {
    match l {
        Line::Row0 => k,
        Line::Row1 => k,
        Line::Row2 => k,
        Line::Col0 => 0,
        Line::Col1 => 1,
        Line::Col2 => 2,
        Line::MainDiag => k,
        Line::AntiDiag => 2 - k,
    }
}

/// Row of the `k`-th cell (k in 0..3) of a line.
pub open spec fn line_row(l: Line, k: int) -> int {
    match l {
        Line::Row0 => 0,
        Line::Row1 => 1,
        Line::Row2 => 2,
        Line::Col0 => k,
        Line::Col1 => k,
        Line::Col2 => k,
        Line::MainDiag => k,
        Line::AntiDiag => k,
    }
}

/// Position of a line in the canonical evaluation order: rows top to
/// bottom, then columns left to right, then the main diagonal, then
/// the anti-diagonal.
pub open spec fn line_index(l: Line) -> int {
    match l {
        Line::Row0 => 0,
        Line::Row1 => 1,
        Line::Row2 => 2,
        Line::Col0 => 3,
        Line::Col1 => 4,
        Line::Col2 => 5,
        Line::MainDiag => 6,
        Line::AntiDiag => 7,
    }
}

/// The mark sitting on the first cell of a line.
pub open spec fn line_mark(b: [[CellValue; 3]; 3], l: Line) -> CellValue {
    cell(b, line_col(l, 0), line_row(l, 0))
}

/// A line is won when its three cells carry the same non-empty mark.
pub open spec fn line_won(b: [[CellValue; 3]; 3], l: Line) -> bool {
    &&& line_mark(b, l) != CellValue::Empty
    &&& cell(b, line_col(l, 1), line_row(l, 1)) == line_mark(b, l)
    &&& cell(b, line_col(l, 2), line_row(l, 2)) == line_mark(b, l)
}

/// The first won line in canonical order, if any.
pub open spec fn first_won_line(b: [[CellValue; 3]; 3]) -> Option<Line> {
    if line_won(b, Line::Row0) {
        Some(Line::Row0)
    } else if line_won(b, Line::Row1) {
        Some(Line::Row1)
    } else if line_won(b, Line::Row2) {
        Some(Line::Row2)
    } else if line_won(b, Line::Col0) {
        Some(Line::Col0)
    } else if line_won(b, Line::Col1) {
        Some(Line::Col1)
    } else if line_won(b, Line::Col2) {
        Some(Line::Col2)
    } else if line_won(b, Line::MainDiag) {
        Some(Line::MainDiag)
    } else if line_won(b, Line::AntiDiag) {
        Some(Line::AntiDiag)
    } else {
        None
    }
}

/// What `winning_line` returns: the first won line with its mark.
pub open spec fn winning_line_spec(b: [[CellValue; 3]; 3]) -> Option<(CellValue, Line)> {
    match first_won_line(b) {
        Some(l) => Some((line_mark(b, l), l)),
        None => None,
    }
}

/// Every line is one of the eight variants.
proof fn lemma_line_cases(l: Line)
    ensures
        l == Line::Row0 || l == Line::Row1 || l == Line::Row2 || l == Line::Col0 || l
            == Line::Col1 || l == Line::Col2 || l == Line::MainDiag || l == Line::AntiDiag,
{
    match l {
        Line::Row0 => assert(l == Line::Row0),
        Line::Row1 => assert(l == Line::Row1),
        Line::Row2 => assert(l == Line::Row2),
        Line::Col0 => assert(l == Line::Col0),
        Line::Col1 => assert(l == Line::Col1),
        Line::Col2 => assert(l == Line::Col2),
        Line::MainDiag => assert(l == Line::MainDiag),
        Line::AntiDiag => assert(l == Line::AntiDiag),
    }
}

/// The first won line is indeed won, is least in canonical order among
/// all won lines, and exists exactly when some line is won.
pub proof fn lemma_first_won_line(b: [[CellValue; 3]; 3])
    ensures
        match first_won_line(b) {
            Some(l) => line_won(b, l) && (forall|l2: Line|
                line_won(b, l2) ==> line_index(l) <= line_index(l2)),
            None => forall|l2: Line| !line_won(b, l2),
        },
{
    match first_won_line(b) {
        Some(l) => {
            assert forall|l2: Line| line_won(b, l2) implies line_index(l) <= line_index(l2) by {
                lemma_line_cases(l2);
            }
        },
        None => {
            assert forall|l2: Line| !line_won(b, l2) by {
                lemma_line_cases(l2);
            }
        },
    }
}

/// True iff the cells at `start` and `end`, and the cell midway
/// between them, all hold the same value. On the eight canonical
/// lines the midway cell is the middle cell of the line.
pub fn is_line(board: &[[CellValue; 3]; 3], start: Vector2<u8>, end: Vector2<u8>) -> (r: bool)
    requires
        start.x < 3,
        start.y < 3,
        end.x < 3,
        end.y < 3,
    ensures
        r == {
            let s = cell(*board, start.x as int, start.y as int);
            let e = cell(*board, end.x as int, end.y as int);
            let m = cell(
                *board,
                (start.x + end.x) as int / 2,
                (start.y + end.y) as int / 2,
            );
            s == e && s == m
        },
{
    let start_i = Vector2 { x: start.x as usize, y: start.y as usize };
    let end_i = Vector2 { x: end.x as usize, y: end.y as usize };
    let sum = start_i.add(end_i);
    let mid = Vector2 { x: sum.x / 2, y: sum.y / 2 };

    let start_value = board[start_i.x][start_i.y];
    if start_value == board[end_i.x][end_i.y] && start_value == board[mid.x][mid.y] {
        return true;
    }

    false
}

/// Scans the eight lines in canonical order and returns the first one
/// whose three cells share a non-empty mark, with that mark.
pub fn winning_line(board: &[[CellValue; 3]; 3]) -> (r: Option<(CellValue, Line)>)
    ensures
        r == winning_line_spec(*board),
        match r {
            Some((m, l)) => line_won(*board, l) && m == line_mark(*board, l) && (forall|l2: Line|
                line_won(*board, l2) ==> line_index(l) <= line_index(l2)),
            None => forall|l2: Line| !line_won(*board, l2),
        },
{
    proof {
        lemma_first_won_line(*board);
    }
    if board[0][0] != CellValue::Empty && is_line(board, Vector2 { x: 0, y: 0 }, Vector2 { x: 2, y: 0 }) {
        return Some((board[0][0], Line::Row0));
    }
    if board[0][1] != CellValue::Empty && is_line(board, Vector2 { x: 0, y: 1 }, Vector2 { x: 2, y: 1 }) {
        return Some((board[0][1], Line::Row1));
    }
    if board[0][2] != CellValue::Empty && is_line(board, Vector2 { x: 0, y: 2 }, Vector2 { x: 2, y: 2 }) {
        return Some((board[0][2], Line::Row2));
    }
    if board[0][0] != CellValue::Empty && is_line(board, Vector2 { x: 0, y: 0 }, Vector2 { x: 0, y: 2 }) {
        return Some((board[0][0], Line::Col0));
    }
    if board[1][0] != CellValue::Empty && is_line(board, Vector2 { x: 1, y: 0 }, Vector2 { x: 1, y: 2 }) {
        return Some((board[1][0], Line::Col1));
    }
    if board[2][0] != CellValue::Empty && is_line(board, Vector2 { x: 2, y: 0 }, Vector2 { x: 2, y: 2 }) {
        return Some((board[2][0], Line::Col2));
    }
    if board[0][0] != CellValue::Empty && is_line(board, Vector2 { x: 0, y: 0 }, Vector2 { x: 2, y: 2 }) {
        return Some((board[0][0], Line::MainDiag));
    }
    if board[2][0] != CellValue::Empty && is_line(board, Vector2 { x: 2, y: 0 }, Vector2 { x: 0, y: 2 }) {
        return Some((board[2][0], Line::AntiDiag));
    }
    None
}

/// What `winner` returns: the mark of the first won line, or the
/// empty cell value when no line is won.
pub open spec fn winner_spec(b: [[CellValue; 3]; 3]) -> CellValue {
    match first_won_line(b) {
        Some(l) => line_mark(b, l),
        None => CellValue::Empty,
    }
}

/// The mark holding a completed line, or `Empty` when there is none.
pub fn winner(board: &[[CellValue; 3]; 3]) -> (w: CellValue)
    ensures
        w == winner_spec(*board),
        w != CellValue::Empty <==> exists|l: Line| line_won(*board, l),
{
    proof {
        lemma_first_won_line(*board);
    }
    match winning_line(board) {
        Some((m, _l)) => m,
        None => CellValue::Empty,
    }
}

/// Why a move was rejected: its coordinate lies off the grid, or its
/// target cell is already occupied.
#[derive(Debug, Copy, Clone, PartialEq, Eq, Structural)]
pub enum InvalidMove {
    OutOfRange,
    Occupied,
}

/// Sets the cell at `coord` to `mark` when the coordinate is on the
/// grid and the cell is empty; otherwise leaves the board untouched
/// and reports why. This is the only operation that writes a cell.
pub fn apply_move(
    board: &mut [[CellValue; 3]; 3],
    coord: Vector2<u8>,
    mark: CellValue,
) -> (r: Result<(), InvalidMove>)
    requires
        mark != CellValue::Empty,
    ensures
        coord.x < 3 && coord.y < 3 && cell(*old(board), coord.x as int, coord.y as int)
            == CellValue::Empty ==> {
            &&& r == Ok::<(), InvalidMove>(())
            &&& cell(*final(board), coord.x as int, coord.y as int) == mark
            &&& forall|c: int, r2: int|
                coord_in_range(c, r2) && !(c == coord.x as int && r2 == coord.y as int)
                    ==> cell(*final(board), c, r2) == cell(*old(board), c, r2)
        },
        !(coord.x < 3 && coord.y < 3) ==> r == Err::<(), InvalidMove>(InvalidMove::OutOfRange)
            && *final(board) == *old(board),
        coord.x < 3 && coord.y < 3 && cell(*old(board), coord.x as int, coord.y as int)
            != CellValue::Empty ==> r == Err::<(), InvalidMove>(InvalidMove::Occupied)
            && *final(board) == *old(board),
{
    if coord.x >= 3 || coord.y >= 3 {
        return Err(InvalidMove::OutOfRange);
    }
    let x = coord.x as usize;
    let y = coord.y as usize;
    if board[x][y] != CellValue::Empty {
        return Err(InvalidMove::Occupied);
    }
    board[x][y] = mark;
    Ok(())
}

/// 1 when the cell is empty, else 0; a summand of `empty_count`.
pub open spec fn empty_at(b: [[CellValue; 3]; 3], c: int, r: int) -> int {
    if cell(b, c, r) == CellValue::Empty {
        1
    } else {
        0
    }
}

/// How many of the nine cells are empty.
pub open spec fn empty_count(b: [[CellValue; 3]; 3]) -> int {
    empty_at(b, 0, 0) + empty_at(b, 0, 1) + empty_at(b, 0, 2) + empty_at(b, 1, 0) + empty_at(
        b,
        1,
        1,
    ) + empty_at(b, 1, 2) + empty_at(b, 2, 0) + empty_at(b, 2, 1) + empty_at(b, 2, 2)
}

/// A board with no empty cell left is full, and conversely.
pub proof fn lemma_empty_count_zero_iff_full(b: [[CellValue; 3]; 3])
    ensures
        empty_count(b) == 0 <==> board_full_spec(b),
        0 <= empty_count(b) <= 9,
{
    if empty_count(b) == 0 {
        assert forall|c: int, r: int| coord_in_range(c, r) implies cell(b, c, r)
            != CellValue::Empty by {
            assert(c == 0 || c == 1 || c == 2);
            assert(r == 0 || r == 1 || r == 2);
            assert(empty_at(b, c, r) == 0);
        }
    }
    if board_full_spec(b) {
        assert(coord_in_range(0, 0) && cell(b, 0, 0) != CellValue::Empty);
        assert(coord_in_range(0, 1) && cell(b, 0, 1) != CellValue::Empty);
        assert(coord_in_range(0, 2) && cell(b, 0, 2) != CellValue::Empty);
        assert(coord_in_range(1, 0) && cell(b, 1, 0) != CellValue::Empty);
        assert(coord_in_range(1, 1) && cell(b, 1, 1) != CellValue::Empty);
        assert(coord_in_range(1, 2) && cell(b, 1, 2) != CellValue::Empty);
        assert(coord_in_range(2, 0) && cell(b, 2, 0) != CellValue::Empty);
        assert(coord_in_range(2, 1) && cell(b, 2, 1) != CellValue::Empty);
        assert(coord_in_range(2, 2) && cell(b, 2, 2) != CellValue::Empty);
        assert(empty_count(b) == 0);
    }
}

/// Filling one empty cell lowers the number of empty cells by one.
pub proof fn lemma_fill_decreases_empty_count(
    b1: [[CellValue; 3]; 3],
    b2: [[CellValue; 3]; 3],
    x: int,
    y: int,
)
    requires
        coord_in_range(x, y),
        cell(b1, x, y) == CellValue::Empty,
        cell(b2, x, y) != CellValue::Empty,
        forall|c: int, r: int|
            coord_in_range(c, r) && !(c == x && r == y) ==> #[trigger] cell(b2, c, r) == cell(
                b1,
                c,
                r,
            ),
    ensures
        empty_count(b2) == empty_count(b1) - 1,
{
    assert(x == 0 || x == 1 || x == 2);
    assert(y == 0 || y == 1 || y == 2);
}

} // verus!
