use vstd::prelude::*;
use crate::board::{board_full_spec, cell, coord_in_range, CellValue};
use crate::rng::random_below;
use crate::vector2::Vector2;

verus! {

/// Who supplies a player's moves: the person at the terminal, or the
/// random-choice computer opponent.
#[derive(Debug, Copy, Clone, PartialEq, Eq, Structural)]
pub enum PlayerType {
    Human,
    AI,
}

/// One of the two participants of a game: a display name, the mark it
/// places, and where its moves come from.
pub struct Player {
    pub name: String,
    pub token: CellValue,
    pub controller: PlayerType,
}

/// Why no move could be produced: the text had the wrong shape, named
/// a cell off the grid, named an occupied cell, or — for the computer
/// player — the board had no empty cell left.
#[derive(Debug, Copy, Clone, PartialEq, Eq, Structural)]
pub enum MoveError {
    InvalidFormat,
    OutOfRange,
    Occupied,
    NoEmptyCells,
}

impl MoveError {
    /// The message shown to the user when a move is rejected.
    pub open spec fn message_spec(self) -> Seq<char> {
        match self {
            MoveError::InvalidFormat => "Input format invalid. Please enter in the format 'A1'."@,
            MoveError::OutOfRange => "Coordinates out of range. Columns are A-C and rows 1-3."@,
            MoveError::Occupied => "Cell already occupied. Please select another cell."@,
            MoveError::NoEmptyCells => "No empty cells are left to play."@,
        }
    }

    pub fn message(&self) -> (r: String)
        ensures
            r@ == self.message_spec(),
    {
        match self {
            MoveError::InvalidFormat => String::from_str(
                "Input format invalid. Please enter in the format 'A1'.",
            ),
            MoveError::OutOfRange => String::from_str(
                "Coordinates out of range. Columns are A-C and rows 1-3.",
            ),
            MoveError::Occupied => String::from_str(
                "Cell already occupied. Please select another cell.",
            ),
            MoveError::NoEmptyCells => String::from_str("No empty cells are left to play."),
        }
    }
}

/// The whitespace that is ignored around an entered coordinate: the
/// characters with the Unicode White_Space property, the same set
/// that `str::trim` removes.
pub open spec fn is_space_char(c: char) -> bool {
    let u = c as u32;
    ||| (0x09 <= u && u <= 0x0D)
    ||| u == 0x20
    ||| u == 0x85
    ||| u == 0xA0
    ||| u == 0x1680
    ||| (0x2000 <= u && u <= 0x200A)
    ||| u == 0x2028
    ||| u == 0x2029
    ||| u == 0x202F
    ||| u == 0x205F
    ||| u == 0x3000
}

/// The input with its leading whitespace removed.
pub open spec fn trim_start_spec(s: Seq<char>) -> Seq<char>
    decreases s.len(),
{
    if s.len() > 0 && is_space_char(s[0]) {
        trim_start_spec(s.subrange(1, s.len() as int))
    } else {
        s
    }
}

/// The input with its trailing whitespace removed.
pub open spec fn trim_end_spec(s: Seq<char>) -> Seq<char>
    decreases s.len(),
{
    if s.len() > 0 && is_space_char(s[s.len() - 1]) {
        trim_end_spec(s.take(s.len() - 1))
    } else {
        s
    }
}

/// The input with whitespace removed on both ends.
pub open spec fn trim_spec(s: Seq<char>) -> Seq<char> {
    trim_end_spec(trim_start_spec(s))
}

/// When every index below `lo` holds whitespace and `lo` does not,
/// trimming the start keeps exactly the tail from `lo` on.
proof fn lemma_trim_start_prefix(s: Seq<char>, lo: int)
    requires
        0 <= lo <= s.len(),
        forall|i: int| 0 <= i < lo ==> is_space_char(#[trigger] s[i]),
        lo == s.len() || !is_space_char(s[lo]),
    ensures
        trim_start_spec(s) == s.subrange(lo, s.len() as int),
    decreases lo,
{
    if lo == 0 {
        assert(s.subrange(0, s.len() as int) =~= s);
    } else {
        let s1 = s.subrange(1, s.len() as int);
        assert(forall|i: int| 0 <= i < lo - 1 ==> is_space_char(#[trigger] s1[i]));
        lemma_trim_start_prefix(s1, lo - 1);
        assert(s1.subrange(lo - 1, s1.len() as int) =~= s.subrange(lo, s.len() as int));
    }
}

/// When every index from `hi` on holds whitespace and `hi - 1` does
/// not, trimming the end keeps exactly the first `hi` characters.
proof fn lemma_trim_end_suffix(s: Seq<char>, hi: int)
    requires
        0 <= hi <= s.len(),
        forall|i: int| hi <= i < s.len() ==> is_space_char(#[trigger] s[i]),
        hi == 0 || !is_space_char(s[hi - 1]),
    ensures
        trim_end_spec(s) == s.take(hi),
    decreases s.len() - hi,
{
    if hi == s.len() {
        assert(s.take(hi) =~= s);
    } else {
        let s1 = s.take(s.len() - 1);
        assert(forall|i: int| hi <= i < s1.len() ==> is_space_char(#[trigger] s1[i]));
        lemma_trim_end_suffix(s1, hi);
        assert(s1.take(hi) =~= s.take(hi));
    }
}

fn is_space(c: char) -> (r: bool)
    ensures
        r == is_space_char(c),
{
    let u = c as u32;
    (0x09 <= u && u <= 0x0D) || u == 0x20 || u == 0x85 || u == 0xA0 || u == 0x1680 || (0x2000 <= u
        && u <= 0x200A) || u == 0x2028 || u == 0x2029 || u == 0x202F || u == 0x205F || u == 0x3000
}

/// The indices delimiting the input once surrounding whitespace is
/// dropped: the trimmed text is `s[lo..hi]`.
fn trimmed_bounds(s: &str) -> (b: (usize, usize))
    ensures
        b.0 <= b.1 <= s@.len(),
        trim_spec(s@) == s@.subrange(b.0 as int, b.1 as int),
{
    let n = s.unicode_len();
    let mut lo: usize = 0;
    while lo < n && is_space(s.get_char(lo))
        invariant
            lo <= n,
            n == s@.len(),
            forall|i: int| 0 <= i < lo ==> is_space_char(#[trigger] s@[i]),
        decreases n - lo,
    {
        lo = lo + 1;
    }
    let mut hi: usize = n;
    while hi > lo && is_space(s.get_char(hi - 1))
        invariant
            lo <= hi <= n,
            n == s@.len(),
            forall|i: int| 0 <= i < lo ==> is_space_char(#[trigger] s@[i]),
            lo == n || !is_space_char(s@[lo as int]),
            forall|i: int| hi <= i < n ==> is_space_char(#[trigger] s@[i]),
        decreases hi,
    {
        hi = hi - 1;
    }
    proof {
        lemma_trim_start_prefix(s@, lo as int);
        let t = s@.subrange(lo as int, n as int);
        assert(forall|i: int|
            hi - lo <= i < t.len() ==> is_space_char(#[trigger] t[i]) == is_space_char(
                s@[i + lo],
            ));
        lemma_trim_end_suffix(t, hi - lo);
        assert(t.take(hi - lo) =~= s@.subrange(lo as int, hi as int));
    }
    (lo, hi)
}

/// The grid row named by a digit character: `'1'` through `'3'` map
/// to rows 0 through 2.
pub open spec fn row_of_char(c: char) -> Option<u8> {
    if c == '1' {
        Some(0u8)
    } else if c == '2' {
        Some(1u8)
    } else if c == '3' {
        Some(2u8)
    } else {
        None
    }
}

/// Parses a row digit into a row index.
pub fn process_row_input(row_num: char) -> (r: Option<u8>)
    ensures
        r == row_of_char(row_num),
{
    if row_num == '1' {
        Some(0)
    } else if row_num == '2' {
        Some(1)
    } else if row_num == '3' {
        Some(2)
    } else {
        None
    }
}

/// The grid column named by an upper-case letter: `'A'` through `'C'`
/// map to columns 0 through 2.
pub open spec fn col_of_upper_char(c: char) -> Option<u8> {
    if c == 'A' {
        Some(0u8)
    } else if c == 'B' {
        Some(1u8)
    } else if c == 'C' {
        Some(2u8)
    } else {
        None
    }
}

/// Parses an upper-case column letter into a column index.
pub fn process_column_input(letter: char) -> (r: Option<u8>)
    ensures
        r == col_of_upper_char(letter),
{
    if letter == 'A' {
        Some(0)
    } else if letter == 'B' {
        Some(1)
    } else if letter == 'C' {
        Some(2)
    } else {
        None
    }
}

/// Upper-cases the three column letters; every other character is
/// left as it is.
pub open spec fn upper_abc_spec(c: char) -> char {
    if c == 'a' {
        'A'
    } else if c == 'b' {
        'B'
    } else if c == 'c' {
        'C'
    } else {
        c
    }
}

fn upper_abc(c: char) -> (r: char)
    ensures
        r == upper_abc_spec(c),
{
    if c == 'a' {
        'A'
    } else if c == 'b' {
        'B'
    } else if c == 'c' {
        'C'
    } else {
        c
    }
}

pub open spec fn is_ascii_letter(c: char) -> bool {
    (65 <= c as u32 && c as u32 <= 90) || (97 <= c as u32 && c as u32 <= 122)
}

pub open spec fn is_ascii_digit_char(c: char) -> bool {
    48 <= c as u32 && c as u32 <= 57
}

fn is_letter(c: char) -> (r: bool)
    ensures
        r == is_ascii_letter(c),
{
    let u = c as u32;
    (65 <= u && u <= 90) || (97 <= u && u <= 122)
}

fn is_digit(c: char) -> (r: bool)
    ensures
        r == is_ascii_digit_char(c),
{
    let u = c as u32;
    48 <= u && u <= 57
}

/// How a line of text is read as a coordinate: after trimming it must
/// be exactly a letter followed by a digit (else the shape is
/// invalid), the letter must name a column A-C in either case and the
/// digit a row 1-3 (else the coordinate is out of range).
pub open spec fn classify_input_spec(s: Seq<char>) -> Result<Vector2<u8>, MoveError> {
    let t = trim_spec(s);
    if t.len() != 2 {
        Err(MoveError::InvalidFormat)
    } else if !(is_ascii_letter(t[0]) && is_ascii_digit_char(t[1])) {
        Err(MoveError::InvalidFormat)
    } else {
        match (col_of_upper_char(upper_abc_spec(t[0])), row_of_char(t[1])) {
            (Some(x), Some(y)) => Ok(Vector2 { x, y }),
            _ => Err(MoveError::OutOfRange),
        }
    }
}

/// Reads one line of text as a coordinate, saying why it is rejected
/// when it is.
pub fn classify_input(input: &String) -> (r: Result<Vector2<u8>, MoveError>)
    ensures
        r == classify_input_spec(input@),
        r matches Ok(mv) ==> mv.x < 3 && mv.y < 3,
{
    let s = input.as_str();
    let b = trimmed_bounds(s);
    let (lo, hi) = b;
    if hi - lo != 2 {
        return Err(MoveError::InvalidFormat);
    }
    let c0 = s.get_char(lo);
    let c1 = s.get_char(lo + 1);
    proof {
        assert(trim_spec(s@)[0] == c0);
        assert(trim_spec(s@)[1] == c1);
    }
    if !(is_letter(c0) && is_digit(c1)) {
        return Err(MoveError::InvalidFormat);
    }
    let cu = upper_abc(c0);
    match process_column_input(cu) {
        Some(x) => match process_row_input(c1) {
            Some(y) => Ok(Vector2 { x, y }),
            None => Err(MoveError::OutOfRange),
        },
        None => Err(MoveError::OutOfRange),
    }
}

/// What `process_input` accepts: the coordinate when the text is a
/// valid, in-range coordinate, and nothing otherwise.
pub open spec fn process_input_spec(s: Seq<char>) -> Option<Vector2<u8>> {
    match classify_input_spec(s) {
        Ok(v) => Some(v),
        Err(_) => None,
    }
}

/// Reads one line of text as a coordinate: a column letter A-C in
/// either case followed by a row digit 1-3, surrounding whitespace
/// ignored.
pub fn process_input(input: &String) -> (r: Option<Vector2<u8>>)
    ensures
        r == process_input_spec(input@),
        r matches Some(mv) ==> mv.x < 3 && mv.y < 3,
{
    match classify_input(input) {
        Ok(v) => Some(v),
        Err(_) => None,
    }
}

/// How a human move request answers a line of text on a given board:
/// as `classify_input_spec`, except that an in-range coordinate whose
/// cell is already occupied is rejected too.
pub open spec fn human_choice_spec(b: [[CellValue; 3]; 3], s: Seq<char>) -> Result<
    Vector2<u8>,
    MoveError,
> {
    match classify_input_spec(s) {
        Ok(v) => if cell(b, v.x as int, v.y as int) == CellValue::Empty {
            Ok(v)
        } else {
            Err(MoveError::Occupied)
        },
        Err(e) => Err(e),
    }
}

/// Validates one entered coordinate against the board: accepted
/// exactly when it parses, lies on the grid, and names an empty cell.
pub fn validate_human_input(board: &[[CellValue; 3]; 3], input: &String) -> (r: Result<
    Vector2<u8>,
    MoveError,
>)
    ensures
        r == human_choice_spec(*board, input@),
{
    match classify_input(input) {
        Ok(v) => {
            if board[v.x as usize][v.y as usize] == CellValue::Empty {
                Ok(v)
            } else {
                Err(MoveError::Occupied)
            }
        },
        Err(e) => Err(e),
    }
}

/// Whether `a` comes before `b` in column-major order.
pub open spec fn coord_less(a: Vector2<u8>, b: Vector2<u8>) -> bool {
    a.x < b.x || (a.x == b.x && a.y < b.y)
}

/// All empty cells of the board, in column-major order.
pub fn empty_cells(board: &[[CellValue; 3]; 3]) -> (v: Vec<Vector2<u8>>)
    ensures
        forall|i: int|
            0 <= i < v@.len() ==> (#[trigger] v@[i]).x < 3 && v@[i].y < 3 && cell(
                *board,
                v@[i].x as int,
                v@[i].y as int,
            ) == CellValue::Empty,
        forall|c: int, r: int|
            coord_in_range(c, r) && cell(*board, c, r) == CellValue::Empty ==> v@.contains(
                (Vector2 { x: c as u8, y: r as u8 }),
            ),
        forall|i: int, j: int| 0 <= i < j < v@.len() ==> coord_less(v@[i], v@[j]),
{
    let mut v: Vec<Vector2<u8>> = Vec::new();
    let mut u: usize = 0;
    while u < 3
        invariant
            u <= 3,
            forall|i: int|
                0 <= i < v@.len() ==> (#[trigger] v@[i]).x < u && v@[i].y < 3 && cell(
                    *board,
                    v@[i].x as int,
                    v@[i].y as int,
                ) == CellValue::Empty,
            forall|c: int, r: int|
                0 <= c < u && 0 <= r < 3 && cell(*board, c, r) == CellValue::Empty ==> v@.contains(
                    (Vector2 { x: c as u8, y: r as u8 }),
                ),
            forall|i: int, j: int| 0 <= i < j < v@.len() ==> coord_less(v@[i], v@[j]),
        decreases 3 - u,
    {
        let mut w: usize = 0;
        while w < 3
            invariant
                u < 3,
                w <= 3,
                forall|i: int|
                    0 <= i < v@.len() ==> ((#[trigger] v@[i]).x < u || (v@[i].x == u && v@[i].y
                        < w)) && v@[i].x < 3 && v@[i].y < 3 && cell(
                        *board,
                        v@[i].x as int,
                        v@[i].y as int,
                    ) == CellValue::Empty,
                forall|c: int, r: int|
                    0 <= c < u && 0 <= r < 3 && cell(*board, c, r) == CellValue::Empty
                        ==> v@.contains((Vector2 { x: c as u8, y: r as u8 })),
                forall|r: int|
                    0 <= r < w && cell(*board, u as int, r) == CellValue::Empty ==> v@.contains(
                        (Vector2 { x: u as u8, y: r as u8 }),
                    ),
                forall|i: int, j: int| 0 <= i < j < v@.len() ==> coord_less(v@[i], v@[j]),
            decreases 3 - w,
        {
            if board[u][w] == CellValue::Empty {
                let p = Vector2 { x: u as u8, y: w as u8 };
                let ghost vold = v@;
                v.push(p);
                proof {
                    assert forall|q: Vector2<u8>| vold.contains(q) implies v@.contains(q) by {
                        let k = choose|k: int| 0 <= k < vold.len() && vold[k] == q;
                        assert(v@[k] == q);
                    }
                    assert(v@[v@.len() - 1] == p);
                    assert(v@.contains(p));
                }
            }
            w = w + 1;
        }
        u = u + 1;
    }
    v
}

/// The computer's move: one empty cell of the board, chosen uniformly
/// at random from the given source; when the board is full there is
/// nothing to choose and the precondition violation is reported
/// instead.
pub fn ai_turn(board: &[[CellValue; 3]; 3], rng: &mut rand::rngs::StdRng) -> (r: Result<
    Vector2<u8>,
    MoveError,
>)
    ensures
        r matches Ok(mv) ==> mv.x < 3 && mv.y < 3 && cell(*board, mv.x as int, mv.y as int)
            == CellValue::Empty,
        r matches Err(e) ==> e == MoveError::NoEmptyCells && board_full_spec(*board),
        !board_full_spec(*board) ==> r is Ok,
{
    let valid_moves = empty_cells(board);
    if valid_moves.len() == 0 {
        proof {
            assert forall|c: int, r: int| coord_in_range(c, r) implies cell(*board, c, r)
                != CellValue::Empty by {
                if cell(*board, c, r) == CellValue::Empty {
                    assert(valid_moves@.contains((Vector2 { x: c as u8, y: r as u8 })));
                }
            }
        }
        return Err(MoveError::NoEmptyCells);
    }
    proof {
        if board_full_spec(*board) {
            assert(valid_moves@[0].x < 3 && valid_moves@[0].y < 3);
            assert(coord_in_range(valid_moves@[0].x as int, valid_moves@[0].y as int));
        }
    }
    let move_index = random_below(rng, valid_moves.len());
    Ok(valid_moves[move_index])
}

impl Player {
    /// Produces this player's move on the given board. A human move
    /// is read from `input`, one entered line, and validated against
    /// the grid and the board; a computer move ignores `input` and is
    /// an empty cell chosen at random from `rng`. Either way an
    /// accepted move names an empty cell on the grid.
    pub fn decide_move(
        &self,
        board: &[[CellValue; 3]; 3],
        input: &String,
        rng: &mut rand::rngs::StdRng,
    ) -> (r: Result<Vector2<u8>, MoveError>)
        ensures
            self.controller == PlayerType::Human ==> r == human_choice_spec(*board, input@),
            self.controller == PlayerType::AI ==> match r {
                Ok(mv) => mv.x < 3 && mv.y < 3 && cell(*board, mv.x as int, mv.y as int)
                    == CellValue::Empty,
                Err(e) => e == MoveError::NoEmptyCells && board_full_spec(*board),
            },
            self.controller == PlayerType::AI && !board_full_spec(*board) ==> r is Ok,
            r matches Ok(mv) ==> mv.x < 3 && mv.y < 3 && cell(*board, mv.x as int, mv.y as int)
                == CellValue::Empty,
    {
        match self.controller {
            PlayerType::Human => validate_human_input(board, input),
            PlayerType::AI => ai_turn(board, rng),
        }
    }
}

} // verus!
