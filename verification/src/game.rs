use vstd::prelude::*;
use crate::board::{
    apply_move, board_full, board_full_spec, cell, coord_in_range, empty_count, first_won_line,
    lemma_empty_count_zero_iff_full, lemma_fill_decreases_empty_count, line_mark, line_won,
    winning_line, CellValue, Line,
};
use crate::rng::random_below;
use crate::vector2::Vector2;

verus! {

/// How a finished game ended: one mark completed a line, or the board
/// filled up with no line completed.
#[derive(Debug, Copy, Clone, PartialEq, Eq, Structural)]
pub enum GameResult {
    Win(CellValue, Line),
    Draw,
}

/// The mark the opponent of `player_token` plays with. Callers hand
/// it the human player's mark and get the computer's.
pub open spec fn ai_token_spec(player_token: CellValue) -> CellValue {
    match player_token {
        CellValue::Cross => CellValue::Nought,
        _ => CellValue::Cross,
    }
}

pub fn ai_token(player_token: &CellValue) -> (r: CellValue)
    ensures
        r == ai_token_spec(*player_token),
{
    match player_token {
        CellValue::Cross => CellValue::Nought,
        _ => CellValue::Cross,
    }
}

/// The turn manager: the board, whose turn it is, how many moves have
/// been applied, and the outcome once a terminal state is reached.
pub struct GameState {
    pub board: [[CellValue; 3]; 3],
    pub turn: CellValue,
    pub moves: u8,
    pub result: Option<GameResult>,
}

impl GameState {
    /// Everything the turn manager maintains between steps: the mark
    /// to move is a real mark, the move counter matches the board,
    /// and the recorded result is exactly what the board shows.
    pub open spec fn wf(self) -> bool {
        &&& (self.turn == CellValue::Nought || self.turn == CellValue::Cross)
        &&& self.moves as int + empty_count(self.board) == 9
        &&& match self.result {
            None => first_won_line(self.board) is None && !board_full_spec(self.board),
            Some(GameResult::Win(m, l)) => line_won(self.board, l) && m == line_mark(
                self.board,
                l,
            ),
            Some(GameResult::Draw) => board_full_spec(self.board) && first_won_line(self.board)
                is None,
        }
    }

    /// A fresh game: empty board, no result, `first` to move.
    pub fn new(first: CellValue) -> (g: GameState)
        requires
            first == CellValue::Nought || first == CellValue::Cross,
        ensures
            g.wf(),
            g.turn == first,
            g.moves == 0,
            g.result is None,
            forall|c: int, r: int| coord_in_range(c, r) ==> cell(g.board, c, r) == CellValue::Empty,
    {
        let board = [[CellValue::Empty; 3]; 3];
        let g = GameState { board, turn: first, moves: 0, result: None };
        proof {
            assert(forall|c: int, r: int|
                coord_in_range(c, r) ==> cell(g.board, c, r) == CellValue::Empty);
            assert(empty_count(g.board) == 9);
            assert(!board_full_spec(g.board)) by {
                assert(coord_in_range(0, 0) && cell(g.board, 0, 0) == CellValue::Empty);
            }
            assert(first_won_line(g.board) is None);
        }
        g
    }

    /// A fresh game whose first player is drawn at random from the
    /// given source, each mark equally likely.
    pub fn new_random(rng: &mut rand::rngs::StdRng) -> (g: GameState)
        ensures
            g.wf(),
            g.turn == CellValue::Nought || g.turn == CellValue::Cross,
            g.moves == 0,
            g.result is None,
            forall|c: int, r: int| coord_in_range(c, r) ==> cell(g.board, c, r) == CellValue::Empty,
    {
        let first = if random_below(rng, 2) == 0 {
            CellValue::Cross
        } else {
            CellValue::Nought
        };
        GameState::new(first)
    }

    /// Applies one legal move for the mark whose turn it is, then
    /// settles the new state: a completed line wins for that mark, a
    /// full board without one is a draw, and otherwise the other mark
    /// is to move.
    pub fn step(&mut self, mv: Vector2<u8>)
        requires
            old(self).wf(),
            old(self).result is None,
            mv.x < 3,
            mv.y < 3,
            cell(old(self).board, mv.x as int, mv.y as int) == CellValue::Empty,
        ensures
            final(self).wf(),
            final(self).moves == old(self).moves + 1,
            cell(final(self).board, mv.x as int, mv.y as int) == old(self).turn,
            forall|c: int, r: int|
                coord_in_range(c, r) && !(c == mv.x as int && r == mv.y as int)
                    ==> #[trigger] cell(final(self).board, c, r) == cell(old(self).board, c, r),
            final(self).result == match first_won_line(final(self).board) {
                Some(l) => Some(GameResult::Win(line_mark(final(self).board, l), l)),
                None => if board_full_spec(final(self).board) {
                    Some(GameResult::Draw)
                } else {
                    None::<GameResult>
                },
            },
            final(self).result is None ==> final(self).turn == ai_token_spec(old(self).turn),
            final(self).result is Some ==> final(self).turn == old(self).turn,
    {
        let ghost prev = self.board;
        let res = apply_move(&mut self.board, mv, self.turn);
        proof {
            lemma_fill_decreases_empty_count(prev, self.board, mv.x as int, mv.y as int);
        }
        match winning_line(&self.board) {
            Some((m, l)) => {
                self.result = Some(GameResult::Win(m, l));
            },
            None => {
                if board_full(&self.board) {
                    self.result = Some(GameResult::Draw);
                } else {
                    self.turn = ai_token(&self.turn);
                }
            },
        }
        proof {
            lemma_empty_count_zero_iff_full(self.board);
        }
        self.moves = self.moves + 1;
    }

    /// A well-formed game never records more than nine moves, and a
    /// game without a result still has an empty cell to play.
    pub proof fn lemma_moves_bounded(self)
        requires
            self.wf(),
        ensures
            self.moves <= 9,
            self.result is None ==> self.moves < 9,
    {
        lemma_empty_count_zero_iff_full(self.board);
    }

    /// Termination: once nine moves have been applied, the game has a
    /// result — no sequence of legal moves runs longer, and since
    /// `step` settles wins and draws at once, no finished board is
    /// ever left undecided.
    pub proof fn lemma_nine_moves_decides(self)
        requires
            self.wf(),
            self.moves == 9,
        ensures
            self.result is Some,
    {
        lemma_empty_count_zero_iff_full(self.board);
    }
}

} // verus!
