use noughts_and_crosses::board::CellValue;
use noughts_and_crosses::board::Line;
use noughts_and_crosses::game::{ai_token, GameResult, GameState};
use noughts_and_crosses::player::{ai_turn, empty_cells, MoveError, Player, PlayerType};
use noughts_and_crosses::vector2::Vector2;
use rand::rngs::StdRng;
use rand::SeedableRng;

const E: CellValue = CellValue::Empty;
const O: CellValue = CellValue::Nought;
const X: CellValue = CellValue::Cross;

fn v(x: u8, y: u8) -> Vector2<u8> {
    Vector2 { x, y }
}

fn seeded_rng() -> StdRng {
    StdRng::seed_from_u64(7)
}

#[test]
fn ai_token_is_the_other_mark() {
    assert_eq!(ai_token(&X), O);
    assert_eq!(ai_token(&O), X);
    assert_eq!(ai_token(&E), X);
}

#[test]
fn new_game_is_empty_and_undecided() {
    let g = GameState::new(X);
    assert_eq!(g.turn, X);
    assert_eq!(g.moves, 0);
    assert_eq!(g.result, None);
    for c in 0..3 {
        for r in 0..3 {
            assert_eq!(g.board[c][r], E);
        }
    }
}

#[test]
fn new_random_game_starts_with_one_of_the_marks() {
    let mut rng = seeded_rng();
    let g = GameState::new_random(&mut rng);
    assert!(g.turn == X || g.turn == O);
    assert_eq!(g.moves, 0);
    assert_eq!(g.result, None);
}

#[test]
fn steps_alternate_marks_until_a_win() {
    let mut g = GameState::new(X);
    g.step(v(0, 0)); // x
    assert_eq!(g.board[0][0], X);
    assert_eq!(g.turn, O);
    assert_eq!(g.result, None);
    g.step(v(1, 0)); // o
    assert_eq!(g.board[1][0], O);
    assert_eq!(g.turn, X);
    g.step(v(0, 1)); // x
    g.step(v(1, 1)); // o
    assert_eq!(g.result, None);
    g.step(v(0, 2)); // x completes column A
    assert_eq!(g.result, Some(GameResult::Win(X, Line::Col0)));
    assert_eq!(g.moves, 5);
    assert_eq!(g.turn, X);
}

#[test]
fn a_full_board_without_a_line_is_a_draw_after_nine_moves() {
    // Final rows: x o x / x o o / o x x.
    let mut g = GameState::new(X);
    let xs = [v(0, 0), v(0, 1), v(1, 2), v(2, 0), v(2, 2)];
    let os = [v(0, 2), v(1, 0), v(1, 1), v(2, 1)];
    for i in 0..4 {
        g.step(xs[i]);
        assert_eq!(g.result, None);
        g.step(os[i]);
        assert_eq!(g.result, None);
    }
    g.step(xs[4]);
    assert_eq!(g.result, Some(GameResult::Draw));
    assert_eq!(g.moves, 9);
}

#[test]
fn empty_cells_lists_exactly_the_empty_coordinates() {
    let mut b = [[E; 3]; 3];
    b[0][0] = X;
    b[1][1] = O;
    b[2][2] = X;
    let cells = empty_cells(&b);
    assert_eq!(cells.len(), 6);
    for p in &cells {
        assert_eq!(b[p.x as usize][p.y as usize], E);
    }
    assert_eq!(
        cells,
        vec![v(0, 1), v(0, 2), v(1, 0), v(1, 2), v(2, 0), v(2, 1)]
    );
}

#[test]
fn ai_turn_picks_the_single_remaining_cell() {
    let mut b = [[X, O, X], [O, X, O], [O, X, E]];
    b[2][2] = E;
    let mut rng = seeded_rng();
    let mv = ai_turn(&b, &mut rng).expect("a cell is still empty");
    assert_eq!(mv, v(2, 2));
}

#[test]
fn ai_turn_on_a_full_board_reports_no_empty_cells() {
    let b = [[X, X, O], [O, O, X], [X, O, X]];
    let mut rng = seeded_rng();
    assert_eq!(ai_turn(&b, &mut rng), Err(MoveError::NoEmptyCells));
}

#[test]
fn ai_turn_on_an_empty_board_picks_an_empty_cell() {
    let b = [[E; 3]; 3];
    let mut rng = seeded_rng();
    let mv = ai_turn(&b, &mut rng).expect("the board is empty");
    assert!(mv.x < 3 && mv.y < 3);
}

#[test]
fn ai_player_decides_a_legal_move() {
    let mut b = [[E; 3]; 3];
    b[1][1] = X;
    let p = Player { name: String::from("Computer"), token: O, controller: PlayerType::AI };
    let mut rng = seeded_rng();
    let mv = p.decide_move(&b, &String::new(), &mut rng).expect("the board is not full");
    assert!(mv.x < 3 && mv.y < 3);
    assert_eq!(b[mv.x as usize][mv.y as usize], E);
}
