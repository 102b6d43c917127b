use noughts_and_crosses::board::CellValue;
use noughts_and_crosses::player::{
    classify_input, process_column_input, process_input, process_row_input, validate_human_input,
    MoveError, Player, PlayerType,
};
use noughts_and_crosses::vector2::Vector2;
use rand::rngs::StdRng;
use rand::SeedableRng;

const E: CellValue = CellValue::Empty;
const X: CellValue = CellValue::Cross;

fn empty_board() -> [[CellValue; 3]; 3] {
    [[E; 3]; 3]
}

fn seeded_rng() -> StdRng {
    StdRng::seed_from_u64(11)
}

fn human() -> Player {
    Player { name: String::from("You"), token: X, controller: PlayerType::Human }
}

#[test]
fn row_digits_map_to_row_indices() {
    assert_eq!(process_row_input('1'), Some(0));
    assert_eq!(process_row_input('2'), Some(1));
    assert_eq!(process_row_input('3'), Some(2));
    assert_eq!(process_row_input('0'), None);
    assert_eq!(process_row_input('4'), None);
    assert_eq!(process_row_input('a'), None);
}

#[test]
fn column_letters_map_to_column_indices() {
    assert_eq!(process_column_input('A'), Some(0));
    assert_eq!(process_column_input('B'), Some(1));
    assert_eq!(process_column_input('C'), Some(2));
    assert_eq!(process_column_input('D'), None);
    assert_eq!(process_column_input('a'), None);
}

#[test]
fn process_input_accepts_valid_coordinates() {
    assert_eq!(process_input(&String::from("A1")), Some(Vector2 { x: 0, y: 0 }));
    assert_eq!(process_input(&String::from("b3")), Some(Vector2 { x: 1, y: 2 }));
    assert_eq!(process_input(&String::from("C2")), Some(Vector2 { x: 2, y: 1 }));
}

#[test]
fn process_input_ignores_surrounding_whitespace() {
    assert_eq!(process_input(&String::from("  a1\n")), Some(Vector2 { x: 0, y: 0 }));
    assert_eq!(process_input(&String::from("\tC3 \r\n")), Some(Vector2 { x: 2, y: 2 }));
    // Unicode whitespace counts too: no-break space, en quad,
    // ideographic space.
    assert_eq!(
        process_input(&String::from("\u{A0}B2\u{A0}")),
        Some(Vector2 { x: 1, y: 1 })
    );
    assert_eq!(
        process_input(&String::from("\u{2000}a3\u{3000}")),
        Some(Vector2 { x: 0, y: 2 })
    );
}

#[test]
fn process_input_rejects_bad_shapes() {
    assert_eq!(process_input(&String::from("")), None);
    assert_eq!(process_input(&String::from("A")), None);
    assert_eq!(process_input(&String::from("A12")), None);
    assert_eq!(process_input(&String::from("A 1")), None);
    assert_eq!(process_input(&String::from("11")), None);
    assert_eq!(process_input(&String::from("AA")), None);
    assert_eq!(process_input(&String::from("1A")), None);
}

#[test]
fn process_input_rejects_out_of_range_coordinates() {
    assert_eq!(process_input(&String::from("D1")), None);
    assert_eq!(process_input(&String::from("A4")), None);
    assert_eq!(process_input(&String::from("A0")), None);
    assert_eq!(process_input(&String::from("Z9")), None);
}

#[test]
fn classify_input_distinguishes_shape_from_range() {
    assert_eq!(classify_input(&String::from("A1")), Ok(Vector2 { x: 0, y: 0 }));
    assert_eq!(classify_input(&String::from("A")), Err(MoveError::InvalidFormat));
    assert_eq!(classify_input(&String::from("!1")), Err(MoveError::InvalidFormat));
    assert_eq!(classify_input(&String::from("D1")), Err(MoveError::OutOfRange));
    assert_eq!(classify_input(&String::from("d1")), Err(MoveError::OutOfRange));
    assert_eq!(classify_input(&String::from("A4")), Err(MoveError::OutOfRange));
}

#[test]
fn human_input_a1_lower_case_is_accepted_on_empty_board() {
    let board = empty_board();
    let p = human();
    let mv = p.decide_move(&board, &String::from("a1"), &mut seeded_rng()).expect("a1 must be accepted");
    assert_eq!(mv, Vector2 { x: 0, y: 0 });
}

#[test]
fn human_input_d1_is_rejected_as_out_of_range() {
    let board = empty_board();
    let p = human();
    let r = p.decide_move(&board, &String::from("D1"), &mut seeded_rng());
    assert_eq!(r, Err(MoveError::OutOfRange));
}

#[test]
fn human_input_on_occupied_cell_is_rejected() {
    let mut board = empty_board();
    board[0][0] = X;
    let p = human();
    let r = p.decide_move(&board, &String::from("A1"), &mut seeded_rng());
    assert_eq!(r, Err(MoveError::Occupied));
}

#[test]
fn validate_human_input_checks_the_board() {
    let mut board = empty_board();
    board[2][1] = X;
    assert_eq!(validate_human_input(&board, &String::from("C2")), Err(MoveError::Occupied));
    assert_eq!(
        validate_human_input(&board, &String::from("C3")),
        Ok(Vector2 { x: 2, y: 2 })
    );
}

#[test]
fn move_error_messages_are_distinct() {
    assert_eq!(
        MoveError::InvalidFormat.message(),
        "Input format invalid. Please enter in the format 'A1'."
    );
    assert_eq!(
        MoveError::OutOfRange.message(),
        "Coordinates out of range. Columns are A-C and rows 1-3."
    );
    assert_eq!(
        MoveError::Occupied.message(),
        "Cell already occupied. Please select another cell."
    );
    assert_eq!(MoveError::NoEmptyCells.message(), "No empty cells are left to play.");
}
