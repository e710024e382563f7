use chess_rules::board::PlayerTurn;
use chess_rules::board::Square;
use chess_rules::board::board_squares;
use chess_rules::game::Game;
use chess_rules::game::SelectOutcome;
use chess_rules::pieces::Piece;
use chess_rules::pieces::PieceColor;
use chess_rules::pieces::PieceType;

fn piece(piece_type: PieceType, color: PieceColor, x: u8, y: u8) -> Piece {
    Piece { piece_type, color, x, y }
}

fn custom_game(pieces: Vec<Option<Piece>>, turn: PieceColor) -> Game {
    Game {
        pieces,
        turn: PlayerTurn(turn),
        selected_square: None,
        selected_piece: None,
        winner: None,
    }
}

#[test]
fn board_has_64_squares_in_row_order() {
    let squares = board_squares();
    assert_eq!(squares.len(), 64);
    assert_eq!(squares[0], Square { x: 0, y: 0 });
    assert_eq!(squares[9], Square { x: 1, y: 1 });
    assert_eq!(squares[63], Square { x: 7, y: 7 });
}

#[test]
fn square_colours_alternate() {
    assert!(!Square { x: 0, y: 0 }.is_white());
    assert!(Square { x: 0, y: 1 }.is_white());
    assert!(Square { x: 1, y: 0 }.is_white());
    assert!(!Square { x: 7, y: 7 }.is_white());
}

#[test]
fn turn_advances_and_alternates() {
    let mut turn = PlayerTurn::default();
    assert_eq!(turn.current(), PieceColor::White);
    turn.advance();
    assert_eq!(turn.current(), PieceColor::Black);
    turn.advance();
    assert_eq!(turn.current(), PieceColor::White);
}

#[test]
fn new_game_is_the_standard_opening_position() {
    let game = Game::new();
    assert_eq!(game.pieces.len(), 32);
    assert_eq!(game.turn.0, PieceColor::White);
    assert_eq!(game.winner, None);
    assert_eq!(game.pieces[0], Some(piece(PieceType::Rook, PieceColor::White, 0, 0)));
    assert_eq!(game.pieces[1], Some(piece(PieceType::Knight, PieceColor::White, 0, 1)));
    assert_eq!(game.pieces[2], Some(piece(PieceType::Bishop, PieceColor::White, 0, 2)));
    assert_eq!(game.pieces[3], Some(piece(PieceType::Queen, PieceColor::White, 0, 3)));
    assert_eq!(game.pieces[4], Some(piece(PieceType::King, PieceColor::White, 0, 4)));
    assert_eq!(game.pieces[7], Some(piece(PieceType::Rook, PieceColor::White, 0, 7)));
    assert_eq!(game.pieces[8], Some(piece(PieceType::Pawn, PieceColor::White, 1, 0)));
    assert_eq!(game.pieces[15], Some(piece(PieceType::Pawn, PieceColor::White, 1, 7)));
    assert_eq!(game.pieces[20], Some(piece(PieceType::King, PieceColor::Black, 7, 4)));
    assert_eq!(game.pieces[24], Some(piece(PieceType::Pawn, PieceColor::Black, 6, 0)));
    assert_eq!(game.pieces[31], Some(piece(PieceType::Pawn, PieceColor::Black, 6, 7)));
}

#[test]
fn opening_pawn_move_commits_and_wrong_colour_is_rejected() {
    let mut game = Game::new();
    // Select the White pawn on (1,0), then its double-step target (3,0).
    assert_eq!(game.select(1, 0), SelectOutcome::PieceChosen);
    assert_eq!(game.selected_piece, Some(8));
    assert_eq!(game.select(3, 0), SelectOutcome::Moved);
    assert_eq!(game.pieces[8], Some(piece(PieceType::Pawn, PieceColor::White, 3, 0)));
    assert_eq!(game.turn.0, PieceColor::Black);
    assert_eq!(game.selected_piece, None);
    assert_eq!(game.selected_square, None);

    // With Black to move, the moved White pawn cannot be picked up: the
    // square is merely recorded, and the next selection of an empty square
    // clears everything, with no mutation anywhere.
    let before = game.pieces.clone();
    assert_eq!(game.select(3, 0), SelectOutcome::SquareChosen);
    assert_eq!(game.selected_piece, None);
    assert_eq!(game.select(2, 0), SelectOutcome::Cleared);
    assert_eq!(game.selected_square, None);
    assert_eq!(game.pieces, before);
    assert_eq!(game.turn.0, PieceColor::Black);

    // The vacated start square is simply empty now.
    assert_eq!(game.select(1, 0), SelectOutcome::Cleared);
}

#[test]
fn illegal_target_resets_selection_without_mutation() {
    let mut game = Game::new();
    assert_eq!(game.select(1, 0), SelectOutcome::PieceChosen);
    let before = game.pieces.clone();
    assert_eq!(game.select(5, 5), SelectOutcome::Rejected);
    assert_eq!(game.pieces, before);
    assert_eq!(game.turn.0, PieceColor::White);
    assert_eq!(game.selected_square, None);
    assert_eq!(game.selected_piece, None);
}

#[test]
fn deselect_clears_selection_only() {
    let mut game = Game::new();
    assert_eq!(game.select(1, 0), SelectOutcome::PieceChosen);
    game.deselect();
    assert_eq!(game.selected_square, None);
    assert_eq!(game.selected_piece, None);
    assert_eq!(game.turn.0, PieceColor::White);
    assert_eq!(game.pieces.len(), 32);
}

#[test]
fn capture_removes_the_opposing_piece() {
    let mut game = custom_game(
        vec![
            Some(piece(PieceType::Rook, PieceColor::White, 0, 0)),
            Some(piece(PieceType::Pawn, PieceColor::Black, 0, 5)),
            Some(piece(PieceType::King, PieceColor::White, 4, 4)),
            Some(piece(PieceType::King, PieceColor::Black, 7, 4)),
        ],
        PieceColor::White,
    );
    assert_eq!(game.select(0, 0), SelectOutcome::PieceChosen);
    assert_eq!(game.select(0, 5), SelectOutcome::Moved);
    assert_eq!(game.pieces[0], Some(piece(PieceType::Rook, PieceColor::White, 0, 5)));
    assert_eq!(game.pieces[1], None);
    assert_eq!(game.turn.0, PieceColor::Black);
    assert_eq!(game.winner, None);
}

#[test]
fn kingside_castling_replaces_the_rook_with_a_new_piece() {
    let mut game = custom_game(
        vec![
            Some(piece(PieceType::King, PieceColor::White, 0, 4)),
            Some(piece(PieceType::Rook, PieceColor::White, 0, 7)),
            Some(piece(PieceType::King, PieceColor::Black, 7, 4)),
        ],
        PieceColor::White,
    );
    assert_eq!(game.select(0, 4), SelectOutcome::PieceChosen);
    assert_eq!(game.select(0, 6), SelectOutcome::Moved);
    // The king stands on its post-castle square.
    assert_eq!(game.pieces[0], Some(piece(PieceType::King, PieceColor::White, 0, 6)));
    // The original rook entity is gone; an equivalent new piece stands on
    // (0,5) in a fresh slot.
    assert_eq!(game.pieces[1], None);
    assert_eq!(game.pieces.len(), 4);
    assert_eq!(game.pieces[3], Some(piece(PieceType::Rook, PieceColor::White, 0, 5)));
    // The turn flipped and no opposing piece was taken.
    assert_eq!(game.turn.0, PieceColor::Black);
    assert_eq!(game.pieces[2], Some(piece(PieceType::King, PieceColor::Black, 7, 4)));
    assert_eq!(game.winner, None);
}

#[test]
fn queenside_castling_mirrors_the_kingside_one() {
    let mut game = custom_game(
        vec![
            Some(piece(PieceType::King, PieceColor::White, 0, 4)),
            Some(piece(PieceType::Rook, PieceColor::White, 0, 0)),
            Some(piece(PieceType::King, PieceColor::Black, 7, 4)),
        ],
        PieceColor::White,
    );
    assert_eq!(game.select(0, 4), SelectOutcome::PieceChosen);
    assert_eq!(game.select(0, 2), SelectOutcome::Moved);
    assert_eq!(game.pieces[0], Some(piece(PieceType::King, PieceColor::White, 0, 2)));
    assert_eq!(game.pieces[1], None);
    assert_eq!(game.pieces[3], Some(piece(PieceType::Rook, PieceColor::White, 0, 3)));
    assert_eq!(game.turn.0, PieceColor::Black);
}

#[test]
fn castling_without_a_corner_rook_moves_only_the_king() {
    let mut game = custom_game(
        vec![
            Some(piece(PieceType::King, PieceColor::White, 0, 4)),
            Some(piece(PieceType::King, PieceColor::Black, 7, 4)),
        ],
        PieceColor::White,
    );
    assert_eq!(game.select(0, 4), SelectOutcome::PieceChosen);
    assert_eq!(game.select(0, 6), SelectOutcome::Moved);
    assert_eq!(game.pieces[0], Some(piece(PieceType::King, PieceColor::White, 0, 6)));
    assert_eq!(game.pieces.len(), 2);
    assert_eq!(game.turn.0, PieceColor::Black);
}

#[test]
fn capturing_a_king_ends_the_game() {
    let mut game = custom_game(
        vec![
            Some(piece(PieceType::Rook, PieceColor::White, 0, 0)),
            Some(piece(PieceType::King, PieceColor::Black, 0, 5)),
            Some(piece(PieceType::King, PieceColor::White, 4, 4)),
        ],
        PieceColor::White,
    );
    assert_eq!(game.select(0, 0), SelectOutcome::PieceChosen);
    assert_eq!(game.select(0, 5), SelectOutcome::Won);
    assert_eq!(game.winner, Some(PieceColor::White));
    assert_eq!(game.pieces[1], None);

    // The game is terminal: further move attempts have no effect.
    let frozen = game.pieces.clone();
    assert_eq!(game.select(4, 4), SelectOutcome::Ignored);
    assert_eq!(game.select(0, 5), SelectOutcome::Ignored);
    assert_eq!(game.pieces, frozen);
    assert_eq!(game.turn.0, PieceColor::Black);
    assert_eq!(game.winner, Some(PieceColor::White));
}

#[test]
fn marking_a_king_taken_is_terminal_with_the_opposite_winner() {
    let mut game = Game::new();
    // Slot 20 holds the Black king in the opening position.
    assert!(game.mark_taken(20));
    assert_eq!(game.pieces[20], None);
    assert_eq!(game.winner, Some(PieceColor::White));
    // Subsequent move attempts have no effect.
    assert_eq!(game.select(1, 0), SelectOutcome::Ignored);
    assert_eq!(game.selected_piece, None);
    assert_eq!(game.turn.0, PieceColor::White);
}

#[test]
fn marking_any_other_piece_taken_keeps_the_game_running() {
    let mut game = Game::new();
    assert!(!game.mark_taken(8));
    assert_eq!(game.pieces[8], None);
    assert_eq!(game.winner, None);
    // An empty or out-of-range slot changes nothing.
    assert!(!game.mark_taken(8));
    assert!(!game.mark_taken(1000));
    assert_eq!(game.winner, None);
}
