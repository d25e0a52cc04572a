use bitmato_chess::chess_engine::{
    create_cell, get_entity_fen, get_entity_type, make_entity, move_entity, validate, Board, Cell,
    EntityType, GameEntity, ParseError, TeamLoyalty, Vec2, DEFAULTFEN,
};
use bitmato_chess::config_handler::config_path_exists;

fn board(fen: &str) -> Board {
    Board::create_board(fen.to_string()).unwrap()
}

fn at(x: i32, y: i32) -> Vec2 {
    Vec2 { x, y }
}

fn piece(kind: EntityType, team: TeamLoyalty) -> GameEntity {
    GameEntity { entity_type: kind, team_id: team, first_move: true }
}

#[test]
fn default_position_decodes() {
    let b = board(DEFAULTFEN);
    assert_eq!(b.current_turn, TeamLoyalty::WHITE);
    assert!(!b.is_check);
    assert!(!b.is_checkmate);
    assert_eq!(b.who_in_check, TeamLoyalty::NONE);
    assert_eq!(b.cells.len(), 8);
    let mut pawns = 0;
    for row in &b.cells {
        assert_eq!(row.len(), 8);
        for cell in row {
            assert_eq!(cell.is_occupied, cell.occupier.is_some());
            if let Some(e) = cell.occupier {
                assert!(e.first_move);
                if e.entity_type == EntityType::PAWN {
                    pawns += 1;
                }
            } else {
                assert_eq!(cell.cell_fen_repr, '1');
            }
        }
    }
    assert_eq!(pawns, 16);
    let back = [
        EntityType::ROOK,
        EntityType::KNIGHT,
        EntityType::BISHOP,
        EntityType::KING,
        EntityType::QUEEN,
        EntityType::BISHOP,
        EntityType::KNIGHT,
        EntityType::ROOK,
    ];
    for x in 0..8 {
        let black = b.entity_at(at(x, 0)).unwrap();
        assert_eq!(black.entity_type, back[x as usize]);
        assert_eq!(black.team_id, TeamLoyalty::BLACK);
        let white = b.entity_at(at(x, 7)).unwrap();
        assert_eq!(white.team_id, TeamLoyalty::WHITE);
        assert_eq!(b.entity_at(at(x, 1)).unwrap().team_id, TeamLoyalty::BLACK);
        assert_eq!(b.entity_at(at(x, 6)).unwrap().team_id, TeamLoyalty::WHITE);
        for y in 2..6 {
            assert!(b.entity_at(at(x, y)).is_none());
        }
    }
    assert_eq!(b.entity_at(at(3, 7)).unwrap().entity_type, EntityType::QUEEN);
    assert_eq!(b.entity_at(at(4, 7)).unwrap().entity_type, EntityType::KING);
}

#[test]
fn opening_double_step_then_long_jump_rejected() {
    let mut b = board(DEFAULTFEN);
    assert!(move_entity(&mut b, at(0, 6), at(0, 4)));
    assert_eq!(b.current_turn, TeamLoyalty::BLACK);
    let moved = b.entity_at(at(0, 4)).unwrap();
    assert_eq!(moved.entity_type, EntityType::PAWN);
    assert!(!moved.first_move);
    assert!(b.entity_at(at(0, 6)).is_none());
    assert_eq!(b.at(at(0, 6)).cell_fen_repr, '1');
    assert_eq!(b.at(at(0, 4)).cell_fen_repr, 'P');
    let before = b.to_fen();
    assert!(!move_entity(&mut b, at(0, 1), at(0, 6)));
    assert_eq!(b.current_turn, TeamLoyalty::BLACK);
    assert_eq!(b.to_fen(), before);
}

#[test]
fn encode_default_position() {
    assert_eq!(board(DEFAULTFEN).to_fen(), DEFAULTFEN);
}

#[test]
fn encode_after_move() {
    let mut b = board(DEFAULTFEN);
    assert!(move_entity(&mut b, at(4, 6), at(4, 4)));
    assert_eq!(b.to_fen(), "rnbkqbnr/pppppppp/8/8/4P3/8/PPPP1PPP/RNBQKBNR b");
}

#[test]
fn round_trip_keeps_layout_and_resets_first_move() {
    let mut b = board(DEFAULTFEN);
    assert!(move_entity(&mut b, at(1, 6), at(1, 5)));
    assert!(!b.entity_at(at(1, 5)).unwrap().first_move);
    let again = board(&b.to_fen());
    assert_eq!(again.current_turn, b.current_turn);
    for y in 0..8 {
        for x in 0..8 {
            let p = at(x, y);
            match (b.entity_at(p), again.entity_at(p)) {
                (None, None) => {}
                (Some(e), Some(f)) => {
                    assert_eq!(e.entity_type, f.entity_type);
                    assert_eq!(e.team_id, f.team_id);
                    assert!(f.first_move);
                }
                _ => panic!("occupancy differs at {:?}", p),
            }
        }
    }
    assert!(again.entity_at(at(1, 5)).unwrap().first_move);
}

#[test]
fn split_runs_encode_as_one_digit() {
    let b = board("44/8/8/8/8/8/8/1111k2K b");
    assert_eq!(b.to_fen(), "8/8/8/8/8/8/8/4k2K b");
    assert_eq!(b.current_turn, TeamLoyalty::BLACK);
}

#[test]
fn empty_board_round_trip() {
    let fen = "8/8/8/8/8/8/8/8 w";
    assert_eq!(board(fen).to_fen(), fen);
}

#[test]
fn decode_errors() {
    let cases = [
        ("8/8/8/8/8/8/8 w", ParseError::WrongRowCount),
        ("8/8/8/8/8/8/8/8/8 w", ParseError::WrongRowCount),
        ("7/8/8/8/8/8/8/8 w", ParseError::WrongColumnCount),
        ("8/8/8/8/8/8/8/ppppppppp w", ParseError::WrongColumnCount),
        ("8/8/8/8/8/8/8/8 x", ParseError::InvalidTurn),
        ("8/8/8/8/8/8/8/8", ParseError::InvalidTurn),
        ("8/8/8/8/8/8/8/8w", ParseError::InvalidTurn),
        ("", ParseError::InvalidTurn),
        ("8/8/8/8/8/8/8/7x w", ParseError::InvalidCharacter),
        ("9/8/8/8/8/8/8/8 w", ParseError::InvalidCharacter),
        ("08/8/8/8/8/8/8/8 w", ParseError::InvalidCharacter),
        ("8/8/8/8 8/8/8/8/8 w", ParseError::InvalidCharacter),
    ];
    for (fen, err) in cases {
        assert_eq!(Board::create_board(fen.to_string()).unwrap_err(), err, "{}", fen);
    }
}

#[test]
fn knight_jumps_over_pieces() {
    let b = board(DEFAULTFEN);
    let knight = *b.entity_at(at(1, 7));
    let knight = knight.unwrap();
    assert_eq!(knight.entity_type, EntityType::KNIGHT);
    assert!(validate(&b, at(1, 7), at(2, 5), knight));
    assert!(validate(&b, at(1, 7), at(0, 5), knight));
    assert!(!validate(&b, at(1, 7), at(1, 5), knight));
    assert!(!validate(&b, at(1, 7), at(3, 5), knight));
    let mut m = b.clone();
    assert!(move_entity(&mut m, at(1, 7), at(2, 5)));
    assert_eq!(m.current_turn, TeamLoyalty::BLACK);
}

#[test]
fn knight_ignores_what_stands_on_destination() {
    let mut b = board(DEFAULTFEN);
    assert!(move_entity(&mut b, at(1, 7), at(3, 6)));
    let e = b.entity_at(at(3, 6)).unwrap();
    assert_eq!(e.entity_type, EntityType::KNIGHT);
    assert_eq!(e.team_id, TeamLoyalty::WHITE);
}

#[test]
fn knight_shapes_in_open_board() {
    let b = board("8/8/8/3N4/8/8/8/8 w");
    let n = b.entity_at(at(3, 3)).unwrap();
    for y in 0..8 {
        for x in 0..8 {
            let dx = (x - 3i32).abs();
            let dy = (y - 3i32).abs();
            let expected = (dx == 1 && dy == 2) || (dx == 2 && dy == 1);
            assert_eq!(validate(&b, at(3, 3), at(x, y), n), expected, "{} {}", x, y);
        }
    }
}

#[test]
fn rook_blocked_by_intervening_piece() {
    let mut blocked = board("8/8/8/8/8/8/8/R1p1n2k w");
    assert!(!move_entity(&mut blocked, at(0, 7), at(4, 7)));
    assert_eq!(blocked.current_turn, TeamLoyalty::WHITE);
    let mut own = board("8/8/8/8/8/8/8/R1P1n2k w");
    assert!(!move_entity(&mut own, at(0, 7), at(4, 7)));
    let mut clear = board("8/8/8/8/8/8/8/R3n2k w");
    assert!(move_entity(&mut clear, at(0, 7), at(4, 7)));
    assert_eq!(clear.to_fen(), "8/8/8/8/8/8/8/4R2k b");
}

#[test]
fn rook_vertical_moves() {
    let mut b = board("8/8/8/8/p7/8/8/R6k w");
    assert!(!move_entity(&mut b, at(0, 7), at(0, 2)));
    assert!(move_entity(&mut b, at(0, 7), at(0, 4)));
    assert_eq!(b.to_fen(), "8/8/8/8/R7/8/8/7k b");
    let mut up = board("R7/8/8/8/8/8/8/7k b");
    assert!(move_entity(&mut up, at(0, 0), at(0, 7)));
}

#[test]
fn rook_shape_rules() {
    let b = board("8/8/8/3r4/8/8/8/8 b");
    let r = b.entity_at(at(3, 3)).unwrap();
    assert!(validate(&b, at(3, 3), at(3, 0), r));
    assert!(validate(&b, at(3, 3), at(7, 3), r));
    assert!(!validate(&b, at(3, 3), at(4, 4), r));
    assert!(!validate(&b, at(3, 3), at(3, 3), r));
}

#[test]
fn rook_cannot_take_own_piece() {
    let mut b = board("8/8/8/8/8/8/8/R3N2k w");
    assert!(!move_entity(&mut b, at(0, 7), at(4, 7)));
}

#[test]
fn pawn_double_step_only_on_first_move() {
    let mut b = board("8/8/8/8/8/8/P7/8 w");
    assert!(move_entity(&mut b, at(0, 6), at(0, 4)));
    let pawn = b.entity_at(at(0, 4)).unwrap();
    assert!(!pawn.first_move);
    assert!(!validate(&b, at(0, 4), at(0, 2), pawn));
    assert!(validate(&b, at(0, 4), at(0, 3), pawn));
    assert!(!move_entity(&mut b, at(0, 4), at(0, 2)));
    assert_eq!(b.current_turn, TeamLoyalty::BLACK);
    assert!(move_entity(&mut b, at(0, 4), at(0, 3)));
    assert_eq!(b.current_turn, TeamLoyalty::WHITE);
}

#[test]
fn pawn_double_step_needs_empty_squares() {
    let mut over = board("8/8/8/8/8/p7/P7/8 w");
    assert!(!move_entity(&mut over, at(0, 6), at(0, 4)));
    let mut onto = board("8/8/8/8/p7/8/P7/8 w");
    assert!(!move_entity(&mut onto, at(0, 6), at(0, 4)));
    let mut three = board("8/8/8/8/8/8/P7/8 w");
    assert!(!move_entity(&mut three, at(0, 6), at(0, 3)));
}

#[test]
fn pawn_captures_diagonally_only_opponents() {
    let b = board("8/8/8/8/8/1p1P4/2P5/8 w");
    let pawn = b.entity_at(at(2, 6)).unwrap();
    assert!(validate(&b, at(2, 6), at(1, 5), pawn));
    assert!(!validate(&b, at(2, 6), at(3, 5), pawn));
    let empty = board("8/8/8/8/8/8/2P5/8 w");
    let p = empty.entity_at(at(2, 6)).unwrap();
    assert!(!validate(&empty, at(2, 6), at(1, 5), p));
    let mut m = b.clone();
    assert!(move_entity(&mut m, at(2, 6), at(1, 5)));
    assert_eq!(m.to_fen(), "8/8/8/8/8/1P1P4/8/8 b");
}

#[test]
fn pawn_cannot_step_onto_a_piece() {
    let b = board("8/8/8/8/8/2p5/2P5/8 w");
    let pawn = b.entity_at(at(2, 6)).unwrap();
    assert!(!validate(&b, at(2, 6), at(2, 5), pawn));
}

#[test]
fn pawn_direction_is_not_checked() {
    let b = board("8/8/8/8/8/8/2P5/8 w");
    let pawn = b.entity_at(at(2, 6)).unwrap();
    assert!(validate(&b, at(2, 6), at(2, 7), pawn));
}

#[test]
fn bishop_blocked_by_friend_before_enemy() {
    let mut b = board("8/8/8/8/4p3/3B4/2B5/8 w");
    assert!(!move_entity(&mut b, at(2, 6), at(4, 4)));
    assert_eq!(b.current_turn, TeamLoyalty::WHITE);
    assert_eq!(b.to_fen(), "8/8/8/8/4p3/3B4/2B5/8 w");
    let mut open = board("8/8/8/8/4p3/8/2B5/8 w");
    assert!(move_entity(&mut open, at(2, 6), at(4, 4)));
    assert_eq!(open.to_fen(), "8/8/8/8/4B3/8/8/8 b");
}

#[test]
fn bishop_all_four_diagonals() {
    let free = board("8/8/8/3b4/8/8/8/8 b");
    let bishop = free.entity_at(at(3, 3)).unwrap();
    for target in [at(0, 0), at(6, 0), at(0, 6), at(7, 7)] {
        let mut m = free.clone();
        assert!(move_entity(&mut m, at(3, 3), target), "{:?}", target);
        assert_eq!(m.entity_at(target).unwrap().entity_type, EntityType::BISHOP);
    }
    let walled = board("8/8/2P1P3/3b4/2P1P3/8/8/8 b");
    for target in [at(1, 1), at(5, 1), at(1, 5), at(5, 5)] {
        let mut m = walled.clone();
        assert!(!move_entity(&mut m, at(3, 3), target), "{:?}", target);
    }
    for target in [at(2, 2), at(4, 2), at(2, 4), at(4, 4)] {
        let mut m = walled.clone();
        assert!(move_entity(&mut m, at(3, 3), target), "{:?}", target);
    }
    assert!(!validate(&free, at(3, 3), at(5, 4), bishop));
}

#[test]
fn queen_moves_like_rook_or_bishop() {
    let b = board("8/8/8/3q4/8/8/8/8 b");
    let q = b.entity_at(at(3, 3)).unwrap();
    assert!(validate(&b, at(3, 3), at(7, 3), q));
    assert!(validate(&b, at(3, 3), at(3, 7), q));
    assert!(validate(&b, at(3, 3), at(0, 0), q));
    assert!(!validate(&b, at(3, 3), at(4, 5), q));
    assert!(!validate(&b, at(3, 3), at(3, 3), q));
    let mut m = b.clone();
    assert!(move_entity(&mut m, at(3, 3), at(7, 3)));
}

#[test]
fn king_accepts_any_move_with_unit_distance_on_one_axis() {
    let b = board("8/8/8/8/8/8/8/4K3 w");
    let k = b.entity_at(at(4, 7)).unwrap();
    assert!(validate(&b, at(4, 7), at(4, 6), k));
    assert!(validate(&b, at(4, 7), at(5, 6), k));
    assert!(validate(&b, at(4, 7), at(5, 0), k));
    assert!(!validate(&b, at(4, 7), at(6, 5), k));
    assert!(!validate(&b, at(4, 7), at(4, 7), k));
    let mut m = b.clone();
    assert!(move_entity(&mut m, at(4, 7), at(5, 0)));
    assert_eq!(m.to_fen(), "5K2/8/8/8/8/8/8/8 b");
}

#[test]
fn notset_piece_never_moves() {
    let b = board("8/8/8/8/8/8/8/8 w");
    let none = piece(EntityType::NOTSET, TeamLoyalty::WHITE);
    assert!(!validate(&b, at(0, 0), at(0, 1), none));
}

#[test]
fn empty_origin_is_a_no_op() {
    let mut b = board(DEFAULTFEN);
    assert!(!move_entity(&mut b, at(4, 4), at(4, 3)));
    assert_eq!(b.current_turn, TeamLoyalty::WHITE);
    assert_eq!(b.to_fen(), DEFAULTFEN);
}

#[test]
fn illegal_move_leaves_board_and_turn() {
    let mut b = board(DEFAULTFEN);
    assert!(!move_entity(&mut b, at(0, 7), at(0, 5)));
    assert!(!move_entity(&mut b, at(2, 7), at(4, 5)));
    assert_eq!(b.current_turn, TeamLoyalty::WHITE);
    assert_eq!(b.to_fen(), DEFAULTFEN);
}

#[test]
fn turn_alternates_on_legal_moves() {
    let mut b = board(DEFAULTFEN);
    assert!(move_entity(&mut b, at(4, 6), at(4, 5)));
    assert_eq!(b.current_turn, TeamLoyalty::BLACK);
    assert!(move_entity(&mut b, at(4, 1), at(4, 2)));
    assert_eq!(b.current_turn, TeamLoyalty::WHITE);
}

#[test]
fn entity_letters() {
    assert_eq!(get_entity_fen(&EntityType::PAWN), 'p');
    assert_eq!(get_entity_fen(&EntityType::ROOK), 'r');
    assert_eq!(get_entity_fen(&EntityType::KNIGHT), 'n');
    assert_eq!(get_entity_fen(&EntityType::BISHOP), 'b');
    assert_eq!(get_entity_fen(&EntityType::QUEEN), 'q');
    assert_eq!(get_entity_fen(&EntityType::KING), 'k');
    assert_eq!(get_entity_fen(&EntityType::NOTSET), '\0');
    assert_eq!(get_entity_type('Q'), EntityType::QUEEN);
    assert_eq!(get_entity_type('n'), EntityType::KNIGHT);
    assert_eq!(get_entity_type('x'), EntityType::NOTSET);
    assert_eq!(get_entity_type('1'), EntityType::NOTSET);
}

#[test]
fn make_entity_is_fresh() {
    let e = make_entity('k', TeamLoyalty::BLACK);
    assert_eq!(e, piece(EntityType::KING, TeamLoyalty::BLACK));
}

#[test]
fn create_cell_reads_letters() {
    let w = create_cell('B');
    assert!(w.is_occupied);
    assert_eq!(w.occupier, Some(piece(EntityType::BISHOP, TeamLoyalty::WHITE)));
    assert_eq!(w.cell_fen_repr, 'B');
    let b = create_cell('r');
    assert_eq!(b.occupier, Some(piece(EntityType::ROOK, TeamLoyalty::BLACK)));
    let other = create_cell('5');
    assert!(!other.is_occupied);
    assert_eq!(other.occupier, None);
    assert_eq!(other.cell_fen_repr, '1');
}

#[test]
fn cell_update_and_make_empty() {
    let mut c = Cell::default();
    assert!(!c.is_occupied);
    assert_eq!(c.cell_fen_repr, '1');
    let q = piece(EntityType::QUEEN, TeamLoyalty::WHITE);
    c.update(q);
    assert!(c.is_occupied);
    assert_eq!(c.cell_fen_repr, 'Q');
    c.update(piece(EntityType::KNIGHT, TeamLoyalty::BLACK));
    assert_eq!(c.cell_fen_repr, 'n');
    let last = c.make_empty();
    assert_eq!(last, Some(piece(EntityType::KNIGHT, TeamLoyalty::BLACK)));
    assert!(!c.is_occupied);
    assert_eq!(c.occupier, None);
    assert_eq!(c.cell_fen_repr, '1');
}

#[test]
fn defaults() {
    assert_eq!(TeamLoyalty::default(), TeamLoyalty::WHITE);
    assert_eq!(EntityType::default(), EntityType::NOTSET);
}

#[test]
fn debug_grid_text() {
    let b = board(DEFAULTFEN);
    let mut expected = String::from("- 0 1 2 3 4 5 6 7\n0");
    let rows = ["rnbkqbnr", "pppppppp", "11111111", "11111111", "11111111", "11111111", "PPPPPPPP", "RNBQKBNR"];
    for (i, row) in rows.iter().enumerate() {
        for c in row.chars() {
            expected.push(' ');
            expected.push(c);
        }
        expected.push('\n');
        expected.push_str(&(i + 1).to_string());
    }
    assert_eq!(b.to_string(), expected);
}

#[test]
fn update_turn_reads_last_letter() {
    let mut b = board(DEFAULTFEN);
    b.update_turn("8/8/8/8/8/8/8/8 b".to_string());
    assert_eq!(b.current_turn, TeamLoyalty::BLACK);
    b.update_turn("8/8/8/8/8/8/8/8 w".to_string());
    assert_eq!(b.current_turn, TeamLoyalty::WHITE);
    b.update_turn("x".to_string());
    assert_eq!(b.current_turn, TeamLoyalty::BLACK);
}

#[test]
fn no_saved_config() {
    assert!(!config_path_exists());
}
