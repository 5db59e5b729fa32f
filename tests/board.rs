use quantum_chess::game::{Board, Vec2};
use quantum_chess::piece::{Piece, PieceType, Team, MASS_ONE};

fn count_pieces(b: &Board) -> usize {
    let mut n = 0;
    for p in Board::square_positions() {
        n += b.get_square(p).len();
    }
    n
}

fn ready_board() -> Board {
    let mut b = Board::new_setup();
    b.update_piece_data();
    b
}

fn moves_of(b: &Board, x: i32, y: i32) -> Vec<Vec2> {
    let sq = b.get_square(Vec2::new((x, y)));
    assert_eq!(sq.len(), 1);
    sq[0].calculated_values.moves.clone()
}

#[test]
fn index_round_trip() {
    for i in 0..64usize {
        let c = Vec2::from_index(i);
        assert!(0 <= c.x && c.x < 8 && 0 <= c.y && c.y < 8);
        assert_eq!(c.to_index(), i);
    }
    for x in 0..8 {
        for y in 0..8 {
            let c = Vec2::new((x, y));
            assert_eq!(Vec2::from_index(c.to_index()), c);
        }
    }
    assert_eq!(Vec2::from_index(13), Vec2 { x: 5, y: 1 });
    assert_eq!(Vec2::new((3, 7)).to_index(), 59);
}

#[test]
fn translate_stays_on_board() {
    let c = Vec2::new((0, 7));
    assert_eq!(c.add((1, -2)), Some(Vec2 { x: 1, y: 5 }));
    assert_eq!(c.add((-1, 0)), None);
    assert_eq!(c.add((0, 1)), None);
    assert_eq!(Vec2::new((7, 7)).add((0, 0)), Some(Vec2 { x: 7, y: 7 }));
    assert_eq!(Vec2::new((7, 0)).add((1, 0)), None);
}

#[test]
fn square_positions_row_major() {
    let ps = Board::square_positions();
    assert_eq!(ps[0], Vec2 { x: 0, y: 0 });
    assert_eq!(ps[9], Vec2 { x: 1, y: 1 });
    assert_eq!(ps[63], Vec2 { x: 7, y: 7 });
}

#[test]
fn standard_setup_after_recompute() {
    let b = ready_board();
    assert_eq!(count_pieces(&b), 32);
    for p in Board::square_positions() {
        for piece in b.get_square(p) {
            assert_eq!(piece.percent, MASS_ONE);
            assert_eq!(piece.calculated_values.relative_percent, MASS_ONE);
            match piece.type_ {
                PieceType::Pawn { first_move } => {
                    assert!(first_move);
                    assert_eq!(piece.calculated_values.moves.len(), 2);
                }
                PieceType::Queen | PieceType::Bishop | PieceType::Rook => {
                    assert!(piece.calculated_values.moves.is_empty());
                }
                PieceType::King => assert!(piece.calculated_values.moves.is_empty()),
                PieceType::Knight => assert_eq!(piece.calculated_values.moves.len(), 2),
            }
        }
    }
    assert_eq!(moves_of(&b, 0, 6), vec![Vec2 { x: 0, y: 5 }, Vec2 { x: 0, y: 4 }]);
    assert_eq!(moves_of(&b, 3, 1), vec![Vec2 { x: 3, y: 2 }, Vec2 { x: 3, y: 3 }]);
    assert_eq!(moves_of(&b, 1, 7), vec![Vec2 { x: 2, y: 5 }, Vec2 { x: 0, y: 5 }]);
    let king = b.get_square(Vec2::new((4, 7)));
    assert_eq!(king[0].type_, PieceType::King);
    assert_eq!(king[0].team, Team::White);
    let queen = b.get_square(Vec2::new((3, 0)));
    assert_eq!(queen[0].type_, PieceType::Queen);
    assert_eq!(queen[0].team, Team::Black);
    assert!(b.get_square(Vec2::new((4, 4))).is_empty());
    assert_eq!(b.current_player(), Team::White);
}

#[test]
fn setup_positions() {
    assert!(Piece::from_setup_pos(&Vec2::new((0, 3))).is_none());
    let rook = Piece::from_setup_pos(&Vec2::new((7, 7))).unwrap();
    assert_eq!(rook.type_, PieceType::Rook);
    assert_eq!(rook.team, Team::White);
    let bishop = Piece::from_setup_pos(&Vec2::new((2, 0))).unwrap();
    assert_eq!(bishop.type_, PieceType::Bishop);
    assert_eq!(bishop.team, Team::Black);
    let pawn = Piece::from_setup_pos(&Vec2::new((5, 1))).unwrap();
    assert_eq!(pawn.type_, PieceType::Pawn { first_move: true });
}

#[test]
fn move_rules() {
    let free = [[true; 8]; 8];
    let pos = Vec2::new((0, 0));
    assert_eq!(
        PieceType::King.valid_moves(&pos, free, Team::White),
        vec![Vec2 { x: 1, y: 0 }, Vec2 { x: 0, y: 1 }, Vec2 { x: 1, y: 1 }]
    );
    assert_eq!(
        PieceType::Knight.valid_moves(&pos, free, Team::Black),
        vec![Vec2 { x: 1, y: 2 }, Vec2 { x: 2, y: 1 }]
    );
    assert!(PieceType::Rook.valid_moves(&pos, free, Team::White).is_empty());
    let mut blocked = [[true; 8]; 8];
    blocked[5][3] = false;
    let pawn = PieceType::Pawn { first_move: true };
    assert!(pawn.valid_moves(&Vec2::new((3, 6)), blocked, Team::White).is_empty());
    assert_eq!(
        pawn.valid_moves(&Vec2::new((3, 3)), blocked, Team::Black),
        vec![Vec2 { x: 3, y: 4 }]
    );
    let moved = PieceType::Pawn { first_move: false };
    assert_eq!(
        moved.valid_moves(&Vec2::new((2, 6)), free, Team::White),
        vec![Vec2 { x: 2, y: 5 }]
    );
    assert!(pawn.valid_moves(&Vec2::new((2, 0)), free, Team::White).is_empty());
}

#[test]
fn display_share_of_crowded_square() {
    let mut p = Piece::from_type(PieceType::Knight, Team::White);
    p.percent = MASS_ONE;
    p.update_calculated_values(&Vec2::new((4, 4)), [[true; 8]; 8], 4 * MASS_ONE);
    assert_eq!(p.calculated_values.relative_percent, MASS_ONE / 4);
    assert_eq!(p.calculated_values.moves.len(), 8);
    let mut q = Piece::from_type(PieceType::Queen, Team::Black);
    q.percent = MASS_ONE / 2;
    q.update_calculated_values(&Vec2::new((4, 4)), [[true; 8]; 8], MASS_ONE / 2);
    assert_eq!(q.calculated_values.relative_percent, MASS_ONE / 2);
}

#[test]
fn split_keeps_kind_fresh() {
    let p = Piece::from_type(PieceType::Pawn { first_move: false }, Team::Black);
    let q = p.with_percent(7);
    assert_eq!(q.type_, PieceType::Pawn { first_move: true });
    assert_eq!(q.team, Team::Black);
    assert_eq!(q.percent, 7);
    assert!(q.calculated_values.moves.is_empty());
}

#[test]
fn pawn_advance_from_setup() {
    // The knight on (1, 7) reaches (0, 5) too, so the move splits between them.
    let mut b = ready_board();
    b.move_piece(Vec2::new((0, 5)));
    assert_eq!(b.current_player(), Team::Black);
    let pawn_home = b.get_square(Vec2::new((0, 6)));
    assert_eq!(pawn_home.len(), 1);
    assert_eq!(pawn_home[0].percent, MASS_ONE / 2);
    let knight_home = b.get_square(Vec2::new((1, 7)));
    assert_eq!(knight_home.len(), 1);
    assert_eq!(knight_home[0].percent, MASS_ONE / 2);
    let target = b.get_square(Vec2::new((0, 5)));
    assert_eq!(target.len(), 2);
    assert_eq!(target[0].type_, PieceType::Pawn { first_move: true });
    assert_eq!(target[0].team, Team::White);
    assert_eq!(target[0].percent, MASS_ONE / 2);
    assert_eq!(target[1].type_, PieceType::Knight);
    assert_eq!(target[1].percent, MASS_ONE / 2);
    assert_eq!(count_pieces(&b), 34);
}

#[test]
fn lone_pawn_advance() {
    let mut b = Board::new_blank();
    let from = Vec2::new((0, 6));
    b.add_pieces_to_square(vec![Piece::from_type(PieceType::Pawn { first_move: true }, Team::White)], from);
    b.update_piece_data();
    b.move_piece(Vec2::new((0, 5)));
    assert!(b.get_square(from).is_empty());
    let target = b.get_square(Vec2::new((0, 5)));
    assert_eq!(target.len(), 1);
    assert_eq!(target[0].team, Team::White);
    assert_eq!(target[0].type_, PieceType::Pawn { first_move: true });
    assert_eq!(target[0].percent, MASS_ONE);
    assert_eq!(b.current_player(), Team::Black);
    b.update_piece_data();
    let target = b.get_square(Vec2::new((0, 5)));
    assert_eq!(target[0].calculated_values.moves, vec![Vec2 { x: 0, y: 4 }, Vec2 { x: 0, y: 3 }]);
}

#[test]
fn unreachable_target_changes_nothing() {
    let mut b = ready_board();
    let before: Vec<Vec<(u64, u64, usize)>> = Board::square_positions()
        .iter()
        .map(|p| {
            b.get_square(*p)
                .iter()
                .map(|x| (x.percent, x.calculated_values.relative_percent, x.calculated_values.moves.len()))
                .collect()
        })
        .collect();
    b.move_piece(Vec2::new((4, 7)));
    assert_eq!(b.current_player(), Team::White);
    for (i, p) in Board::square_positions().iter().enumerate() {
        let now: Vec<(u64, u64, usize)> = b
            .get_square(*p)
            .iter()
            .map(|x| (x.percent, x.calculated_values.relative_percent, x.calculated_values.moves.len()))
            .collect();
        assert_eq!(now, before[i]);
    }
}

#[test]
fn turn_toggles_only_on_moves() {
    let mut b = ready_board();
    b.move_piece(Vec2::new((0, 0)));
    assert_eq!(b.current_player(), Team::White);
    b.move_piece(Vec2::new((3, 4)));
    assert_eq!(b.current_player(), Team::Black);
    b.update_piece_data();
    b.move_piece(Vec2::new((3, 4)));
    assert_eq!(b.current_player(), Team::Black);
    b.move_piece(Vec2::new((3, 2)));
    assert_eq!(b.current_player(), Team::White);
}

#[test]
fn split_between_three_movers_conserves_mass() {
    let mut b = Board::new_blank();
    let target = Vec2::new((4, 4));
    b.add_pieces_to_square(vec![Piece::from_type(PieceType::King, Team::White)], Vec2::new((3, 3)));
    b.add_pieces_to_square(vec![Piece::from_type(PieceType::Knight, Team::White)], Vec2::new((2, 3)));
    b.add_pieces_to_square(vec![Piece::from_type(PieceType::King, Team::Black)], Vec2::new((5, 5)));
    b.update_piece_data();
    b.move_piece(target);
    let share = MASS_ONE / 3;
    for (x, y) in [(3, 3), (2, 3), (5, 5)] {
        let sq = b.get_square(Vec2::new((x, y)));
        assert_eq!(sq.len(), 1);
        assert_eq!(sq[0].percent, MASS_ONE - share);
        assert_eq!(sq[0].percent + share, MASS_ONE);
    }
    let arrived = b.get_square(target);
    assert_eq!(arrived.len(), 3);
    assert_eq!(arrived[0].type_, PieceType::Knight);
    assert_eq!(arrived[1].type_, PieceType::King);
    assert_eq!(arrived[1].team, Team::White);
    assert_eq!(arrived[2].team, Team::Black);
    for p in &arrived {
        assert_eq!(p.percent, share);
    }
}

#[test]
fn shares_of_one_kind_merge_before_arriving() {
    let mut b = Board::new_blank();
    let target = Vec2::new((4, 4));
    b.add_pieces_to_square(vec![Piece::from_type(PieceType::Knight, Team::White)], Vec2::new((2, 3)));
    b.add_pieces_to_square(vec![Piece::from_type(PieceType::Knight, Team::White)], Vec2::new((6, 5)));
    b.update_piece_data();
    b.move_piece(target);
    let arrived = b.get_square(target);
    assert_eq!(arrived.len(), 1);
    assert_eq!(arrived[0].percent, MASS_ONE);
    assert_eq!(b.get_square(Vec2::new((2, 3)))[0].percent, MASS_ONE / 2);
}

#[test]
fn merge_order_does_not_matter() {
    let pos = Vec2::new((2, 2));
    let mut resident = Piece::from_type(PieceType::Rook, Team::White);
    resident.percent = 3;
    let a = Piece::from_type(PieceType::Knight, Team::Black).with_percent(5);
    let b = Piece::from_type(PieceType::Knight, Team::Black).with_percent(11);
    let mut first = Board::new_blank();
    first.add_pieces_to_square(vec![resident.with_percent(3)], pos);
    first.add_pieces_to_square(vec![a.with_percent(5), b.with_percent(11)], pos);
    let mut second = Board::new_blank();
    second.add_pieces_to_square(vec![resident.with_percent(3)], pos);
    second.add_pieces_to_square(vec![b.with_percent(11), a.with_percent(5)], pos);
    let x = first.get_square(pos);
    let y = second.get_square(pos);
    assert_eq!(x.len(), 2);
    assert_eq!(y.len(), 2);
    assert_eq!(x[1].percent, 16);
    assert_eq!(y[1].percent, 16);
    assert_eq!(x[0].percent, y[0].percent);
}

#[test]
fn merge_keeps_resident_state() {
    let pos = Vec2::new((5, 5));
    let mut b = Board::new_blank();
    b.add_pieces_to_square(vec![Piece::from_type(PieceType::Pawn { first_move: false }, Team::White)], pos);
    b.add_pieces_to_square(vec![Piece::from_type(PieceType::Queen, Team::White)], pos);
    b.add_pieces_to_square(vec![Piece::from_type(PieceType::Pawn { first_move: true }, Team::White)], pos);
    let sq = b.get_square(pos);
    assert_eq!(sq.len(), 2);
    assert_eq!(sq[0].type_, PieceType::Pawn { first_move: false });
    assert_eq!(sq[0].percent, 2 * MASS_ONE);
    assert_eq!(sq[1].type_, PieceType::Queen);
}

#[test]
fn capture_replaces_lone_piece() {
    let pos = Vec2::new((1, 1));
    let mut b = Board::new_blank();
    let mut heavy = Piece::from_type(PieceType::King, Team::Black);
    heavy.percent = 9 * MASS_ONE;
    b.add_pieces_to_square(vec![heavy], pos);
    b.add_pieces_to_square(vec![Piece::from_type(PieceType::Knight, Team::White).with_percent(1)], pos);
    let sq = b.get_square(pos);
    assert_eq!(sq.len(), 1);
    assert_eq!(sq[0].team, Team::White);
    assert_eq!(sq[0].type_, PieceType::Knight);
    assert_eq!(sq[0].percent, 1);
}

#[test]
fn no_capture_on_shared_square() {
    let pos = Vec2::new((1, 1));
    let mut b = Board::new_blank();
    b.add_pieces_to_square(
        vec![Piece::from_type(PieceType::King, Team::Black), Piece::from_type(PieceType::Rook, Team::Black)],
        pos,
    );
    b.add_pieces_to_square(vec![Piece::from_type(PieceType::Knight, Team::White)], pos);
    assert_eq!(b.get_square(pos).len(), 3);
}

#[test]
fn shared_square_does_not_block() {
    let mut b = Board::new_blank();
    let pos = Vec2::new((4, 4));
    b.add_pieces_to_square(vec![Piece::from_type(PieceType::King, Team::Black)], Vec2::new((4, 3)));
    b.add_pieces_to_square(vec![Piece::from_type(PieceType::King, Team::White)], pos);
    b.update_piece_data();
    let king = b.get_square(pos);
    assert!(!king[0].calculated_values.moves.contains(&Vec2 { x: 4, y: 3 }));
    assert_eq!(king[0].calculated_values.moves.len(), 7);
}

#[test]
fn reset_restores_setup() {
    let mut b = ready_board();
    b.move_piece(Vec2::new((0, 5)));
    b.reset();
    assert_eq!(count_pieces(&b), 32);
    assert!(b.get_square(Vec2::new((0, 5))).is_empty());
}
