use chess_engine::action_rules::{color_in_check, ActionRule, CastlingActions, PawnActions};
use chess_engine::endgame_table_search::{outcome_of_class, table_fen, EndgameTableSearcher, TableWdl};
use chess_engine::evaluator::{count_pieces, full_evaluate_with, score_for_checkmate, score_for_distance, Evaluator};
use chess_engine::minimax::{depth_loss, find_best_move, RootSearch, SearchError};
use chess_engine::opening_tables::{find_engine_move, OpeningTables};
use chess_engine::player_action::PlayerAction;
use chess_engine::{
    find_legal_actions, in_check, in_check_mate, Action, ActionType, BoardPosition, BoardState, Capturable,
    GameEndState, Piece, PieceColor, PieceType,
};

const START: &str = "rnbqkbnr/pppppppp/8/8/8/8/PPPPPPPP/RNBQKBNR w KQkq - 0 1";

fn simple(from: &str, to: &str) -> Action {
    Action::new(ActionType::SimpleMove { from: BoardPosition::from_text(from), to: BoardPosition::from_text(to) })
}

fn play(board: &mut BoardState, action: Action) {
    assert!(find_legal_actions(board, false).0.contains(&action), "{:?} is not legal", action);
    action.play_move(board);
}

fn first_fields(fen: &str) -> Vec<String> {
    fen.split(' ').take(3).map(|s| s.to_string()).collect()
}

fn evaluator() -> Evaluator {
    Evaluator::new(EndgameTableSearcher::without_tables())
}

#[test]
fn start_position_has_twenty_moves() {
    let board = BoardState::from_fen(START);
    let (moves, end) = find_legal_actions(&board, false);
    assert_eq!(moves.len(), 20);
    assert_eq!(end, None);
}

#[test]
fn legal_moves_never_leave_own_king_attacked() {
    for fen in [
        START,
        "r1bqkb1r/pppp1ppp/2n2n2/4p3/2B1P3/5N2/PPPP1PPP/RNBQK2R w KQkq - 4 4",
        "4k3/8/8/8/1b6/8/3P4/4K3 w - - 0 1",
        "4k3/4r3/8/8/8/8/4N3/4K3 w - - 0 1",
    ] {
        let board = BoardState::from_fen(fen);
        let mover = board.color_turn;
        let moves = find_legal_actions(&board, false).0;
        assert!(!moves.is_empty());
        for action in moves {
            let mut after = board;
            action.play_move(&mut after);
            assert!(!color_in_check(&after, mover), "{:?} leaves the king attacked in {}", action, fen);
        }
    }
}

#[test]
fn pinned_piece_cannot_move_off_the_pin() {
    // the white knight on e2 is pinned by the rook on e7
    let board = BoardState::from_fen("4k3/4r3/8/8/8/8/4N3/4K3 w - - 0 1");
    let moves = find_legal_actions(&board, false).0;
    assert!(!moves.iter().any(|a| matches!(a.get_action_type(), ActionType::SimpleMove { from, .. } if from == BoardPosition::from_text("e2"))));
}

#[test]
fn en_passant_after_double_push() {
    let mut board = BoardState::from_fen(START);
    play(&mut board, simple("e2", "e4"));
    play(&mut board, simple("a7", "a6"));
    play(&mut board, simple("e4", "e5"));
    play(&mut board, simple("f7", "f5"));
    let capture = Action::new(ActionType::EnPassant {
        from: BoardPosition::from_text("e5"),
        to: BoardPosition::from_text("f6"),
    });
    assert!(find_legal_actions(&board, false).0.contains(&capture));
    capture.play_move(&mut board);
    assert!(board.get(BoardPosition::from_text("f5")).is_none());
    assert!(board.get(BoardPosition::from_text("e5")).is_none());
    assert_eq!(board.get(BoardPosition::from_text("f6")), Some(Piece::new(PieceColor::White, PieceType::Pawn)));
}

#[test]
fn en_passant_expires_after_one_ply() {
    let mut board = BoardState::from_fen(START);
    play(&mut board, simple("e2", "e4"));
    play(&mut board, simple("a7", "a6"));
    play(&mut board, simple("e4", "e5"));
    play(&mut board, simple("f7", "f5"));
    play(&mut board, simple("a2", "a3"));
    play(&mut board, simple("a6", "a5"));
    let capture = Action::new(ActionType::EnPassant {
        from: BoardPosition::from_text("e5"),
        to: BoardPosition::from_text("f6"),
    });
    assert!(!find_legal_actions(&board, false).0.contains(&capture));
}

#[test]
fn every_promotion_makes_a_queen() {
    let board = BoardState::from_fen("rnbqkb1r/1pppppPp/5n2/8/p7/8/PPPPP1PP/RNBQKBNR w KQkq - 1 5");
    let moves = find_legal_actions(&board, false).0;
    let mut promotions = 0;
    for action in moves {
        if let ActionType::SimpleMove { from, to } = action.get_action_type() {
            if from == BoardPosition::from_text("g7") && to.y == 7 {
                promotions += 1;
                let mut after = board;
                action.play_move(&mut after);
                assert_eq!(after.get(to), Some(Piece::new(PieceColor::White, PieceType::Queen)));
            }
        }
    }
    assert_eq!(promotions, 3);
}

#[test]
fn queen_side_castling() {
    let mut board = BoardState::from_fen("r3k2r/8/8/8/8/8/8/R3K2R b KQkq - 0 1");
    play(&mut board, Action::new(ActionType::Castling { kings_side: false }));
    assert_eq!(board.get(BoardPosition::from_text("c8")), Some(Piece::new(PieceColor::Black, PieceType::King)));
    assert_eq!(board.get(BoardPosition::from_text("d8")), Some(Piece::new(PieceColor::Black, PieceType::Rook)));
    assert!(board.get(BoardPosition::from_text("a8")).is_none());
    assert!(board.get(BoardPosition::from_text("e8")).is_none());
    assert!(!board.black_king_castle && !board.black_queen_castle);
    assert!(board.white_king_castle && board.white_queen_castle);
}

#[test]
fn castling_denied_through_pawn_attack() {
    // the black pawn on g2 attacks f1, the square the king passes; g1 itself is not attacked
    let board = BoardState::from_fen("4k3/8/8/8/8/8/6p1/4K2R w K - 0 1");
    let castle = Action::new(ActionType::Castling { kings_side: true });
    assert!(!find_legal_actions(&board, false).0.contains(&castle));
    let mut actions = Vec::new();
    CastlingActions::update_actions(&board, &mut actions);
    assert!(actions.is_empty());
}

#[test]
fn castling_denied_with_blocked_path() {
    let board = BoardState::from_fen("4k3/8/8/8/8/8/8/R2QK2R w KQ - 0 1");
    let moves = find_legal_actions(&board, false).0;
    assert!(moves.contains(&Action::new(ActionType::Castling { kings_side: true })));
    assert!(!moves.contains(&Action::new(ActionType::Castling { kings_side: false })));
}

#[test]
fn rook_move_clears_its_castling_right() {
    let mut board = BoardState::from_fen("r3k2r/8/8/8/8/8/8/R3K2R w KQkq - 0 1");
    play(&mut board, simple("h1", "h2"));
    assert!(!board.white_king_castle);
    assert!(board.white_queen_castle);
    play(&mut board, simple("a8", "a7"));
    assert!(!board.black_queen_castle);
    assert!(board.black_king_castle);
}

#[test]
fn checkmate_reports_win_for_opponent() {
    let board = BoardState::from_fen("rnb1kbnr/pppp1ppp/8/4p3/6Pq/5P2/PPPPP2P/RNBQKBNR w KQkq - 1 3");
    let (moves, end) = find_legal_actions(&board, false);
    assert!(moves.is_empty());
    assert_eq!(end, Some(GameEndState::Win(PieceColor::Black)));
    assert!(in_check(&board));
    assert!(in_check_mate(&board));
}

#[test]
fn stalemate_reports_draw() {
    let board = BoardState::from_fen("7k/5Q2/6K1/8/8/8/8/8 b - - 0 1");
    let (moves, end) = find_legal_actions(&board, false);
    assert!(moves.is_empty());
    assert_eq!(end, Some(GameEndState::Draw));
    assert!(!in_check(&board));
    assert!(!in_check_mate(&board));
}

#[test]
fn check_is_reported_for_side_to_move() {
    let board = BoardState::from_fen("4k3/8/8/8/8/8/8/4KR2 b - - 0 1");
    assert!(!in_check(&board));
    let board = BoardState::from_fen("4k3/8/8/8/8/8/8/4R1K1 b - - 0 1");
    assert!(in_check(&board));
    assert!(!in_check_mate(&board));
}

#[test]
fn safe_only_drops_captures() {
    let board = BoardState::from_fen("4k3/8/8/3p4/4P3/8/8/4K3 w - - 0 1");
    let all = find_legal_actions(&board, false).0;
    let safe = find_legal_actions(&board, true).0;
    assert!(all.contains(&simple("e4", "d5")));
    assert!(!safe.contains(&simple("e4", "d5")));
    assert!(safe.contains(&simple("e4", "e5")));
    assert_eq!(all.len(), safe.len() + 1);
}

#[test]
fn pawn_rule_alone() {
    let board = BoardState::from_fen(START);
    let mut actions = Vec::new();
    PawnActions::update_actions(&board, &mut actions);
    assert_eq!(actions.len(), 16);
    let mut knights = Vec::new();
    ActionRule::Knight.update_actions(&board, &mut knights);
    assert_eq!(knights.len(), 4);
}

#[test]
fn search_is_deterministic() {
    let board = BoardState::from_fen("4k3/pp3ppp/8/3n4/8/2N5/PP3PPP/4K3 b - - 0 1");
    let evaluator = evaluator();
    let first = find_best_move(&evaluator, &board, 2);
    let second = find_best_move(&evaluator, &board, 2);
    assert!(first.is_ok());
    assert_eq!(first, second);
    assert!(find_legal_actions(&board, false).0.contains(&first.unwrap()));
}

#[test]
fn search_finds_mate_in_one() {
    let board = BoardState::from_fen("rnbqkbnr/pppp1ppp/8/4p3/6P1/5P2/PPPPP2P/RNBQKBNR b KQkq - 0 2");
    let evaluator = evaluator();
    assert_eq!(find_best_move(&evaluator, &board, 1), Ok(simple("d8", "h4")));
}

#[test]
fn search_without_moves_fails() {
    let board = BoardState::from_fen("7k/5Q2/6K1/8/8/8/8/8 b - - 0 1");
    assert_eq!(find_best_move(&evaluator(), &board, 1), Err(SearchError::NoLegalMove));
}

#[test]
fn root_search_reports_progress() {
    let board = BoardState::from_fen("rnbqkbnr/pppp1ppp/8/4p3/6P1/5P2/PPPPP2P/RNBQKBNR b KQkq - 0 2");
    let evaluator = evaluator();
    let mut search = RootSearch::new(&board, 1);
    let total = search.total();
    assert_eq!(total, find_legal_actions(&board, false).0.len());
    while !search.is_done() {
        let before = search.completed();
        search.step(&evaluator);
        assert_eq!(search.completed(), before + 1);
    }
    assert_eq!(search.completed(), total);
    assert_eq!(search.result(), Ok(simple("d8", "h4")));
}

#[test]
fn depth_loss_schedule() {
    assert_eq!(depth_loss(0, 5), 1);
    assert_eq!(depth_loss(2, 5), 1);
    assert_eq!(depth_loss(3, 5), 2);
    assert_eq!(depth_loss(4, 5), 2);
    assert_eq!(depth_loss(5, 5), 3);
    assert_eq!(depth_loss(5, 2), 2);
    assert_eq!(depth_loss(7, 1), 1);
}

#[test]
fn heuristic_scores() {
    let evaluator = evaluator();
    let mut board = BoardState::from_fen(START);
    assert_eq!(evaluator.quick_evaluate(&board), 0);
    simple("e2", "e4").play_move(&mut board);
    assert_eq!(evaluator.quick_evaluate(&board), -40);
    // a lone black queen on d8 and the two kings
    let board = BoardState::from_fen("3qk3/8/8/8/8/8/8/4K3 w - - 0 1");
    assert_eq!(evaluator.quick_evaluate(&board), 900 - 5);
}

#[test]
fn mate_and_distance_scores() {
    assert_eq!(score_for_checkmate(PieceColor::White, 3), -32765);
    assert_eq!(score_for_checkmate(PieceColor::Black, 3), 32764);
    assert_eq!(score_for_distance(5, PieceColor::White), -32763);
    assert_eq!(score_for_distance(-5, PieceColor::White), 32762);
    assert_eq!(score_for_distance(5, PieceColor::Black), 32762);
    assert_eq!(score_for_distance(-5, PieceColor::Black), -32763);
    assert_eq!(score_for_distance(0, PieceColor::Black), 0);
    assert_eq!(score_for_distance(100000, PieceColor::White), -1);
}

#[test]
fn full_evaluation_of_sparse_positions() {
    let evaluator = evaluator();
    // stalemate with three pieces
    let board = BoardState::from_fen("7k/5Q2/6K1/8/8/8/8/8 b - - 0 1");
    assert_eq!(evaluator.full_evaluate(&board), 0);
    assert_eq!(count_pieces(&board), 3);
    // checkmate of Black with four pieces
    let board = BoardState::from_fen("6k1/5ppQ/8/8/8/8/8/6K1 b - - 0 1");
    let mated = BoardState::from_fen("7k/6Q1/6K1/8/8/8/8/8 b - - 0 1");
    assert_eq!(evaluator.full_evaluate(&mated), score_for_checkmate(PieceColor::White, 100));
    assert_eq!(count_pieces(&board), 5);
    // a table answer is used when there is one, the heuristic otherwise
    let board = BoardState::from_fen("4k3/8/8/8/8/8/8/3QK3 w - - 0 1");
    assert_eq!(full_evaluate_with(&board, Some(7)), -32761);
    assert_eq!(full_evaluate_with(&board, None), evaluator.quick_evaluate(&board));
    assert_eq!(evaluator.full_evaluate(&board), evaluator.quick_evaluate(&board));
    assert!(!evaluator.is_in_endgame(&board));
}

#[test]
fn tables_without_files_miss() {
    let tables = EndgameTableSearcher::without_tables();
    let board = BoardState::from_fen("4k3/8/8/8/8/8/8/3QK3 w - - 0 1");
    assert_eq!(tables.win_loss_check(&board), None);
    assert_eq!(tables.evaluate_state(&board), None);
    assert!(EndgameTableSearcher::new("/nonexistent/table/directory").is_none());
}

#[test]
fn encoding_round_trip() {
    for fen in [
        START,
        "r3k2r/8/8/8/8/8/8/R3K2R w Kq - 0 1",
        "rnbqkb1r/1pppppPp/5n2/8/p7/8/PPPPP1PP/RNBQKBNR w KQkq - 1 5",
        "r1bqkb1r/pppp1ppp/2n2n2/4p3/2B1P3/5N2/PPPP1PPP/RNBQK2R w KQkq - 4 4",
        "4k3/8/8/8/8/8/6p1/4K2R w K - 0 1",
        "4k3/8/8/8/8/8/8/4K3 b - - 0 1",
    ] {
        let encoded = BoardState::from_fen(fen).to_fen();
        assert_eq!(first_fields(&encoded), first_fields(fen));
    }
    let with_ep = "rnbqkbnr/1pppp1pp/p7/4Pp2/8/8/PPPP1PPP/RNBQKBNR w KQkq f6 0 3";
    assert_eq!(BoardState::from_fen(with_ep).to_fen(), "rnbqkbnr/1pppp1pp/p7/4Pp2/8/8/PPPP1PPP/RNBQKBNR w KQkq f6 0 1");
}

#[test]
fn malformed_encodings_are_refused() {
    assert!(BoardState::try_from_fen("").is_none());
    assert!(BoardState::try_from_fen("rnbqkbnr/pppppppp/8/8/8/8/PPPPPPPP w KQkq - 0 1").is_none());
    assert!(BoardState::try_from_fen("rnbqkbnr/pppppppp/9/8/8/8/PPPPPPPP/RNBQKBNR w KQkq - 0 1").is_none());
    assert!(BoardState::try_from_fen("rnbqkbnr/pppppppp/8/8/8/8/PPPPPPPP/RNBQKBNR x KQkq - 0 1").is_none());
    assert!(BoardState::try_from_fen("rnbqkbnr/pppppppp/8/8/8/8/PPPPPPPP/RNBQKBNR w KQxq - 0 1").is_none());
    assert!(BoardState::try_from_fen("rnbqkbnr/pppppppp/8/8/8/8/PPPPPPPP/RNBQKBNR w KQkq z9 0 1").is_none());
    assert!(BoardState::try_from_fen("rnbqkbnr/pppppppp/8/8/8/8/PPPPPPPP/RNBQKBNR w KQkq -").is_some());
}

#[test]
fn square_notation() {
    let square = BoardPosition::from_text("e4");
    assert_eq!(square, BoardPosition::new(4, 3));
    assert_eq!(square.to_text(), "e4");
    assert_eq!(BoardPosition::new(0, 7).to_text(), "a8");
    assert!(square.bound_check());
    assert!(!BoardPosition::new(8, 0).bound_check());
    assert_eq!(square.nondirectional_ofset(-5, 1), BoardPosition::new(255, 4));
    assert_eq!(square.directional_ofset(1, 1, PieceColor::Black), BoardPosition::new(5, 2));
}

#[test]
fn piece_letters() {
    assert_eq!(Piece::from_fen_char('n'), Piece::new(PieceColor::Black, PieceType::Knight));
    assert_eq!(Piece::new(PieceColor::White, PieceType::Queen).to_fen_char(), 'Q');
    assert_eq!(Piece::new(PieceColor::Black, PieceType::King).to_unicode_char(), '\u{265A}');
    assert_eq!(PieceColor::White.opposite_color(), PieceColor::Black);
}

#[test]
fn board_access() {
    let mut board = BoardState::from_fen(START);
    assert!(!board.alpha_to_move());
    *board.get_mut(BoardPosition::from_text("e2")) = None;
    assert!(board.get(BoardPosition::from_text("e2")).is_none());
    assert!(!board.same_position(&BoardState::from_fen(START)));
    assert!(BoardState::from_fen(START).same_position(&BoardState::from_fen(START)));
    assert!(board.get(BoardPosition::from_text("e7")).can_take(PieceColor::White));
    assert!(!board.get(BoardPosition::from_text("e7")).can_take(PieceColor::Black));
}

#[test]
fn opening_book_replies() {
    let book = OpeningTables::new();
    let mut board = BoardState::from_fen(START);
    assert_eq!(book.try_find_move(&board), None);
    simple("e2", "e4").play_move(&mut board);
    assert_eq!(book.try_find_move(&board), Some(simple("e7", "e5")));
    assert_eq!(find_engine_move(&evaluator(), &book, &board), Ok(simple("e7", "e5")));
    // the same placement without castling rights is not in the book
    let mut no_rights = board;
    no_rights.black_queen_castle = false;
    assert_eq!(book.try_find_move(&no_rights), None);
}

#[test]
fn click_squares() {
    let castle = Action::new(ActionType::Castling { kings_side: true });
    let clicks = PlayerAction::new(castle, PieceColor::Black);
    assert_eq!(clicks.from, BoardPosition::from_text("e8"));
    assert_eq!(clicks.to, BoardPosition::from_text("g8"));
    let clicks = PlayerAction::new(simple("b1", "c3"), PieceColor::White);
    assert_eq!(clicks.from, BoardPosition::from_text("b1"));
    assert_eq!(clicks.to, BoardPosition::from_text("c3"));
}

#[test]
fn default_is_the_initial_position() {
    let board = BoardState::default();
    assert_eq!(board.to_fen(), START);
    assert!(board == BoardState::from_fen(START));
    let mut moved = board;
    simple("g1", "f3").play_move(&mut moved);
    assert!(moved != board);
}

#[test]
fn en_passant_file_only_after_double_step() {
    let mut board = BoardState::default();
    simple("e2", "e4").play_move(&mut board);
    assert_eq!(board.en_passant_colunm, 4);
    simple("g8", "f6").play_move(&mut board);
    assert!(board.en_passant_colunm >= 8);
    simple("e4", "e5").play_move(&mut board);
    assert!(board.en_passant_colunm >= 8);
}

#[test]
fn table_queries_leave_out_castling() {
    let board = BoardState::from_fen("r3k2r/8/8/8/8/8/8/R3K2R b KQkq - 0 1");
    assert_eq!(table_fen(&board), "r3k2r/8/8/8/8/8/8/R3K2R b - - 0 1");
    assert_eq!(outcome_of_class(TableWdl::Win, PieceColor::White), GameEndState::Win(PieceColor::White));
    assert_eq!(outcome_of_class(TableWdl::CursedWin, PieceColor::Black), GameEndState::Win(PieceColor::Black));
    assert_eq!(outcome_of_class(TableWdl::BlessedLoss, PieceColor::Black), GameEndState::Win(PieceColor::White));
    assert_eq!(outcome_of_class(TableWdl::Draw, PieceColor::White), GameEndState::Draw);
}

#[test]
fn evaluator_mate_scores() {
    let evaluator = evaluator();
    assert_eq!(evaluator.score_for_checkmate(PieceColor::Black, 0), i16::MAX);
    assert_eq!(evaluator.score_for_checkmate(PieceColor::White, 0), i16::MIN);
    assert!(evaluator.score_for_checkmate(PieceColor::Black, 1) > evaluator.score_for_checkmate(PieceColor::Black, 2));
}

#[test]
fn depth_follows_table_answer() {
    assert_eq!(chess_engine::opening_tables::depth_for(true), 1);
    assert_eq!(chess_engine::opening_tables::depth_for(false), 7);
    assert_eq!(chess_engine::opening_tables::search_depth(&evaluator(), &BoardState::default()), 7);
}

#[test]
fn legal_moves_are_listed_once() {
    for fen in [START, "r3k2r/8/8/8/8/8/8/R3K2R w KQkq - 0 1", "4k3/8/8/3q4/8/8/8/Q3K3 b - - 0 1"] {
        let moves = find_legal_actions(&BoardState::from_fen(fen), false).0;
        for (i, a) in moves.iter().enumerate() {
            assert!(!moves[i + 1..].contains(a), "{:?} listed twice", a);
        }
    }
}

#[test]
fn rules_append_after_existing_moves() {
    let board = BoardState::from_fen(START);
    let marker = simple("a1", "a1");
    let mut actions = vec![marker];
    ActionRule::Knight.update_actions(&board, &mut actions);
    assert_eq!(actions[0], marker);
    assert_eq!(actions.len(), 5);
}
