use chess_arena::chess::{Color, Move, MoveKind, Piece, PieceKind, Position, Promotion};
use chess_arena::engine::Engine;
use chess_arena::game::{Failure, Game, GameResult, Outcome, Reply, Termination};
use chess_arena::protocol::{BestMove, TimeControl, parse_bestmove};
use chess_arena::tournament::{Tournament, TournamentResult};

fn piece(kind: PieceKind, color: Color) -> Option<Piece> {
    Some(Piece { kind, color })
}

fn empty_position(turn: Color) -> Position {
    Position { piece_at: vec![None; 64], turn, castling: 0, en_passant: None }
}

fn start_position() -> Position {
    let back = [
        PieceKind::Rook,
        PieceKind::Knight,
        PieceKind::Bishop,
        PieceKind::Queen,
        PieceKind::King,
        PieceKind::Bishop,
        PieceKind::Knight,
        PieceKind::Rook,
    ];
    let mut p = empty_position(Color::White);
    for f in 0..8 {
        p.piece_at[f] = piece(back[f], Color::White);
        p.piece_at[8 + f] = piece(PieceKind::Pawn, Color::White);
        p.piece_at[48 + f] = piece(PieceKind::Pawn, Color::Black);
        p.piece_at[56 + f] = piece(back[f], Color::Black);
    }
    p.castling = 15;
    p
}

/// Plays a plain move on the test's own board: the piece moves, the turn passes.
fn play(p: &Position, m: Move) -> Position {
    let mut q = p.clone();
    q.piece_at[m.to as usize] = q.piece_at[m.from as usize];
    q.piece_at[m.from as usize] = None;
    q.turn = match p.turn {
        Color::White => Color::Black,
        Color::Black => Color::White,
    };
    q.en_passant = None;
    q
}

fn mv(from: u8, to: u8, kind: MoveKind) -> Move {
    Move { from, to, promotion: None, kind }
}

fn opening_moves() -> Vec<Move> {
    let mut v = Vec::new();
    for f in 0..8u8 {
        v.push(mv(8 + f, 16 + f, MoveKind::Normal));
        v.push(mv(8 + f, 24 + f, MoveKind::DoublePawnPush));
    }
    v.push(mv(1, 16, MoveKind::Normal));
    v.push(mv(1, 18, MoveKind::Normal));
    v.push(mv(6, 21, MoveKind::Normal));
    v.push(mv(6, 23, MoveKind::Normal));
    v
}

fn new_game() -> Game {
    Game::new(Engine::new("white.bin", "Alpha"), Engine::new("black.bin", "Beta"), TimeControl::TimePerMove(50))
}

fn best(token: &str) -> Reply {
    Reply::BestMove(BestMove::Move(token.to_string()))
}

/// Feeds one move to the game at `p`, with `legal` as the legal moves, and
/// returns the position after it.
fn step(game: &mut Game, p: &Position, legal: Vec<Move>, token: &str) -> Position {
    assert!(game.adjudicate(p, &legal, false).is_none());
    let m = game.on_reply(p, &legal, best(token)).ok().unwrap();
    play(p, m)
}

#[test]
fn fools_mate_is_won_by_black() {
    let mut game = new_game();
    let p0 = start_position();
    let p1 = step(&mut game, &p0, opening_moves(), "f2f3");
    let p2 = step(&mut game, &p1, vec![mv(52, 36, MoveKind::DoublePawnPush), mv(52, 44, MoveKind::Normal)], "e7e5");
    let p3 = step(&mut game, &p2, vec![mv(14, 30, MoveKind::DoublePawnPush)], "g2g4");
    let p4 = step(&mut game, &p3, vec![mv(59, 31, MoveKind::Normal), mv(59, 52, MoveKind::Normal)], "d8h4");
    let result = game.adjudicate(&p4, &Vec::new(), true).unwrap();
    assert_eq!(result.outcome, Outcome::BlackWin);
    assert_eq!(result.termination, Termination::Checkmate);
    assert_eq!(result.moves_list, vec!["f2f3", "e7e5", "g2g4", "d8h4"]);
    assert_eq!(result.winner(), "Beta");
}

#[test]
fn stalemate_is_declared_before_any_engine_is_asked() {
    let mut p = empty_position(Color::White);
    p.piece_at[0] = piece(PieceKind::King, Color::White);
    p.piece_at[10] = piece(PieceKind::King, Color::Black);
    p.piece_at[17] = piece(PieceKind::Queen, Color::Black);
    let mut game = new_game();
    let result = game.adjudicate(&p, &Vec::new(), false).unwrap();
    assert_eq!(result.outcome, Outcome::Draw);
    assert_eq!(result.termination, Termination::Stalemate);
    assert!(result.moves_list.is_empty());
    assert_eq!(result.winner(), "");
}

#[test]
fn checkmated_black_loses() {
    let mut p = empty_position(Color::Black);
    p.piece_at[63] = piece(PieceKind::King, Color::Black);
    p.piece_at[0] = piece(PieceKind::King, Color::White);
    p.piece_at[62] = piece(PieceKind::Queen, Color::White);
    p.piece_at[55] = piece(PieceKind::Rook, Color::White);
    let mut game = new_game();
    let result = game.adjudicate(&p, &Vec::new(), true).unwrap();
    assert_eq!(result.outcome, Outcome::WhiteWin);
    assert_eq!(result.winner(), "Alpha");
}

#[test]
fn closed_output_forfeits_and_still_counts() {
    let mut game = new_game();
    let p = start_position();
    let legal = opening_moves();
    assert!(game.adjudicate(&p, &legal, false).is_none());
    let result = match game.on_reply(&p, &legal, Reply::Eof) {
        Err(r) => r,
        Ok(_) => panic!("a closed output is no move"),
    };
    assert_eq!(result.outcome, Outcome::BlackWin);
    assert_eq!(result.termination, Termination::Forfeit(Failure::Crashed));
    let mut t = TournamentResult::default();
    t.engine1 = "Alpha".to_string();
    t.engine2 = "Beta".to_string();
    t.record(result);
    assert_eq!(t.total_games, 1);
    assert_eq!(t.engine2_won, 1);
    assert_eq!(t.engine1_won, 0);
    assert_eq!(t.aborted, 0);
}

#[test]
fn illegal_move_forfeits_white() {
    let mut game = new_game();
    let p = start_position();
    let legal = opening_moves();
    let result = match game.on_reply(&p, &legal, best("e2e5")) {
        Err(r) => r,
        Ok(_) => panic!("e2e5 is not legal"),
    };
    assert_eq!(result.outcome, Outcome::BlackWin);
    assert_eq!(result.termination, Termination::Forfeit(Failure::IllegalMove));
    assert!(game.moves_list.is_empty());
}

#[test]
fn null_move_with_moves_left_forfeits() {
    let mut game = new_game();
    let p = start_position();
    let legal = opening_moves();
    let reply = Reply::BestMove(parse_bestmove("bestmove 0000").unwrap());
    let result = game.on_reply(&p, &legal, reply).err().unwrap();
    assert_eq!(result.outcome, Outcome::BlackWin);
    assert_eq!(result.termination, Termination::Forfeit(Failure::NoMove));
}

#[test]
fn other_failures_forfeit_and_cancellation_aborts() {
    let p = play(&start_position(), mv(12, 28, MoveKind::DoublePawnPush));
    let legal = vec![mv(52, 36, MoveKind::DoublePawnPush)];
    let cases = [
        (Reply::Timeout, Termination::Forfeit(Failure::Timeout)),
        (Reply::Io, Termination::Forfeit(Failure::Io)),
        (Reply::BestMove(BestMove::Missing), Termination::Forfeit(Failure::Protocol)),
    ];
    for (reply, why) in cases {
        let mut game = new_game();
        let r = game.on_reply(&p, &legal, reply).err().unwrap();
        assert_eq!(r.outcome, Outcome::WhiteWin);
        assert_eq!(r.termination, why);
    }
    let mut game = new_game();
    let r = game.on_reply(&p, &legal, Reply::Cancelled).err().unwrap();
    assert_eq!(r.outcome, Outcome::Aborted(Color::Black, chess_arena::game::AbortReason::Cancelled));
    assert_eq!(r.winner(), "");
}

#[test]
fn knight_shuffles_draw_by_repetition() {
    let mut game = new_game();
    let shuffle = [
        ("g1f3", mv(6, 21, MoveKind::Normal)),
        ("g8f6", mv(62, 45, MoveKind::Normal)),
        ("f3g1", mv(21, 6, MoveKind::Normal)),
        ("f6g8", mv(45, 62, MoveKind::Normal)),
    ];
    let mut p = start_position();
    let mut plies = 0;
    let result = loop {
        let (token, m) = shuffle[plies % 4];
        let legal = vec![m, mv(1, 18, MoveKind::Normal), mv(57, 42, MoveKind::Normal)];
        if let Some(r) = game.adjudicate(&p, &legal, false) {
            break r;
        }
        let played = game.on_reply(&p, &legal, best(token)).ok().unwrap();
        p = play(&p, played);
        plies += 1;
        assert!(plies <= 24);
    };
    assert_eq!(result.outcome, Outcome::Draw);
    assert_eq!(result.termination, Termination::Repetition);
    assert_eq!(plies, 8);
    assert_eq!(result.moves_list.len(), 8);
    assert_eq!(result.moves_list[4], "g1f3");
}

#[test]
fn hundred_reversible_plies_draw() {
    let mut game = new_game();
    let mut p = empty_position(Color::White);
    p.piece_at[4] = piece(PieceKind::King, Color::White);
    p.piece_at[60] = piece(PieceKind::King, Color::Black);
    p.piece_at[0] = piece(PieceKind::Rook, Color::White);
    game.halfmove_clock = 99;
    let legal = vec![mv(0, 1, MoveKind::Normal)];
    assert!(game.adjudicate(&p, &legal, false).is_none());
    game.on_reply(&p, &legal, best("a1b1")).ok().unwrap();
    assert_eq!(game.halfmove_clock, 100);
    let q = play(&p, legal[0]);
    let result = game.adjudicate(&q, &vec![mv(60, 59, MoveKind::Normal)], false).unwrap();
    assert_eq!(result.outcome, Outcome::Draw);
    assert_eq!(result.termination, Termination::FiftyMoves);
}

#[test]
fn pawn_move_resets_the_clock() {
    let mut game = new_game();
    game.halfmove_clock = 40;
    let p = start_position();
    let legal = opening_moves();
    game.on_reply(&p, &legal, best("e2e4")).ok().unwrap();
    assert_eq!(game.halfmove_clock, 0);
    let q = play(&p, mv(12, 28, MoveKind::DoublePawnPush));
    game.on_reply(&q, &vec![mv(62, 45, MoveKind::Normal)], best("g8f6")).ok().unwrap();
    assert_eq!(game.halfmove_clock, 1);
}

#[test]
fn bare_kings_and_same_shade_bishops_are_drawn() {
    let mut p = empty_position(Color::White);
    p.piece_at[4] = piece(PieceKind::King, Color::White);
    p.piece_at[60] = piece(PieceKind::King, Color::Black);
    let legal = vec![mv(4, 5, MoveKind::Normal)];
    let r = new_game().adjudicate(&p, &legal, false).unwrap();
    assert_eq!(r.termination, Termination::InsufficientMaterial);

    p.piece_at[2] = piece(PieceKind::Bishop, Color::White);
    p.piece_at[61] = piece(PieceKind::Bishop, Color::Black);
    // c1 and f8 are both dark squares.
    let r = new_game().adjudicate(&p, &legal, false).unwrap();
    assert_eq!(r.outcome, Outcome::Draw);

    p.piece_at[61] = None;
    p.piece_at[58] = piece(PieceKind::Bishop, Color::Black);
    // c8 is light.
    assert!(new_game().adjudicate(&p, &legal, false).is_none());

    p.piece_at[58] = None;
    p.piece_at[2] = piece(PieceKind::Knight, Color::White);
    assert!(new_game().adjudicate(&p, &legal, false).is_some());

    p.piece_at[2] = piece(PieceKind::Rook, Color::White);
    assert!(new_game().adjudicate(&p, &legal, false).is_none());
}

#[test]
fn commands_follow_the_moves() {
    let mut game = new_game();
    let (pos, go) = game.commands();
    assert_eq!(pos, "position startpos");
    assert_eq!(go, "go movetime 50");
    let p = start_position();
    game.on_reply(&p, &opening_moves(), best("e2e4")).ok().unwrap();
    let (pos, _) = game.commands();
    assert_eq!(pos, "position startpos moves e2e4");
}

#[test]
fn promotion_is_read_with_its_piece() {
    let mut p = empty_position(Color::White);
    p.piece_at[4] = piece(PieceKind::King, Color::White);
    p.piece_at[63] = piece(PieceKind::King, Color::Black);
    p.piece_at[52] = piece(PieceKind::Pawn, Color::White);
    let legal: Vec<Move> = [Promotion::Queen, Promotion::Rook, Promotion::Bishop, Promotion::Knight]
        .iter()
        .map(|&pr| Move { from: 52, to: 60, promotion: Some(pr), kind: MoveKind::Promotion })
        .collect();
    let mut game = new_game();
    let m = game.on_reply(&p, &legal, best("e7e8n")).ok().unwrap();
    assert_eq!(m.promotion, Some(Promotion::Knight));
    assert_eq!(game.moves_list, vec!["e7e8n"]);
}

fn always_first_move(white: &Engine, black: &Engine, _tc: TimeControl) -> GameResult {
    GameResult {
        white: white.name.clone(),
        black: black.name.clone(),
        moves_list: vec!["a2a3".to_string()],
        outcome: Outcome::WhiteWin,
        termination: Termination::Checkmate,
    }
}

#[test]
fn colors_alternate_over_four_rounds() {
    let t = Tournament::new(4, Engine::new("a.bin", "One"), Engine::new("b.bin", "Two"), TimeControl::Infinite);
    let r = t.start(always_first_move);
    assert_eq!(r.total_games, 4);
    assert_eq!(r.engine1, "One");
    assert_eq!(r.engine2, "Two");
    let whites: Vec<&str> = r.games_list.iter().map(|g| g.white.as_str()).collect();
    assert_eq!(whites, vec!["One", "Two", "One", "Two"]);
    assert_eq!(r.engine1_won, 2);
    assert_eq!(r.engine2_won, 2);
    assert_eq!(r.engine1_won + r.engine2_won + r.draws + r.aborted, 4);
    assert!(Tournament::engine1_is_white(0));
    assert!(!Tournament::engine1_is_white(3));
}

#[test]
fn aborted_rounds_are_kept_but_not_credited() {
    let t = Tournament::new(3, Engine::new("a.bin", "One"), Engine::new("b.bin", "Two"), TimeControl::Infinite);
    let r = t.start(|w: &Engine, b: &Engine, _tc: TimeControl| GameResult {
        white: w.name.clone(),
        black: b.name.clone(),
        moves_list: Vec::new(),
        outcome: if w.name == "Two" { Outcome::Aborted(Color::White, chess_arena::game::AbortReason::Launch) } else { Outcome::Draw },
        termination: Termination::Aborted,
    });
    assert_eq!(r.games_list.len(), 3);
    assert_eq!(r.total_games, 3);
    assert_eq!(r.aborted, 1);
    assert_eq!(r.draws, 2);
    assert_eq!(r.engine1_won + r.engine2_won, 0);
}

#[test]
fn no_rounds_play_no_games() {
    let t = Tournament::new(-2, Engine::new("a.bin", "One"), Engine::new("b.bin", "Two"), TimeControl::Infinite);
    let r = t.start(always_first_move);
    assert_eq!(r.total_games, 0);
    assert!(r.games_list.is_empty());
}

#[test]
fn result_constructors() {
    let d = TournamentResult::default();
    assert_eq!(d.total_games, 0);
    assert!(d.engine1.is_empty());
    let n = TournamentResult::new("A".to_string(), "B".to_string(), Vec::new(), 1, 2, 3, 6);
    assert_eq!((n.engine1_won, n.engine2_won, n.draws, n.total_games, n.aborted), (1, 2, 3, 6, 0));
    let e = Engine::new("/bin/engine", "E");
    let c = e.fresh_copy();
    assert_eq!(c.path, "/bin/engine");
    assert_eq!(c.name, "E");
    assert!(c.engine_options.is_empty());
}

#[test]
fn cancellation_ends_the_match() {
    let t = Tournament::new(5, Engine::new("a.bin", "One"), Engine::new("b.bin", "Two"), TimeControl::Infinite);
    let played = std::cell::Cell::new(0);
    let r = t.start(|w: &Engine, b: &Engine, _tc: TimeControl| {
        played.set(played.get() + 1);
        let outcome = if played.get() == 2 {
            Outcome::Aborted(Color::Black, chess_arena::game::AbortReason::Cancelled)
        } else {
            Outcome::BlackWin
        };
        GameResult { white: w.name.clone(), black: b.name.clone(), moves_list: Vec::new(), outcome, termination: Termination::Aborted }
    });
    assert_eq!(played.get(), 2);
    assert_eq!(r.total_games, 2);
    assert_eq!(r.engine2_won, 1);
    assert_eq!(r.aborted, 1);
}
