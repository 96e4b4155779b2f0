use vstd::prelude::*;
use crate::chess::{Color, Move, Position, PositionView};
use crate::engine::Engine;
use crate::protocol::{BestMove, TimeControl, go_command, go_text, position_command, position_text, texts};
use crate::rules::{
    clock_after, copy_position, count_occurrences, has_insufficient_material, insufficient_material,
    next_halfmove_clock, occurrences, views,
};
use crate::uci::{decode, uci_text};

verus! {

/// Why an engine lost by forfeit.
#[derive(Debug, Clone, Copy, PartialEq, Eq, Structural)]
pub enum Failure {
    /// Its output ended before `bestmove`.
    Crashed,
    /// It overran the move deadline.
    Timeout,
    /// It named a move that is malformed or not legal.
    IllegalMove,
    /// It answered `bestmove (none)` or `bestmove 0000` with legal moves left.
    NoMove,
    /// It answered `bestmove` without a move.
    Protocol,
    /// Reading from or writing to it failed.
    Io,
}

/// Why a game was stopped without a result.
#[derive(Debug, Clone, Copy, PartialEq, Eq, Structural)]
pub enum AbortReason {
    Launch,
    Handshake,
    Io,
    Cancelled,
}

#[derive(Debug, Clone, Copy, PartialEq, Eq, Structural)]
pub enum Outcome {
    WhiteWin,
    BlackWin,
    Draw,
    Aborted(Color, AbortReason),
}

/// How the game came to its end.
#[derive(Debug, Clone, Copy, PartialEq, Eq, Structural)]
pub enum Termination {
    Checkmate,
    Stalemate,
    Repetition,
    FiftyMoves,
    InsufficientMaterial,
    Forfeit(Failure),
    Aborted,
}

/// What an engine session delivered after `go`.
#[derive(Debug, Clone, PartialEq, Eq)]
pub enum Reply {
    BestMove(BestMove),
    /// The engine's output ended.
    Eof,
    /// The deadline passed.
    Timeout,
    /// Reading or writing failed.
    Io,
    /// The host asked to stop.
    Cancelled,
}

#[derive(Debug, Clone)]
pub struct GameResult {
    pub white: String,
    pub black: String,
    pub moves_list: Vec<String>,
    pub outcome: Outcome,
    pub termination: Termination,
}

pub open spec fn win_for(c: Color) -> Outcome {
    match c {
        Color::White => Outcome::WhiteWin,
        Color::Black => Outcome::BlackWin,
    }
}

impl GameResult {
    pub open spec fn winner_name(&self) -> Seq<char> {
        match self.outcome {
            Outcome::WhiteWin => self.white@,
            Outcome::BlackWin => self.black@,
            _ => Seq::empty(),
        }
    }

    /// The name of the engine that won; empty for a draw or an aborted game.
    pub fn winner(&self) -> (r: String)
        ensures
            r@ == self.winner_name(),
    {
        match self.outcome {
            Outcome::WhiteWin => self.white.clone(),
            Outcome::BlackWin => self.black.clone(),
            _ => String::new(),
        }
    }
}

/// The outcome when the side to move has no legal move.
pub open spec fn no_move_outcome(turn: Color, in_check: bool) -> Outcome {
    if in_check { win_for(turn.opposite()) } else { Outcome::Draw }
}

/// The end that the arbiter declares in a position, if any: mate or
/// stalemate first, then the fifty-move rule, repetition and material.
pub open spec fn verdict(
    p: PositionView,
    legal_count: nat,
    in_check: bool,
    clock: nat,
    seen: nat,
    history_material: bool,
) -> Option<(Outcome, Termination)> {
    if legal_count == 0 {
        Some((no_move_outcome(p.turn, in_check), if in_check { Termination::Checkmate } else { Termination::Stalemate }))
    } else if clock >= 100 {
        Some((Outcome::Draw, Termination::FiftyMoves))
    } else if seen >= 3 {
        Some((Outcome::Draw, Termination::Repetition))
    } else if history_material {
        Some((Outcome::Draw, Termination::InsufficientMaterial))
    } else {
        None
    }
}

/// What a reply costs the side to move, if it is not a move.
pub open spec fn reply_end(turn: Color, reply: Reply) -> (Outcome, Termination) {
    match reply {
        Reply::BestMove(BestMove::NoMove) => (win_for(turn.opposite()), Termination::Forfeit(Failure::NoMove)),
        Reply::BestMove(BestMove::Missing) => (win_for(turn.opposite()), Termination::Forfeit(Failure::Protocol)),
        Reply::BestMove(BestMove::Move(_)) => (win_for(turn.opposite()), Termination::Forfeit(Failure::IllegalMove)),
        Reply::Eof => (win_for(turn.opposite()), Termination::Forfeit(Failure::Crashed)),
        Reply::Timeout => (win_for(turn.opposite()), Termination::Forfeit(Failure::Timeout)),
        Reply::Io => (win_for(turn.opposite()), Termination::Forfeit(Failure::Io)),
        Reply::Cancelled => (Outcome::Aborted(turn, AbortReason::Cancelled), Termination::Aborted),
    }
}

/// One game between two engines, as the arbiter sees it: the moves played,
/// the positions met, and the plies since the last pawn move or capture.
pub struct Game {
    pub white: Engine,
    pub black: Engine,
    pub moves_list: Vec<String>,
    pub time_control: TimeControl,
    pub history: Vec<Position>,
    pub halfmove_clock: u32,
}

impl Game {
    pub open spec fn wf(&self) -> bool {
        forall|k: int| 0 <= k < self.history@.len() ==> (#[trigger] self.history@[k]).wf()
    }

    /// The result of this game with the given end.
    pub open spec fn ends_with(&self, r: GameResult, outcome: Outcome, termination: Termination) -> bool {
        &&& r.white@ == self.white.name@
        &&& r.black@ == self.black.name@
        &&& r.moves_list@ == self.moves_list@
        &&& r.outcome == outcome
        &&& r.termination == termination
    }

    /// A game at the opening position, with nothing played yet.
    pub fn new(white: Engine, black: Engine, time_control: TimeControl) -> (r: Game)
        ensures
            r.wf(),
            r.white == white,
            r.black == black,
            r.time_control == time_control,
            r.moves_list@.len() == 0,
            r.history@.len() == 0,
            r.halfmove_clock == 0,
    {
        Game { white, black, moves_list: Vec::new(), time_control, history: Vec::new(), halfmove_clock: 0 }
    }

    fn finish(&self, outcome: Outcome, termination: Termination) -> (r: GameResult)
        ensures
            self.ends_with(r, outcome, termination),
    {
        let mut moves: Vec<String> = Vec::new();
        let mut i: usize = 0;
        while i < self.moves_list.len()
            invariant
                i <= self.moves_list@.len(),
                moves@ == self.moves_list@.take(i as int),
            decreases self.moves_list@.len() - i,
        {
            moves.push(self.moves_list[i].clone());
            i = i + 1;
            assert(moves@ =~= self.moves_list@.take(i as int));
        }
        assert(self.moves_list@.take(i as int) =~= self.moves_list@);
        GameResult {
            white: self.white.name.clone(),
            black: self.black.name.clone(),
            moves_list: moves,
            outcome,
            termination,
        }
    }

    /// Records `position` as met and judges it before the side to move is
    /// asked; `legal` are its legal moves and `in_check` whether the side to
    /// move is in check.
    pub fn adjudicate(&mut self, position: &Position, legal: &Vec<Move>, in_check: bool) -> (r: Option<GameResult>)
        requires
            old(self).wf(),
            position.wf(),
        ensures
            final(self).wf(),
            views(final(self).history@) == views(old(self).history@).push(position@),
            final(self).moves_list == old(self).moves_list,
            final(self).white == old(self).white,
            final(self).black == old(self).black,
            final(self).halfmove_clock == old(self).halfmove_clock,
            final(self).time_control == old(self).time_control,
            match verdict(
                position@,
                legal@.len(),
                in_check,
                old(self).halfmove_clock as nat,
                occurrences(views(final(self).history@), position@),
                insufficient_material(position.piece_at@),
            ) {
                Some((o, t)) => r matches Some(g) && final(self).ends_with(g, o, t),
                None => r is None,
            },
    {
        let copy = copy_position(position);
        self.history.push(copy);
        proof {
            assert(views(self.history@) =~= views(old(self).history@).push(position@));
        }
        if legal.len() == 0 {
            if in_check {
                let winner = position.turn.other();
                let o = match winner {
                    Color::White => Outcome::WhiteWin,
                    Color::Black => Outcome::BlackWin,
                };
                return Some(self.finish(o, Termination::Checkmate));
            } else {
                return Some(self.finish(Outcome::Draw, Termination::Stalemate));
            }
        }
        if self.halfmove_clock >= 100 {
            return Some(self.finish(Outcome::Draw, Termination::FiftyMoves));
        }
        let seen = count_occurrences(&self.history, position);
        if seen >= 3 {
            return Some(self.finish(Outcome::Draw, Termination::Repetition));
        }
        if has_insufficient_material(position) {
            return Some(self.finish(Outcome::Draw, Termination::InsufficientMaterial));
        }
        None
    }

    /// The `position` and `go` commands for the side to move.
    pub fn commands(&self) -> (r: (String, String))
        ensures
            r.0@ == position_text(texts(self.moves_list@)),
            r.1@ == go_text(self.time_control),
    {
        (position_command(&self.moves_list), go_command(self.time_control))
    }

    /// Takes the reply of the side to move in `position`. A legal move is
    /// appended to the moves played and handed back for the board; anything
    /// else ends the game against that side, or aborts it on cancellation.
    pub fn on_reply(&mut self, position: &Position, legal: &Vec<Move>, reply: Reply) -> (r: Result<Move, GameResult>)
        requires
            old(self).wf(),
            position.wf(),
        ensures
            final(self).wf(),
            final(self).white == old(self).white,
            final(self).black == old(self).black,
            final(self).time_control == old(self).time_control,
            final(self).history == old(self).history,
            match reply {
                Reply::BestMove(BestMove::Move(t)) => match decode(t@, position@, legal@) {
                    Ok(m) => {
                        &&& r == Ok::<Move, GameResult>(m)
                        &&& legal@.contains(m)
                        &&& texts(final(self).moves_list@) == texts(old(self).moves_list@).push(uci_text(m))
                        &&& uci_text(m) == t@
                        &&& (old(self).halfmove_clock < u32::MAX ==> final(self).halfmove_clock
                            == clock_after(position@, m, old(self).halfmove_clock as nat))
                    },
                    Err(_) => r matches Err(g) && final(self).moves_list == old(self).moves_list
                        && old(self).ends_with(g, reply_end(position.turn, reply).0, reply_end(position.turn, reply).1),
                },
                _ => r matches Err(g) && final(self).moves_list == old(self).moves_list
                    && old(self).ends_with(g, reply_end(position.turn, reply).0, reply_end(position.turn, reply).1),
            },
    {
        let loser = position.turn;
        let (outcome, termination) = match &reply {
            Reply::BestMove(BestMove::Move(t)) => {
                match Move::from_uci(t.as_str(), position, legal) {
                    Ok(m) => {
                        proof {
                            crate::uci::lemma_text_of_decode(t@, position@, legal@);
                        }
                        let text = m.to_uci();
                        self.moves_list.push(text);
                        self.halfmove_clock = next_halfmove_clock(position, m, self.halfmove_clock);
                        proof {
                            assert(texts(self.moves_list@) =~= texts(old(self).moves_list@).push(uci_text(m)));
                        }
                        return Ok(m);
                    },
                    Err(_) => (loser.other(), Termination::Forfeit(Failure::IllegalMove)),
                }
            },
            Reply::BestMove(BestMove::NoMove) => (loser.other(), Termination::Forfeit(Failure::NoMove)),
            Reply::BestMove(BestMove::Missing) => (loser.other(), Termination::Forfeit(Failure::Protocol)),
            Reply::Eof => (loser.other(), Termination::Forfeit(Failure::Crashed)),
            Reply::Timeout => (loser.other(), Termination::Forfeit(Failure::Timeout)),
            Reply::Io => (loser.other(), Termination::Forfeit(Failure::Io)),
            Reply::Cancelled => {
                return Err(self.finish(Outcome::Aborted(loser, AbortReason::Cancelled), Termination::Aborted));
            },
        };
        let o = match outcome {
            Color::White => Outcome::WhiteWin,
            Color::Black => Outcome::BlackWin,
        };
        Err(self.finish(o, termination))
    }
}

/// With no legal move and the side to move in check, the other side wins
/// at once, whatever the counters say.
pub proof fn lemma_checkmate_wins(p: PositionView, clock: nat, seen: nat, material: bool)
    ensures
        verdict(p, 0, true, clock, seen, material) == Some((win_for(p.turn.opposite()), Termination::Checkmate)),
{
}

/// With no legal move and the side to move not in check, the game is drawn
/// by stalemate.
pub proof fn lemma_stalemate_draws(p: PositionView, clock: nat, seen: nat, material: bool)
    ensures
        verdict(p, 0, false, clock, seen, material) == Some((Outcome::Draw, Termination::Stalemate)),
{
}

/// A hundred plies without a pawn move or capture draw the game when the
/// side to move has a move.
pub proof fn lemma_fifty_moves_draw(p: PositionView, legal_count: nat, in_check: bool, clock: nat, seen: nat, material: bool)
    requires
        legal_count > 0,
        clock >= 100,
    ensures
        verdict(p, legal_count, in_check, clock, seen, material) == Some((Outcome::Draw, Termination::FiftyMoves)),
{
}

/// Meeting a position for the third time draws the game when the side to
/// move has a move and the fifty-move rule has not already ended it.
pub proof fn lemma_threefold_draws(p: PositionView, legal_count: nat, in_check: bool, clock: nat, seen: nat, material: bool)
    requires
        legal_count > 0,
        clock < 100,
        seen >= 3,
    ensures
        verdict(p, legal_count, in_check, clock, seen, material) == Some((Outcome::Draw, Termination::Repetition)),
{
}

/// Every reply other than a move costs the side to move the game, but for
/// a cancellation, which aborts it: a null move and a closed output are
/// forfeits.
pub proof fn lemma_failed_reply_forfeits(turn: Color, reply: Reply)
    requires
        !(reply is Cancelled),
    ensures
        reply_end(turn, reply).0 == win_for(turn.opposite()),
        reply == Reply::BestMove(BestMove::NoMove) ==> reply_end(turn, reply).1 == Termination::Forfeit(Failure::NoMove),
        reply == Reply::Eof ==> reply_end(turn, reply).1 == Termination::Forfeit(Failure::Crashed),
{
}

} // verus!
