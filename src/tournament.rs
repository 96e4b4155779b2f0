use vstd::prelude::*;
use crate::engine::Engine;
use crate::game::{AbortReason, GameResult, Outcome};
use crate::protocol::TimeControl;

verus! {

/// The games of a match between two engines and how they went.
#[derive(Debug, Clone)]
pub struct TournamentResult {
    pub engine1: String,
    pub engine2: String,
    pub games_list: Vec<GameResult>,
    pub engine1_won: u64,
    pub engine2_won: u64,
    pub draws: u64,
    pub aborted: u64,
    pub total_games: u64,
}

/// The counts (engine1 wins, engine2 wins, draws, aborted) after one more game.
pub open spec fn tally_step(t: (nat, nat, nat, nat), g: GameResult, e1: Seq<char>, e2: Seq<char>) -> (nat, nat, nat, nat) {
    match g.outcome {
        Outcome::Aborted(_, _) => (t.0, t.1, t.2, t.3 + 1),
        Outcome::Draw => (t.0, t.1, t.2 + 1, t.3),
        _ => if g.winner_name() == e1 {
            (t.0 + 1, t.1, t.2, t.3)
        } else if g.winner_name() == e2 {
            (t.0, t.1 + 1, t.2, t.3)
        } else {
            (t.0, t.1, t.2 + 1, t.3)
        },
    }
}

/// The counts over a list of games, credited by the winner's name.
pub open spec fn tally(games: Seq<GameResult>, e1: Seq<char>, e2: Seq<char>) -> (nat, nat, nat, nat)
    decreases games.len(),
{
    if games.len() == 0 {
        (0, 0, 0, 0)
    } else {
        tally_step(tally(games.drop_last(), e1, e2), games.last(), e1, e2)
    }
}

impl TournamentResult {
    /// The counts agree with the games recorded.
    pub open spec fn wf(&self) -> bool {
        let t = tally(self.games_list@, self.engine1@, self.engine2@);
        &&& self.total_games == self.games_list@.len()
        &&& self.engine1_won == t.0
        &&& self.engine2_won == t.1
        &&& self.draws == t.2
        &&& self.aborted == t.3
    }

    /// No names, no games.
    pub fn default() -> (r: TournamentResult)
        ensures
            r.wf(),
            r.engine1@.len() == 0,
            r.engine2@.len() == 0,
            r.games_list@.len() == 0,
            r.total_games == 0,
    {
        TournamentResult {
            engine1: String::new(),
            engine2: String::new(),
            games_list: Vec::new(),
            engine1_won: 0,
            engine2_won: 0,
            draws: 0,
            aborted: 0,
            total_games: 0,
        }
    }

    /// A result with the given fields and no aborted games.
    pub fn new(
        engine1: String,
        engine2: String,
        games_list: Vec<GameResult>,
        engine1_won: u64,
        engine2_won: u64,
        draws: u64,
        total_games: u64,
    ) -> (r: TournamentResult)
        ensures
            r.engine1 == engine1,
            r.engine2 == engine2,
            r.games_list == games_list,
            r.engine1_won == engine1_won,
            r.engine2_won == engine2_won,
            r.draws == draws,
            r.aborted == 0,
            r.total_games == total_games,
    {
        TournamentResult { engine1, engine2, games_list, engine1_won, engine2_won, draws, aborted: 0, total_games }
    }

    /// Appends a game and credits it.
    pub fn record(&mut self, game: GameResult)
        requires
            old(self).wf(),
            old(self).total_games < u64::MAX,
        ensures
            final(self).wf(),
            final(self).engine1 == old(self).engine1,
            final(self).engine2 == old(self).engine2,
            final(self).games_list@ == old(self).games_list@.push(game),
            final(self).total_games == old(self).total_games + 1,
    {
        proof {
            lemma_tally_sum(self.games_list@, self.engine1@, self.engine2@);
        }
        let winner = game.winner();
        match game.outcome {
            Outcome::Aborted(_, _) => {
                self.aborted = self.aborted + 1;
            },
            Outcome::Draw => {
                self.draws = self.draws + 1;
            },
            _ => {
                if winner == self.engine1 {
                    self.engine1_won = self.engine1_won + 1;
                } else if winner == self.engine2 {
                    self.engine2_won = self.engine2_won + 1;
                } else {
                    self.draws = self.draws + 1;
                }
            },
        }
        let ghost before = self.games_list@;
        self.games_list.push(game);
        self.total_games = self.total_games + 1;
        proof {
            assert(self.games_list@.drop_last() =~= before);
        }
    }
}

/// Every game is counted exactly once: wins of either engine, draws and
/// aborted games add up to the number of games.
pub proof fn lemma_tally_sum(games: Seq<GameResult>, e1: Seq<char>, e2: Seq<char>)
    ensures
        ({
            let t = tally(games, e1, e2);
            t.0 + t.1 + t.2 + t.3 == games.len()
        }),
    decreases games.len(),
{
    if games.len() > 0 {
        lemma_tally_sum(games.drop_last(), e1, e2);
    }
}

/// Every well-formed result has as many games as its counts add up to.
pub proof fn lemma_result_counts(r: TournamentResult)
    requires
        r.wf(),
    ensures
        r.engine1_won + r.engine2_won + r.draws + r.aborted == r.total_games,
{
    lemma_tally_sum(r.games_list@, r.engine1@, r.engine2@);
}

/// A match of a number of rounds between two engines.
pub struct Tournament {
    pub rounds: i32,
    pub engine1: Engine,
    pub engine2: Engine,
    pub time_control: TimeControl,
}

/// The game was stopped by the host.
pub open spec fn cancelled(g: GameResult) -> bool {
    g.outcome matches Outcome::Aborted(_, AbortReason::Cancelled)
}

/// Whether the first engine has white in round `i` (counted from 0).
pub open spec fn engine1_white(i: int) -> bool {
    i % 2 == 0
}

impl Tournament {
    pub fn new(rounds: i32, engine1: Engine, engine2: Engine, time_control: TimeControl) -> (r: Tournament)
        ensures
            r.rounds == rounds,
            r.engine1 == engine1,
            r.engine2 == engine2,
            r.time_control == time_control,
    {
        Tournament { rounds, engine1, engine2, time_control }
    }

    /// The number of games a run of this match plays.
    pub open spec fn games(&self) -> nat {
        if self.rounds <= 0 { 0 } else { self.rounds as nat }
    }

    /// Whether the first engine has white in the given round.
    pub fn engine1_is_white(round: i32) -> (r: bool)
        requires
            round >= 0,
        ensures
            r == engine1_white(round as int),
    {
        round % 2 == 0
    }

    /// Plays every round through `play`, which is handed white, black and
    /// the time control and plays one game with fresh engine sessions. The
    /// colors alternate, starting with the first engine as white. A game
    /// cancelled by the host is recorded and ends the match.
    pub fn start<F: Fn(&Engine, &Engine, TimeControl) -> GameResult>(&self, play: F) -> (r: TournamentResult)
        requires
            forall|w: &Engine, b: &Engine, tc: TimeControl| play.requires((w, b, tc)),
        ensures
            r.wf(),
            r.engine1@ == self.engine1.name@,
            r.engine2@ == self.engine2.name@,
            r.games_list@.len() <= self.games(),
            r.games_list@.len() < self.games() ==> r.games_list@.len() > 0 && cancelled(r.games_list@.last()),
            forall|i: int| 0 <= i < r.games_list@.len() - 1 ==> !cancelled(#[trigger] r.games_list@[i]),
            r.engine1_won + r.engine2_won + r.draws + r.aborted == r.total_games,
            forall|i: int|
                0 <= i < r.games_list@.len() ==> if engine1_white(i) {
                    play.ensures((&self.engine1, &self.engine2, self.time_control), #[trigger] r.games_list@[i])
                } else {
                    play.ensures((&self.engine2, &self.engine1, self.time_control), r.games_list@[i])
                },
    {
        let mut result = TournamentResult::default();
        result.engine1 = self.engine1.name.clone();
        result.engine2 = self.engine2.name.clone();
        proof {
            assert(result.games_list@.len() == 0);
        }
        let mut i: i32 = 0;
        let mut stopped = false;
        while i < self.rounds && !stopped
            invariant
                stopped ==> i > 0 && cancelled(result.games_list@.last()),
                forall|k: int| 0 <= k < result.games_list@.len() - 1 ==> !cancelled(#[trigger] result.games_list@[k]),
                !stopped ==> forall|k: int| 0 <= k < result.games_list@.len() ==> !cancelled(#[trigger] result.games_list@[k]),
                forall|w: &Engine, b: &Engine, tc: TimeControl| play.requires((w, b, tc)),
                0 <= i,
                self.rounds > 0 ==> i <= self.rounds,
                self.rounds <= 0 ==> i == 0,
                result.wf(),
                result.total_games == i,
                result.engine1@ == self.engine1.name@,
                result.engine2@ == self.engine2.name@,
                forall|k: int|
                    0 <= k < result.games_list@.len() ==> if engine1_white(k) {
                        play.ensures((&self.engine1, &self.engine2, self.time_control), #[trigger] result.games_list@[k])
                    } else {
                        play.ensures((&self.engine2, &self.engine1, self.time_control), result.games_list@[k])
                    },
            decreases self.rounds - i,
        {
            let game = if Self::engine1_is_white(i) {
                play(&self.engine1, &self.engine2, self.time_control)
            } else {
                play(&self.engine2, &self.engine1, self.time_control)
            };
            stopped = match game.outcome {
                Outcome::Aborted(_, AbortReason::Cancelled) => true,
                _ => false,
            };
            result.record(game);
            i = i + 1;
        }
        proof {
            lemma_result_counts(result);
        }
        result
    }
}

} // verus!
