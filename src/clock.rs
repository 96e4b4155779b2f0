use vstd::prelude::*;
use crate::chess::Color;
use crate::protocol::{TimeControl, go_command, go_text};

verus! {

/// How far past its limit an engine may answer, in milliseconds.
pub const MOVE_TOLERANCE_MS: u64 = 100;

pub open spec fn sat_add(a: int, b: int) -> int {
    if a + b > u64::MAX { u64::MAX as int } else { a + b }
}

pub open spec fn sat_sub(a: int, b: int) -> int {
    if b >= a { 0 } else { a - b }
}

/// The time each side has left, in milliseconds, under a clock.
#[derive(Debug, Clone, Copy, PartialEq, Eq, Structural)]
pub struct Clocks {
    pub white: u64,
    pub black: u64,
}

impl Clocks {
    pub open spec fn left(&self, side: Color) -> u64 {
        match side {
            Color::White => self.white,
            Color::Black => self.black,
        }
    }

    /// The time control with the clock readings put in.
    pub open spec fn current(&self, tc: TimeControl) -> TimeControl {
        match tc {
            TimeControl::Clock { winc, binc, .. } => TimeControl::Clock { wtime: self.white, btime: self.black, winc, binc },
            _ => tc,
        }
    }

    /// The clocks at the start of a game.
    pub fn new(tc: TimeControl) -> (r: Clocks)
        ensures
            match tc {
                TimeControl::Clock { wtime, btime, .. } => r.white == wtime && r.black == btime,
                _ => r.white == 0 && r.black == 0,
            },
    {
        match tc {
            TimeControl::Clock { wtime, btime, .. } => Clocks { white: wtime, black: btime },
            _ => Clocks { white: 0, black: 0 },
        }
    }

    /// How long `side` may think before it forfeits, tolerance included;
    /// `None` when there is no limit.
    pub fn budget(&self, tc: TimeControl, side: Color) -> (r: Option<u64>)
        ensures
            match tc {
                TimeControl::Infinite => r is None,
                TimeControl::TimePerMove(ms) => r == Some(sat_add(ms as int, MOVE_TOLERANCE_MS as int) as u64),
                TimeControl::Clock { .. } => r == Some(sat_add(self.left(side) as int, MOVE_TOLERANCE_MS as int) as u64),
            },
    {
        let limit = match tc {
            TimeControl::Infinite => {
                return None;
            },
            TimeControl::TimePerMove(ms) => ms,
            TimeControl::Clock { .. } => match side {
                Color::White => self.white,
                Color::Black => self.black,
            },
        };
        if limit > u64::MAX - MOVE_TOLERANCE_MS {
            Some(u64::MAX)
        } else {
            Some(limit + MOVE_TOLERANCE_MS)
        }
    }

    /// Charges `elapsed` milliseconds to `side` once it has moved, then adds
    /// its increment. Only a clock time control runs the clocks.
    pub fn charge(&mut self, tc: TimeControl, side: Color, elapsed: u64)
        ensures
            match tc {
                TimeControl::Clock { winc, binc, .. } => {
                    let inc = match side {
                        Color::White => winc,
                        Color::Black => binc,
                    };
                    let inc_ms = match inc {
                        Some(i) => i as int,
                        None => 0,
                    };
                    &&& final(self).left(side) == sat_add(sat_sub(old(self).left(side) as int, elapsed as int), inc_ms)
                    &&& final(self).left(side.opposite()) == old(self).left(side.opposite())
                },
                _ => *final(self) == *old(self),
            },
    {
        let inc = match tc {
            TimeControl::Clock { winc, binc, .. } => match side {
                Color::White => winc,
                Color::Black => binc,
            },
            _ => {
                return;
            },
        };
        let inc_ms: u64 = match inc {
            Some(i) => i,
            None => 0,
        };
        let left = match side {
            Color::White => self.white,
            Color::Black => self.black,
        };
        let after = if elapsed >= left { 0 } else { left - elapsed };
        let next = if after > u64::MAX - inc_ms { u64::MAX } else { after + inc_ms };
        match side {
            Color::White => self.white = next,
            Color::Black => self.black = next,
        }
    }

    /// The `go` command for the side to move, with the clocks as they stand.
    pub fn go(&self, tc: TimeControl) -> (r: String)
        ensures
            r@ == go_text(self.current(tc)),
    {
        let now = match tc {
            TimeControl::Clock { winc, binc, .. } => TimeControl::Clock { wtime: self.white, btime: self.black, winc, binc },
            _ => tc,
        };
        go_command(now)
    }
}

} // verus!
