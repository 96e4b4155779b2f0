use vstd::prelude::*;
use crate::chess::{Move, MoveKind, Position, PositionView, Promotion, kind_in, move_kind, own_piece_at};

verus! {

/// Why a UCI move string was not accepted.
#[derive(Debug, Clone, Copy, PartialEq, Eq, Structural)]
pub enum CodecError {
    /// The text is not of the form `[a-h][1-8][a-h][1-8][qrbn]?`.
    Malformed,
    /// The text names no legal move in the position.
    IllegalMove,
}

pub open spec fn file_index(c: char) -> Option<int> {
    if c == 'a' { Some(0) }
    else if c == 'b' { Some(1) }
    else if c == 'c' { Some(2) }
    else if c == 'd' { Some(3) }
    else if c == 'e' { Some(4) }
    else if c == 'f' { Some(5) }
    else if c == 'g' { Some(6) }
    else if c == 'h' { Some(7) }
    else { None }
}

pub open spec fn rank_index(c: char) -> Option<int> {
    if c == '1' { Some(0) }
    else if c == '2' { Some(1) }
    else if c == '3' { Some(2) }
    else if c == '4' { Some(3) }
    else if c == '5' { Some(4) }
    else if c == '6' { Some(5) }
    else if c == '7' { Some(6) }
    else if c == '8' { Some(7) }
    else { None }
}

pub open spec fn promotion_of(c: char) -> Option<Promotion> {
    if c == 'q' { Some(Promotion::Queen) }
    else if c == 'r' { Some(Promotion::Rook) }
    else if c == 'b' { Some(Promotion::Bishop) }
    else if c == 'n' { Some(Promotion::Knight) }
    else { None }
}

pub open spec fn file_char(f: int) -> char {
    if f == 0 { 'a' }
    else if f == 1 { 'b' }
    else if f == 2 { 'c' }
    else if f == 3 { 'd' }
    else if f == 4 { 'e' }
    else if f == 5 { 'f' }
    else if f == 6 { 'g' }
    else { 'h' }
}

pub open spec fn rank_char(r: int) -> char {
    if r == 0 { '1' }
    else if r == 1 { '2' }
    else if r == 2 { '3' }
    else if r == 3 { '4' }
    else if r == 4 { '5' }
    else if r == 5 { '6' }
    else if r == 6 { '7' }
    else { '8' }
}

pub open spec fn promotion_char(p: Promotion) -> char {
    match p {
        Promotion::Queen => 'q',
        Promotion::Rook => 'r',
        Promotion::Bishop => 'b',
        Promotion::Knight => 'n',
    }
}

/// `s` has the shape `[a-h][1-8][a-h][1-8][qrbn]?`.
pub open spec fn is_uci_text(s: Seq<char>) -> bool {
    &&& s.len() == 4 || s.len() == 5
    &&& file_index(s[0]) is Some
    &&& rank_index(s[1]) is Some
    &&& file_index(s[2]) is Some
    &&& rank_index(s[3]) is Some
    &&& s.len() == 5 ==> promotion_of(s[4]) is Some
}

pub open spec fn uci_from(s: Seq<char>) -> int {
    rank_index(s[1]).unwrap() * 8 + file_index(s[0]).unwrap()
}

pub open spec fn uci_to(s: Seq<char>) -> int {
    rank_index(s[3]).unwrap() * 8 + file_index(s[2]).unwrap()
}

pub open spec fn uci_promotion(s: Seq<char>) -> Option<Promotion> {
    if s.len() == 5 { promotion_of(s[4]) } else { None }
}

/// The long-algebraic text of a move: from, to, and the promotion letter if any.
pub open spec fn uci_text(m: Move) -> Seq<char> {
    let base = seq![
        file_char(m.from as int % 8),
        rank_char(m.from as int / 8),
        file_char(m.to as int % 8),
        rank_char(m.to as int / 8),
    ];
    match m.promotion {
        Some(p) => base.push(promotion_char(p)),
        None => base,
    }
}

/// The move that `s` names in `p`: syntax first, then the piece on the
/// origin square, then membership in the legal moves.
pub open spec fn decode(s: Seq<char>, p: PositionView, legal: Seq<Move>) -> Result<Move, CodecError> {
    if !is_uci_text(s) {
        Err(CodecError::Malformed)
    } else if !own_piece_at(p, uci_from(s)) {
        Err(CodecError::IllegalMove)
    } else {
        let m = Move {
            from: uci_from(s) as u8,
            to: uci_to(s) as u8,
            promotion: uci_promotion(s),
            kind: kind_in(p, uci_from(s), uci_to(s)),
        };
        if legal.contains(m) { Ok(m) } else { Err(CodecError::IllegalMove) }
    }
}

/// A legal move list agrees with the position: every move starts on a piece
/// of the side to move, stays on the board, carries the kind that the
/// position gives it, and a promotion piece exactly when it is a promotion.
pub open spec fn consistent(p: PositionView, legal: Seq<Move>) -> bool {
    forall|i: int| 0 <= i < legal.len() ==> {
        let m = #[trigger] legal[i];
        &&& m.from < 64
        &&& m.to < 64
        &&& own_piece_at(p, m.from as int)
        &&& m.kind == kind_in(p, m.from as int, m.to as int)
        &&& (m.promotion is Some <==> m.kind == MoveKind::Promotion)
    }
}

fn file_index_exec(c: char) -> (r: Option<u8>)
    ensures
        r matches Some(f) ==> file_index(c) == Some(f as int),
        r is None ==> file_index(c) is None,
{
    match c {
        'a' => Some(0),
        'b' => Some(1),
        'c' => Some(2),
        'd' => Some(3),
        'e' => Some(4),
        'f' => Some(5),
        'g' => Some(6),
        'h' => Some(7),
        _ => None,
    }
}

fn rank_index_exec(c: char) -> (r: Option<u8>)
    ensures
        r matches Some(f) ==> rank_index(c) == Some(f as int),
        r is None ==> rank_index(c) is None,
{
    match c {
        '1' => Some(0),
        '2' => Some(1),
        '3' => Some(2),
        '4' => Some(3),
        '5' => Some(4),
        '6' => Some(5),
        '7' => Some(6),
        '8' => Some(7),
        _ => None,
    }
}

fn promotion_exec(c: char) -> (r: Option<Promotion>)
    ensures
        r == promotion_of(c),
{
    match c {
        'q' => Some(Promotion::Queen),
        'r' => Some(Promotion::Rook),
        'b' => Some(Promotion::Bishop),
        'n' => Some(Promotion::Knight),
        _ => None,
    }
}

fn file_char_exec(f: u8) -> (r: char)
    ensures
        r == file_char(f as int),
{
    match f {
        0 => 'a',
        1 => 'b',
        2 => 'c',
        3 => 'd',
        4 => 'e',
        5 => 'f',
        6 => 'g',
        _ => 'h',
    }
}

fn rank_char_exec(r: u8) -> (c: char)
    ensures
        c == rank_char(r as int),
{
    match r {
        0 => '1',
        1 => '2',
        2 => '3',
        3 => '4',
        4 => '5',
        5 => '6',
        6 => '7',
        _ => '8',
    }
}

fn promotion_char_exec(p: Promotion) -> (c: char)
    ensures
        c == promotion_char(p),
{
    match p {
        Promotion::Queen => 'q',
        Promotion::Rook => 'r',
        Promotion::Bishop => 'b',
        Promotion::Knight => 'n',
    }
}

/// Relies on `String::push`: appends one character.
#[verifier::external_body]
pub(crate) fn push_char(s: &mut String, c: char)
    ensures
        final(s)@ == old(s)@.push(c),
{
    s.push(c)
}

/// Whether `m` is one of `legal`.
pub fn contains_move(legal: &Vec<Move>, m: Move) -> (r: bool)
    ensures
        r == legal@.contains(m),
{
    let mut i: usize = 0;
    while i < legal.len()
        invariant
            i <= legal@.len(),
            forall|j: int| 0 <= j < i ==> legal@[j] != m,
        decreases legal@.len() - i,
    {
        if legal[i] == m {
            return true;
        }
        i = i + 1;
    }
    proof {
        if legal@.contains(m) {
            let j = choose|j: int| 0 <= j < legal@.len() && legal@[j] == m;
            assert(legal@[j] != m);
        }
    }
    false
}

impl Move {
    /// Reads a long-algebraic move in `position`, whose legal moves are `legal`.
    pub fn from_uci(s: &str, position: &Position, legal: &Vec<Move>) -> (r: Result<Move, CodecError>)
        requires
            position.wf(),
        ensures
            r == decode(s@, position@, legal@),
    {
        let n = s.unicode_len();
        if n != 4 && n != 5 {
            return Err(CodecError::Malformed);
        }
        let ff = file_index_exec(s.get_char(0));
        let fr = rank_index_exec(s.get_char(1));
        let tf = file_index_exec(s.get_char(2));
        let tr = rank_index_exec(s.get_char(3));
        let promotion = if n == 5 {
            let pr = promotion_exec(s.get_char(4));
            if pr.is_none() {
                return Err(CodecError::Malformed);
            }
            pr
        } else {
            None
        };
        match (ff, fr, tf, tr) {
            (Some(ff), Some(fr), Some(tf), Some(tr)) => {
                let from = fr * 8 + ff;
                let to = tr * 8 + tf;
                match position.piece_at[from as usize] {
                    Some(pc) => {
                        if pc.color != position.turn {
                            return Err(CodecError::IllegalMove);
                        }
                    },
                    None => {
                        return Err(CodecError::IllegalMove);
                    },
                }
                let kind = move_kind(position, from, to);
                let m = Move { from, to, promotion, kind };
                if contains_move(legal, m) {
                    Ok(m)
                } else {
                    Err(CodecError::IllegalMove)
                }
            },
            _ => Err(CodecError::Malformed),
        }
    }

    /// The long-algebraic text of this move.
    pub fn to_uci(&self) -> (r: String)
        requires
            self.from < 64,
            self.to < 64,
        ensures
            r@ == uci_text(*self),
    {
        let mut s = String::new();
        push_char(&mut s, file_char_exec(self.from % 8));
        push_char(&mut s, rank_char_exec(self.from / 8));
        push_char(&mut s, file_char_exec(self.to % 8));
        push_char(&mut s, rank_char_exec(self.to / 8));
        match self.promotion {
            Some(p) => push_char(&mut s, promotion_char_exec(p)),
            None => {},
        }
        proof {
            assert(s@ =~= uci_text(*self));
        }
        s
    }
}

/// Reading back the text of a legal move gives the same move.
pub proof fn lemma_decode_of_text(p: PositionView, legal: Seq<Move>, m: Move)
    requires
        p.piece_at.len() == 64,
        consistent(p, legal),
        legal.contains(m),
    ensures
        decode(uci_text(m), p, legal) == Ok::<Move, CodecError>(m),
{
    let j = choose|j: int| 0 <= j < legal.len() && legal[j] == m;
    assert(legal[j] == m);
    let s = uci_text(m);
    let f = m.from as int;
    let t = m.to as int;
    assert(0 <= f % 8 < 8 && 0 <= f / 8 < 8);
    assert(0 <= t % 8 < 8 && 0 <= t / 8 < 8);
    assert(file_index(file_char(f % 8)) == Some(f % 8));
    assert(rank_index(rank_char(f / 8)) == Some(f / 8));
    assert(file_index(file_char(t % 8)) == Some(t % 8));
    assert(rank_index(rank_char(t / 8)) == Some(t / 8));
    if let Some(pr) = m.promotion {
        assert(promotion_of(promotion_char(pr)) == Some(pr));
    }
    assert(is_uci_text(s));
    assert(uci_from(s) == f);
    assert(uci_to(s) == t);
    assert(uci_promotion(s) == m.promotion);
}

/// A text that names a legal move is the text of that move.
pub proof fn lemma_text_of_decode(s: Seq<char>, p: PositionView, legal: Seq<Move>)
    requires
        decode(s, p, legal) is Ok,
    ensures
        uci_text(decode(s, p, legal)->Ok_0) == s,
{
    let m = decode(s, p, legal)->Ok_0;
    assert(0 <= uci_from(s) < 64 && 0 <= uci_to(s) < 64);
    assert(file_char(file_index(s[0]).unwrap()) == s[0]);
    assert(rank_char(rank_index(s[1]).unwrap()) == s[1]);
    assert(file_char(file_index(s[2]).unwrap()) == s[2]);
    assert(rank_char(rank_index(s[3]).unwrap()) == s[3]);
    if s.len() == 5 {
        assert(promotion_char(promotion_of(s[4]).unwrap()) == s[4]);
    }
    assert(uci_text(m) =~= s);
}

} // verus!
