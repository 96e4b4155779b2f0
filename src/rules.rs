use vstd::prelude::*;
use crate::chess::{Color, Move, MoveKind, Piece, PieceKind, Position, PositionView, file_of, rank_of};

verus! {

pub open spec fn views(h: Seq<Position>) -> Seq<PositionView> {
    h.map_values(|p: Position| p@)
}

/// How many times `p` stands in `h`.
pub open spec fn occurrences(h: Seq<PositionView>, p: PositionView) -> nat
    decreases h.len(),
{
    if h.len() == 0 {
        0
    } else {
        occurrences(h.drop_last(), p) + if h.last() == p { 1nat } else { 0nat }
    }
}

/// `m` moves a pawn or captures in `p`.
pub open spec fn resets_clock(p: PositionView, m: Move) -> bool {
    (p.piece_at[m.from as int] matches Some(pc) && pc.kind == PieceKind::Pawn)
        || p.piece_at[m.to as int] is Some || m.kind == MoveKind::EnPassant
}

/// The plies since the last pawn move or capture, after `m` is played in `p`.
pub open spec fn clock_after(p: PositionView, m: Move, clock: nat) -> nat {
    if resets_clock(p, m) { 0 } else { clock + 1 }
}

/// The counter after a run of plies, each a position and the move played in it.
pub open spec fn clock_after_plies(plies: Seq<(PositionView, Move)>, clock: nat) -> nat
    decreases plies.len(),
{
    if plies.len() == 0 {
        clock
    } else {
        clock_after(plies.last().0, plies.last().1, clock_after_plies(plies.drop_last(), clock))
    }
}

/// A run of plies that neither move a pawn nor capture adds its length to
/// the counter: a hundred of them after a pawn move or a capture bring it to
/// the hundred at which the game is drawn.
pub proof fn lemma_reversible_plies(plies: Seq<(PositionView, Move)>, clock: nat)
    requires
        forall|i: int| 0 <= i < plies.len() ==> !resets_clock(#[trigger] plies[i].0, plies[i].1),
    ensures
        clock_after_plies(plies, clock) == clock + plies.len(),
    decreases plies.len(),
{
    if plies.len() > 0 {
        let last = plies.len() - 1;
        assert(!resets_clock(plies[last].0, plies[last].1));
        lemma_reversible_plies(plies.drop_last(), clock);
    }
}

pub open spec fn is_minor(k: PieceKind) -> bool {
    k == PieceKind::Knight || k == PieceKind::Bishop
}

pub open spec fn minor_piece(x: Option<Piece>) -> bool {
    x matches Some(pc) && is_minor(pc.kind)
}

pub open spec fn non_king(x: Option<Piece>) -> bool {
    x matches Some(pc) && pc.kind != PieceKind::King
}

/// The pieces other than kings.
pub open spec fn non_king_count(s: Seq<Option<Piece>>) -> nat
    decreases s.len(),
{
    if s.len() == 0 {
        0
    } else {
        non_king_count(s.drop_last()) + if non_king(s.last()) { 1nat } else { 0nat }
    }
}

pub open spec fn square_shade(sq: int) -> int {
    (file_of(sq) + rank_of(sq)) % 2
}

pub open spec fn bishop_of(x: Option<Piece>, c: Color) -> bool {
    x matches Some(pc) && pc.kind == PieceKind::Bishop && pc.color == c
}

/// Neither side can mate: bare kings, a single minor piece, or one bishop
/// each on squares of the same shade.
pub open spec fn insufficient_material(s: Seq<Option<Piece>>) -> bool {
    ||| non_king_count(s) == 0
    ||| non_king_count(s) == 1 && exists|i: int|
        0 <= i < s.len() && minor_piece(#[trigger] s[i])
    ||| non_king_count(s) == 2 && exists|i: int, j: int|
        0 <= i < s.len() && 0 <= j < s.len() && bishop_of(#[trigger] s[i], Color::White)
            && bishop_of(#[trigger] s[j], Color::Black) && square_shade(i)
            == square_shade(j)
}

/// Whether two positions agree on placement, side to move, castling rights
/// and en-passant square.
pub fn same_position(a: &Position, b: &Position) -> (r: bool)
    requires
        a.wf(),
        b.wf(),
    ensures
        r == (a@ == b@),
{
    if a.turn != b.turn || a.castling != b.castling || a.en_passant != b.en_passant {
        return false;
    }
    let mut i: usize = 0;
    while i < 64
        invariant
            a.wf(),
            b.wf(),
            i <= 64,
            forall|j: int| 0 <= j < i ==> a.piece_at@[j] == b.piece_at@[j],
        decreases 64 - i,
    {
        if a.piece_at[i] != b.piece_at[i] {
            return false;
        }
        i = i + 1;
    }
    assert(a.piece_at@ =~= b.piece_at@);
    true
}

/// A copy of `p` that is equal to it.
pub fn copy_position(p: &Position) -> (r: Position)
    ensures
        r@ == p@,
{
    let mut squares: Vec<Option<Piece>> = Vec::new();
    let mut i: usize = 0;
    while i < p.piece_at.len()
        invariant
            i <= p.piece_at@.len(),
            squares@ == p.piece_at@.take(i as int),
        decreases p.piece_at@.len() - i,
    {
        squares.push(p.piece_at[i]);
        i = i + 1;
        assert(squares@ =~= p.piece_at@.take(i as int));
    }
    assert(p.piece_at@.take(i as int) =~= p.piece_at@);
    Position { piece_at: squares, turn: p.turn, castling: p.castling, en_passant: p.en_passant }
}

/// How many positions of `history` equal `p`.
pub fn count_occurrences(history: &Vec<Position>, p: &Position) -> (r: u64)
    requires
        p.wf(),
        forall|k: int| 0 <= k < history@.len() ==> (#[trigger] history@[k]).wf(),
    ensures
        r == occurrences(views(history@), p@),
{
    let mut n: u64 = 0;
    let mut i: usize = 0;
    while i < history.len()
        invariant
            p.wf(),
            forall|k: int| 0 <= k < history@.len() ==> (#[trigger] history@[k]).wf(),
            i <= history@.len(),
            n == occurrences(views(history@).take(i as int), p@),
            n <= i,
        decreases history@.len() - i,
    {
        let ghost hs = views(history@);
        assert(hs.take(i + 1).drop_last() =~= hs.take(i as int));
        if same_position(&history[i], p) {
            n = n + 1;
        }
        i = i + 1;
    }
    assert(views(history@).take(i as int) =~= views(history@));
    n
}

/// The fifty-move counter after `m` is played in `p`; it stops at its
/// largest value.
pub fn next_halfmove_clock(p: &Position, m: Move, clock: u32) -> (r: u32)
    requires
        p.wf(),
        m.from < 64,
        m.to < 64,
    ensures
        clock < u32::MAX ==> r == clock_after(p@, m, clock as nat),
        clock == u32::MAX ==> r == 0 || r == u32::MAX,
        r == 0 <==> clock_after(p@, m, clock as nat) == 0,
{
    let pawn = match p.piece_at[m.from as usize] {
        Some(pc) => pc.kind == PieceKind::Pawn,
        None => false,
    };
    if pawn || p.piece_at[m.to as usize].is_some() || m.kind == MoveKind::EnPassant {
        0
    } else if clock < u32::MAX {
        clock + 1
    } else {
        clock
    }
}

fn is_minor_exec(k: PieceKind) -> (r: bool)
    ensures
        r == is_minor(k),
{
    k == PieceKind::Knight || k == PieceKind::Bishop
}

fn shade(sq: usize) -> (r: usize)
    ensures
        r == square_shade(sq as int),
{
    (sq % 8 + sq / 8) % 2
}

/// Whether `p` holds too little material for either side to mate.
pub fn has_insufficient_material(p: &Position) -> (r: bool)
    requires
        p.wf(),
    ensures
        r == insufficient_material(p.piece_at@),
{
    let ghost s = p.piece_at@;
    let mut count: usize = 0;
    let mut first: usize = 64;
    let mut second: usize = 64;
    let mut i: usize = 0;
    while i < 64
        invariant
            p.wf(),
            s == p.piece_at@,
            i <= 64,
            count == non_king_count(s.take(i as int)),
            count <= i,
            count >= 1 ==> first < i && non_king(s[first as int]),
            count >= 2 ==> second < i && non_king(s[second as int]) && first != second,
            forall|j: int|
                0 <= j < i && non_king(#[trigger] s[j]) ==> (count >= 1 && j == first) || (count
                    >= 2 && j == second) || count >= 3,
        decreases 64 - i,
    {
        assert(s.take(i + 1).drop_last() =~= s.take(i as int));
        let nk = match p.piece_at[i] {
            Some(pc) => pc.kind != PieceKind::King,
            None => false,
        };
        if nk {
            if count == 0 {
                first = i;
            } else if count == 1 {
                second = i;
            }
            count = count + 1;
        }
        i = i + 1;
    }
    assert(s.take(64) =~= s);
    if count == 0 {
        true
    } else if count == 1 {
        let r = match p.piece_at[first] {
            Some(pc) => is_minor_exec(pc.kind),
            None => false,
        };
        proof {
            if !r {
                assert forall|k: int| 0 <= k < s.len() implies !minor_piece(#[trigger] s[k]) by {
                    if minor_piece(s[k]) {
                        assert(non_king(s[k]));
                    }
                }
            }
        }
        r
    } else if count == 2 {
        let (a, b) = match (p.piece_at[first], p.piece_at[second]) {
            (Some(x), Some(y)) => (x, y),
            _ => {
                return false;
            },
        };
        let white_first = a.kind == PieceKind::Bishop && b.kind == PieceKind::Bishop && a.color
            != b.color && a.color == Color::White;
        let black_first = a.kind == PieceKind::Bishop && b.kind == PieceKind::Bishop && a.color
            != b.color && a.color == Color::Black;
        let r = (white_first || black_first) && shade(first) == shade(second);
        proof {
            if r {
                if white_first {
                    assert(bishop_of(s[first as int], Color::White));
                    assert(bishop_of(s[second as int], Color::Black));
                } else {
                    assert(bishop_of(s[second as int], Color::White));
                    assert(bishop_of(s[first as int], Color::Black));
                }
            } else {
                assert forall|x: int, y: int|
                    0 <= x < s.len() && 0 <= y < s.len() implies !(bishop_of(
                    #[trigger] s[x],
                    Color::White,
                ) && bishop_of(#[trigger] s[y], Color::Black) && square_shade(x)
                    == square_shade(y)) by {
                    if bishop_of(s[x], Color::White) && bishop_of(
                        s[y],
                        Color::Black,
                    ) {
                        assert(non_king(s[x]));
                        assert(non_king(s[y]));
                    }
                }
            }
        }
        r
    } else {
        false
    }
}

} // verus!
