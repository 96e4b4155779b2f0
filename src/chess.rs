use vstd::prelude::*;

verus! {

/// The two sides of a game.
#[derive(Debug, Clone, Copy, PartialEq, Eq, Structural)]
pub enum Color {
    White,
    Black,
}

impl Color {
    pub open spec fn opposite(self) -> Color {
        match self {
            Color::White => Color::Black,
            Color::Black => Color::White,
        }
    }

    /// The other side.
    pub fn other(self) -> (r: Color)
        ensures
            r == self.opposite(),
    {
        match self {
            Color::White => Color::Black,
            Color::Black => Color::White,
        }
    }
}

#[derive(Debug, Clone, Copy, PartialEq, Eq, Structural)]
pub enum PieceKind {
    Pawn,
    Knight,
    Bishop,
    Rook,
    Queen,
    King,
}

/// A piece of a given color standing on a square.
#[derive(Debug, Clone, Copy, PartialEq, Eq, Structural)]
pub struct Piece {
    pub kind: PieceKind,
    pub color: Color,
}

/// The piece a pawn turns into on the last rank.
#[derive(Debug, Clone, Copy, PartialEq, Eq, Structural)]
pub enum Promotion {
    Queen,
    Rook,
    Bishop,
    Knight,
}

#[derive(Debug, Clone, Copy, PartialEq, Eq, Structural)]
pub enum MoveKind {
    Normal,
    DoublePawnPush,
    EnPassant,
    Castling,
    Promotion,
}

/// A move between two squares (0..64, `rank * 8 + file`).
#[derive(Debug, Clone, Copy, PartialEq, Eq, Structural)]
pub struct Move {
    pub from: u8,
    pub to: u8,
    pub promotion: Option<Promotion>,
    pub kind: MoveKind,
}

/// What the arbiter reads of a board: the piece on each of the 64 squares,
/// the side to move, the castling rights (one bit each) and the en-passant
/// target square.
#[derive(Debug, Clone)]
pub struct Position {
    pub piece_at: Vec<Option<Piece>>,
    pub turn: Color,
    pub castling: u8,
    pub en_passant: Option<u8>,
}

pub struct PositionView {
    pub piece_at: Seq<Option<Piece>>,
    pub turn: Color,
    pub castling: u8,
    pub en_passant: Option<u8>,
}

impl View for Position {
    type V = PositionView;

    open spec fn view(&self) -> PositionView {
        PositionView {
            piece_at: self.piece_at@,
            turn: self.turn,
            castling: self.castling,
            en_passant: self.en_passant,
        }
    }
}

pub open spec fn file_of(sq: int) -> int {
    sq % 8
}

pub open spec fn rank_of(sq: int) -> int {
    sq / 8
}

impl Position {
    pub open spec fn wf(&self) -> bool {
        &&& self.piece_at@.len() == 64
        &&& self.en_passant matches Some(e) ==> e < 64
    }

    /// The rank on which a pawn of the side to move promotes.
    pub open spec fn last_rank(&self) -> int {
        match self.turn {
            Color::White => 7,
            Color::Black => 0,
        }
    }
}

/// The kind of the move from `from` to `to` in `p`, judged from the piece
/// that stands on `from`.
pub open spec fn kind_in(p: PositionView, from: int, to: int) -> MoveKind {
    let fd = file_of(to) - file_of(from);
    let rd = rank_of(to) - rank_of(from);
    match p.piece_at[from] {
        Some(pc) => if pc.kind == PieceKind::Pawn {
            if rank_of(to) == 0 || rank_of(to) == 7 {
                MoveKind::Promotion
            } else if rd == 2 || rd == -2 {
                MoveKind::DoublePawnPush
            } else if fd != 0 && p.piece_at[to] is None && p.en_passant == Some(to as u8) {
                MoveKind::EnPassant
            } else {
                MoveKind::Normal
            }
        } else if pc.kind == PieceKind::King && (fd == 2 || fd == -2) {
            MoveKind::Castling
        } else {
            MoveKind::Normal
        },
        None => MoveKind::Normal,
    }
}

/// Whether the side to move has a piece on `from`.
pub open spec fn own_piece_at(p: PositionView, from: int) -> bool {
    p.piece_at[from] matches Some(pc) && pc.color == p.turn
}

/// Computes `kind_in` for a well-formed position.
pub fn move_kind(p: &Position, from: u8, to: u8) -> (r: MoveKind)
    requires
        p.wf(),
        from < 64,
        to < 64,
    ensures
        r == kind_in(p@, from as int, to as int),
{
    let ff = (from % 8) as i32;
    let tf = (to % 8) as i32;
    let fr = (from / 8) as i32;
    let tr = (to / 8) as i32;
    let fd = tf - ff;
    let rd = tr - fr;
    match p.piece_at[from as usize] {
        Some(pc) => {
            if pc.kind == PieceKind::Pawn {
                if tr == 0 || tr == 7 {
                    MoveKind::Promotion
                } else if rd == 2 || rd == -2 {
                    MoveKind::DoublePawnPush
                } else if fd != 0 && p.piece_at[to as usize].is_none() && p.en_passant == Some(to) {
                    MoveKind::EnPassant
                } else {
                    MoveKind::Normal
                }
            } else if pc.kind == PieceKind::King && (fd == 2 || fd == -2) {
                MoveKind::Castling
            } else {
                MoveKind::Normal
            }
        },
        None => MoveKind::Normal,
    }
}

} // verus!
