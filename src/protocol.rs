use vstd::prelude::*;
use crate::uci::push_char;

verus! {

/// How long an engine may think.
#[derive(Debug, Clone, Copy, PartialEq, Eq, Structural)]
pub enum TimeControl {
    /// `go infinite`.
    Infinite,
    /// `go movetime <ms>`.
    TimePerMove(u64),
    /// `go wtime W btime B [winc I] [binc I]`, all in milliseconds.
    Clock { wtime: u64, btime: u64, winc: Option<u64>, binc: Option<u64> },
}

/// What an engine answered to `go`.
#[derive(Debug, Clone, PartialEq, Eq)]
pub enum BestMove {
    /// A move token, not yet checked against the position.
    Move(String),
    /// `bestmove (none)` or `bestmove 0000`.
    NoMove,
    /// `bestmove` with nothing after it.
    Missing,
}

pub open spec fn digit_char(d: int) -> char {
    if d == 0 { '0' }
    else if d == 1 { '1' }
    else if d == 2 { '2' }
    else if d == 3 { '3' }
    else if d == 4 { '4' }
    else if d == 5 { '5' }
    else if d == 6 { '6' }
    else if d == 7 { '7' }
    else if d == 8 { '8' }
    else { '9' }
}

/// The decimal digits of `n`, most significant first.
pub open spec fn decimal(n: nat) -> Seq<char>
    decreases n,
{
    if n < 10 {
        seq![digit_char(n as int)]
    } else {
        decimal(n / 10).push(digit_char((n % 10) as int))
    }
}

pub open spec fn is_space(c: char) -> bool {
    c == ' ' || c == '\t' || c == '\r' || c == '\n'
}

pub open spec fn bestmove_word() -> Seq<char> {
    seq!['b', 'e', 's', 't', 'm', 'o', 'v', 'e']
}

pub open spec fn null_move_word() -> Seq<char> {
    seq!['0', '0', '0', '0']
}

pub open spec fn none_word() -> Seq<char> {
    seq!['(', 'n', 'o', 'n', 'e', ')']
}

/// The line is a `bestmove` reply: the word, then the end or white space.
pub open spec fn is_bestmove_line(s: Seq<char>) -> bool {
    &&& s.len() >= 8
    &&& s.subrange(0, 8) == bestmove_word()
    &&& (s.len() == 8 || is_space(s[8]))
}

/// The first index at or after `i` that holds no white space.
pub open spec fn skip_spaces(s: Seq<char>, i: int) -> int
    decreases s.len() - i,
{
    if 0 <= i < s.len() && is_space(s[i]) {
        skip_spaces(s, i + 1)
    } else {
        i
    }
}

/// The first index at or after `i` that holds white space, or the end.
pub open spec fn word_end(s: Seq<char>, i: int) -> int
    decreases s.len() - i,
{
    if 0 <= i < s.len() && !is_space(s[i]) {
        word_end(s, i + 1)
    } else {
        i
    }
}

/// The word after `bestmove`.
pub open spec fn bestmove_token(s: Seq<char>) -> Seq<char> {
    s.subrange(skip_spaces(s, 8), word_end(s, skip_spaces(s, 8)))
}

/// The moves, each preceded by one space.
pub open spec fn joined(ms: Seq<Seq<char>>) -> Seq<char>
    decreases ms.len(),
{
    if ms.len() == 0 {
        Seq::empty()
    } else {
        joined(ms.drop_last()) + " "@ + ms.last()
    }
}

/// `position startpos`, followed by the moves played so far.
pub open spec fn position_text(ms: Seq<Seq<char>>) -> Seq<char> {
    if ms.len() == 0 {
        "position startpos"@
    } else {
        "position startpos moves"@ + joined(ms)
    }
}

pub open spec fn go_text(tc: TimeControl) -> Seq<char> {
    match tc {
        TimeControl::Infinite => "go infinite"@,
        TimeControl::TimePerMove(ms) => "go movetime "@ + decimal(ms as nat),
        TimeControl::Clock { wtime, btime, winc, binc } => {
            let base = "go wtime "@ + decimal(wtime as nat) + " btime "@ + decimal(btime as nat);
            let with_w = match winc {
                Some(i) => base + " winc "@ + decimal(i as nat),
                None => base,
            };
            match binc {
                Some(i) => with_w + " binc "@ + decimal(i as nat),
                None => with_w,
            }
        },
    }
}

pub open spec fn texts(v: Seq<String>) -> Seq<Seq<char>> {
    v.map_values(|m: String| m@)
}

fn digit_char_exec(d: u64) -> (c: char)
    requires
        d < 10,
    ensures
        c == digit_char(d as int),
{
    match d {
        0 => '0',
        1 => '1',
        2 => '2',
        3 => '3',
        4 => '4',
        5 => '5',
        6 => '6',
        7 => '7',
        8 => '8',
        _ => '9',
    }
}

/// Appends the decimal digits of `n`.
pub fn push_decimal(s: &mut String, n: u64)
    ensures
        final(s)@ == old(s)@ + decimal(n as nat),
    decreases n,
{
    let ghost start = s@;
    if n >= 10 {
        push_decimal(s, n / 10);
    }
    push_char(s, digit_char_exec(n % 10));
    proof {
        if n >= 10 {
            assert(s@ =~= start + decimal(n as nat));
        } else {
            assert(s@ =~= start + decimal(n as nat));
        }
    }
}

fn is_space_exec(c: char) -> (r: bool)
    ensures
        r == is_space(c),
{
    c == ' ' || c == '\t' || c == '\r' || c == '\n'
}

/// Whether two character strings are equal.
pub(crate) fn same_chars(a: &Vec<char>, b: &Vec<char>) -> (r: bool)
    ensures
        r == (a@ == b@),
{
    if a.len() != b.len() {
        return false;
    }
    let mut i: usize = 0;
    while i < a.len()
        invariant
            a@.len() == b@.len(),
            i <= a@.len(),
            forall|j: int| 0 <= j < i ==> a@[j] == b@[j],
        decreases a@.len() - i,
    {
        if a[i] != b[i] {
            return false;
        }
        i = i + 1;
    }
    assert(a@ =~= b@);
    true
}

/// Reads an engine's line. `None` when it is not a `bestmove` reply;
/// otherwise the token after the word, with the null moves told apart.
pub fn parse_bestmove(line: &str) -> (r: Option<BestMove>)
    ensures
        r is None <==> !is_bestmove_line(line@),
        r == Some(BestMove::Missing) <==> is_bestmove_line(line@) && bestmove_token(line@).len() == 0,
        r == Some(BestMove::NoMove) <==> is_bestmove_line(line@) && (bestmove_token(line@)
            == null_move_word() || bestmove_token(line@) == none_word()),
        r matches Some(BestMove::Move(t)) ==> {
            &&& is_bestmove_line(line@)
            &&& t@ == bestmove_token(line@)
            &&& t@.len() > 0
            &&& t@ != null_move_word()
            &&& t@ != none_word()
        },
{
    let ghost s = line@;
    let n = line.unicode_len();
    if n < 8 {
        return None;
    }
    let word = vec!['b', 'e', 's', 't', 'm', 'o', 'v', 'e'];
    let mut i: usize = 0;
    while i < 8
        invariant
            n == s.len(),
            s == line@,
            n >= 8,
            i <= 8,
            word@ == bestmove_word(),
            forall|j: int| 0 <= j < i ==> s[j] == bestmove_word()[j],
        decreases 8 - i,
    {
        if line.get_char(i) != word[i] {
            assert(s.subrange(0, 8)[i as int] != bestmove_word()[i as int]);
            return None;
        }
        i = i + 1;
    }
    assert(s.subrange(0, 8) =~= bestmove_word());
    if n > 8 && !is_space_exec(line.get_char(8)) {
        return None;
    }
    let mut start: usize = 8;
    while start < n && is_space_exec(line.get_char(start))
        invariant
            n == s.len(),
            s == line@,
            8 <= start <= n,
            skip_spaces(s, 8) == skip_spaces(s, start as int),
        decreases n - start,
    {
        start = start + 1;
    }
    let mut end: usize = start;
    let mut token = String::new();
    let mut chars: Vec<char> = Vec::new();
    while end < n && !is_space_exec(line.get_char(end))
        invariant
            n == s.len(),
            s == line@,
            start <= end <= n,
            start == skip_spaces(s, 8),
            word_end(s, start as int) == word_end(s, end as int),
            token@ == s.subrange(start as int, end as int),
            chars@ == token@,
        decreases n - end,
    {
        let c = line.get_char(end);
        push_char(&mut token, c);
        chars.push(c);
        end = end + 1;
        assert(token@ =~= s.subrange(start as int, end as int));
    }
    assert(token@ == bestmove_token(s));
    if end == start {
        return Some(BestMove::Missing);
    }
    let null_move = vec!['0', '0', '0', '0'];
    let none = vec!['(', 'n', 'o', 'n', 'e', ')'];
    assert(null_move@ =~= null_move_word());
    assert(none@ =~= none_word());
    if same_chars(&chars, &null_move) || same_chars(&chars, &none) {
        Some(BestMove::NoMove)
    } else {
        Some(BestMove::Move(token))
    }
}

/// The `position` command for a game whose moves so far are `moves`.
pub fn position_command(moves: &Vec<String>) -> (r: String)
    ensures
        r@ == position_text(texts(moves@)),
{
    if moves.len() == 0 {
        return String::from_str("position startpos");
    }
    let mut s = String::from_str("position startpos moves");
    let ghost head = s@;
    let mut i: usize = 0;
    while i < moves.len()
        invariant
            i <= moves@.len(),
            head == "position startpos moves"@,
            s@ == head + joined(texts(moves@).take(i as int)),
        decreases moves@.len() - i,
    {
        let ghost before = s@;
        s.append(" ");
        s.append(moves[i].as_str());
        proof {
            let ms = texts(moves@);
            assert(ms.take(i + 1).drop_last() =~= ms.take(i as int));
            assert(ms.take(i + 1).last() == moves@[i as int]@);
            assert(s@ =~= head + joined(ms.take(i + 1)));
        }
        i = i + 1;
    }
    assert(texts(moves@).take(moves@.len() as int) =~= texts(moves@));
    s
}

/// The `go` command for a time control.
pub fn go_command(tc: TimeControl) -> (r: String)
    ensures
        r@ == go_text(tc),
{
    match tc {
        TimeControl::Infinite => String::from_str("go infinite"),
        TimeControl::TimePerMove(ms) => {
            let mut s = String::from_str("go movetime ");
            push_decimal(&mut s, ms);
            s
        },
        TimeControl::Clock { wtime, btime, winc, binc } => {
            let mut s = String::from_str("go wtime ");
            push_decimal(&mut s, wtime);
            s.append(" btime ");
            push_decimal(&mut s, btime);
            match winc {
                Some(i) => {
                    s.append(" winc ");
                    push_decimal(&mut s, i);
                },
                None => {},
            }
            match binc {
                Some(i) => {
                    s.append(" binc ");
                    push_decimal(&mut s, i);
                },
                None => {},
            }
            s
        },
    }
}

} // verus!
