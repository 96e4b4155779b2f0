use vstd::prelude::*;
use crate::engine::EngineOption;
use crate::protocol::{is_space, same_chars};
use crate::uci::push_char;

verus! {

/// The words of `s`: maximal runs of characters that are not white space.
pub open spec fn words(s: Seq<char>) -> Seq<Seq<char>>
    decreases s.len(),
{
    if s.len() == 0 {
        Seq::empty()
    } else {
        let w = words(s.drop_last());
        let c = s.last();
        if is_space(c) {
            w
        } else if s.len() >= 2 && !is_space(s[s.len() - 2]) {
            w.drop_last().push(w.last().push(c))
        } else {
            w.push(seq![c])
        }
    }
}

/// The index of the first word equal to `key`, or the number of words.
pub open spec fn find_word(ws: Seq<Seq<char>>, key: Seq<char>) -> int
    decreases ws.len(),
{
    if ws.len() == 0 {
        0
    } else {
        let k = find_word(ws.drop_last(), key);
        if k < ws.len() - 1 {
            k
        } else if ws.last() == key {
            ws.len() - 1
        } else {
            ws.len() as int
        }
    }
}

/// The word that follows the first `key`.
pub open spec fn value_after(ws: Seq<Seq<char>>, key: Seq<char>) -> Option<Seq<char>> {
    let k = find_word(ws, key);
    if k + 1 < ws.len() { Some(ws[k + 1]) } else { None }
}

pub open spec fn digit_value(c: char) -> int {
    (c as int) - ('0' as int)
}

pub open spec fn is_digit(c: char) -> bool {
    '0' <= c <= '9'
}

/// The number that a string of decimal digits spells.
pub open spec fn digits_value(s: Seq<char>) -> int
    decreases s.len(),
{
    if s.len() == 0 {
        0
    } else {
        digits_value(s.drop_last()) * 10 + digit_value(s.last())
    }
}

/// The text after a leading sign, if any.
pub open spec fn unsigned_part(s: Seq<char>) -> Seq<char> {
    if s.len() > 0 && (s[0] == '-' || s[0] == '+') { s.drop_first() } else { s }
}

pub open spec fn all_digits(d: Seq<char>) -> bool {
    forall|i: int| 0 <= i < d.len() ==> is_digit(#[trigger] d[i])
}

/// An `i32` written in decimal with an optional sign, as Rust reads it.
pub open spec fn int_text(s: Seq<char>) -> Option<i32> {
    let neg = s.len() > 0 && s[0] == '-';
    let digits = unsigned_part(s);
    let v = if neg { -digits_value(digits) } else { digits_value(digits) };
    if digits.len() > 0 && all_digits(digits) && i32::MIN <= v <= i32::MAX {
        Some(v as i32)
    } else {
        None
    }
}

/// `true` or `false`, as Rust reads a `bool`.
pub open spec fn bool_text(s: Seq<char>) -> Option<bool> {
    if s == seq!['t', 'r', 'u', 'e'] {
        Some(true)
    } else if s == seq!['f', 'a', 'l', 's', 'e'] {
        Some(false)
    } else {
        None
    }
}

pub open spec fn option_word() -> Seq<char> { seq!['o', 'p', 't', 'i', 'o', 'n'] }
pub open spec fn name_word() -> Seq<char> { seq!['n', 'a', 'm', 'e'] }
pub open spec fn type_word() -> Seq<char> { seq!['t', 'y', 'p', 'e'] }
pub open spec fn default_word() -> Seq<char> { seq!['d', 'e', 'f', 'a', 'u', 'l', 't'] }
pub open spec fn min_word() -> Seq<char> { seq!['m', 'i', 'n'] }
pub open spec fn max_word() -> Seq<char> { seq!['m', 'a', 'x'] }
pub open spec fn check_word() -> Seq<char> { seq!['c', 'h', 'e', 'c', 'k'] }
pub open spec fn spin_word() -> Seq<char> { seq!['s', 'p', 'i', 'n'] }

/// A bound of a `spin` option: absent, or present and a number.
pub open spec fn bound_ok(ws: Seq<Seq<char>>, key: Seq<char>, b: Option<i32>) -> bool {
    match value_after(ws, key) {
        None => b is None,
        Some(t) => int_text(t) is Some && b == int_text(t),
    }
}

/// What an `option` line announces, when it can be read: its name, type
/// and default are present, the type is `check` or `spin`, and the values
/// parse.
pub open spec fn option_of(ws: Seq<Seq<char>>, o: EngineOption) -> bool {
    &&& ws.len() > 0 && ws[0] == option_word()
    &&& value_after(ws, name_word()) is Some
    &&& value_after(ws, default_word()) is Some
    &&& match o {
        EngineOption::Check { name, value } => {
            &&& value_after(ws, type_word()) == Some(check_word())
            &&& name@ == value_after(ws, name_word())->Some_0
            &&& bool_text(value_after(ws, default_word())->Some_0) == Some(value)
        },
        EngineOption::Spin { name, value, min, max } => {
            &&& value_after(ws, type_word()) == Some(spin_word())
            &&& name@ == value_after(ws, name_word())->Some_0
            &&& int_text(value_after(ws, default_word())->Some_0) == Some(value)
            &&& bound_ok(ws, min_word(), min)
            &&& bound_ok(ws, max_word(), max)
        },
    }
}

/// Whether some option can be read from the words.
pub open spec fn readable(ws: Seq<Seq<char>>) -> bool {
    &&& ws.len() > 0 && ws[0] == option_word()
    &&& value_after(ws, name_word()) is Some
    &&& value_after(ws, default_word()) is Some
    &&& ({
        let ty = value_after(ws, type_word());
        let d = value_after(ws, default_word())->Some_0;
        ||| ty == Some(check_word()) && bool_text(d) is Some
        ||| ty == Some(spin_word()) && int_text(d) is Some
            && (value_after(ws, min_word()) matches Some(t) ==> int_text(t) is Some)
            && (value_after(ws, max_word()) matches Some(t) ==> int_text(t) is Some)
    })
}

pub open spec fn word_views(v: Seq<Vec<char>>) -> Seq<Seq<char>> {
    v.map_values(|w: Vec<char>| w@)
}

proof fn lemma_words_nonempty(s: Seq<char>)
    requires
        s.len() > 0,
        !is_space(s.last()),
    ensures
        words(s).len() > 0,
    decreases s.len(),
{
    if s.len() >= 2 && !is_space(s[s.len() - 2]) {
        assert(s.drop_last().last() == s[s.len() - 2]);
        lemma_words_nonempty(s.drop_last());
    }
}

/// Splits `s` into its words.
pub fn split_words(s: &str) -> (r: Vec<Vec<char>>)
    ensures
        word_views(r@) == words(s@),
{
    let ghost t = s@;
    let n = s.unicode_len();
    let mut out: Vec<Vec<char>> = Vec::new();
    let mut prev_space = true;
    let mut i: usize = 0;
    while i < n
        invariant
            n == t.len(),
            t == s@,
            i <= n,
            word_views(out@) == words(t.take(i as int)),
            prev_space == (i == 0 || is_space(t[i - 1])),
        decreases n - i,
    {
        let c = s.get_char(i);
        let ghost pre = t.take(i as int);
        proof {
            assert(t.take(i + 1).drop_last() =~= pre);
            assert(t.take(i + 1).last() == c);
        }
        if c == ' ' || c == '\t' || c == '\r' || c == '\n' {
        } else if !prev_space {
            proof {
                assert(pre.last() == t[i - 1]);
                lemma_words_nonempty(pre);
                assert(t.take(i + 1)[i - 1] == t[i - 1]);
            }
            let ghost old_out = out@;
            let last = out.len() - 1;
            let mut w = out.remove(last);
            w.push(c);
            out.push(w);
            proof {
                assert(old_out.remove(last as int) =~= old_out.drop_last());
                assert(word_views(old_out.drop_last()) =~= word_views(old_out).drop_last());
                assert(word_views(old_out).last() == old_out[last as int]@);
                assert(word_views(out@) =~= word_views(old_out).drop_last().push(word_views(old_out).last().push(c)));
                assert(word_views(out@) =~= words(t.take(i + 1)));
            }
        } else {
            let fresh = vec![c];
            assert(fresh@ =~= seq![c]);
            out.push(fresh);
            proof {
                if i > 0 {
                    assert(t.take(i + 1)[i - 1] == t[i - 1]);
                }
                assert(word_views(out@) =~= words(t.take(i + 1)));
            }
        }
        prev_space = c == ' ' || c == '\t' || c == '\r' || c == '\n';
        i = i + 1;
    }
    assert(t.take(n as int) =~= t);
    out
}

/// The index of the first word equal to `key`, or the number of words.
fn find(ws: &Vec<Vec<char>>, key: &Vec<char>) -> (r: usize)
    ensures
        r == find_word(word_views(ws@), key@),
{
    let ghost v = word_views(ws@);
    let mut i: usize = 0;
    while i < ws.len()
        invariant
            v == word_views(ws@),
            i <= ws@.len(),
            find_word(v.take(i as int), key@) == i,
        decreases ws@.len() - i,
    {
        proof {
            assert(v.take(i + 1).drop_last() =~= v.take(i as int));
        }
        if same_chars(&ws[i], key) {
            proof {
                lemma_find_prefix(v, key@, i as int);
            }
            return i;
        }
        i = i + 1;
    }
    assert(v.take(i as int) =~= v);
    i
}

/// Once the key is found in a prefix, longer prefixes find it there too.
proof fn lemma_find_prefix(v: Seq<Seq<char>>, key: Seq<char>, i: int)
    requires
        0 <= i < v.len(),
        find_word(v.take(i), key) == i,
        v[i] == key,
    ensures
        find_word(v, key) == i,
    decreases v.len() - i,
{
    if v.len() == i + 1 {
        assert(v.drop_last() =~= v.take(i));
    } else {
        let u = v.drop_last();
        assert(u.take(i) =~= v.take(i));
        lemma_find_prefix(u, key, i);
    }
}

fn value_after_exec(ws: &Vec<Vec<char>>, key: &Vec<char>) -> (r: Option<usize>)
    ensures
        r matches Some(k) ==> k < ws@.len() && value_after(word_views(ws@), key@) == Some(ws@[k as int]@),
        r is None ==> value_after(word_views(ws@), key@) is None,
{
    let k = find(ws, key);
    if k < ws.len() && k + 1 < ws.len() {
        Some(k + 1)
    } else {
        None
    }
}

proof fn lemma_digits_grow(s: Seq<char>, i: int)
    requires
        0 <= i <= s.len(),
        forall|j: int| 0 <= j < s.len() ==> is_digit(#[trigger] s[j]),
    ensures
        digits_value(s) >= digits_value(s.take(i)),
        digits_value(s.take(i)) >= 0,
    decreases s.len() - i,
{
    if i < s.len() {
        lemma_digits_grow(s, i + 1);
        assert(s.take(i + 1).drop_last() =~= s.take(i));
        assert(is_digit(s[i]));
    } else {
        assert(s.take(i) =~= s);
        lemma_digits_nonneg(s);
    }
}

proof fn lemma_digits_nonneg(s: Seq<char>)
    requires
        forall|j: int| 0 <= j < s.len() ==> is_digit(#[trigger] s[j]),
    ensures
        digits_value(s) >= 0,
    decreases s.len(),
{
    if s.len() > 0 {
        assert(is_digit(s[s.len() - 1]));
        lemma_digits_nonneg(s.drop_last());
    }
}

/// Reads an `i32` as Rust's `str::parse` does.
pub fn parse_int(w: &Vec<char>) -> (r: Option<i32>)
    ensures
        r == int_text(w@),
{
    let ghost s = w@;
    let n = w.len();
    if n == 0 {
        return None;
    }
    let neg = w[0] == '-';
    let start: usize = if w[0] == '-' || w[0] == '+' { 1 } else { 0 };
    let ghost digits = unsigned_part(s);
    assert(digits =~= s.subrange(start as int, n as int));
    if start == n {
        return None;
    }
    let mut acc: i64 = 0;
    let mut i: usize = start;
    while i < n
        invariant
            s == w@,
            n == s.len(),
            start <= i <= n,
            start == 0 || start == 1,
            digits == s.subrange(start as int, n as int),
            digits == unsigned_part(s),
            neg == (s.len() > 0 && s[0] == '-'),
            forall|j: int| 0 <= j < i - start ==> is_digit(#[trigger] digits[j]),
            acc == digits_value(digits.take(i - start)),
            0 <= acc <= 2147483648,
        decreases n - i,
    {
        let c = w[i];
        if !('0' <= c && c <= '9') {
            proof {
                assert(!is_digit(digits[i - start]));
                assert(!all_digits(digits));
            }
            return None;
        }
        let d = (c as u32 - '0' as u32) as i64;
        proof {
            assert(digits.take(i - start + 1).drop_last() =~= digits.take(i - start));
            assert(digits[i - start] == c);
        }
        let next = acc * 10 + d;
        if next > 2147483648 {
            proof {
                assert forall|j: int| 0 <= j < i - start + 1 implies is_digit(
                    #[trigger] digits.take(i - start + 1)[j],
                ) by {}
                if all_digits(digits) {
                    lemma_digits_grow(digits, i - start + 1);
                    assert(digits_value(digits) > 2147483648);
                }
            }
            return None;
        }
        acc = next;
        i = i + 1;
    }
    assert(digits.take(n - start) =~= digits);
    if neg {
        Some((-acc) as i32)
    } else if acc <= 2147483647 {
        Some(acc as i32)
    } else {
        None
    }
}

/// Reads a `bool` as Rust's `str::parse` does.
pub fn parse_bool(w: &Vec<char>) -> (r: Option<bool>)
    ensures
        r == bool_text(w@),
{
    let t = vec!['t', 'r', 'u', 'e'];
    let f = vec!['f', 'a', 'l', 's', 'e'];
    assert(t@ =~= seq!['t', 'r', 'u', 'e']);
    assert(f@ =~= seq!['f', 'a', 'l', 's', 'e']);
    if same_chars(w, &t) {
        Some(true)
    } else if same_chars(w, &f) {
        Some(false)
    } else {
        None
    }
}

fn string_of(w: &Vec<char>) -> (r: String)
    ensures
        r@ == w@,
{
    let mut s = String::new();
    let mut i: usize = 0;
    while i < w.len()
        invariant
            i <= w@.len(),
            s@ == w@.take(i as int),
        decreases w@.len() - i,
    {
        push_char(&mut s, w[i]);
        i = i + 1;
        assert(s@ =~= w@.take(i as int));
    }
    assert(w@.take(i as int) =~= w@);
    s
}

/// Reads an `option name N type T default D [min A] [max B]` line. Lines
/// that lack a name, a type or a default, announce another type, or hold
/// values that do not parse give `None`.
pub fn parse_option_line(line: &str) -> (r: Option<EngineOption>)
    ensures
        r is Some <==> readable(words(line@)),
        r matches Some(o) ==> option_of(words(line@), o),
{
    let ws = split_words(line);
    let ghost v = words(line@);
    let option_kw = vec!['o', 'p', 't', 'i', 'o', 'n'];
    let name_kw = vec!['n', 'a', 'm', 'e'];
    let type_kw = vec!['t', 'y', 'p', 'e'];
    let default_kw = vec!['d', 'e', 'f', 'a', 'u', 'l', 't'];
    let min_kw = vec!['m', 'i', 'n'];
    let max_kw = vec!['m', 'a', 'x'];
    let check_kw = vec!['c', 'h', 'e', 'c', 'k'];
    let spin_kw = vec!['s', 'p', 'i', 'n'];
    proof {
        assert(option_kw@ =~= option_word());
        assert(name_kw@ =~= name_word());
        assert(type_kw@ =~= type_word());
        assert(default_kw@ =~= default_word());
        assert(min_kw@ =~= min_word());
        assert(max_kw@ =~= max_word());
        assert(check_kw@ =~= check_word());
        assert(spin_kw@ =~= spin_word());
    }
    if ws.len() == 0 || !same_chars(&ws[0], &option_kw) {
        return None;
    }
    let name_at = match value_after_exec(&ws, &name_kw) {
        Some(k) => k,
        None => {
            return None;
        },
    };
    let default_at = match value_after_exec(&ws, &default_kw) {
        Some(k) => k,
        None => {
            return None;
        },
    };
    let type_at = match value_after_exec(&ws, &type_kw) {
        Some(k) => k,
        None => {
            return None;
        },
    };
    let name = string_of(&ws[name_at]);
    if same_chars(&ws[type_at], &check_kw) {
        match parse_bool(&ws[default_at]) {
            Some(value) => Some(EngineOption::Check { name, value }),
            None => None,
        }
    } else if same_chars(&ws[type_at], &spin_kw) {
        let value = match parse_int(&ws[default_at]) {
            Some(x) => x,
            None => {
                return None;
            },
        };
        let min = match value_after_exec(&ws, &min_kw) {
            Some(k) => match parse_int(&ws[k]) {
                Some(x) => Some(x),
                None => {
                    return None;
                },
            },
            None => None,
        };
        let max = match value_after_exec(&ws, &max_kw) {
            Some(k) => match parse_int(&ws[k]) {
                Some(x) => Some(x),
                None => {
                    return None;
                },
            },
            None => None,
        };
        Some(EngineOption::Spin { name, value, min, max })
    } else {
        None
    }
}

} // verus!
