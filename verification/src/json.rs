//! The scalar pieces of the chain's wire format: quoted strings, integers and
//! `null`, written the way compact JSON writes them, and read back strictly.
//!
//! Every reader takes the text in front of it and returns the value with the
//! text that follows. A reader accepts exactly what the matching writer writes.

use vstd::prelude::*;
use crate::text::{
    chars_of, decimal, decimal_digits, digit_char, digit_value, i64_to_decimal, is_digit,
};

verus! {

/// The lower-case hexadecimal digit of `n`, for `n < 16`.
pub open spec fn hex_lower_char(n: nat) -> char {
    if n < 10 {
        ((48 + n) as u8) as char
    } else {
        ((87 + n) as u8) as char
    }
}

/// The value of a lower-case hexadecimal digit; 0 for any other character.
pub open spec fn hex_lower_value(c: char) -> nat {
    if 48 <= c as u32 <= 57 {
        (c as u32 - 48) as nat
    } else if 97 <= c as u32 <= 102 {
        (c as u32 - 87) as nat
    } else {
        0
    }
}

/// How one character stands inside a quoted string: the quote and the
/// backslash behind a backslash, the control characters by their short
/// escape or as `\u00xx`, every other character as itself.
pub open spec fn escape_char(c: char) -> Seq<char> {
    if c == '"' {
        seq!['\\', '"']
    } else if c == '\\' {
        seq!['\\', '\\']
    } else if c as u32 == 8 {
        seq!['\\', 'b']
    } else if c as u32 == 9 {
        seq!['\\', 't']
    } else if c as u32 == 10 {
        seq!['\\', 'n']
    } else if c as u32 == 12 {
        seq!['\\', 'f']
    } else if c as u32 == 13 {
        seq!['\\', 'r']
    } else if (c as u32) < 32 {
        seq![
            '\\',
            'u',
            '0',
            '0',
            hex_lower_char((c as u32 / 16) as nat),
            hex_lower_char((c as u32 % 16) as nat),
        ]
    } else {
        seq![c]
    }
}

/// The characters of `s`, each one escaped.
pub open spec fn escaped(s: Seq<char>) -> Seq<char>
    decreases s.len(),
{
    if s.len() == 0 {
        Seq::empty()
    } else {
        escape_char(s[0]) + escaped(s.skip(1))
    }
}

/// `s` as a quoted string.
pub open spec fn json_string(s: Seq<char>) -> Seq<char> {
    seq!['"'] + escaped(s) + seq!['"']
}

/// A string as a quoted string, an absent one as `null`.
pub open spec fn json_opt_string(s: Option<Seq<char>>) -> Seq<char> {
    match s {
        Some(s) => json_string(s),
        None => seq!['n', 'u', 'l', 'l'],
    }
}

/// The character that the text at the front of `s` could stand for.
pub open spec fn unescape_candidate(s: Seq<char>) -> Option<char> {
    if s.len() == 0 {
        None
    } else if s[0] != '\\' {
        Some(s[0])
    } else if s.len() < 2 {
        None
    } else if s[1] == '"' {
        Some('"')
    } else if s[1] == '\\' {
        Some('\\')
    } else if s[1] == 'b' {
        Some(8u8 as char)
    } else if s[1] == 't' {
        Some(9u8 as char)
    } else if s[1] == 'n' {
        Some(10u8 as char)
    } else if s[1] == 'f' {
        Some(12u8 as char)
    } else if s[1] == 'r' {
        Some(13u8 as char)
    } else if s[1] == 'u' && s.len() >= 6 {
        // Only codes below 32 are written this way, so the high digit is 0 or 1.
        Some((((hex_lower_value(s[4]) % 2) * 16 + hex_lower_value(s[5])) as u8) as char)
    } else {
        None
    }
}

/// Reads one escaped character: the character, and how much text it took.
pub open spec fn read_char(s: Seq<char>) -> Option<(char, nat)> {
    match unescape_candidate(s) {
        Some(c) => if escape_char(c).is_prefix_of(s) {
            Some((c, escape_char(c).len()))
        } else {
            None
        },
        None => None,
    }
}

/// Reads escaped characters up to the closing quote, and takes the quote.
pub open spec fn read_string_tail(s: Seq<char>) -> Option<(Seq<char>, Seq<char>)>
    decreases s.len(),
{
    if s.len() == 0 {
        None
    } else if s[0] == '"' {
        Some((Seq::empty(), s.skip(1)))
    } else {
        match read_char(s) {
            Some((c, k)) => if 0 < k <= s.len() {
                match read_string_tail(s.skip(k as int)) {
                    Some((v, rest)) => Some((seq![c] + v, rest)),
                    None => None,
                }
            } else {
                None
            },
            None => None,
        }
    }
}

/// Reads a quoted string.
pub open spec fn read_string(s: Seq<char>) -> Option<(Seq<char>, Seq<char>)> {
    if s.len() > 0 && s[0] == '"' {
        read_string_tail(s.skip(1))
    } else {
        None
    }
}

/// Reads `null` or a quoted string.
pub open spec fn read_opt_string(s: Seq<char>) -> Option<(Option<Seq<char>>, Seq<char>)> {
    if seq!['n', 'u', 'l', 'l'].is_prefix_of(s) {
        Some((None, s.skip(4)))
    } else {
        match read_string(s) {
            Some((v, rest)) => Some((Some(v), rest)),
            None => None,
        }
    }
}

/// An escaped character is read back as itself, whatever follows it.
proof fn lemma_read_char_of_escape(c: char, rest: Seq<char>)
    ensures
        read_char(escape_char(c) + rest) == Some((c, escape_char(c).len())),
        escape_char(c).len() >= 1,
        (escape_char(c) + rest)[0] != '"',
{
    let s = escape_char(c) + rest;
    let e = escape_char(c);
    assert(e.is_prefix_of(s)) by {
        assert(s.subrange(0, e.len() as int) == e);
    }
    if (c as u32) < 32 && c as u32 != 8 && c as u32 != 9 && c as u32 != 10 && c as u32 != 12 && c as u32 != 13 {
        let h = (c as u32 / 16) as nat;
        let l = (c as u32 % 16) as nat;
        assert(s[4] == hex_lower_char(h));
        assert(s[5] == hex_lower_char(l));
        assert(hex_lower_value(hex_lower_char(h)) == h);
        assert(hex_lower_value(hex_lower_char(l)) == l);
        assert(s[1] == 'u');
        assert((((h % 2) * 16 + l) as u8) as char == c);
    } else {
        assert(s[0] == e[0]);
        if e.len() >= 2 {
            assert(s[1] == e[1]);
        }
    }
}

/// The text that the tail reader takes is the escaped value and the quote.
proof fn lemma_read_string_tail_sound(s: Seq<char>)
    ensures
        read_string_tail(s) matches Some((v, rest)) ==> s == escaped(v) + seq!['"'] + rest,
    decreases s.len(),
{
    if s.len() == 0 {
    } else if s[0] == '"' {
        assert(s == escaped(Seq::<char>::empty()) + seq!['"'] + s.skip(1));
    } else {
        match read_char(s) {
            Some((c, k)) => {
                if 0 < k <= s.len() {
                    lemma_read_string_tail_sound(s.skip(k as int));
                    match read_string_tail(s.skip(k as int)) {
                        Some((v, rest)) => {
                            let w = seq![c] + v;
                            assert(w[0] == c);
                            assert(w.skip(1) == v);
                            assert(s.subrange(0, k as int) == escape_char(c));
                            assert(s == s.subrange(0, k as int) + s.skip(k as int));
                            assert(s == escaped(w) + seq!['"'] + rest);
                        },
                        None => {},
                    }
                }
            },
            None => {},
        }
    }
}

/// An escaped value with its closing quote is read back, whatever follows.
proof fn lemma_read_string_tail_complete(v: Seq<char>, rest: Seq<char>)
    ensures
        read_string_tail(escaped(v) + seq!['"'] + rest) == Some((v, rest)),
    decreases v.len(),
{
    let s = escaped(v) + seq!['"'] + rest;
    if v.len() == 0 {
        assert(s[0] == '"');
        assert(s.skip(1) == rest);
        assert(v == Seq::<char>::empty());
    } else {
        let c = v[0];
        let after = escaped(v.skip(1)) + seq!['"'] + rest;
        assert(s == escape_char(c) + after);
        lemma_read_char_of_escape(c, after);
        let k = escape_char(c).len();
        assert(s.skip(k as int) == after);
        lemma_read_string_tail_complete(v.skip(1), rest);
        assert(seq![c] + v.skip(1) == v);
    }
}

/// What `read_string` accepts is a quoted string and the text behind it.
pub proof fn lemma_read_string_sound(s: Seq<char>)
    ensures
        read_string(s) matches Some((v, rest)) ==> s == json_string(v) + rest,
{
    if s.len() > 0 && s[0] == '"' {
        lemma_read_string_tail_sound(s.skip(1));
        match read_string_tail(s.skip(1)) {
            Some((v, rest)) => {
                assert(s == seq!['"'] + s.skip(1));
                assert(s == json_string(v) + rest);
            },
            None => {},
        }
    }
}

/// A quoted string is read back, whatever follows it.
pub proof fn lemma_read_string_complete(v: Seq<char>, rest: Seq<char>)
    ensures
        read_string(json_string(v) + rest) == Some((v, rest)),
{
    let s = json_string(v) + rest;
    lemma_read_string_tail_complete(v, rest);
    assert(s[0] == '"');
    assert(s.skip(1) == escaped(v) + seq!['"'] + rest);
}

/// What `read_opt_string` accepts is `null` or a quoted string, and the text behind it.
pub proof fn lemma_read_opt_string_sound(s: Seq<char>)
    ensures
        read_opt_string(s) matches Some((v, rest)) ==> s == json_opt_string(v) + rest,
{
    let null = seq!['n', 'u', 'l', 'l'];
    if null.is_prefix_of(s) {
        assert(s == s.subrange(0, 4) + s.skip(4));
    } else {
        lemma_read_string_sound(s);
    }
}

/// `null` or a quoted string is read back, whatever follows it.
pub proof fn lemma_read_opt_string_complete(v: Option<Seq<char>>, rest: Seq<char>)
    ensures
        read_opt_string(json_opt_string(v) + rest) == Some((v, rest)),
{
    let null = seq!['n', 'u', 'l', 'l'];
    let s = json_opt_string(v) + rest;
    match v {
        Some(t) => {
            lemma_read_string_complete(t, rest);
            assert(s[0] == '"');
            assert(!null.is_prefix_of(s)) by {
                if null.is_prefix_of(s) {
                    assert(s.subrange(0, 4)[0] == 'n');
                }
            }
        },
        None => {
            assert(s.subrange(0, 4) == null);
            assert(s.skip(4) == rest);
        },
    }
}

/// The number that a run of decimal digits stands for.
pub open spec fn digits_value(d: Seq<char>) -> nat
    decreases d.len(),
{
    if d.len() == 0 {
        0
    } else {
        10 * digits_value(d.drop_last()) + digit_value(d.last())
    }
}

/// How many decimal digits stand at the front of `s`.
pub open spec fn digit_run(s: Seq<char>) -> nat
    decreases s.len(),
{
    if s.len() > 0 && is_digit(s[0]) {
        1 + digit_run(s.skip(1))
    } else {
        0
    }
}

/// Reads an integer: an optional minus sign and every digit that follows.
/// The number must fit in an `i64` and be written as `decimal` writes it.
pub open spec fn read_decimal(s: Seq<char>) -> Option<(i64, Seq<char>)> {
    let negative = s.len() > 0 && s[0] == '-';
    let body = if negative {
        s.skip(1)
    } else {
        s
    };
    let run = digit_run(body);
    let magnitude = digits_value(body.take(run as int));
    let value: int = if negative {
        -magnitude
    } else {
        magnitude as int
    };
    let taken: int = if negative {
        run as int + 1
    } else {
        run as int
    };
    if i64::MIN <= value <= i64::MAX && decimal(value) == s.take(taken) {
        Some((value as i64, s.skip(taken)))
    } else {
        None
    }
}

/// A run of digits is no longer than the text.
proof fn lemma_digit_run_bounds(s: Seq<char>)
    ensures
        digit_run(s) <= s.len(),
        forall|j: int| 0 <= j < digit_run(s) ==> is_digit(#[trigger] s[j]),
        digit_run(s) < s.len() ==> !is_digit(s[digit_run(s) as int]),
    decreases s.len(),
{
    if s.len() > 0 && is_digit(s[0]) {
        lemma_digit_run_bounds(s.skip(1));
        assert forall|j: int| 0 <= j < digit_run(s) implies is_digit(#[trigger] s[j]) by {
            if j > 0 {
                assert(s[j] == s.skip(1)[j - 1]);
            }
        }
        if digit_run(s) < s.len() {
            assert(s[digit_run(s) as int] == s.skip(1)[digit_run(s.skip(1)) as int]);
        }
    }
}

/// Digits up to the first character that is none make up the whole run.
proof fn lemma_digit_run_is(s: Seq<char>, n: nat)
    requires
        n <= s.len(),
        forall|j: int| 0 <= j < n ==> is_digit(#[trigger] s[j]),
        n < s.len() ==> !is_digit(s[n as int]),
    ensures
        digit_run(s) == n,
    decreases n,
{
    if n > 0 {
        assert(is_digit(s[0]));
        let t = s.skip(1);
        assert forall|j: int| 0 <= j < n - 1 implies is_digit(#[trigger] t[j]) by {
            assert(t[j] == s[j + 1]);
        }
        lemma_digit_run_is(t, (n - 1) as nat);
    }
}

/// A longer prefix of a run of digits stands for no smaller a number.
proof fn lemma_digits_value_grows(d: Seq<char>, a: int, b: int)
    requires
        0 <= a <= b <= d.len(),
    ensures
        digits_value(d.take(a)) <= digits_value(d.take(b)),
    decreases b - a,
{
    if a < b {
        lemma_digits_value_grows(d, a, b - 1);
        assert(d.take(b).drop_last() == d.take(b - 1));
    }
}

/// The digits of `n` are digits, stand for `n`, and have no leading zero.
proof fn lemma_decimal_digits(n: nat)
    ensures
        decimal_digits(n).len() >= 1,
        forall|j: int| 0 <= j < decimal_digits(n).len() ==> is_digit(#[trigger] decimal_digits(n)[j]),
        digits_value(decimal_digits(n)) == n,
    decreases n,
{
    let d = decimal_digits(n);
    if n < 10 {
        assert(d.drop_last() == Seq::<char>::empty());
        assert(digits_value(d.drop_last()) == 0);
        assert(digit_value(digit_char(n)) == n);
    } else {
        lemma_decimal_digits(n / 10);
        assert(d.drop_last() == decimal_digits(n / 10));
        assert(digit_value(digit_char(n % 10)) == n % 10);
    }
}

/// What `read_decimal` accepts is the text of the number and the text behind it.
pub proof fn lemma_read_decimal_sound(s: Seq<char>)
    ensures
        read_decimal(s) matches Some((v, rest)) ==> s == decimal(v as int) + rest && (rest.len()
            == 0 || !is_digit(rest[0])),
{
    if read_decimal(s) is Some {
        let negative = s.len() > 0 && s[0] == '-';
        let body = if negative {
            s.skip(1)
        } else {
            s
        };
        lemma_digit_run_bounds(body);
        let taken: int = if negative {
            digit_run(body) as int + 1
        } else {
            digit_run(body) as int
        };
        assert(s == s.take(taken) + s.skip(taken));
        let rest = s.skip(taken);
        if rest.len() > 0 {
            assert(rest[0] == body[digit_run(body) as int]);
        }
    }
}

/// The text of an `i64` is read back, when no digit follows it.
pub proof fn lemma_read_decimal_complete(v: i64, rest: Seq<char>)
    requires
        rest.len() == 0 || !is_digit(rest[0]),
    ensures
        read_decimal(decimal(v as int) + rest) == Some((v, rest)),
{
    let s = decimal(v as int) + rest;
    let negative = v < 0;
    let m: nat = if negative {
        (-v) as nat
    } else {
        v as nat
    };
    let d = decimal_digits(m);
    lemma_decimal_digits(m);
    assert(is_digit(d[0]));
    assert(s[0] == decimal(v as int)[0]);
    assert(negative <==> (s.len() > 0 && s[0] == '-'));
    let body = if negative {
        s.skip(1)
    } else {
        s
    };
    assert(body == d + rest);
    assert forall|j: int| 0 <= j < d.len() implies is_digit(#[trigger] body[j]) by {
        assert(body[j] == d[j]);
    }
    if d.len() < body.len() {
        assert(body[d.len() as int] == rest[0]);
    }
    lemma_digit_run_is(body, d.len());
    assert(body.take(d.len() as int) == d);
    let taken: int = if negative {
        d.len() as int + 1
    } else {
        d.len() as int
    };
    assert(s.take(taken) == decimal(v as int));
    assert(s.skip(taken) == rest);
}

/// Takes `lit` from the front of `s`, if it stands there.
pub open spec fn eat(s: Seq<char>, lit: Seq<char>) -> Option<Seq<char>> {
    if lit.is_prefix_of(s) {
        Some(s.skip(lit.len() as int))
    } else {
        None
    }
}

/// Whether the characters of `lit` stand in `s` from `pos` on; if so, the
/// position behind them.
pub fn eat_at(s: &Vec<char>, pos: usize, lit: &Vec<char>) -> (r: Option<usize>)
    requires
        pos <= s.len(),
    ensures
        match r {
            Some(p) => eat(s@.skip(pos as int), lit@) == Some(s@.skip(p as int)) && p == pos
                + lit.len(),
            None => eat(s@.skip(pos as int), lit@) is None,
        },
{
    if lit.len() > s.len() - pos {
        return None;
    }
    let ghost t = s@.skip(pos as int);
    let mut i: usize = 0;
    while i < lit.len()
        invariant
            pos <= s.len(),
            lit.len() <= s.len() - pos,
            i <= lit.len(),
            t == s@.skip(pos as int),
            forall|j: int| 0 <= j < i ==> lit@[j] == t[j],
        decreases lit.len() - i,
    {
        if lit[i] != s[pos + i] {
            assert(t[i as int] != lit@[i as int]);
            assert(t.subrange(0, lit.len() as int)[i as int] == t[i as int]);
            return None;
        }
        i += 1;
    }
    assert(lit@ == t.subrange(0, lit.len() as int));
    assert(t.skip(lit.len() as int) == s@.skip(pos + lit.len()));
    Some(pos + lit.len())
}

fn escape_of(c: char) -> (e: Vec<char>)
    ensures
        e@ == escape_char(c),
{
    let mut e: Vec<char> = Vec::new();
    let code: u32 = c as u32;
    if c == '"' {
        e.push('\\');
        e.push('"');
    } else if c == '\\' {
        e.push('\\');
        e.push('\\');
    } else if code == 8 {
        e.push('\\');
        e.push('b');
    } else if code == 9 {
        e.push('\\');
        e.push('t');
    } else if code == 10 {
        e.push('\\');
        e.push('n');
    } else if code == 12 {
        e.push('\\');
        e.push('f');
    } else if code == 13 {
        e.push('\\');
        e.push('r');
    } else if code < 32 {
        e.push('\\');
        e.push('u');
        e.push('0');
        e.push('0');
        e.push(hex_lower_digit((code / 16) as u8));
        e.push(hex_lower_digit((code % 16) as u8));
    } else {
        e.push(c);
    }
    assert(e@ =~= escape_char(c));
    e
}

fn is_digit_char(c: char) -> (r: bool)
    ensures
        r == is_digit(c),
{
    let code: u32 = c as u32;
    48 <= code && code <= 57
}

fn hex_lower_digit(n: u8) -> (c: char)
    requires
        n < 16,
    ensures
        c == hex_lower_char(n as nat),
{
    if n < 10 {
        (48 + n) as char
    } else {
        (87 + n) as char
    }
}

fn hex_lower_digit_value(c: char) -> (n: u8)
    ensures
        n == hex_lower_value(c),
        n < 16,
{
    let code: u32 = c as u32;
    if 48 <= code && code <= 57 {
        (code - 48) as u8
    } else if 97 <= code && code <= 102 {
        (code - 87) as u8
    } else {
        0
    }
}

/// Appends `s` as a quoted string to `out`.
pub fn push_json_string(out: &mut String, s: &str)
    ensures
        final(out)@ == old(out)@ + json_string(s@),
{
    let chars = chars_of(s);
    out.push('"');
    let mut i: usize = 0;
    assert(chars@.skip(0) == chars@);
    assert(out@ == old(out)@ + seq!['"']);
    while i < chars.len()
        invariant
            i <= chars.len(),
            out@ + escaped(chars@.skip(i as int)) == old(out)@ + seq!['"'] + escaped(chars@),
        decreases chars.len() - i,
    {
        let e = escape_of(chars[i]);
        let ghost before = out@;
        let mut j: usize = 0;
        while j < e.len()
            invariant
                j <= e.len(),
                out@ == before + e@.take(j as int),
            decreases e.len() - j,
        {
            out.push(e[j]);
            assert(e@.take(j + 1) == e@.take(j as int).push(e@[j as int]));
            j += 1;
        }
        assert(e@.take(e.len() as int) == e@);
        assert(chars@.skip(i as int).skip(1) == chars@.skip(i + 1));
        assert(chars@.skip(i as int)[0] == chars@[i as int]);
        assert(out@ + escaped(chars@.skip(i + 1)) == before + escaped(chars@.skip(i as int)));
        i += 1;
    }
    assert(escaped(chars@.skip(i as int)) == Seq::<char>::empty());
    out.push('"');
    assert(final(out)@ == old(out)@ + json_string(s@));
}

/// Appends `s` as a quoted string, or `null` for an absent one, to `out`.
pub fn push_json_opt_string(out: &mut String, s: &Option<String>)
    ensures
        final(out)@ == old(out)@ + json_opt_string(
            match s {
                Some(t) => Some(t@),
                None => None,
            },
        ),
{
    match s {
        Some(t) => {
            push_json_string(out, t.as_str());
        },
        None => {
            out.push('n');
            out.push('u');
            out.push('l');
            out.push('l');
            assert(final(out)@ == old(out)@ + seq!['n', 'u', 'l', 'l']);
        },
    }
}

fn parse_char(s: &Vec<char>, pos: usize) -> (r: Option<(char, usize)>)
    requires
        pos < s.len(),
    ensures
        match r {
            Some((c, k)) => read_char(s@.skip(pos as int)) == Some((c, k as nat)) && 1 <= k
                && pos + k <= s.len(),
            None => read_char(s@.skip(pos as int)) is None,
        },
{
    let ghost t = s@.skip(pos as int);
    let first = s[pos];
    let candidate: char;
    if first != '\\' {
        candidate = first;
    } else if s.len() - pos < 2 {
        return None;
    } else {
        let second = s[pos + 1];
        assert(t[1] == second);
        if second == '"' {
            candidate = '"';
        } else if second == '\\' {
            candidate = '\\';
        } else if second == 'b' {
            candidate = 8u8 as char;
        } else if second == 't' {
            candidate = 9u8 as char;
        } else if second == 'n' {
            candidate = 10u8 as char;
        } else if second == 'f' {
            candidate = 12u8 as char;
        } else if second == 'r' {
            candidate = 13u8 as char;
        } else if second == 'u' && s.len() - pos >= 6 {
            let high = hex_lower_digit_value(s[pos + 4]);
            let low = hex_lower_digit_value(s[pos + 5]);
            assert(t[4] == s@[pos + 4] && t[5] == s@[pos + 5]);
            candidate = ((high % 2) * 16 + low) as char;
        } else {
            return None;
        }
    }
    assert(unescape_candidate(t) == Some(candidate));
    let e = escape_of(candidate);
    match eat_at(s, pos, &e) {
        Some(_) => Some((candidate, e.len())),
        None => None,
    }
}

/// Reads a quoted string that starts at `pos`: the string, and the position
/// behind its closing quote.
pub fn parse_string(s: &Vec<char>, pos: usize) -> (r: Option<(String, usize)>)
    requires
        pos <= s.len(),
    ensures
        match r {
            Some((v, p)) => read_string(s@.skip(pos as int)) == Some((v@, s@.skip(p as int)))
                && pos < p <= s.len(),
            None => read_string(s@.skip(pos as int)) is None,
        },
{
    if pos >= s.len() || s[pos] != '"' {
        return None;
    }
    let mut out = String::new();
    let mut i: usize = pos + 1;
    assert(s@.skip(pos as int).skip(1) == s@.skip(i as int));
    let ghost goal = read_string_tail(s@.skip(i as int));
    loop
        invariant
            pos < i <= s.len(),
            goal == read_string(s@.skip(pos as int)),
            goal == match read_string_tail(s@.skip(i as int)) {
                Some((v, rest)) => Some((out@ + v, rest)),
                None => None,
            },
        decreases s.len() - i,
    {
        if i >= s.len() {
            return None;
        }
        assert(s@.skip(i as int)[0] == s@[i as int]);
        if s[i] == '"' {
            assert(s@.skip(i as int).skip(1) == s@.skip(i + 1));
            assert(out@ + Seq::<char>::empty() == out@);
            return Some((out, i + 1));
        }
        match parse_char(s, i) {
            Some((c, k)) => {
                assert(s@.skip(i as int).skip(k as int) == s@.skip(i + k));
                proof {
                    let next = read_string_tail(s@.skip(i + k));
                    if let Some((v, rest)) = next {
                        assert(out@ + (seq![c] + v) == out@.push(c) + v);
                    }
                }
                out.push(c);
                i = i + k;
            },
            None => {
                return None;
            },
        }
    }
}

/// Reads `null` or a quoted string that starts at `pos`.
pub fn parse_opt_string(s: &Vec<char>, pos: usize) -> (r: Option<(Option<String>, usize)>)
    requires
        pos <= s.len(),
    ensures
        match r {
            Some((v, p)) => read_opt_string(s@.skip(pos as int)) == Some(
                (
                    match v {
                        Some(t) => Some(t@),
                        None => None,
                    },
                    s@.skip(p as int),
                ),
            ) && pos < p <= s.len(),
            None => read_opt_string(s@.skip(pos as int)) is None,
        },
{
    let mut null: Vec<char> = Vec::new();
    null.push('n');
    null.push('u');
    null.push('l');
    null.push('l');
    assert(null@ == seq!['n', 'u', 'l', 'l']);
    match eat_at(s, pos, &null) {
        Some(p) => Some((None, p)),
        None => match parse_string(s, pos) {
            Some((v, p)) => Some((Some(v), p)),
            None => None,
        },
    }
}

/// Reads an integer that starts at `pos`: the number, and the position
/// behind its last digit.
pub fn parse_decimal(s: &Vec<char>, pos: usize) -> (r: Option<(i64, usize)>)
    requires
        pos <= s.len(),
    ensures
        match r {
            Some((v, p)) => read_decimal(s@.skip(pos as int)) == Some((v, s@.skip(p as int)))
                && pos < p <= s.len(),
            None => read_decimal(s@.skip(pos as int)) is None,
        },
{
    let ghost t = s@.skip(pos as int);
    let negative = pos < s.len() && s[pos] == '-';
    let start: usize = if negative {
        pos + 1
    } else {
        pos
    };
    let ghost body = s@.skip(start as int);
    assert(body == if negative {
        t.skip(1)
    } else {
        t
    });
    let mut i: usize = start;
    let mut acc: u64 = 0;
    while i < s.len() && is_digit_char(s[i])
        invariant
            pos <= start <= i <= s.len(),
            t == s@.skip(pos as int),
            negative == (t.len() > 0 && t[0] == '-'),
            body == if negative {
                t.skip(1)
            } else {
                t
            },
            body == s@.skip(start as int),
            forall|j: int| 0 <= j < i - start ==> is_digit(#[trigger] body[j]),
            acc == digits_value(body.take(i - start)),
            acc <= 0x8000_0000_0000_0000,
        decreases s.len() - i,
    {
        let d: u64 = (s[i] as u32 - 48) as u64;
        assert(body[i - start] == s@[i as int]);
        assert(body.take(i - start + 1).drop_last() == body.take(i - start));
        assert(body.take(i - start + 1).last() == body[i - start]);
        if acc > (0x8000_0000_0000_0000u64 - d) / 10 {
            proof {
                lemma_digit_run_bounds(body);
                let run = digit_run(body);
                if run < i - start + 1 {
                    assert(!is_digit(body[run as int]));
                }
                lemma_digits_value_grows(body.take(run as int), i - start + 1, run as int);
                assert(body.take(run as int).take(i - start + 1) == body.take(i - start + 1));
                assert(body.take(run as int).take(run as int) == body.take(run as int));
            }
            return None;
        }
        acc = acc * 10 + d;
        i += 1;
    }
    proof {
        lemma_digit_run_is(body, (i - start) as nat);
    }
    if negative {
        if acc > 0x8000_0000_0000_0000 {
            return None;
        }
    } else {
        if acc > 0x7fff_ffff_ffff_ffff {
            return None;
        }
    }
    let value: i64 = if negative {
        (-(acc as i128)) as i64
    } else {
        acc as i64
    };
    let text = chars_of(i64_to_decimal(value).as_str());
    assert(text@ == decimal(value as int));
    assert(t.skip(i - pos) == s@.skip(i as int));
    if text.len() != i - pos {
        assert(t.take(i - pos).len() == i - pos);
        return None;
    }
    match eat_at(s, pos, &text) {
        Some(p) => {
            assert(t.take(i - pos) == t.subrange(0, text.len() as int));
            Some((value, i))
        },
        None => {
            assert(t.take(i - pos) == t.subrange(0, text.len() as int));
            None
        },
    }
}

} // verus!
