//! Sync tokens: a position in the event log, written as a decimal string.

use vstd::prelude::*;
use vstd::string::*;
use crate::error::SyncError;
use crate::strings::opt_str_view;

verus! {

/// A position in the server-wide event log. Every appended event gets the next one.
pub type Position = u64;

/// The value of a decimal digit, for the characters `0` to `9`.
pub open spec fn digit_value(c: char) -> int {
    c as int - '0' as int
}

/// Whether `c` is one of `0` to `9`.
pub open spec fn is_digit(c: char) -> bool {
    '0' <= c && c <= '9'
}

/// Whether every character of `s` is a decimal digit.
pub open spec fn all_digits(s: Seq<char>) -> bool {
    forall|i: int| 0 <= i < s.len() ==> is_digit(#[trigger] s[i])
}

/// The number that the digits of `s` spell, most significant first.
pub open spec fn decimal_value(s: Seq<char>) -> nat
    decreases s.len(),
{
    if s.len() == 0 {
        0
    } else {
        (10 * decimal_value(s.drop_last()) + digit_value(s.last())) as nat
    }
}

/// The digits of a token, without the optional leading `+`.
pub open spec fn token_digits(s: Seq<char>) -> Seq<char> {
    if s.len() > 0 && s[0] == '+' {
        s.subrange(1, s.len() as int)
    } else {
        s
    }
}

/// The position a token stands for: one or more digits, after an optional
/// `+`, whose value fits in 64 bits. Anything else is no token.
pub open spec fn token_value(s: Seq<char>) -> Option<Position> {
    let d = token_digits(s);
    if d.len() > 0 && all_digits(d) && decimal_value(d) <= u64::MAX {
        Some(decimal_value(d) as u64)
    } else {
        None
    }
}

/// The character that stands for the digit `d`, for `d` below ten.
pub open spec fn digit_char(d: int) -> char {
    if d == 0 {
        '0'
    } else if d == 1 {
        '1'
    } else if d == 2 {
        '2'
    } else if d == 3 {
        '3'
    } else if d == 4 {
        '4'
    } else if d == 5 {
        '5'
    } else if d == 6 {
        '6'
    } else if d == 7 {
        '7'
    } else if d == 8 {
        '8'
    } else {
        '9'
    }
}

/// The decimal writing of `n`, without sign or leading zeros.
pub open spec fn decimal_digits(n: nat) -> Seq<char>
    decreases n,
{
    if n < 10 {
        seq![digit_char(n as int)]
    } else {
        decimal_digits(n / 10).push(digit_char((n % 10) as int))
    }
}

/// A longer run of digits never spells a smaller number than its beginning.
proof fn lemma_prefix_value(s: Seq<char>, k: int)
    requires
        0 <= k <= s.len(),
        all_digits(s),
    ensures
        decimal_value(s.subrange(0, k)) <= decimal_value(s),
    decreases s.len(),
{
    if k == s.len() {
        assert(s.subrange(0, k) == s);
    } else {
        let t = s.drop_last();
        assert(all_digits(t)) by {
            assert forall|i: int| 0 <= i < t.len() implies is_digit(#[trigger] t[i]) by {
                assert(t[i] == s[i]);
            }
        }
        lemma_prefix_value(t, k);
        assert(t.subrange(0, k) == s.subrange(0, k));
        assert(is_digit(s[s.len() - 1]));
    }
}

/// Reads a token: an optional `+`, then decimal digits that fit in 64 bits.
pub fn parse_token(s: &str) -> (r: Option<Position>)
    ensures
        r == token_value(s@),
{
    let n: usize = s.unicode_len();
    let start: usize = if n > 0 && s.get_char(0) == '+' {
        1
    } else {
        0
    };
    if start == n {
        return None;
    }
    let ghost d = token_digits(s@);
    assert(d == s@.subrange(start as int, n as int));
    let mut acc: u64 = 0;
    let mut i: usize = start;
    while i < n
        invariant
            start <= i <= n,
            n == s@.len(),
            d == token_digits(s@),
            d == s@.subrange(start as int, n as int),
            all_digits(d.subrange(0, i - start)),
            acc == decimal_value(d.subrange(0, i - start)),
        decreases n - i,
    {
        let c: char = s.get_char(i);
        let ghost k: int = i - start;
        assert(d[k] == c);
        if !('0' <= c && c <= '9') {
            assert(!is_digit(d[k]));
            return None;
        }
        let v: u64 = (c as u32 - '0' as u32) as u64;
        let ghost next = d.subrange(0, k + 1);
        assert(next.drop_last() == d.subrange(0, k));
        assert(next.last() == c);
        assert(decimal_value(next) == 10 * acc + v);
        assert(all_digits(next)) by {
            assert forall|j: int| 0 <= j < next.len() implies is_digit(#[trigger] next[j]) by {
                if j < k {
                    assert(d.subrange(0, k)[j] == next[j]);
                }
            }
        }
        if acc > (u64::MAX - v) / 10 {
            proof {
                if all_digits(d) {
                    lemma_prefix_value(d, k + 1);
                }
            }
            return None;
        }
        acc = 10 * acc + v;
        i = i + 1;
    }
    assert(d.subrange(0, n - start) == d);
    Some(acc)
}

/// The position a request starts from: zero when it names no token, the
/// token's value when it names one, and nothing when the token is malformed.
pub open spec fn since_value(since: Option<Seq<char>>) -> Option<Position> {
    match since {
        None => Some(0u64),
        Some(s) => token_value(s),
    }
}

/// The position a request starts from. A request without a token starts at
/// zero, which asks for everything; a token that does not read is refused.
pub fn since_position(since: Option<&str>) -> (r: Result<Position, SyncError>)
    ensures
        match since_value(opt_str_view(since)) {
            Some(p) => r == Ok::<Position, SyncError>(p),
            None => r == Err::<Position, SyncError>(SyncError::MalformedToken),
        },
{
    match since {
        None => Ok(0),
        Some(s) => match parse_token(s) {
            Some(p) => Ok(p),
            None => Err(SyncError::MalformedToken),
        },
    }
}

/// The one-character string for the digit `d`.
fn digit_str(d: u8) -> (r: &'static str)
    requires
        d < 10,
    ensures
        r@ == seq![digit_char(d as int)],
{
    proof {
        reveal_strlit("0");
        reveal_strlit("1");
        reveal_strlit("2");
        reveal_strlit("3");
        reveal_strlit("4");
        reveal_strlit("5");
        reveal_strlit("6");
        reveal_strlit("7");
        reveal_strlit("8");
        reveal_strlit("9");
    }
    let r = match d {
        0 => "0",
        1 => "1",
        2 => "2",
        3 => "3",
        4 => "4",
        5 => "5",
        6 => "6",
        7 => "7",
        8 => "8",
        _ => "9",
    };
    assert(r@ =~= seq![digit_char(d as int)]);
    r
}

/// Writes a position as a token: its decimal digits.
pub fn format_token(p: Position) -> (r: String)
    ensures
        r@ == decimal_digits(p as nat),
    decreases p,
{
    if p < 10 {
        String::from_str(digit_str(p as u8))
    } else {
        let mut s = format_token(p / 10);
        s.append(digit_str((p % 10) as u8));
        assert(s@ =~= decimal_digits((p / 10) as nat).push(digit_char((p % 10) as int)));
        s
    }
}

/// The digits written for a number are digits, and spell that number.
pub proof fn lemma_digits_spell(n: nat)
    ensures
        decimal_digits(n).len() > 0,
        all_digits(decimal_digits(n)),
        decimal_value(decimal_digits(n)) == n,
        decimal_digits(n)[0] != '+',
    decreases n,
{
    let s = decimal_digits(n);
    if n < 10 {
        assert(s.drop_last().len() == 0);
        assert(decimal_value(s.drop_last()) == 0);
        assert(decimal_value(s) == digit_value(s.last()));
    } else {
        lemma_digits_spell(n / 10);
        let t = decimal_digits(n / 10);
        assert(s.drop_last() == t);
        assert(s.last() == digit_char((n % 10) as int));
        assert(s[0] == t[0]);
        assert forall|i: int| 0 <= i < s.len() implies is_digit(#[trigger] s[i]) by {
            if i < t.len() {
                assert(s[i] == t[i]);
            }
        }
    }
}

/// A token that was written from a position reads back as that position.
pub proof fn lemma_token_round_trip(p: Position)
    ensures
        token_value(decimal_digits(p as nat)) == Some(p),
{
    lemma_digits_spell(p as nat);
}

} // verus!
