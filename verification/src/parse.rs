//! Parsing one line of player input.
//!
//! A move request is one line of text holding exactly two numeric tokens —
//! decimal digits after an optional leading plus sign — separated by
//! arbitrary whitespace. `spec_parse_input` says what such a line means;
//! the executable scanners here are the pieces the game's parser is built
//! from.

use vstd::prelude::*;

verus! {

/// The characters that separate tokens: the Unicode white-space
/// characters (the `White_Space` property).
pub open spec fn is_space(c: char) -> bool {
    let u = c as u32;
    ||| (0x09 <= u && u <= 0x0D)
    ||| u == 0x20
    ||| u == 0x85
    ||| u == 0xA0
    ||| u == 0x1680
    ||| (0x2000 <= u && u <= 0x200A)
    ||| u == 0x2028
    ||| u == 0x2029
    ||| u == 0x202F
    ||| u == 0x205F
    ||| u == 0x3000
}

/// The first position at or after `i` holding a non-space character, or the
/// end of `s`.
pub open spec fn token_start(s: Seq<char>, i: int) -> int
    decreases s.len() - i,
{
    if i >= s.len() {
        s.len() as int
    } else if is_space(s[i]) {
        token_start(s, i + 1)
    } else {
        i
    }
}

/// The first position at or after `i` holding a space, or the end of `s`.
pub open spec fn token_end(s: Seq<char>, i: int) -> int
    decreases s.len() - i,
{
    if i >= s.len() {
        s.len() as int
    } else if !is_space(s[i]) {
        token_end(s, i + 1)
    } else {
        i
    }
}

/// `token_start` stays within `s` and lands on a non-space character unless
/// it reaches the end.
pub proof fn lemma_token_start_bounds(s: Seq<char>, i: int)
    requires
        0 <= i <= s.len(),
    ensures
        i <= token_start(s, i) <= s.len(),
        token_start(s, i) < s.len() ==> !is_space(s[token_start(s, i)]),
    decreases s.len() - i,
{
    if i < s.len() && is_space(s[i]) {
        lemma_token_start_bounds(s, i + 1);
    }
}

/// `token_end` stays within `s` and lands on a space unless it reaches the
/// end; from a non-space character it moves at least one position.
pub proof fn lemma_token_end_bounds(s: Seq<char>, i: int)
    requires
        0 <= i <= s.len(),
    ensures
        i <= token_end(s, i) <= s.len(),
        token_end(s, i) < s.len() ==> is_space(s[token_end(s, i)]),
        i < s.len() && !is_space(s[i]) ==> i + 1 <= token_end(s, i),
    decreases s.len() - i,
{
    if i < s.len() && !is_space(s[i]) {
        lemma_token_end_bounds(s, i + 1);
    }
}

/// The whitespace-separated tokens of `s` at or after position `i`, in
/// order: each token is a maximal run of non-space characters.
pub open spec fn tokens_from(s: Seq<char>, i: int) -> Seq<Seq<char>>
    decreases s.len() - i,
        when 0 <= i <= s.len()
        via tokens_from_decreases
{
    let a = token_start(s, i);
    if a >= s.len() {
        seq![]
    } else {
        seq![s.subrange(a, token_end(s, a))] + tokens_from(s, token_end(s, a))
    }
}

#[via_fn]
proof fn tokens_from_decreases(s: Seq<char>, i: int) {
    lemma_token_start_bounds(s, i);
    let a = token_start(s, i);
    if a < s.len() {
        lemma_token_end_bounds(s, a);
    }
}

/// The whitespace-separated tokens of the whole of `s`.
pub open spec fn spec_tokens(s: Seq<char>) -> Seq<Seq<char>> {
    tokens_from(s, 0)
}

/// `c` is a decimal digit.
pub open spec fn is_digit(c: char) -> bool {
    ('0' as u32) <= (c as u32) && (c as u32) <= ('9' as u32)
}

/// The value of the digit `c`.
pub open spec fn digit_val(c: char) -> nat {
    ((c as u32) - ('0' as u32)) as nat
}

/// The decimal value of a digit string.
pub open spec fn digits_val(t: Seq<char>) -> nat
    decreases t.len(),
{
    if t.len() == 0 {
        0
    } else {
        digits_val(t.drop_last()) * 10 + digit_val(t.last())
    }
}

/// The digit part of a token: everything after a single leading plus sign,
/// or the whole token when there is no sign.
pub open spec fn token_digits(t: Seq<char>) -> Seq<char> {
    if t.len() > 0 && t[0] == '+' {
        t.drop_first()
    } else {
        t
    }
}

/// `t` is a numeric token: an optional leading plus sign followed by one
/// or more decimal digits.
pub open spec fn is_numeric_token(t: Seq<char>) -> bool {
    let digits = token_digits(t);
    digits.len() > 0 && forall|i: int| 0 <= i < digits.len() ==> is_digit(digits[i])
}

/// What parsing one token as a non-negative machine integer yields: its
/// decimal value when the token is numeric and the value fits, nothing
/// otherwise.
pub open spec fn spec_parse_usize(t: Seq<char>) -> Option<usize> {
    if is_numeric_token(t) && digits_val(token_digits(t)) <= usize::MAX {
        Some(digits_val(token_digits(t)) as usize)
    } else {
        None
    }
}

/// What parsing one line of input yields: the two coordinates, in row then
/// column order, when the line holds exactly two numeric tokens whose
/// values fit in a machine integer, and nothing otherwise.
pub open spec fn spec_parse_input(s: Seq<char>) -> Option<(usize, usize)> {
    let ts = spec_tokens(s);
    if ts.len() == 2 {
        match (spec_parse_usize(ts[0]), spec_parse_usize(ts[1])) {
            (Some(row), Some(col)) => Some((row, col)),
            _ => None,
        }
    } else {
        None
    }
}

/// Extending a digit string never shrinks its value.
proof fn lemma_digits_val_prefix(t: Seq<char>, j: int)
    requires
        0 <= j <= t.len(),
    ensures
        digits_val(t.take(j)) <= digits_val(t),
    decreases t.len(),
{
    if j < t.len() {
        assert(t.drop_last().take(j) =~= t.take(j));
        lemma_digits_val_prefix(t.drop_last(), j);
    } else {
        assert(t.take(j) =~= t);
    }
}

/// Whether `c` separates tokens.
fn is_space_char(c: char) -> (b: bool)
    ensures
        b == is_space(c),
{
    let u: u32 = c as u32;
    (0x09 <= u && u <= 0x0D) || u == 0x20 || u == 0x85 || u == 0xA0 || u == 0x1680
        || (0x2000 <= u && u <= 0x200A) || u == 0x2028 || u == 0x2029 || u == 0x202F
        || u == 0x205F || u == 0x3000
}

/// Scans `s` from position `i` to the start of the next token.
pub(crate) fn next_token_start(s: &str, i: usize, n: usize) -> (r: usize)
    requires
        n == s@.len(),
        i <= n,
    ensures
        r == token_start(s@, i as int),
        i <= r <= n,
        r < n ==> !is_space(s@[r as int]),
{
    let mut j: usize = i;
    while j < n && is_space_char(s.get_char(j))
        invariant
            n == s@.len(),
            i <= j <= n,
            token_start(s@, i as int) == token_start(s@, j as int),
        decreases n - j,
    {
        j = j + 1;
    }
    j
}

/// Scans `s` from the token start `i` to the position just past the token.
pub(crate) fn next_token_end(s: &str, i: usize, n: usize) -> (r: usize)
    requires
        n == s@.len(),
        i <= n,
    ensures
        r == token_end(s@, i as int),
        i <= r <= n,
        r < n ==> is_space(s@[r as int]),
{
    let mut j: usize = i;
    while j < n && !is_space_char(s.get_char(j))
        invariant
            n == s@.len(),
            i <= j <= n,
            token_end(s@, i as int) == token_end(s@, j as int),
        decreases n - j,
    {
        j = j + 1;
    }
    j
}

/// Parses the token `s[from..to]` as a non-negative machine integer.
pub(crate) fn parse_usize_token(s: &str, from: usize, to: usize, n: usize) -> (r: Option<usize>)
    requires
        n == s@.len(),
        from < to <= n,
    ensures
        r == spec_parse_usize(s@.subrange(from as int, to as int)),
{
    let ghost t = s@.subrange(from as int, to as int);
    let first = s.get_char(from);
    let start: usize = if first == '+' {
        from + 1
    } else {
        from
    };
    proof {
        assert(t[0] == s@[from as int]);
        assert(token_digits(t) =~= s@.subrange(start as int, to as int));
    }
    let ghost digits = token_digits(t);
    if start == to {
        // The token is a bare sign with no digits.
        proof {
            assert(!is_numeric_token(t));
        }
        return None;
    }
    let mut acc: usize = 0;
    let mut k: usize = start;
    while k < to
        invariant
            n == s@.len(),
            start <= k <= to <= n,
            t == s@.subrange(from as int, to as int),
            digits == token_digits(t),
            digits == s@.subrange(start as int, to as int),
            forall|i: int| 0 <= i < k - start ==> is_digit(digits[i]),
            acc == digits_val(digits.take(k - start)),
        decreases to - k,
    {
        let c = s.get_char(k);
        proof {
            assert(digits[k - start] == s@[k as int]);
        }
        let d: u32 = c as u32;
        if d < 48 || d > 57 {
            proof {
                assert(!is_digit(digits[k - start]));
                assert(!is_numeric_token(t));
            }
            return None;
        }
        let v: usize = (d - 48) as usize;
        proof {
            assert(digits.take(k - start + 1).drop_last() =~= digits.take(k - start));
            assert(digits.take(k - start + 1).last() == digits[k - start]);
            assert(digits_val(digits.take(k - start + 1)) == acc * 10 + v);
        }
        let grown = match acc.checked_mul(10) {
            Some(m) => m.checked_add(v),
            None => None,
        };
        match grown {
            Some(next_acc) => {
                acc = next_acc;
            },
            None => {
                proof {
                    lemma_digits_val_prefix(digits, k - start + 1);
                    assert(digits_val(digits) > usize::MAX);
                }
                return None;
            },
        }
        k = k + 1;
    }
    proof {
        assert(digits.take(to - start) =~= digits);
        assert(is_numeric_token(t));
    }
    Some(acc)
}

} // verus!
