//! The move parser: from a line of text to a coordinate pair, or to the
//! reason for which the line is no move.

use vstd::prelude::*;
use vstd::string::*;

verus! {

/// A move as a player typed it: a column and a row, both 1-based. Whether
/// they address a tile is for the board to say.
#[derive(Debug)]
pub struct Play {
    pub x: usize,
    pub y: usize,
}

/// Why a line of text is no move.
#[derive(Debug)]
pub enum ParsePlayError {
    /// The line does not consist of exactly two tokens.
    BadLen,
    /// A token is no number; it is carried along.
    ParseInt(String),
}

/// What a line of text stands for, as plain values.
pub enum ParsedPlay {
    Coordinate { x: nat, y: nat },
    BadLen,
    ParseInt { token: Seq<char> },
}

/// The pieces of `s` between its space characters, in order. A text without
/// a space is one piece, and two adjacent spaces hold an empty piece.
pub open spec fn split_spaces(s: Seq<char>) -> Seq<Seq<char>>
    decreases s.len(),
{
    if s.len() == 0 {
        seq![Seq::<char>::empty()]
    } else {
        let before = split_spaces(s.drop_last());
        if s.last() == ' ' {
            before.push(Seq::<char>::empty())
        } else {
            before.update(before.len() - 1, before.last().push(s.last()))
        }
    }
}

/// `c` is one of the ten decimal digits.
pub open spec fn is_digit(c: char) -> bool {
    '0' as u32 <= c as u32 <= '9' as u32
}

/// Every character of `t` is a decimal digit.
pub open spec fn all_digits(t: Seq<char>) -> bool {
    forall|i: int| 0 <= i < t.len() ==> is_digit(#[trigger] t[i])
}

/// The number that the digits `t` denote in base ten.
pub open spec fn decimal_value(t: Seq<char>) -> nat
    decreases t.len(),
{
    if t.len() == 0 {
        0
    } else {
        (decimal_value(t.drop_last()) * 10 + (t.last() as u32 - '0' as u32)) as nat
    }
}

/// The token without the plus sign that may precede its digits.
pub open spec fn unsigned_part(t: Seq<char>) -> Seq<char> {
    if t.len() > 0 && t[0] == '+' {
        t.drop_first()
    } else {
        t
    }
}

/// The number that the token `t` denotes, if it is one: at least one decimal
/// digit, a plus sign before them or none, and a value that fits `usize`.
pub open spec fn token_value(t: Seq<char>) -> Option<nat> {
    let digits = unsigned_part(t);
    if digits.len() > 0 && all_digits(digits) && decimal_value(digits) <= usize::MAX {
        Some(decimal_value(digits))
    } else {
        None
    }
}

/// What the line `s` stands for: it must split at spaces into exactly two
/// tokens, and each must denote a number; the first that does not is reported.
pub open spec fn parse_play(s: Seq<char>) -> ParsedPlay {
    let tokens = split_spaces(s);
    if tokens.len() != 2 {
        ParsedPlay::BadLen
    } else if token_value(tokens[0]) is None {
        ParsedPlay::ParseInt { token: tokens[0] }
    } else if token_value(tokens[1]) is None {
        ParsedPlay::ParseInt { token: tokens[1] }
    } else {
        ParsedPlay::Coordinate {
            x: token_value(tokens[0]).unwrap(),
            y: token_value(tokens[1]).unwrap(),
        }
    }
}

/// The result of the parser as plain values.
pub open spec fn parsed(res: Result<Play, ParsePlayError>) -> ParsedPlay {
    match res {
        Ok(play) => ParsedPlay::Coordinate { x: play.x as nat, y: play.y as nat },
        Err(ParsePlayError::BadLen) => ParsedPlay::BadLen,
        Err(ParsePlayError::ParseInt(token)) => ParsedPlay::ParseInt { token: token@ },
    }
}

/// The digits read so far never denote more than the whole does.
pub proof fn lemma_prefix_value(t: Seq<char>, n: int)
    requires
        all_digits(t),
        0 <= n <= t.len(),
    ensures
        decimal_value(t.take(n)) <= decimal_value(t),
    decreases t.len(),
{
    if n == t.len() {
        assert(t.take(n) =~= t);
    } else {
        assert(t.take(n) =~= t.drop_last().take(n));
        lemma_prefix_value(t.drop_last(), n);
    }
}

/// One character more adds one piece if it is a space, and else lengthens
/// the last piece.
pub proof fn lemma_split_step(s: Seq<char>, i: int)
    requires
        0 <= i < s.len(),
    ensures
        split_spaces(s.take(i)).len() >= 1,
        split_spaces(s.take(i + 1)) == if s[i] == ' ' {
            split_spaces(s.take(i)).push(Seq::<char>::empty())
        } else {
            split_spaces(s.take(i)).update(
                split_spaces(s.take(i)).len() - 1,
                split_spaces(s.take(i)).last().push(s[i]),
            )
        },
{
    assert(s.take(i + 1).drop_last() =~= s.take(i));
    lemma_split_nonempty(s.take(i));
}

/// Every text has at least one piece.
pub proof fn lemma_split_nonempty(s: Seq<char>)
    ensures
        split_spaces(s).len() >= 1,
    decreases s.len(),
{
    if s.len() > 0 {
        lemma_split_nonempty(s.drop_last());
    }
}

/// Reads a token as a number: `Some` exactly if it is at least one decimal
/// digit, with a plus sign before them or without, and the value fits.
pub fn parse_number(t: &str) -> (res: Option<usize>)
    ensures
        match res {
            Some(v) => token_value(t@) == Some(v as nat),
            None => token_value(t@) is None,
        },
{
    let n = t.unicode_len();
    let start: usize = if n > 0 && t.get_char(0) == '+' {
        1
    } else {
        0
    };
    if start == n {
        return None;
    }
    let ghost digits = unsigned_part(t@);
    assert(digits =~= t@.subrange(start as int, n as int));
    let mut acc: usize = 0;
    let mut i: usize = start;
    assert(digits.take(0) =~= Seq::<char>::empty());
    while i < n
        invariant
            start <= i <= n,
            n == t@.len(),
            digits == unsigned_part(t@),
            digits == t@.subrange(start as int, n as int),
            all_digits(digits.take(i - start)),
            acc == decimal_value(digits.take(i - start)),
        decreases n - i,
    {
        let c = t.get_char(i);
        let code: u32 = c as u32;
        assert(c == digits[i - start]);
        if code < '0' as u32 || code > '9' as u32 {
            assert(!is_digit(digits[i - start]));
            return None;
        }
        let digit: usize = (code - '0' as u32) as usize;
        proof {
            assert(digits.take(i - start + 1).drop_last() =~= digits.take(i - start));
            assert(digits.take(i - start + 1).last() == c);
            assert(all_digits(digits.take(i - start + 1))) by {
                assert forall|j: int| 0 <= j < i - start + 1 implies is_digit(
                    #[trigger] digits.take(i - start + 1)[j],
                ) by {
                    if j < i - start {
                        assert(digits.take(i - start + 1)[j] == digits.take(i - start)[j]);
                    }
                }
            }
            if all_digits(digits) {
                lemma_prefix_value(digits, i - start + 1);
            }
        }
        let tenfold = match acc.checked_mul(10) {
            Some(v) => v,
            None => { return None; },
        };
        acc = match tenfold.checked_add(digit) {
            Some(v) => v,
            None => { return None; },
        };
        i += 1;
    }
    assert(digits.take(n - start) =~= digits);
    Some(acc)
}

impl Play {
    /// Reads a move from a line of text: two numbers with one space between
    /// them. A line that does not split at spaces into exactly two tokens is
    /// refused as `BadLen`; else the first token that is no number is
    /// refused as `ParseInt` and handed back.
    pub fn from_str(s: &str) -> (res: Result<Play, ParsePlayError>)
        ensures
            parsed(res) == parse_play(s@),
    {
        let n = s.unicode_len();
        let mut spaces: usize = 0;
        let mut first: usize = 0;
        let mut i: usize = 0;
        assert(s@.take(0) =~= Seq::<char>::empty());
        while i < n
            invariant
                i <= n,
                n == s@.len(),
                spaces <= i,
                split_spaces(s@.take(i as int)).len() == spaces + 1,
                spaces == 0 ==> split_spaces(s@.take(i as int)) == seq![s@.take(i as int)],
                spaces == 1 ==> first < i && split_spaces(s@.take(i as int)) == seq![
                    s@.take(first as int),
                    s@.subrange(first + 1, i as int),
                ],
            decreases n - i,
        {
            let c = s.get_char(i);
            proof {
                lemma_split_step(s@, i as int);
                let before = split_spaces(s@.take(i as int));
                let after = split_spaces(s@.take(i + 1));
                if c == ' ' {
                    if spaces == 0 {
                        assert(s@.subrange(i + 1, i + 1) =~= Seq::<char>::empty());
                        assert(after =~= seq![s@.take(i as int), s@.subrange(i + 1, i + 1)]);
                    }
                } else {
                    if spaces == 0 {
                        assert(s@.take(i as int).push(c) =~= s@.take(i + 1));
                        assert(after =~= seq![s@.take(i + 1)]);
                    } else if spaces == 1 {
                        assert(s@.subrange(first + 1, i as int).push(c) =~= s@.subrange(
                            first + 1,
                            i + 1,
                        ));
                        assert(after =~= seq![
                            s@.take(first as int),
                            s@.subrange(first + 1, i + 1),
                        ]);
                    }
                }
            }
            if c == ' ' {
                if spaces == 0 {
                    first = i;
                }
                spaces += 1;
            }
            i += 1;
        }
        assert(s@.take(n as int) =~= s@);
        if spaces != 1 {
            return Err(ParsePlayError::BadLen);
        }
        let x_token = s.substring_char(0, first);
        let y_token = s.substring_char(first + 1, n);
        assert(x_token@ =~= s@.take(first as int));
        match parse_number(x_token) {
            None => Err(ParsePlayError::ParseInt(String::from_str(x_token))),
            Some(x) => match parse_number(y_token) {
                None => Err(ParsePlayError::ParseInt(String::from_str(y_token))),
                Some(y) => Ok(Play { x, y }),
            },
        }
    }
}

impl std::str::FromStr for Play {
    type Err = ParsePlayError;

    /// Reads a move from a line of text, as `Play::from_str` does.
    fn from_str(s: &str) -> (res: Result<Play, ParsePlayError>)
        ensures
            parsed(res) == parse_play(s@),
    {
        Play::from_str(s)
    }
}

} // verus!
