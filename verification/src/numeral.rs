//! Decimal numerals: reading a list position from a token and writing one
//! for an enumeration.

use vstd::prelude::*;

verus! {

/// Why a token is not a list position.
#[derive(Clone, Copy, Debug, PartialEq, Eq, Structural)]
pub enum IndexError {
    /// The token is empty.
    Empty,
    /// The token holds something that is not a decimal digit.
    InvalidDigit,
    /// The number does not fit the machine's word.
    TooLarge,
}

/// Whether `c` is one of `0` to `9`.
pub open spec fn is_digit(c: char) -> bool {
    '0' <= c <= '9'
}

/// The value of a decimal digit.
pub open spec fn digit_value(c: char) -> nat {
    (c as nat - '0' as nat) as nat
}

/// The number that a sequence of decimal digits writes.
pub open spec fn number(digits: Seq<char>) -> nat
    decreases digits.len(),
{
    if digits.len() == 0 {
        0
    } else {
        number(digits.drop_last()) * 10 + digit_value(digits.last())
    }
}

/// How many decimal digits `s` begins with.
pub open spec fn digit_run(s: Seq<char>) -> nat
    decreases s.len(),
{
    if s.len() == 0 || !is_digit(s[0]) {
        0
    } else {
        1 + digit_run(s.drop_first())
    }
}

/// What reading `s` as a number up to `limit` gives. The digits are taken
/// from the left: a number that has outgrown `limit` is `TooLarge` whatever
/// follows, and else a character that is no digit is `InvalidDigit`.
pub open spec fn scanned(s: Seq<char>, limit: nat) -> Result<nat, IndexError> {
    let run = digit_run(s);
    if number(s.take(run as int)) > limit {
        Err(IndexError::TooLarge)
    } else if run < s.len() {
        Err(IndexError::InvalidDigit)
    } else {
        Ok(number(s))
    }
}

/// The list position that a token writes: decimal digits, with `+` allowed
/// in front of them. Zero is a number like any other here; that it is no
/// position of any list is for the ledger to say.
pub open spec fn index_of_token(s: Seq<char>) -> Result<nat, IndexError> {
    if s.len() == 0 {
        Err(IndexError::Empty)
    } else if s[0] == '+' {
        if s.len() == 1 {
            Err(IndexError::InvalidDigit)
        } else {
            scanned(s.drop_first(), usize::MAX as nat)
        }
    } else {
        scanned(s, usize::MAX as nat)
    }
}

/// The decimal digit for a value below ten.
pub open spec fn digit_char(d: nat) -> char {
    if d == 0 {
        '0'
    } else if d == 1 {
        '1'
    } else if d == 2 {
        '2'
    } else if d == 3 {
        '3'
    } else if d == 4 {
        '4'
    } else if d == 5 {
        '5'
    } else if d == 6 {
        '6'
    } else if d == 7 {
        '7'
    } else if d == 8 {
        '8'
    } else {
        '9'
    }
}

/// The decimal numeral of `n`, without leading zeros.
pub open spec fn decimal_text(n: nat) -> Seq<char>
    decreases n,
{
    if n < 10 {
        seq![digit_char(n)]
    } else {
        decimal_text(n / 10).push(digit_char(n % 10))
    }
}

/// A run of digits stops at the first character that is no digit.
proof fn lemma_digit_run(s: Seq<char>, n: int)
    requires
        0 <= n <= s.len(),
        forall|i: int| 0 <= i < n ==> is_digit(s[i]),
        n < s.len() ==> !is_digit(s[n]),
    ensures
        digit_run(s) == n,
    decreases n,
{
    if n > 0 {
        lemma_digit_run(s.drop_first(), n - 1);
    }
}

/// The number written by a longer run of digits is no smaller.
proof fn lemma_number_grows(s: Seq<char>, a: int, b: int)
    requires
        0 <= a <= b <= s.len(),
    ensures
        number(s.take(a)) <= number(s.take(b)),
    decreases b - a,
{
    if a < b {
        lemma_number_grows(s, a, b - 1);
        assert(s.take(b).drop_last() =~= s.take(b - 1));
    }
}

/// How many characters a sign in front takes up.
spec fn skipped(plus: bool) -> int {
    if plus {
        1
    } else {
        0
    }
}

/// Reads a list position from a token.
pub fn parse_index(token: &str) -> (r: Result<usize, IndexError>)
    ensures
        match r {
            Ok(n) => index_of_token(token@) == Ok::<nat, IndexError>(n as nat),
            Err(e) => index_of_token(token@) == Err::<nat, IndexError>(e),
        },
{
    let mut started = false;
    let mut plus = false;
    let mut any_digit = false;
    let mut value: usize = 0;
    for c in iter: token.chars()
        invariant
            iter.seq() == token@,
            started == (iter.index() > 0),
            plus ==> started && token@[0] == '+',
            started && !plus ==> token@[0] != '+',
            any_digit == (iter.index() > skipped(plus)),
            forall|j: int| skipped(plus) <= j < iter.index() ==> is_digit(token@[j]),
            iter.index() >= skipped(plus) ==> value == number(
                token@.subrange(skipped(plus), iter.index() as int),
            ),
    {
        let ghost k = iter.index() as int;
        let ghost from = skipped(plus);
        let ghost digits = token@.skip(from);
        if !started && c == '+' {
            plus = true;
        } else {
            if !('0' <= c && c <= '9') {
                proof {
                    lemma_digit_run(digits, k - from);
                    assert(digits.take(k - from) =~= token@.subrange(from, k));
                    assert(token@.skip(0) =~= token@);
                }
                return Err(IndexError::InvalidDigit);
            }
            let d: usize = (c as u32 - '0' as u32) as usize;
            proof {
                assert(token@.subrange(from, k + 1).drop_last() =~= token@.subrange(from, k));
            }
            if value > (usize::MAX - d) / 10 {
                proof {
                    lemma_run_reaches(digits, k + 1 - from);
                    lemma_number_grows(digits, k + 1 - from, digit_run(digits) as int);
                    assert(digits.take(k + 1 - from) =~= token@.subrange(from, k + 1));
                    assert(token@.skip(0) =~= token@);
                }
                return Err(IndexError::TooLarge);
            }
            value = value * 10 + d;
            any_digit = true;
        }
        started = true;
    }
    if !started {
        return Err(IndexError::Empty);
    }
    if !any_digit {
        return Err(IndexError::InvalidDigit);
    }
    proof {
        let from = skipped(plus);
        let digits = token@.skip(from);
        lemma_digit_run(digits, digits.len() as int);
        assert(digits.take(digits.len() as int) =~= digits);
        assert(token@.skip(0) =~= token@);
    }
    Ok(value)
}

/// A run of digits is at least as long as any stretch of digits at the
/// front, and no longer than the whole.
proof fn lemma_run_reaches(s: Seq<char>, n: int)
    requires
        0 <= n <= s.len(),
        forall|i: int| 0 <= i < n ==> is_digit(s[i]),
    ensures
        n <= digit_run(s) <= s.len(),
    decreases s.len(),
{
    if s.len() > 0 && is_digit(s[0]) {
        lemma_run_reaches(s.drop_first(), if n > 0 {
            n - 1
        } else {
            0
        });
    }
}

/// The text of one decimal digit.
fn digit_text(d: usize) -> (text: &'static str)
    requires
        d < 10,
    ensures
        text@ == seq![digit_char(d as nat)],
{
    proof {
        reveal_strlit("0");
        reveal_strlit("1");
        reveal_strlit("2");
        reveal_strlit("3");
        reveal_strlit("4");
        reveal_strlit("5");
        reveal_strlit("6");
        reveal_strlit("7");
        reveal_strlit("8");
        reveal_strlit("9");
    }
    if d == 0 {
        "0"
    } else if d == 1 {
        "1"
    } else if d == 2 {
        "2"
    } else if d == 3 {
        "3"
    } else if d == 4 {
        "4"
    } else if d == 5 {
        "5"
    } else if d == 6 {
        "6"
    } else if d == 7 {
        "7"
    } else if d == 8 {
        "8"
    } else {
        "9"
    }
}

/// The decimal numeral of `n`.
pub fn decimal(n: usize) -> (text: String)
    ensures
        text@ == decimal_text(n as nat),
    decreases n,
{
    if n < 10 {
        digit_text(n).to_owned()
    } else {
        let mut text = decimal(n / 10);
        text.append(digit_text(n % 10));
        text
    }
}

} // verus!
