use crate::text::{chars_of, eq_ignore_ascii_case, matches_ignore_ascii_case};
use vstd::prelude::*;

verus! {

/// How often an element may occur at most.
#[derive(Debug, Clone, Copy, PartialEq, Eq, Structural)]
pub enum Occurence {
    Bound(i64),
    Unbounded,
}

impl Default for Occurence {
    fn default() -> (r: Occurence)
        ensures
            r == Occurence::Unbounded,
    {
        Occurence::Unbounded
    }
}

/// A text that names no occurrence.
#[derive(Debug, PartialEq, Eq)]
pub struct InvalidOccurence {
    pub raw: String,
}

impl Clone for InvalidOccurence {
    fn clone(&self) -> (r: InvalidOccurence)
        ensures
            r.raw@ == self.raw@,
    {
        InvalidOccurence { raw: self.raw.clone() }
    }
}

/// The sentence that reports a text which names no occurrence.
pub open spec fn invalid_occurence_text(raw: Seq<char>) -> Seq<char> {
    "Invalid Occurence `"@ + raw + "` must be a disctete int or `unbounded`"@
}

impl InvalidOccurence {
    /// The sentence that reports this error.
    pub fn message(&self) -> (r: String)
        ensures
            r@ == invalid_occurence_text(self.raw@),
    {
        let mut out = "Invalid Occurence `".to_owned();
        out.append(self.raw.as_str());
        out.append("` must be a disctete int or `unbounded`");
        out
    }
}

/// `c` is one of the ten digits.
pub open spec fn is_digit(c: char) -> bool {
    '0' <= c && c <= '9'
}

/// The number that a digit stands for.
pub open spec fn digit_value(c: char) -> int {
    c as int - '0' as int
}

/// Every character of `s` is a digit.
pub open spec fn all_digits(s: Seq<char>) -> bool {
    forall|i: int| 0 <= i < s.len() ==> is_digit(#[trigger] s[i])
}

/// The number that a row of digits writes in base ten.
pub open spec fn decimal_value(digits: Seq<char>) -> int
    decreases digits.len(),
{
    if digits.len() == 0 {
        0
    } else {
        decimal_value(digits.drop_last()) * 10 + digit_value(digits.last())
    }
}

/// The integer that `s` writes: an optional sign, then at least one digit
/// and only digits, with a value that 64 bits hold.
pub open spec fn integer_of(s: Seq<char>) -> Option<i64> {
    let signed = s.len() > 0 && (s[0] == '-' || s[0] == '+');
    let digits = if signed {
        s.skip(1)
    } else {
        s
    };
    let value = if s.len() > 0 && s[0] == '-' {
        -decimal_value(digits)
    } else {
        decimal_value(digits)
    };
    if digits.len() > 0 && all_digits(digits) && i64::MIN <= value <= i64::MAX {
        Some(value as i64)
    } else {
        None
    }
}

/// The occurrence that `s` names: the word `unbounded`, whatever the case
/// of its letters, or an integer.
pub open spec fn occurence_of(s: Seq<char>) -> Option<Occurence> {
    if eq_ignore_ascii_case(s, "unbounded"@) {
        Some(Occurence::Unbounded)
    } else {
        match integer_of(s) {
            Some(bound) => Some(Occurence::Bound(bound)),
            None => None,
        }
    }
}

/// A row of digits writes no less than any of its beginnings, and nothing
/// below zero.
pub proof fn lemma_decimal_value_grows(digits: Seq<char>, k: int)
    requires
        all_digits(digits),
        0 <= k <= digits.len(),
    ensures
        0 <= decimal_value(digits.take(k)) <= decimal_value(digits),
    decreases digits.len(),
{
    if digits.len() == 0 {
        assert(digits.take(k) =~= digits);
    } else if k == digits.len() {
        assert(digits.take(k) =~= digits);
        lemma_decimal_value_grows(digits.drop_last(), k - 1);
        assert(is_digit(digits.last()));
    } else {
        lemma_decimal_value_grows(digits.drop_last(), k);
        assert(digits.drop_last().take(k) =~= digits.take(k));
        assert(is_digit(digits.last()));
    }
}

/// Reads an integer: an optional sign, then digits.
pub fn parse_integer(cs: &Vec<char>) -> (r: Option<i64>)
    ensures
        r == integer_of(cs@),
{
    let n = cs.len();
    if n == 0 {
        return None;
    }
    let negative = cs[0] == '-';
    let start: usize = if cs[0] == '-' || cs[0] == '+' {
        1
    } else {
        0
    };
    let ghost digits = cs@.skip(start as int);
    if start == n {
        return None;
    }
    proof {
        if start == 0 {
            assert(digits =~= cs@);
        }
        assert(digits.take(0) =~= Seq::<char>::empty());
    }
    let mut acc: i64 = 0;
    let mut i: usize = start;
    while i < n
        invariant
            start <= i <= n,
            n == cs.len(),
            start < n,
            digits == cs@.skip(start as int),
            start == 0 ==> digits == cs@,
            start <= 1,
            (start == 1) == (cs@[0] == '-' || cs@[0] == '+'),
            negative == (cs@[0] == '-'),
            all_digits(digits.take(i - start)),
            negative ==> acc == -decimal_value(digits.take(i - start)),
            !negative ==> acc == decimal_value(digits.take(i - start)),
        decreases n - i,
    {
        let c = cs[i];
        let ghost read = digits.take(i - start);
        let ghost next = digits.take(i - start + 1);
        proof {
            assert(digits[i - start] == c);
            assert(next.drop_last() =~= read);
            assert(next.last() == c);
        }
        if !('0' <= c && c <= '9') {
            assert(!is_digit(digits[i - start]));
            return None;
        }
        let d: i64 = (c as u32 - '0' as u32) as i64;
        proof {
            assert(d == digit_value(c));
            assert forall|j: int| 0 <= j < next.len() implies is_digit(#[trigger] next[j]) by {
                if j < read.len() {
                    assert(next[j] == read[j]);
                }
            }
            assert(decimal_value(next) == decimal_value(read) * 10 + d);
        }
        let step = match acc.checked_mul(10) {
            Some(tenfold) => {
                if negative {
                    tenfold.checked_sub(d)
                } else {
                    tenfold.checked_add(d)
                }
            },
            None => None,
        };
        match step {
            Some(value) => {
                acc = value;
            },
            None => {
                proof {
                    if all_digits(digits) {
                        lemma_decimal_value_grows(digits, i - start + 1);
                        lemma_decimal_value_grows(digits, i - start);
                    }
                }
                return None;
            },
        }
        i += 1;
    }
    proof {
        assert(digits.take(n - start) =~= digits);
    }
    Some(acc)
}

impl Occurence {
    /// Reads an occurrence: an integer, or the word `unbounded`.
    pub fn from_str(s: &str) -> (r: Result<Occurence, InvalidOccurence>)
        ensures
            match r {
                Ok(occurence) => occurence_of(s@) == Some(occurence),
                Err(error) => occurence_of(s@) is None && error.raw@ == s@,
            },
    {
        let cs = chars_of(s);
        if matches_ignore_ascii_case(&cs, "unbounded") {
            Ok(Occurence::Unbounded)
        } else {
            match parse_integer(&cs) {
                Some(bound) => Ok(Occurence::Bound(bound)),
                None => Err(InvalidOccurence { raw: s.to_owned() }),
            }
        }
    }
}

impl core::str::FromStr for Occurence {
    type Err = InvalidOccurence;

    /// Reads an occurrence, as [`Occurence::from_str`] does.
    fn from_str(s: &str) -> (r: Result<Occurence, InvalidOccurence>)
        ensures
            match r {
                Ok(occurence) => occurence_of(s@) == Some(occurence),
                Err(error) => occurence_of(s@) is None && error.raw@ == s@,
            },
    {
        Occurence::from_str(s)
    }
}

} // verus!
