use vstd::prelude::*;
use crate::console::{all_digits, chars_of, digits_value, is_digit, lemma_digits_value_prefix, trim, trimmed};

verus! {

/// What `str::parse::<i32>` gives: an optional sign, when more follows it,
/// then at least one decimal digit and nothing else, of a value in `i32`.
pub open spec fn spec_parse_i32(s: Seq<char>) -> Option<i32> {
    let negative = is_negative(s);
    let body = signed_body(s);
    if body.len() == 0 || !all_digits(body) {
        None
    } else if negative {
        if digits_value(body) <= 0x8000_0000 {
            Some((0 - digits_value(body)) as i32)
        } else {
            None
        }
    } else if digits_value(body) <= 0x7fff_ffff {
        Some(digits_value(body) as i32)
    } else {
        None
    }
}

/// `s` starts with a minus sign that more follows.
pub open spec fn is_negative(s: Seq<char>) -> bool {
    s.len() > 1 && s[0] == '-'
}

/// `s` without the sign that may lead a number, when more follows it.
pub open spec fn signed_body(s: Seq<char>) -> Seq<char> {
    if s.len() > 1 && (s[0] == '+' || s[0] == '-') {
        s.drop_first()
    } else {
        s
    }
}

/// Why a text is not an age.
#[derive(Debug, Clone, Copy, PartialEq, Eq, Structural)]
pub enum AgeError {
    /// The trimmed text is not an `i32`.
    Parse,
    /// The number is zero or negative.
    Negative,
}

/// The age that a text holds: the text trimmed and parsed as `i32`, which
/// must be positive.
pub open spec fn spec_age(content: Seq<char>) -> Result<i32, AgeError> {
    match spec_parse_i32(trim(content)) {
        None => Err(AgeError::Parse),
        Some(n) => if n > 0 { Ok(n) } else { Err(AgeError::Negative) },
    }
}

/// Parses an `i32` as `str::parse` does.
pub fn parse_i32(s: &Vec<char>) -> (r: Option<i32>)
    ensures
        r == spec_parse_i32(s@),
{
    let negative = s.len() > 1 && s[0] == '-';
    let start: usize = if s.len() > 1 && (s[0] == '+' || s[0] == '-') { 1 } else { 0 };
    let ghost body = signed_body(s@);
    assert(body =~= s@.skip(start as int));
    if start == s.len() {
        return None;
    }
    let limit: u64 = if negative { 0x8000_0000 } else { 0x7fff_ffff };
    let mut value: u64 = 0;
    let mut i = start;
    while i < s.len()
        invariant
            start <= i <= s@.len(),
            body == s@.skip(start as int),
            body == signed_body(s@),
            negative == is_negative(s@),
            limit == (if negative { 0x8000_0000u64 } else { 0x7fff_ffffu64 }),
            forall|j: int| 0 <= j < i - start ==> is_digit(#[trigger] body[j]),
            value == digits_value(body.take(i - start)),
            value <= limit,
        decreases s@.len() - i,
    {
        let c = s[i];
        if c < '0' || c > '9' {
            assert(!is_digit(body[i - start]));
            assert(!all_digits(body));
            return None;
        }
        let d = (c as u32 - '0' as u32) as u64;
        assert(body.take(i - start + 1).drop_last() =~= body.take(i - start));
        assert(body.take(i - start + 1).last() == c);
        let next = value * 10 + d;
        if next > limit {
            proof {
                if all_digits(body) {
                    lemma_digits_value_prefix(body, i - start + 1);
                }
            }
            return None;
        }
        value = next;
        i = i + 1;
    }
    assert(body.take(body.len() as int) =~= body);
    assert(all_digits(body));
    if negative {
        Some((0 - (value as i64)) as i32)
    } else {
        Some(value as i32)
    }
}

/// The age held by a text.
pub fn parse_age(content: &str) -> (r: Result<i32, AgeError>)
    ensures
        r == spec_age(content@),
{
    let all = chars_of(content);
    let t = trimmed(&all, 0, all.len());
    assert(all@.subrange(0, all@.len() as int) =~= content@);
    match parse_i32(&t) {
        None => Err(AgeError::Parse),
        Some(n) => if n > 0 { Ok(n) } else { Err(AgeError::Negative) },
    }
}

} // verus!
