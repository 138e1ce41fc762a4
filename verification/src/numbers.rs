//! Parsing of unsigned integers from text, with the rules of the standard
//! library's `FromStr` for unsigned types: an optional `+`, then one or more
//! ASCII digits, and a value that fits the type.

use vstd::prelude::*;

verus! {

pub open spec fn is_digit(c: char) -> bool {
    '0' <= c && c <= '9'
}

pub open spec fn all_digits(s: Seq<char>) -> bool {
    forall|i: int| 0 <= i < s.len() ==> is_digit(#[trigger] s[i])
}

/// The value of a string of decimal digits.
pub open spec fn digits_value(s: Seq<char>) -> int
    decreases s.len(),
{
    if s.len() == 0 {
        0
    } else {
        digits_value(s.drop_last()) * 10 + (s.last() as int - '0' as int)
    }
}

/// The digits that follow an optional leading `+`.
pub open spec fn unsigned_body(s: Seq<char>) -> Seq<char> {
    if s.len() > 0 && s[0] == '+' { s.skip(1) } else { s }
}

/// What parsing `s` as an unsigned integer no larger than `max` gives.
pub open spec fn parse_unsigned(s: Seq<char>, max: int) -> Option<int> {
    let body = unsigned_body(s);
    if body.len() == 0 || !all_digits(body) || digits_value(body) > max {
        None
    } else {
        Some(digits_value(body))
    }
}

proof fn lemma_digits_value_nonneg(s: Seq<char>)
    requires
        all_digits(s),
    ensures
        digits_value(s) >= 0,
    decreases s.len(),
{
    if s.len() > 0 {
        lemma_digits_value_nonneg(s.drop_last());
    }
}

/// A parsed value lies between zero and the bound.
pub proof fn lemma_parse_unsigned_range(s: Seq<char>, max: int)
    ensures
        parse_unsigned(s, max) matches Some(v) ==> 0 <= v <= max,
{
    let body = unsigned_body(s);
    if all_digits(body) {
        lemma_digits_value_nonneg(body);
    }
}

proof fn lemma_digits_value_prefix(s: Seq<char>, i: int)
    requires
        all_digits(s),
        0 <= i <= s.len(),
    ensures
        digits_value(s.subrange(0, i)) <= digits_value(s),
    decreases s.len() - i,
{
    if i < s.len() {
        lemma_digits_value_prefix(s, i + 1);
        assert(s.subrange(0, i + 1).drop_last() =~= s.subrange(0, i));
        lemma_digits_value_nonneg(s.subrange(0, i));
    } else {
        assert(s.subrange(0, i) =~= s);
    }
}

/// Parses `s` as an unsigned integer no larger than `max`.
pub fn parse_unsigned_chars(s: &Vec<char>, max: u64) -> (r: Option<u64>)
    ensures
        r matches Some(v) ==> parse_unsigned(s@, max as int) == Some(v as int),
        r is None ==> parse_unsigned(s@, max as int) is None,
{
    let start: usize = if s.len() > 0 && s[0] == '+' { 1 } else { 0 };
    let ghost body = unsigned_body(s@);
    assert(body =~= s@.subrange(start as int, s@.len() as int));
    if start == s.len() {
        return None;
    }
    let mut i = start;
    let mut value: u64 = 0;
    while i < s.len()
        invariant
            start <= i <= s.len(),
            body == s@.subrange(start as int, s@.len() as int),
            body == unsigned_body(s@),
            all_digits(s@.subrange(start as int, i as int)),
            value as int == digits_value(s@.subrange(start as int, i as int)),
            value <= max,
        decreases s.len() - i,
    {
        let c = s[i];
        let ghost prev = s@.subrange(start as int, i as int);
        let ghost next = s@.subrange(start as int, i + 1);
        assert(next.drop_last() =~= prev);
        if !('0' <= c && c <= '9') {
            assert(body[i - start] == c);
            assert(!is_digit(body[i - start]));
            assert(!all_digits(body));
            return None;
        }
        let d = (c as u32 - '0' as u32) as u64;
        let wide: u128 = value as u128 * 10 + d as u128;
        if wide > max as u128 {
            proof {
                assert(next.last() == c);
                assert(d as int == c as int - '0' as int);
                assert(digits_value(next) == value * 10 + d);
                assert(digits_value(next) > max);
                assert forall|k: int| 0 <= k < next.len() implies is_digit(#[trigger] next[k]) by {
                    if k < prev.len() {
                        assert(next[k] == prev[k]);
                    }
                }
                assert(all_digits(next));
                let rest_len = s.len() - start;
                if all_digits(body) {
                    assert(next =~= body.subrange(0, i + 1 - start));
                    lemma_digits_value_prefix(body, i + 1 - start);
                    assert(digits_value(body) > max);
                }
            }
            return None;
        }
        value = wide as u64;
        i = i + 1;
        assert forall|k: int| 0 <= k < next.len() implies is_digit(#[trigger] next[k]) by {
            if k < prev.len() {
                assert(next[k] == prev[k]);
            }
        }
    }
    Some(value)
}

/// What parsing `s` as an `i64` gives, by the rules of the standard
/// library: an optional `+` or `-`, then one or more ASCII digits, and a value
/// within the type's range.
pub open spec fn parse_signed(s: Seq<char>) -> Option<int> {
    if s.len() == 0 {
        None
    } else if s[0] == '-' || s[0] == '+' {
        let b = s.skip(1);
        if b.len() > 0 && b[0] != '+' {
            if s[0] == '-' {
                match parse_unsigned(b, 0x8000_0000_0000_0000) {
                    Some(v) => Some(-v),
                    None => None,
                }
            } else {
                parse_unsigned(b, i64::MAX as int)
            }
        } else {
            None
        }
    } else {
        parse_unsigned(s, i64::MAX as int)
    }
}

/// Parses `s` as an `i64`.
pub fn parse_signed_chars(s: &Vec<char>) -> (r: Option<i64>)
    ensures
        r matches Some(v) ==> parse_signed(s@) == Some(v as int),
        r is None ==> parse_signed(s@) is None,
{
    if s.len() == 0 {
        return None;
    }
    if s[0] == '-' || s[0] == '+' {
        let mut rest: Vec<char> = Vec::new();
        let mut i: usize = 1;
        while i < s.len()
            invariant
                1 <= i <= s@.len(),
                rest@ == s@.subrange(1, i as int),
            decreases s@.len() - i,
        {
            rest.push(s[i]);
            assert(rest@ =~= s@.subrange(1, i + 1));
            i = i + 1;
        }
        assert(rest@ =~= s@.skip(1));
        if rest.len() == 0 || rest[0] == '+' {
            return None;
        }
        if s[0] == '-' {
            match parse_unsigned_chars(&rest, 0x8000_0000_0000_0000) {
                Some(v) => {
                    proof { lemma_parse_unsigned_range(rest@, 0x8000_0000_0000_0000); }
                    if v == 0x8000_0000_0000_0000 {
                        Some(i64::MIN)
                    } else {
                        Some(-(v as i64))
                    }
                },
                None => None,
            }
        } else {
            match parse_unsigned_chars(&rest, 0x7fff_ffff_ffff_ffff) {
                Some(v) => Some(v as i64),
                None => None,
            }
        }
    } else {
        assert(unsigned_body(s@) == s@);
        match parse_unsigned_chars(s, 0x7fff_ffff_ffff_ffff) {
            Some(v) => Some(v as i64),
            None => None,
        }
    }
}

} // verus!
