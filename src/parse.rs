//! Scalar values of the register description: integers and access modes.
use vstd::prelude::*;
use vstd::string::{StrSliceExecFns, StringExecFns};
use crate::model::Access;

verus! {

/// The value of digit `c` in base `radix` (2, 10 or 16), if it is one.
pub open spec fn digit_value(c: char, radix: nat) -> Option<nat> {
    let v: int = if '0' <= c && c <= '9' {
        c as int - '0' as int
    } else if 'a' <= c && c <= 'f' {
        c as int - 'a' as int + 10
    } else if 'A' <= c && c <= 'F' {
        c as int - 'A' as int + 10
    } else {
        -1
    };
    if 0 <= v < radix {
        Some(v as nat)
    } else {
        None
    }
}

/// The number that the digits `s` write in base `radix`; `None` if one is not a digit.
pub open spec fn digits_value(s: Seq<char>, radix: nat) -> Option<nat>
    decreases s.len(),
{
    if s.len() == 0 {
        Some(0)
    } else {
        match digits_value(s.drop_last(), radix) {
            None => None,
            Some(p) => match digit_value(s.last(), radix) {
                None => None,
                Some(d) => Some(p * radix + d),
            },
        }
    }
}

/// The digits and base of an integer literal: `0x` or `0X` introduces
/// hexadecimal, `#` binary, anything else is decimal.
pub open spec fn literal_parts(s: Seq<char>) -> (Seq<char>, nat) {
    if s.len() >= 2 && s[0] == '0' && (s[1] == 'x' || s[1] == 'X') {
        (s.subrange(2, s.len() as int), 16)
    } else if s.len() >= 1 && s[0] == '#' {
        (s.subrange(1, s.len() as int), 2)
    } else {
        (s, 10)
    }
}

/// The value of an integer literal of the description, if it is well formed.
pub open spec fn svd_integer(s: Seq<char>) -> Option<nat> {
    let (digits, radix) = literal_parts(s);
    if digits.len() == 0 {
        None
    } else {
        digits_value(digits, radix)
    }
}

proof fn lemma_digits_monotone(s: Seq<char>, radix: nat, i: int)
    requires
        0 <= i <= s.len(),
        radix >= 1,
        digits_value(s.take(i), radix) is Some,
        digits_value(s, radix) is Some,
    ensures
        digits_value(s, radix).unwrap() >= digits_value(s.take(i), radix).unwrap(),
    decreases s.len() - i,
{
    if i < s.len() {
        assert(s.take(i + 1).drop_last() =~= s.take(i));
        lemma_digits_some_prefix(s, radix, i + 1);
        let p = digits_value(s.take(i), radix).unwrap();
        let q = digits_value(s.take(i + 1), radix).unwrap();
        assert(q >= p) by (nonlinear_arith)
            requires
                radix >= 1,
                q >= p * radix,
        {}
        lemma_digits_monotone(s, radix, i + 1);
    } else {
        assert(s.take(i) =~= s);
    }
}

proof fn lemma_digits_some_prefix(s: Seq<char>, radix: nat, i: int)
    requires
        0 <= i <= s.len(),
        digits_value(s, radix) is Some,
    ensures
        digits_value(s.take(i), radix) is Some,
    decreases s.len() - i,
{
    if i < s.len() {
        lemma_digits_some_prefix(s, radix, i + 1);
        assert(s.take(i + 1).drop_last() =~= s.take(i));
    } else {
        assert(s.take(i) =~= s);
    }
}

proof fn lemma_digits_none_persists(s: Seq<char>, radix: nat, i: int)
    requires
        0 <= i <= s.len(),
        digits_value(s.take(i), radix) is None,
    ensures
        digits_value(s, radix) is None,
{
    if digits_value(s, radix) is Some {
        lemma_digits_some_prefix(s, radix, i);
    }
}

fn digit(c: char, radix: u64) -> (r: Option<u64>)
    requires
        radix == 2 || radix == 10 || radix == 16,
    ensures
        match digit_value(c, radix as nat) {
            Some(v) => r == Some(v as u64),
            None => r is None,
        },
{
    let v: u64 = if '0' <= c && c <= '9' {
        (c as u32 - '0' as u32) as u64
    } else if 'a' <= c && c <= 'f' {
        (c as u32 - 'a' as u32 + 10) as u64
    } else if 'A' <= c && c <= 'F' {
        (c as u32 - 'A' as u32 + 10) as u64
    } else {
        return None;
    };
    if v < radix {
        Some(v)
    } else {
        None
    }
}

/// Reads an integer literal of the description: decimal, hexadecimal after
/// `0x` or `0X`, or binary after `#`. `None` where it is malformed or does
/// not fit 64 bits.
pub fn parse_integer(s: &str) -> (r: Option<u64>)
    ensures
        match svd_integer(s@) {
            Some(v) => if v <= u64::MAX {
                r == Some(v as u64)
            } else {
                r is None
            },
            None => r is None,
        },
{
    let n = s.unicode_len();
    let mut start: usize = 0;
    let mut radix: u64 = 10;
    if n >= 2 && s.get_char(0) == '0' && (s.get_char(1) == 'x' || s.get_char(1) == 'X') {
        start = 2;
        radix = 16;
    } else if n >= 1 && s.get_char(0) == '#' {
        start = 1;
        radix = 2;
    }
    let ghost digits = literal_parts(s@).0;
    assert(digits =~= s@.subrange(start as int, n as int));
    assert(literal_parts(s@).1 == radix as nat);
    if start == n {
        return None;
    }
    assert(svd_integer(s@) == digits_value(digits, radix as nat));
    let mut value: u64 = 0;
    let mut i: usize = start;
    assert(digits.take(0) =~= Seq::<char>::empty());
    while i < n
        invariant
            n == s@.len(),
            start <= i <= n,
            start < n,
            radix == 2 || radix == 10 || radix == 16,
            digits == s@.subrange(start as int, n as int),
            svd_integer(s@) == digits_value(digits, radix as nat),
            digits_value(digits.take(i - start), radix as nat) == Some(value as nat),
        decreases n - i,
    {
        let c = s.get_char(i);
        let ghost k: int = i - start;
        assert(digits.take(k + 1).drop_last() =~= digits.take(k));
        assert(digits.take(k + 1).last() == c);
        let d = match digit(c, radix) {
            Some(d) => d,
            None => {
                proof {
                    lemma_digits_none_persists(digits, radix as nat, k + 1);
                }
                return None;
            },
        };
        let next = match value.checked_mul(radix) {
            Some(m) => m.checked_add(d),
            None => None,
        };
        match next {
            Some(v) => {
                value = v;
            },
            None => {
                proof {
                    assert(value * radix + d > u64::MAX);
                    if digits_value(digits, radix as nat) is Some {
                        lemma_digits_monotone(digits, radix as nat, k + 1);
                    }
                }
                return None;
            },
        }
        i = i + 1;
    }
    assert(digits.take(n - start) =~= digits);
    Some(value)
}

/// The access mode that an `access` value of the description names.
pub open spec fn access_of(s: Seq<char>) -> Option<Access> {
    if s == "read-only"@ {
        Some(Access::ReadOnly)
    } else if s == "write-only"@ || s == "writeOnce"@ {
        Some(Access::WriteOnly)
    } else if s == "read-write"@ || s == "read-writeOnce"@ {
        Some(Access::ReadWrite)
    } else {
        None
    }
}

/// Reads an `access` value: `read-only`, `write-only`, `writeOnce`,
/// `read-write` or `read-writeOnce`.
pub fn parse_access(s: &String) -> (r: Option<Access>)
    ensures
        r == access_of(s@),
{
    if *s == String::from_str("read-only") {
        Some(Access::ReadOnly)
    } else if *s == String::from_str("write-only") || *s == String::from_str("writeOnce") {
        Some(Access::WriteOnly)
    } else if *s == String::from_str("read-write") || *s == String::from_str("read-writeOnce") {
        Some(Access::ReadWrite)
    } else {
        None
    }
}

} // verus!
