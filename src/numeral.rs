//! Unsigned numerals as the console writes them: an optional `+` followed by
//! one or more digits of the given radix.

use vstd::prelude::*;
use vstd::string::StrSliceExecFns;

verus! {

/// The value of `c` as a digit of `radix` (at most 16), if it is one.
pub open spec fn digit_value(c: char, radix: u32) -> Option<nat> {
    let v: int = if '0' <= c && c <= '9' {
        c as int - '0' as int
    } else if 'a' <= c && c <= 'f' {
        c as int - 'a' as int + 10
    } else if 'A' <= c && c <= 'F' {
        c as int - 'A' as int + 10
    } else {
        -1
    };
    if 0 <= v && v < radix as int {
        Some(v as nat)
    } else {
        None
    }
}

/// Every character of `s` is a digit of `radix`.
pub open spec fn all_digits(s: Seq<char>, radix: u32) -> bool {
    forall|i: int| 0 <= i < s.len() ==> (#[trigger] digit_value(s[i], radix)).is_some()
}

/// The number that the digits `s` spell in `radix`, most significant first.
pub open spec fn digits_value(s: Seq<char>, radix: u32) -> nat
    decreases s.len(),
{
    if s.len() == 0 {
        0
    } else {
        digits_value(s.drop_last(), radix) * radix as nat + digit_value(s.last(), radix).unwrap_or(0)
    }
}

/// The digits of a numeral: what follows a leading `+`, if there is one.
pub open spec fn numeral_digits(s: Seq<char>) -> Seq<char> {
    if s.len() > 0 && s[0] == '+' {
        s.drop_first()
    } else {
        s
    }
}

/// The value that `s` denotes as an unsigned numeral in `radix` no greater
/// than `max`, or `None` where `s` is no such numeral.
pub open spec fn numeral_value(s: Seq<char>, radix: u32, max: nat) -> Option<nat> {
    let d = numeral_digits(s);
    if d.len() > 0 && all_digits(d, radix) && digits_value(d, radix) <= max {
        Some(digits_value(d, radix))
    } else {
        None
    }
}

proof fn lemma_digits_value_prefix(s: Seq<char>, radix: u32, k: int)
    requires
        0 <= k <= s.len(),
        1 <= radix,
    ensures
        digits_value(s.subrange(0, k), radix) <= digits_value(s, radix),
    decreases s.len(),
{
    if k < s.len() {
        lemma_digits_value_prefix(s.drop_last(), radix, k);
        assert(s.drop_last().subrange(0, k) =~= s.subrange(0, k));
        let a = digits_value(s.drop_last(), radix);
        assert(a * radix as nat >= a) by (nonlinear_arith)
            requires radix >= 1;
    } else {
        assert(s.subrange(0, k) =~= s);
    }
}

fn char_digit(c: char, radix: u32) -> (r: Option<u32>)
    requires
        radix <= 16,
    ensures
        r matches Some(v) ==> digit_value(c, radix) == Some(v as nat),
        r is None ==> digit_value(c, radix) is None,
{
    let v: u32 = if '0' <= c && c <= '9' {
        (c as u32) - ('0' as u32)
    } else if 'a' <= c && c <= 'f' {
        (c as u32) - ('a' as u32) + 10
    } else if 'A' <= c && c <= 'F' {
        (c as u32) - ('A' as u32) + 10
    } else {
        16
    };
    if v < radix {
        Some(v)
    } else {
        None
    }
}

/// Reads `s` as an unsigned numeral in `radix` whose value is at most `max`.
pub fn parse_numeral(s: &str, radix: u32, max: u64) -> (r: Option<u64>)
    requires
        2 <= radix <= 16,
    ensures
        r matches Some(v) ==> numeral_value(s@, radix, max as nat) == Some(v as nat),
        r is None ==> numeral_value(s@, radix, max as nat) is None,
{
    let len = s.unicode_len();
    let mut start: usize = 0;
    if len > 0 && s.get_char(0) == '+' {
        start = 1;
    }
    let ghost d = numeral_digits(s@);
    proof {
        assert(d =~= s@.subrange(start as int, len as int));
    }
    if start == len {
        return None;
    }
    let mut acc: u64 = 0;
    let mut i: usize = start;
    while i < len
        invariant
            start <= i <= len,
            len == s@.len(),
            d == s@.subrange(start as int, len as int),
            d == numeral_digits(s@),
            2 <= radix <= 16,
            all_digits(d.subrange(0, i - start), radix),
            acc as nat == digits_value(d.subrange(0, i - start), radix),
            acc <= max,
        decreases len - i,
    {
        let c = s.get_char(i);
        let dv = char_digit(c, radix);
        let ghost k: int = i - start;
        proof {
            assert(d[k] == c);
        }
        match dv {
            None => {
                proof {
                    assert(digit_value(d[k], radix) is None);
                    assert(!all_digits(d, radix));
                    assert(numeral_value(s@, radix, max as nat) is None);
                }
                return None;
            },
            Some(v) => {
                let ghost p = d.subrange(0, k + 1);
                proof {
                    assert(p.drop_last() =~= d.subrange(0, k));
                    assert(p.last() == c);
                    assert(all_digits(p, radix));
                }
                if v as u64 > max || acc > (max - v as u64) / (radix as u64) {
                    proof {
                        if v as u64 <= max {
                            assert((acc as int) * (radix as int) + v as int > max as int) by (nonlinear_arith)
                                requires
                                    acc as int > (max as int - v as int) / (radix as int),
                                    radix >= 2;
                        } else {
                            assert((acc as int) * (radix as int) >= 0) by (nonlinear_arith)
                                requires acc >= 0, radix >= 2;
                        }
                        if all_digits(d, radix) {
                            lemma_digits_value_prefix(d, radix, k + 1);
                            assert(digits_value(p, radix) > max);
                        }
                        assert(numeral_value(s@, radix, max as nat) is None);
                    }
                    return None;
                }
                proof {
                    assert((acc as int) * (radix as int) + v as int <= max as int) by (nonlinear_arith)
                        requires
                            acc as int <= (max as int - v as int) / (radix as int),
                            radix >= 2;
                }
                acc = acc * (radix as u64) + v as u64;
            },
        }
        i = i + 1;
    }
    proof {
        assert(d.subrange(0, len - start) =~= d);
    }
    Some(acc)
}

} // verus!
