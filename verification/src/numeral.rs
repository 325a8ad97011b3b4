//! Reading an unsigned integer written in some radix as std does: an
//! optional `+`, then at least one digit, with a value that fits the type.

use vstd::prelude::*;

verus! {

/// The value of the digit `c` in `radix` (at most 36): `0`-`9`, then the
/// letters of either case from 10 on; `None` for any other character or a
/// digit not below the radix.
pub open spec fn digit_value(c: char, radix: nat) -> Option<nat> {
    let code = c as u32;
    let v: Option<nat> = if 48 <= code <= 57 {
        Some((code - 48) as nat)
    } else if 97 <= code <= 122 {
        Some((code - 97 + 10) as nat)
    } else if 65 <= code <= 90 {
        Some((code - 65 + 10) as nat)
    } else {
        None
    };
    match v {
        Some(d) => if d < radix {
            Some(d)
        } else {
            None
        },
        None => None,
    }
}

/// The value of a run of digits, most significant first (0 for no digits);
/// `None` when a character is not a digit.
pub open spec fn digits_value(s: Seq<char>, radix: nat) -> Option<nat>
    decreases s.len(),
{
    if s.len() == 0 {
        Some(0)
    } else {
        match (digits_value(s.drop_last(), radix), digit_value(s.last(), radix)) {
            (Some(high), Some(d)) => Some(high * radix + d),
            _ => None,
        }
    }
}

/// The value `from_str_radix` reads for an unsigned type from `s`, before
/// the range check: an optional `+`, then one digit or more.
pub open spec fn unsigned_text_value(s: Seq<char>, radix: nat) -> Option<nat> {
    let body = if s.len() > 0 && s[0] == '+' {
        s.subrange(1, s.len() as int)
    } else {
        s
    };
    if body.len() == 0 {
        None
    } else {
        digits_value(body, radix)
    }
}

/// What std's parse of `s` in `radix` into an unsigned type whose largest
/// value is `max` gives: the value when it is at most `max`.
pub open spec fn parsed_unsigned(s: Seq<char>, radix: nat, max: nat) -> Option<nat> {
    match unsigned_text_value(s, radix) {
        Some(v) => if v <= max {
            Some(v)
        } else {
            None
        },
        None => None,
    }
}

/// The value of the digit `c` in `radix`, or `None`.
fn digit_of(c: char, radix: u32) -> (r: Option<u32>)
    requires
        2 <= radix <= 36,
    ensures
        match digit_value(c, radix as nat) {
            Some(d) => r == Some(d as u32),
            None => r is None,
        },
{
    let code = c as u32;
    let v: u32 = if 48 <= code && code <= 57 {
        code - 48
    } else if 97 <= code && code <= 122 {
        code - 97 + 10
    } else if 65 <= code && code <= 90 {
        code - 65 + 10
    } else {
        return None;
    };
    if v < radix {
        Some(v)
    } else {
        None
    }
}

/// A run of digits with a character that is no digit has no value.
proof fn lemma_digits_none(t: Seq<char>, radix: nat, k: int)
    requires
        0 <= k < t.len(),
        digit_value(t[k], radix) is None,
    ensures
        digits_value(t, radix) is None,
    decreases t.len(),
{
    if k < t.len() - 1 {
        lemma_digits_none(t.drop_last(), radix, k);
    }
}

/// Extending a run of digits never lowers its value.
proof fn lemma_digits_grow(t: Seq<char>, radix: nat, m: int, p: nat)
    requires
        radix >= 1,
        0 <= m <= t.len(),
        digits_value(t.subrange(0, m), radix) == Some(p),
    ensures
        digits_value(t, radix) matches Some(v) ==> v >= p,
    decreases t.len(),
{
    if t.len() == m {
        assert(t.subrange(0, m) =~= t);
    } else {
        assert(t.drop_last().subrange(0, m) =~= t.subrange(0, m));
        lemma_digits_grow(t.drop_last(), radix, m, p);
        if let Some(h) = digits_value(t.drop_last(), radix) {
            assert(h * radix >= h) by (nonlinear_arith)
                requires
                    radix >= 1,
            ;
        }
    }
}

/// Read `text` as std reads an unsigned integer in `radix` whose largest
/// value is `max`: the value when `text` is an optional `+` and one digit or
/// more, with a value of at most `max`; `None` otherwise.
pub fn parse_unsigned(text: &str, radix: u32, max: u32) -> (r: Option<u32>)
    requires
        2 <= radix <= 36,
    ensures
        match parsed_unsigned(text@, radix as nat, max as nat) {
            Some(v) => r == Some(v as u32),
            None => r is None,
        },
{
    let ghost s = text@;
    let n = text.unicode_len();
    let mut start: usize = 0;
    if n > 0 && text.get_char(0) == '+' {
        start = 1;
    }
    let ghost body = s.subrange(start as int, n as int);
    assert(body =~= (if s.len() > 0 && s[0] == '+' {
        s.subrange(1, s.len() as int)
    } else {
        s
    }));
    if start == n {
        return None;
    }
    let mut acc: u32 = 0;
    let mut i: usize = start;
    assert(body.subrange(0, 0) =~= Seq::<char>::empty());
    while i < n
        invariant
            s == text@,
            n == s.len(),
            start <= i <= n,
            body == s.subrange(start as int, n as int),
            unsigned_text_value(s, radix as nat) == digits_value(body, radix as nat),
            2 <= radix <= 36,
            digits_value(body.subrange(0, i - start), radix as nat) == Some(acc as nat),
            acc <= max,
        decreases n - i,
    {
        let c = text.get_char(i);
        let ghost prefix = body.subrange(0, i - start + 1);
        assert(prefix.drop_last() =~= body.subrange(0, i - start));
        assert(prefix.last() == c);
        assert(body[i - start] == c);
        match digit_of(c, radix) {
            None => {
                proof {
                    lemma_digits_none(body, radix as nat, i - start);
                }
                return None;
            },
            Some(d) => {
                assert(acc as int * radix as int <= 0xffff_ffff * 36) by (nonlinear_arith)
                    requires
                        acc <= 0xffff_ffffu32,
                        radix <= 36,
                ;
                let wide: u64 = acc as u64 * radix as u64 + d as u64;
                assert(wide == acc as int * radix as int + d as int);
                if wide > max as u64 {
                    proof {
                        lemma_digits_grow(body, radix as nat, i - start + 1, wide as nat);
                    }
                    return None;
                }
                acc = wide as u32;
            },
        }
        i = i + 1;
    }
    assert(body.subrange(0, n - start) =~= body);
    Some(acc)
}

/// Law: the digits of every radix up to 36. `0`-`9` are worth their face
/// value, `a`-`z` and `A`-`Z` are worth 10 to 35, each a digit exactly when
/// its worth is below the radix; no other character is a digit.
pub proof fn law_digit_values(c: char, radix: nat)
    ensures
        '0' <= c <= '9' ==> digit_value(c, radix) == if (c as nat) - ('0' as nat) < radix {
            Some(((c as nat) - ('0' as nat)) as nat)
        } else {
            None
        },
        'a' <= c <= 'z' ==> digit_value(c, radix) == if (c as nat) - ('a' as nat) + 10 < radix {
            Some(((c as nat) - ('a' as nat) + 10) as nat)
        } else {
            None
        },
        'A' <= c <= 'Z' ==> digit_value(c, radix) == if (c as nat) - ('A' as nat) + 10 < radix {
            Some(((c as nat) - ('A' as nat) + 10) as nat)
        } else {
            None
        },
        !('0' <= c <= '9' || 'a' <= c <= 'z' || 'A' <= c <= 'Z') ==> digit_value(c, radix) is None,
{
}

} // verus!
