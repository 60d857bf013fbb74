use vstd::prelude::*;

use crate::model::{MAX_AREA_PER_FRAME, MAX_HEIGHT, MAX_WIDTH};
use crate::text::{chars_of, owned, trim_chars, trim_seq};

verus! {

/// `c` is an ASCII decimal digit.
pub open spec fn is_digit(c: char) -> bool {
    '0' <= c <= '9'
}

/// The value of a string of decimal digits.
pub open spec fn digits_value(s: Seq<char>) -> int
    decreases s.len(),
{
    if s.len() == 0 {
        0
    } else {
        digits_value(s.drop_last()) * 10 + (s.last() as int - '0' as int)
    }
}

/// What `u16`'s `from_str` reads from `s`: an optional `+`, then one or
/// more decimal digits whose value fits in a `u16`.
pub open spec fn spec_parse_u16(s: Seq<char>) -> Option<u16> {
    let d = sign_stripped(s);
    if d.len() > 0 && all_digits(d) && digits_value(d) <= u16::MAX {
        Some(digits_value(d) as u16)
    } else {
        None
    }
}

/// `s` without one leading `+`.
pub open spec fn sign_stripped(s: Seq<char>) -> Seq<char> {
    if s.len() > 0 && s[0] == '+' { s.drop_first() } else { s }
}

/// Every character of `d` is a decimal digit.
pub open spec fn all_digits(d: Seq<char>) -> bool {
    forall|i: int| 0 <= i < d.len() ==> is_digit(#[trigger] d[i])
}

proof fn lemma_digits_value_nonneg(s: Seq<char>)
    requires
        forall|i: int| 0 <= i < s.len() ==> is_digit(#[trigger] s[i]),
    ensures
        digits_value(s) >= 0,
        s.len() > 0 ==> digits_value(s) >= digits_value(s.drop_last()),
    decreases s.len(),
{
    if s.len() > 0 {
        assert forall|i: int| 0 <= i < s.drop_last().len() implies is_digit(#[trigger] s.drop_last()[i]) by {
            assert(s.drop_last()[i] == s[i]);
        }
        lemma_digits_value_nonneg(s.drop_last());
        assert(is_digit(s[s.len() - 1]));
    }
}

/// Reads a `u16` the way `from_str` does.
pub fn parse_u16(s: &Vec<char>) -> (r: Option<u16>)
    ensures
        r == spec_parse_u16(s@),
{
    let mut i: usize = 0;
    if s.len() > 0 && s[0] == '+' {
        i = 1;
    }
    let ghost d = sign_stripped(s@);
    proof {
        assert(d =~= s@.skip(i as int));
    }
    if i >= s.len() {
        proof {
            assert(d.len() == 0);
        }
        return None;
    }
    let start = i;
    let mut value: u32 = 0;
    while i < s.len()
        invariant
            start <= i <= s@.len(),
            start == 0 || start == 1,
            d == s@.skip(start as int),
            d == sign_stripped(s@),
            value <= 65535,
            forall|j: int| 0 <= j < i - start ==> is_digit(#[trigger] d[j]),
            value == digits_value(d.take(i - start)),
        decreases s.len() - i,
    {
        let c = s[i];
        if !('0' <= c && c <= '9') {
            proof {
                assert(d[i - start] == c);
                assert(!is_digit(d[(i - start) as int]));
                assert(!all_digits(d));
            }
            return None;
        }
        let digit = (c as u32) - ('0' as u32);
        let next = value * 10 + digit;
        proof {
            assert(d[i - start] == c);
            assert(d.take(i - start + 1).drop_last() == d.take(i - start));
            assert(d.take(i - start + 1).last() == c);
        }
        if next > 65535 {
            proof {
                assert forall|j: int| 0 <= j < i - start + 1 implies is_digit(#[trigger] d.take(i - start + 1)[j]) by {
                    assert(d.take(i - start + 1)[j] == d[j]);
                }
                lemma_prefix_value_bound(d, i - start + 1);
                assert(next == digits_value(d.take(i - start + 1)));
                if all_digits(d) {
                    assert(digits_value(d) > 65535);
                }
            }
            return None;
        }
        value = next;
        i += 1;
    }
    proof {
        assert(d.take(i - start) == d);
    }
    Some(value as u16)
}

/// A string of digits is worth at least as much as any prefix of it, when
/// all of it is digits.
proof fn lemma_prefix_value_bound(d: Seq<char>, k: int)
    requires
        0 <= k <= d.len(),
        forall|j: int| 0 <= j < k ==> is_digit(#[trigger] d[j]),
    ensures
        (forall|i: int| 0 <= i < d.len() ==> is_digit(#[trigger] d[i])) ==> digits_value(d) >= digits_value(d.take(k)),
    decreases d.len() - k,
{
    if k < d.len() && (forall|i: int| 0 <= i < d.len() ==> is_digit(#[trigger] d[i])) {
        lemma_prefix_value_bound(d, k + 1);
        assert(d.take(k + 1).drop_last() == d.take(k));
        assert forall|i: int| 0 <= i < d.take(k).len() implies is_digit(#[trigger] d.take(k)[i]) by {
            assert(d.take(k)[i] == d[i]);
        }
        lemma_digits_value_nonneg(d.take(k));
        assert(is_digit(d[k]));
        assert(d.take(k + 1).last() == d[k]);
    }
    if k == d.len() {
        assert(d.take(k) == d);
    }
}

/// The index of the first `c` in `s`, if any.
pub open spec fn first_index(s: Seq<char>, c: char) -> Option<int> {
    if exists|i: int| 0 <= i < s.len() && s[i] == c {
        Some(choose|i: int| 0 <= i < s.len() && s[i] == c && forall|j: int| 0 <= j < i ==> s[j] != c)
    } else {
        None
    }
}

/// The canvas size `WIDTHxHEIGHT` (surrounding whitespace ignored) names,
/// when both numbers are positive and within the limits.
pub open spec fn spec_parse_dimensions(input: Seq<char>) -> Option<(u16, u16)> {
    let t = trim_seq(input);
    match first_index(t, 'x') {
        None => None,
        Some(i) => match (spec_parse_u16(t.take(i)), spec_parse_u16(t.skip(i + 1))) {
            (Some(w), Some(h)) => if w == 0 || h == 0 || w > MAX_WIDTH || h > MAX_HEIGHT || w * h > MAX_AREA_PER_FRAME {
                None
            } else {
                Some((w, h))
            },
            _ => None,
        },
    }
}

/// Reads a canvas size written `WIDTHxHEIGHT`.
pub fn parse_dimensions(input: &str) -> (r: Option<(u16, u16)>)
    ensures
        r == spec_parse_dimensions(input@),
{
    let chars = chars_of(input);
    let t = trim_chars(&chars);
    let mut i: usize = 0;
    while i < t.len() && t[i] != 'x'
        invariant
            i <= t@.len(),
            forall|j: int| 0 <= j < i ==> t@[j] != 'x',
        decreases t.len() - i,
    {
        i += 1;
    }
    if i >= t.len() {
        proof {
            assert(!exists|j: int| 0 <= j < t@.len() && t@[j] == 'x');
        }
        return None;
    }
    proof {
        assert(t@[i as int] == 'x');
        let k = choose|k: int| 0 <= k < t@.len() && t@[k] == 'x' && forall|j: int| 0 <= j < k ==> t@[j] != 'x';
        assert(k == i);
    }
    let mut left: Vec<char> = Vec::new();
    let mut j: usize = 0;
    while j < i
        invariant
            j <= i < t@.len(),
            left@ == t@.take(j as int),
        decreases i - j,
    {
        left.push(t[j]);
        proof {
            assert(t@.take(j + 1) == t@.take(j as int).push(t@[j as int]));
        }
        j += 1;
    }
    let mut right: Vec<char> = Vec::new();
    let mut k: usize = i + 1;
    while k < t.len()
        invariant
            i + 1 <= k <= t@.len(),
            right@ == t@.subrange(i + 1, k as int),
        decreases t.len() - k,
    {
        right.push(t[k]);
        proof {
            assert(t@.subrange(i + 1, k + 1) == t@.subrange(i + 1, k as int).push(t@[k as int]));
        }
        k += 1;
    }
    proof {
        assert(right@ == t@.skip(i + 1));
    }
    let width = match parse_u16(&left) {
        Some(w) => w,
        None => {
            return None;
        },
    };
    let height = match parse_u16(&right) {
        Some(h) => h,
        None => {
            return None;
        },
    };
    proof {
        assert((width as int) * (height as int) <= 65535 * 65535) by (nonlinear_arith)
            requires width <= 65535, height <= 65535;
        assert((width as int) * (height as int) >= 0) by (nonlinear_arith)
            requires width >= 0, height >= 0;
    }
    if width == 0 || height == 0 || width > MAX_WIDTH || height > MAX_HEIGHT || (width as u64) * (height as u64)
        > MAX_AREA_PER_FRAME {
        return None;
    }
    Some((width, height))
}

/// The message a bad `--new` size is refused with.
pub open spec fn dimensions_error_text() -> Seq<char> {
    "expected dimensions as WIDTHxHEIGHT within 500x300 and 150000 total cells"@
}

/// Reads the size given for a new canvas, or says what it should look like.
pub fn parse_new_dimensions(input: &str) -> (r: Result<(u16, u16), String>)
    ensures
        match spec_parse_dimensions(input@) {
            Some(d) => r == Ok::<(u16, u16), String>(d),
            None => r matches Err(e) && e@ == dimensions_error_text(),
        },
{
    match parse_dimensions(input) {
        Some(d) => Ok(d),
        None => Err(owned("expected dimensions as WIDTHxHEIGHT within 500x300 and 150000 total cells")),
    }
}

} // verus!
