//! The after-hours rule: read the clock hour out of an event's datetime
//! string and decide whether the event falls into the restricted evening
//! range.
//!
//! The hour is the text before the first `:` of the second
//! whitespace-separated token, read as a decimal `u32` (an optional leading
//! `+` is accepted). A datetime the rule cannot read is not an error: the
//! event simply counts as inside permitted hours.

use vstd::prelude::*;
use vstd::string::StrSliceExecFns;

verus! {

/// Unicode white space, the characters `str::split_whitespace` splits on.
pub open spec fn is_space(c: char) -> bool {
    let u = c as u32;
    u == 0x20 || (0x09 <= u && u <= 0x0d) || u == 0x85 || u == 0xa0 || u == 0x1680 || (0x2000 <= u
        && u <= 0x200a) || u == 0x2028 || u == 0x2029 || u == 0x202f || u == 0x205f || u == 0x3000
}

/// Executable twin of `is_space`.
pub fn is_space_char(c: char) -> (r: bool)
    ensures
        r == is_space(c),
{
    let u = c as u32;
    u == 0x20 || (0x09 <= u && u <= 0x0d) || u == 0x85 || u == 0xa0 || u == 0x1680 || (0x2000 <= u
        && u <= 0x200a) || u == 0x2028 || u == 0x2029 || u == 0x202f || u == 0x205f || u == 0x3000
}

/// Drop leading white space.
pub open spec fn skip_spaces(s: Seq<char>) -> Seq<char>
    decreases s.len(),
{
    if s.len() > 0 && is_space(s[0]) {
        skip_spaces(s.skip(1))
    } else {
        s
    }
}

/// Drop a leading run of non-space characters.
pub open spec fn skip_token(s: Seq<char>) -> Seq<char>
    decreases s.len(),
{
    if s.len() > 0 && !is_space(s[0]) {
        skip_token(s.skip(1))
    } else {
        s
    }
}

/// The leading run of non-space characters.
pub open spec fn take_token(s: Seq<char>) -> Seq<char>
    decreases s.len(),
{
    if s.len() > 0 && !is_space(s[0]) {
        seq![s[0]] + take_token(s.skip(1))
    } else {
        Seq::empty()
    }
}

/// The second whitespace-separated token, or empty when there is none.
pub open spec fn second_token(s: Seq<char>) -> Seq<char> {
    take_token(skip_spaces(skip_token(skip_spaces(s))))
}

/// The text before the first `:`, or all of it when there is no `:`.
pub open spec fn before_colon(s: Seq<char>) -> Seq<char>
    decreases s.len(),
{
    if s.len() > 0 && s[0] != ':' {
        seq![s[0]] + before_colon(s.skip(1))
    } else {
        Seq::empty()
    }
}

/// An ASCII decimal digit.
pub open spec fn is_digit(c: char) -> bool {
    0x30 <= c as u32 && c as u32 <= 0x39
}

/// The value of one digit.
pub open spec fn digit_val(c: char) -> int {
    c as u32 - 0x30
}

/// Every character is a digit.
pub open spec fn all_digits(s: Seq<char>) -> bool {
    forall|i: int| 0 <= i < s.len() ==> is_digit(#[trigger] s[i])
}

/// The decimal value of a digit string.
pub open spec fn digits_val(s: Seq<char>) -> int
    decreases s.len(),
{
    if s.len() == 0 {
        0
    } else {
        digits_val(s.drop_last()) * 10 + digit_val(s.last())
    }
}

/// The digits of a number literal: everything after an optional leading `+`.
pub open spec fn sans_sign(s: Seq<char>) -> Seq<char> {
    if s.len() > 0 && s[0] == '+' {
        s.skip(1)
    } else {
        s
    }
}

/// What `str::parse::<u32>` accepts: an optional `+`, then one or more
/// decimal digits whose value fits in a `u32`.
pub open spec fn parse_u32_spec(s: Seq<char>) -> Option<u32> {
    if sans_sign(s).len() > 0 && all_digits(sans_sign(s)) && digits_val(sans_sign(s)) <= u32::MAX {
        Some(digits_val(sans_sign(s)) as u32)
    } else {
        None
    }
}

/// The hour read from a datetime string, when it can be read at all.
pub open spec fn hour_of(datetime: Seq<char>) -> Option<u32> {
    parse_u32_spec(before_colon(second_token(datetime)))
}

/// The after-hours rule: a readable hour of 20 or later.
pub open spec fn is_after_hours(datetime: Seq<char>) -> bool {
    match hour_of(datetime) {
        Some(h) => h >= 20,
        None => false,
    }
}

/// A digit string's value never shrinks when the string grows.
proof fn lemma_digits_val_bounds(s: Seq<char>, k: int)
    requires
        all_digits(s),
        0 <= k <= s.len(),
    ensures
        0 <= digits_val(s.take(k)) <= digits_val(s),
    decreases s.len(),
{
    if s.len() == 0 {
        assert(s.take(k) =~= s);
    } else {
        let p = s.drop_last();
        assert(all_digits(p));
        lemma_digits_val_bounds(p, if k <= p.len() {
            k
        } else {
            p.len() as int
        });
        assert(p.take(p.len() as int) =~= p);
        if k <= p.len() {
            assert(s.take(k) =~= p.take(k));
        } else {
            assert(s.take(k) =~= s);
        }
    }
}

/// Parse a decimal `u32`, as `str::parse::<u32>` does.
pub fn parse_u32_str(s: &str) -> (r: Option<u32>)
    ensures
        r == parse_u32_spec(s@),
{
    let n = s.unicode_len();
    let start: usize = if n > 0 && s.get_char(0) == '+' {
        1
    } else {
        0
    };
    let ghost t = sans_sign(s@);
    proof {
        assert(t =~= s@.skip(start as int));
    }
    if start >= n {
        return None;
    }
    let mut acc: u64 = 0;
    let mut j: usize = start;
    while j < n
        invariant
            n == s@.len(),
            start <= j <= n,
            start < n,
            t == s@.skip(start as int),
            t == sans_sign(s@),
            all_digits(t.take(j - start)),
            acc == digits_val(t.take(j - start)),
            acc <= u32::MAX,
        decreases n - j,
    {
        let c = s.get_char(j);
        let u = c as u32;
        if u < 0x30 || u > 0x39 {
            proof {
                assert(t[j - start] == s@[j as int]);
                assert(!is_digit(t[j - start]));
                assert(!all_digits(t));
                assert(parse_u32_spec(s@) is None);
            }
            return None;
        }
        acc = acc * 10 + ((u - 0x30) as u64);
        proof {
            assert(t.take(j - start + 1).drop_last() =~= t.take(j - start));
            assert(t.take(j - start + 1).last() == s@[j as int]);
        }
        if acc > 0xffff_ffff {
            proof {
                if all_digits(t) {
                    lemma_digits_val_bounds(t, j - start + 1);
                    assert(digits_val(t) > u32::MAX);
                }
                assert(parse_u32_spec(s@) is None);
            }
            return None;
        }
        j += 1;
    }
    proof {
        assert(t.take(n - start) =~= t);
    }
    Some(acc as u32)
}

/// Read the hour component out of a datetime string. `None` is not an
/// error: it reports that the string has no readable hour.
pub fn parse_hour(datetime: &str) -> (r: Option<u32>)
    ensures
        r == hour_of(datetime@),
{
    let s = datetime;
    let n = s.unicode_len();
    let mut i: usize = 0;
    proof {
        assert(s@.skip(0) =~= s@);
    }
    while i < n && is_space_char(s.get_char(i))
        invariant
            n == s@.len(),
            i <= n,
            skip_spaces(s@) == skip_spaces(s@.skip(i as int)),
        decreases n - i,
    {
        proof {
            assert(s@.skip(i as int).skip(1) =~= s@.skip(i + 1));
        }
        i += 1;
    }
    proof {
        if i == n {
            assert(s@.skip(i as int) =~= Seq::<char>::empty());
        }
        assert(skip_spaces(s@) == s@.skip(i as int));
    }
    let ghost after_first_spaces = s@.skip(i as int);
    let mut j: usize = i;
    while j < n && !is_space_char(s.get_char(j))
        invariant
            n == s@.len(),
            i <= j <= n,
            skip_token(after_first_spaces) == skip_token(s@.skip(j as int)),
            after_first_spaces == s@.skip(i as int),
        decreases n - j,
    {
        proof {
            assert(s@.skip(j as int).skip(1) =~= s@.skip(j + 1));
        }
        j += 1;
    }
    proof {
        if j == n {
            assert(s@.skip(j as int) =~= Seq::<char>::empty());
        }
        assert(skip_token(after_first_spaces) == s@.skip(j as int));
    }
    let ghost after_token = s@.skip(j as int);
    let mut k: usize = j;
    while k < n && is_space_char(s.get_char(k))
        invariant
            n == s@.len(),
            j <= k <= n,
            skip_spaces(after_token) == skip_spaces(s@.skip(k as int)),
            after_token == s@.skip(j as int),
        decreases n - k,
    {
        proof {
            assert(s@.skip(k as int).skip(1) =~= s@.skip(k + 1));
        }
        k += 1;
    }
    proof {
        if k == n {
            assert(s@.skip(k as int) =~= Seq::<char>::empty());
        }
        assert(skip_spaces(after_token) == s@.skip(k as int));
    }
    let mut m: usize = k;
    proof {
        assert(s@.subrange(k as int, k as int) + take_token(s@.skip(k as int)) =~= take_token(
            s@.skip(k as int),
        ));
    }
    while m < n && !is_space_char(s.get_char(m))
        invariant
            n == s@.len(),
            k <= m <= n,
            take_token(s@.skip(k as int)) == s@.subrange(k as int, m as int) + take_token(
                s@.skip(m as int),
            ),
        decreases n - m,
    {
        proof {
            assert(s@.skip(m as int)[0] == s@[m as int]);
            assert(s@.skip(m as int).skip(1) =~= s@.skip(m + 1));
            assert(s@.subrange(k as int, m as int) + seq![s@[m as int]] =~= s@.subrange(
                k as int,
                m + 1,
            ));
            assert(s@.subrange(k as int, m as int) + (seq![s@[m as int]] + take_token(
                s@.skip(m + 1),
            )) =~= s@.subrange(k as int, m + 1) + take_token(s@.skip(m + 1)));
        }
        m += 1;
    }
    proof {
        if m == n {
            assert(s@.skip(m as int) =~= Seq::<char>::empty());
        }
        assert(take_token(s@.skip(m as int)) == Seq::<char>::empty());
        assert(s@.subrange(k as int, m as int) + Seq::<char>::empty() =~= s@.subrange(
            k as int,
            m as int,
        ));
        assert(second_token(s@) == s@.subrange(k as int, m as int));
    }
    let token = s.substring_char(k, m);
    let tn = token.unicode_len();
    let mut p: usize = 0;
    proof {
        assert(token@.skip(0) =~= token@);
        assert(token@.subrange(0, 0) + before_colon(token@) =~= before_colon(token@));
    }
    while p < tn && token.get_char(p) != ':'
        invariant
            tn == token@.len(),
            p <= tn,
            before_colon(token@) == token@.subrange(0, p as int) + before_colon(
                token@.skip(p as int),
            ),
        decreases tn - p,
    {
        proof {
            assert(token@.skip(p as int)[0] == token@[p as int]);
            assert(token@.skip(p as int).skip(1) =~= token@.skip(p + 1));
            assert(token@.subrange(0, p as int) + (seq![token@[p as int]] + before_colon(
                token@.skip(p + 1),
            )) =~= token@.subrange(0, p + 1) + before_colon(token@.skip(p + 1)));
        }
        p += 1;
    }
    proof {
        if p == tn {
            assert(token@.skip(p as int) =~= Seq::<char>::empty());
        }
        assert(before_colon(token@.skip(p as int)) == Seq::<char>::empty());
        assert(token@.subrange(0, p as int) + Seq::<char>::empty() =~= token@.subrange(
            0,
            p as int,
        ));
    }
    let hour_text = token.substring_char(0, p);
    proof {
        assert(hour_text@ == before_colon(second_token(s@)));
    }
    parse_u32_str(hour_text)
}

} // verus!
