//! Argument extractors for macro lines: a text argument (bare word or
//! double-quoted phrase, run through the style segmenter) and a numeric
//! argument (decimal digits bounded to the 8-bit range). Each consumes
//! one leading run of whitespace and, on success, hands back the
//! unconsumed remainder of the line.

use vstd::prelude::*;
use vstd::string::*;

use crate::styled_text::chars_of;
use crate::styled_text::segment_spec;
use crate::styled_text::string_of;
use crate::styled_text::text_view;
use crate::styled_text::eat_text;
use crate::styled_text::StringStyle;
use crate::styled_text::StyledText;

verus! {

/// The whitespace that separates macro arguments.
pub open spec fn is_arg_space(c: char) -> bool {
    c == ' ' || c == '\t'
}

/// The first position at or after `i` that holds no argument whitespace,
/// or the length of `s` when only whitespace is left.
pub open spec fn ws_end(s: Seq<char>, i: nat) -> nat
    decreases s.len() - i,
{
    if i >= s.len() {
        s.len() as nat
    } else if is_arg_space(s[i as int]) {
        ws_end(s, (i + 1) as nat)
    } else {
        i
    }
}

/// The first position at or after `i` that holds the character `c`, or
/// the length of `s` when `c` does not occur there.
pub open spec fn find_char(s: Seq<char>, i: nat, c: char) -> nat
    decreases s.len() - i,
{
    if i >= s.len() {
        s.len() as nat
    } else if s[i as int] == c {
        i
    } else {
        find_char(s, (i + 1) as nat, c)
    }
}

/// What extracting a text argument from `s` yields: the unconsumed
/// remainder and the argument's styled runs. After one leading run of
/// whitespace the argument is either a double-quoted phrase (the quotes
/// stripped, nothing inside them escaped) or a bare word ending at the
/// next space; an opening quote with no closing one starts a bare word.
/// It fails without leading whitespace or without content.
pub open spec fn txt_arg_spec(s: Seq<char>) -> Option<(Seq<char>, Seq<(StringStyle, Seq<char>)>)> {
    let w = ws_end(s, 0);
    if w == 0 || w >= s.len() {
        None
    } else if s[w as int] == '"' && find_char(s, (w + 1) as nat, '"') < s.len() {
        let q = find_char(s, (w + 1) as nat, '"');
        Some(
            (
                s.subrange(q as int + 1, s.len() as int),
                segment_spec(s.subrange(w as int + 1, q as int)),
            ),
        )
    } else {
        let e = find_char(s, w, ' ');
        Some(
            (s.subrange(e as int, s.len() as int), segment_spec(s.subrange(w as int, e as int))),
        )
    }
}

/// A decimal digit.
pub open spec fn is_digit(c: char) -> bool {
    48 <= c as u32 <= 57
}

/// The value of one decimal digit.
pub open spec fn digit_val(c: char) -> nat {
    (c as u32 - 48) as nat
}

/// The first position at or after `i` that holds no decimal digit, or
/// the length of `s` when only digits are left.
pub open spec fn digits_end(s: Seq<char>, i: nat) -> nat
    decreases s.len() - i,
{
    if i >= s.len() {
        s.len() as nat
    } else if is_digit(s[i as int]) {
        digits_end(s, (i + 1) as nat)
    } else {
        i
    }
}

/// The value of the decimal digits of `s` between `from` and `to`.
pub open spec fn digits_val(s: Seq<char>, from: nat, to: nat) -> nat
    decreases to - from,
{
    if to <= from {
        0
    } else {
        digits_val(s, from, (to - 1) as nat) * 10 + digit_val(s[to as int - 1])
    }
}

/// What extracting a numeric argument from `s` yields: the unconsumed
/// remainder and the number. After one leading run of whitespace it
/// takes one or more decimal digits; it fails without leading
/// whitespace, without a digit, or when the digits exceed the 8-bit
/// range.
pub open spec fn num_arg_spec(s: Seq<char>) -> Option<(Seq<char>, u8)> {
    let w = ws_end(s, 0);
    if w == 0 || w >= s.len() || !is_digit(s[w as int]) {
        None
    } else {
        let d = digits_end(s, w);
        let val = digits_val(s, w, d);
        if val > 255 {
            None
        } else {
            Some((s.subrange(d as int, s.len() as int), val as u8))
        }
    }
}

/// Skips the leading argument whitespace of `v`.
fn skip_spaces(v: &Vec<char>) -> (w: usize)
    ensures
        w == ws_end(v@, 0),
        w <= v@.len(),
{
    let n = v.len();
    let mut w: usize = 0;
    while w < n && (v[w] == ' ' || v[w] == '\t')
        invariant
            w <= n,
            ws_end(v@, 0) == ws_end(v@, w as nat),
        decreases n - w,
    {
        w = w + 1;
    }
    assert(ws_end(v@, w as nat) == w as nat);
    w
}

/// The text-argument extractor: one leading run of whitespace, then a
/// quoted phrase or a bare word, segmented into styled runs. On success
/// the remainder of the line comes back with the runs.
pub fn txt_arg<'a>(given: &'a str) -> (r: Option<(&'a str, StyledText)>)
    ensures
        match r {
            Some((rest, t)) => {
                &&& txt_arg_spec(given@) matches Some(p)
                &&& rest@ == p.0
                &&& text_view(t@) == p.1
            },
            None => txt_arg_spec(given@) is None,
        },
{
    let v = chars_of(given);
    let n = v.len();
    let w = skip_spaces(&v);
    if w == 0 || w >= n {
        return None;
    }
    if v[w] == '"' {
        let mut q: usize = w + 1;
        while q < n && v[q] != '"'
            invariant
                w + 1 <= q <= n,
                find_char(v@, (w + 1) as nat, '"') == find_char(v@, q as nat, '"'),
            decreases n - q,
        {
            q = q + 1;
        }
        assert(find_char(v@, q as nat, '"') == if q < n {
            q as nat
        } else {
            v@.len()
        });
        if q < n {
            let arg = string_of(&v, w + 1, q);
            let t = eat_text(arg.as_str());
            let rest = given.substring_char(q + 1, n);
            return Some((rest, t));
        }
    }
    let mut e: usize = w;
    while e < n && v[e] != ' '
        invariant
            w <= e <= n,
            find_char(v@, w as nat, ' ') == find_char(v@, e as nat, ' '),
        decreases n - e,
    {
        e = e + 1;
    }
    assert(find_char(v@, e as nat, ' ') == if e < n {
        e as nat
    } else {
        v@.len()
    });
    let arg = string_of(&v, w, e);
    let t = eat_text(arg.as_str());
    let rest = given.substring_char(e, n);
    Some((rest, t))
}

/// The numeric-argument extractor: one leading run of whitespace, then
/// one or more decimal digits, which must fit in eight bits. On success
/// the remainder of the line comes back with the number.
pub fn num_arg<'a>(given: &'a str) -> (r: Option<(&'a str, u8)>)
    ensures
        match r {
            Some((rest, num)) => {
                &&& num_arg_spec(given@) matches Some(p)
                &&& rest@ == p.0
                &&& num == p.1
            },
            None => num_arg_spec(given@) is None,
        },
{
    let v = chars_of(given);
    let n = v.len();
    let w = skip_spaces(&v);
    if w == 0 || w >= n {
        return None;
    }
    let c0 = v[w] as u32;
    if !(48 <= c0 && c0 <= 57) {
        return None;
    }
    let mut d: usize = w;
    let mut acc: u32 = 0;
    let mut over: bool = false;
    while d < n && 48 <= (v[d] as u32) && (v[d] as u32) <= 57
        invariant
            w <= d <= n,
            digits_end(v@, w as nat) == digits_end(v@, d as nat),
            !over ==> acc == digits_val(v@, w as nat, d as nat) && acc <= 255,
            over ==> digits_val(v@, w as nat, d as nat) > 255,
        decreases n - d,
    {
        let dv = v[d] as u32 - 48;
        let ghost dg = d as nat;
        proof {
            assert(digits_val(v@, w as nat, (dg + 1) as nat) == digits_val(v@, w as nat, dg) * 10
                + digit_val(v@[dg as int]));
        }
        if over {
        } else {
            let tmp = acc * 10 + dv;
            if tmp > 255 {
                over = true;
            } else {
                acc = tmp;
            }
        }
        d = d + 1;
    }
    assert(digits_end(v@, d as nat) == if d < n {
        d as nat
    } else {
        v@.len()
    });
    if over {
        return None;
    }
    let rest = given.substring_char(d, n);
    Some((rest, acc as u8))
}

} // verus!
