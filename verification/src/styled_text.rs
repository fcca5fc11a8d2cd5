//! Style-tagged text: the escape decoder and the style segmenter.
//!
//! A raw troff text fragment may hold special-character escapes
//! (`\e`, `\-`, `\&`, `\(ti`, ...) and font-switch escapes (`\fB`,
//! `\fI`, `\fR`, `\fP`). The decoder rewrites the former into literal
//! characters; the segmenter splits a fragment on the latter into an
//! ordered sequence of style-tagged runs.

use vstd::prelude::*;
use vstd::string::*;

verus! {

/// The typographic style of one run of text.
#[derive(Debug, PartialEq, Eq, Clone, Copy)]
pub enum StringStyle {
    Roman,
    Bold,
    Italic,
}

/// One run of text tagged with its style. `content` holds literal
/// characters only: every escape sequence has already been resolved.
#[derive(Debug, PartialEq, Eq, Clone)]
pub struct StyledString {
    pub style: StringStyle,
    pub content: String,
}

impl View for StyledString {
    type V = (StringStyle, Seq<char>);

    open spec fn view(&self) -> Self::V {
        (self.style, self.content@)
    }
}

/// Ordered style-tagged runs; the order is the rendering order.
pub type StyledText = Vec<StyledString>;

/// The styles and contents of a sequence of runs, as mathematical values.
pub open spec fn text_view(t: Seq<StyledString>) -> Seq<(StringStyle, Seq<char>)> {
    t.map(|i: int, s: StyledString| s@)
}

/// Relies on std's `String::push`: it appends the given character to the
/// end of the string.
pub assume_specification[ String::push ](s: &mut String, c: char)
    ensures
        final(s)@ == old(s)@.push(c),
;

/// The single characters that may follow a backslash to form a
/// two-character escape.
pub open spec fn is_simple_escape(c: char) -> bool {
    c == 'e' || c == '-' || c == '&'
}

/// The literal expansion of a two-character escape: `\e` is a backslash,
/// `\-` a hyphen, and `\&` expands to nothing.
pub open spec fn simple_expansion(c: char) -> Seq<char> {
    if c == 'e' {
        seq!['\\']
    } else if c == '-' {
        seq!['-']
    } else {
        Seq::<char>::empty()
    }
}

/// The literal expansion of the named glyph escape `\(ab`, when the
/// two-character name `ab` is recognized.
pub open spec fn glyph_expansion(a: char, b: char) -> Option<char> {
    if a == 't' && b == 'i' {
        Some('~')
    } else if a == 'h' && b == 'a' {
        Some('^')
    } else if a == 'g' && b == 'a' {
        Some('`')
    } else if a == 'e' && b == 'n' {
        Some('\u{2013}')
    } else if a == 'e' && b == 'm' {
        Some('\u{2014}')
    } else if a == 'l' && b == 'q' {
        Some('\u{201c}')
    } else if a == 'r' && b == 'q' {
        Some('\u{201d}')
    } else if a == 'd' && b == 'q' {
        Some('"')
    } else if a == 'o' && b == 'q' {
        Some('\u{2018}')
    } else if a == 'c' && b == 'q' {
        Some('\u{2019}')
    } else if a == 'a' && b == 'q' {
        Some('\'')
    } else {
        None
    }
}

/// What decoding the suffix of `s` that starts at `i` yields: the suffix
/// with every escape token replaced by its literal expansion, or `None`
/// when some backslash does not begin a recognized escape.
pub open spec fn decode_from(s: Seq<char>, i: nat) -> Option<Seq<char>>
    decreases s.len() - i,
{
    if i >= s.len() {
        Some(Seq::<char>::empty())
    } else if s[i as int] != '\\' {
        match decode_from(s, (i + 1) as nat) {
            Some(t) => Some(seq![s[i as int]] + t),
            None => None,
        }
    } else if i + 1 < s.len() && is_simple_escape(s[i as int + 1]) {
        match decode_from(s, (i + 2) as nat) {
            Some(t) => Some(simple_expansion(s[i as int + 1]) + t),
            None => None,
        }
    } else if i + 3 < s.len() && s[i as int + 1] == '('
        && glyph_expansion(s[i as int + 2], s[i as int + 3]) is Some {
        match (glyph_expansion(s[i as int + 2], s[i as int + 3]), decode_from(s, (i + 4) as nat)) {
            (Some(c), Some(t)) => Some(seq![c] + t),
            _ => None,
        }
    } else {
        None
    }
}

/// What decoding a whole fragment yields. A fragment with an
/// unrecognized escape decodes to the empty sequence: the failure is
/// local to the fragment and never propagates.
pub open spec fn decoded(s: Seq<char>) -> Seq<char> {
    match decode_from(s, 0) {
        Some(t) => t,
        None => Seq::<char>::empty(),
    }
}

/// The characters of `s`, as a vector.
pub(crate) fn chars_of(s: &str) -> (v: Vec<char>)
    ensures
        v@ == s@,
{
    let n = s.unicode_len();
    let mut v: Vec<char> = Vec::new();
    let mut i: usize = 0;
    while i < n
        invariant
            i <= n,
            v@ == s@.subrange(0, i as int),
        decreases n - i,
    {
        v.push(s.get_char(i));
        i = i + 1;
        assert(v@ =~= s@.subrange(0, i as int));
    }
    assert(v@ =~= s@);
    v
}

/// The characters of `v` between `from` and `to`, as a string.
pub(crate) fn string_of(v: &Vec<char>, from: usize, to: usize) -> (s: String)
    requires
        from <= to <= v@.len(),
    ensures
        s@ == v@.subrange(from as int, to as int),
{
    let mut s = String::new();
    let mut i: usize = from;
    while i < to
        invariant
            from <= i <= to,
            s@ == v@.subrange(from as int, i as int),
        decreases to - i,
    {
        s.push(v[i]);
        i = i + 1;
        assert(s@ =~= v@.subrange(from as int, i as int));
    }
    s
}

/// The expansion of the glyph named `ab`, when recognized.
fn glyph_char(a: char, b: char) -> (r: Option<char>)
    ensures
        r == glyph_expansion(a, b),
{
    if a == 't' && b == 'i' {
        Some('~')
    } else if a == 'h' && b == 'a' {
        Some('^')
    } else if a == 'g' && b == 'a' {
        Some('`')
    } else if a == 'e' && b == 'n' {
        Some('\u{2013}')
    } else if a == 'e' && b == 'm' {
        Some('\u{2014}')
    } else if a == 'l' && b == 'q' {
        Some('\u{201c}')
    } else if a == 'r' && b == 'q' {
        Some('\u{201d}')
    } else if a == 'd' && b == 'q' {
        Some('"')
    } else if a == 'o' && b == 'q' {
        Some('\u{2018}')
    } else if a == 'c' && b == 'q' {
        Some('\u{2019}')
    } else if a == 'a' && b == 'q' {
        Some('\'')
    } else {
        None
    }
}

/// Holds while the decoding loop walks a fragment `s`: whatever decoding
/// the unread suffix yields, together with the output `out` built so
/// far, it settles what decoding the whole of `s` yields.
pub open spec fn decode_prefix_ok(s: Seq<char>, i: nat, out: Seq<char>) -> bool {
    match decode_from(s, i) {
        Some(t) => decode_from(s, 0) == Some(out + t),
        None => decode_from(s, 0) is None,
    }
}

/// The escape decoder: rewrites every recognized escape token in `given`
/// to its literal expansion and passes all other characters through
/// unchanged. A fragment holding an unrecognized escape yields the
/// empty string, with no partial output.
pub fn escape_segment(given: &str) -> (r: String)
    ensures
        r@ == decoded(given@),
{
    let v = chars_of(given);
    let n = v.len();
    let mut out = String::new();
    let mut i: usize = 0;
    while i < n
        invariant
            i <= n,
            n == v@.len(),
            v@ == given@,
            decode_prefix_ok(given@, i as nat, out@),
        decreases n - i,
    {
        let ghost s = given@;
        let ghost j = i as nat;
        let ghost out0 = out@;
        let c = v[i];
        if c != '\\' {
            out.push(c);
            i = i + 1;
            proof {
                if decode_from(s, j + 1) is Some {
                    let t = decode_from(s, j + 1)->Some_0;
                    assert(out0.push(c) + t =~= out0 + (seq![c] + t));
                }
            }
        } else if i + 1 < n && (v[i + 1] == 'e' || v[i + 1] == '-' || v[i + 1] == '&') {
            let e = v[i + 1];
            if e == 'e' {
                out.push('\\');
            } else if e == '-' {
                out.push('-');
            }
            i = i + 2;
            proof {
                if decode_from(s, j + 2) is Some {
                    let t = decode_from(s, j + 2)->Some_0;
                    assert(out@ + t =~= out0 + (simple_expansion(e) + t));
                }
            }
        } else if n - i > 3 && v[i + 1] == '(' {
            let g = glyph_char(v[i + 2], v[i + 3]);
            match g {
                Some(ch) => {
                    out.push(ch);
                    i = i + 4;
                    proof {
                        if decode_from(s, j + 4) is Some {
                            let t = decode_from(s, j + 4)->Some_0;
                            assert(out0.push(ch) + t =~= out0 + (seq![ch] + t));
                        }
                    }
                },
                None => {
                    return String::new();
                },
            }
        } else {
            return String::new();
        }
    }
    proof {
        assert(decode_from(given@, i as nat) == Some(Seq::<char>::empty()));
        assert(out@ + Seq::<char>::empty() =~= out@);
    }
    out
}

/// The style chosen by the font-switch letter `c`: `B`, `I` and `R`
/// select a style outright, `P` reverts to the style active just before
/// the current one, and any other letter leaves the style unchanged.
pub open spec fn resolve_letter(c: char, cur: StringStyle, prev: StringStyle) -> StringStyle {
    if c == 'B' {
        StringStyle::Bold
    } else if c == 'I' {
        StringStyle::Italic
    } else if c == 'R' {
        StringStyle::Roman
    } else if c == 'P' {
        prev
    } else {
        cur
    }
}

/// The style after an optional font-switch letter: absent, the current
/// style stands.
pub open spec fn switch_style(opt_prefix: Option<char>, cur: StringStyle, prev: StringStyle) -> StringStyle {
    match opt_prefix {
        Some(c) => resolve_letter(c, cur, prev),
        None => cur,
    }
}

/// The runs of `s` from `start` on, scanned for font switches from `i`
/// (with `start <= i`): the run under way carries the style `cur`, and
/// `prev` is the style that was active just before it. Each `\f` ends
/// the run, and the one letter after it picks the next style; a
/// trailing `\f` still yields one run with empty content.
pub open spec fn seg_scan(
    s: Seq<char>,
    start: nat,
    i: nat,
    cur: StringStyle,
    prev: StringStyle,
) -> Seq<(StringStyle, Seq<char>)>
    decreases s.len() - i,
{
    if i + 1 >= s.len() {
        seq![(cur, decoded(s.subrange(start as int, s.len() as int)))]
    } else if s[i as int] == '\\' && s[i as int + 1] == 'f' {
        let piece = (cur, decoded(s.subrange(start as int, i as int)));
        if i + 2 >= s.len() {
            seq![piece, (cur, Seq::<char>::empty())]
        } else {
            seq![piece] + seg_scan(
                s,
                (i + 3) as nat,
                (i + 3) as nat,
                resolve_letter(s[i as int + 2], cur, prev),
                cur,
            )
        }
    } else {
        seg_scan(s, start, (i + 1) as nat, cur, prev)
    }
}

/// What segmenting a whole fragment yields: its runs in order, each with
/// its style and decoded content. The style register starts at Roman;
/// an empty fragment yields no run at all.
pub open spec fn segment_spec(s: Seq<char>) -> Seq<(StringStyle, Seq<char>)> {
    if s.len() == 0 {
        Seq::<(StringStyle, Seq<char>)>::empty()
    } else if s.len() >= 2 && s[0] == '\\' && s[1] == 'f' {
        if s.len() == 2 {
            seq![(StringStyle::Roman, Seq::<char>::empty())]
        } else {
            seg_scan(
                s,
                3,
                3,
                resolve_letter(s[2], StringStyle::Roman, StringStyle::Roman),
                StringStyle::Roman,
            )
        }
    } else {
        seg_scan(s, 0, 0, StringStyle::Roman, StringStyle::Roman)
    }
}

/// The style picked by an optional font-switch letter, given the current
/// and the previous style register.
pub fn prefix_to_string_style(
    opt_prefix: Option<char>,
    current_style: StringStyle,
    previous_style: StringStyle,
) -> (r: StringStyle)
    ensures
        r == switch_style(opt_prefix, current_style, previous_style),
{
    match opt_prefix {
        Some(c) => {
            if c == 'B' {
                StringStyle::Bold
            } else if c == 'I' {
                StringStyle::Italic
            } else if c == 'R' {
                StringStyle::Roman
            } else if c == 'P' {
                previous_style
            } else {
                current_style
            }
        },
        None => current_style,
    }
}

/// One run that follows a font switch: the first character of `given` is
/// the switch letter, the rest is the run's raw content.
pub fn process_segment(
    given: &str,
    current_style: StringStyle,
    previous_style: StringStyle,
) -> (r: StyledString)
    ensures
        given@.len() == 0 ==> r@ == (current_style, Seq::<char>::empty()),
        given@.len() > 0 ==> r@ == (
            resolve_letter(given@[0], current_style, previous_style),
            decoded(given@.subrange(1, given@.len() as int)),
        ),
{
    let n = given.unicode_len();
    if n == 0 {
        StyledString { style: current_style, content: String::new() }
    } else {
        let letter = given.get_char(0);
        let style = prefix_to_string_style(Some(letter), current_style, previous_style);
        let rest = given.substring_char(1, n);
        let content = escape_segment(rest);
        StyledString { style, content }
    }
}

/// The first run of a fragment: when `is_styled` holds, the fragment
/// began with a font switch and the run's first character is the switch
/// letter; otherwise the whole run keeps the current style.
pub fn process_first_segment(
    segment: &str,
    is_styled: bool,
    current_style: StringStyle,
    previous_style: StringStyle,
) -> (r: StyledString)
    ensures
        is_styled && segment@.len() == 0 ==> r@ == (current_style, Seq::<char>::empty()),
        is_styled && segment@.len() > 0 ==> r@ == (
            resolve_letter(segment@[0], current_style, previous_style),
            decoded(segment@.subrange(1, segment@.len() as int)),
        ),
        !is_styled ==> r@ == (current_style, decoded(segment@)),
{
    if is_styled {
        process_segment(segment, current_style, previous_style)
    } else {
        StyledString { style: current_style, content: escape_segment(segment) }
    }
}

proof fn lemma_text_view_push(t: Seq<StyledString>, x: StyledString)
    ensures
        text_view(t.push(x)) == text_view(t).push(x@),
{
    assert(text_view(t.push(x)) =~= text_view(t).push(x@));
}

/// The style segmenter: splits `given` on font-switch escapes and yields
/// its runs in order, each with its resolved style and decoded content.
pub fn eat_text(given: &str) -> (r: StyledText)
    ensures
        text_view(r@) == segment_spec(given@),
{
    let v = chars_of(given);
    let n = v.len();
    let mut out: Vec<StyledString> = Vec::new();
    proof {
        assert(text_view(out@) =~= Seq::<(StringStyle, Seq<char>)>::empty());
    }
    if n == 0 {
        return out;
    }
    let mut st = StringStyle::Roman;
    let mut prev = StringStyle::Roman;
    let mut start: usize = 0;
    let mut i: usize = 0;
    if n >= 2 && v[0] == '\\' && v[1] == 'f' {
        if n == 2 {
            out.push(StyledString { style: st, content: String::new() });
            proof {
                lemma_text_view_push(Seq::<StyledString>::empty(), out@[0]);
                assert(text_view(out@) =~= segment_spec(given@));
            }
            return out;
        }
        st = prefix_to_string_style(Some(v[2]), st, prev);
        start = 3;
        i = 3;
    }
    while i < n - 1
        invariant
            start <= i <= n,
            n == v@.len(),
            v@ == given@,
            segment_spec(given@) == text_view(out@) + seg_scan(
                given@,
                start as nat,
                i as nat,
                st,
                prev,
            ),
        decreases n - i,
    {
        if v[i] == '\\' && v[i + 1] == 'f' {
            let ghost out0 = out@;
            let piece = string_of(&v, start, i);
            let content = escape_segment(piece.as_str());
            let run = StyledString { style: st, content };
            let ghost runv = run@;
            out.push(run);
            proof {
                lemma_text_view_push(out0, run);
            }
            if i + 2 >= n {
                let tail = StyledString { style: st, content: String::new() };
                out.push(tail);
                proof {
                    lemma_text_view_push(out0.push(run), tail);
                    assert(text_view(out0) + seq![runv, tail@] =~= text_view(out0).push(
                        runv,
                    ).push(tail@));
                }
                return out;
            }
            let letter = v[i + 2];
            let new_st = prefix_to_string_style(Some(letter), st, prev);
            prev = st;
            st = new_st;
            i = i + 3;
            start = i;
            proof {
                assert(text_view(out0) + (seq![runv] + seg_scan(
                    given@,
                    start as nat,
                    i as nat,
                    st,
                    prev,
                )) =~= text_view(out0).push(runv) + seg_scan(
                    given@,
                    start as nat,
                    i as nat,
                    st,
                    prev,
                ));
            }
        } else {
            i = i + 1;
        }
    }
    let ghost out0 = out@;
    let piece = string_of(&v, start, n);
    let content = escape_segment(piece.as_str());
    let run = StyledString { style: st, content };
    out.push(run);
    proof {
        lemma_text_view_push(out0, run);
        assert(text_view(out0) + seq![run@] =~= text_view(out0).push(run@));
    }
    out
}

proof fn lemma_decode_from_no_backslash(s: Seq<char>, i: nat)
    requires
        forall|k: int| 0 <= k && k + 1 < s.len() ==> !(#[trigger] s[k] == '\\' && s[k + 1] == 'e'),
    ensures
        decode_from(s, i) matches Some(t) ==> forall|j: int| 0 <= j < t.len() ==> t[j] != '\\',
    decreases s.len() - i,
{
    if i >= s.len() {
    } else if s[i as int] != '\\' {
        lemma_decode_from_no_backslash(s, (i + 1) as nat);
    } else if i + 1 < s.len() && is_simple_escape(s[i as int + 1]) {
        lemma_decode_from_no_backslash(s, (i + 2) as nat);
        assert(s[i as int + 1] != 'e');
    } else if i + 3 < s.len() && s[i as int + 1] == '(' && glyph_expansion(
        s[i as int + 2],
        s[i as int + 3],
    ) is Some {
        lemma_decode_from_no_backslash(s, (i + 4) as nat);
    } else {
    }
}

/// Law: decoding resolves every known escape token. In a fragment that
/// does not use the escape `\e` (the one whose expansion is itself a
/// backslash), the decoded text holds no backslash at all — so no part
/// of it matches a known escape token, since every token begins with a
/// backslash.
pub proof fn lemma_decode_resolves_escapes(s: Seq<char>)
    requires
        forall|k: int| 0 <= k && k + 1 < s.len() ==> !(#[trigger] s[k] == '\\' && s[k + 1] == 'e'),
    ensures
        forall|j: int| 0 <= j < decoded(s).len() ==> decoded(s)[j] != '\\',
{
    lemma_decode_from_no_backslash(s, 0);
}

proof fn lemma_seg_scan_no_switch(s: Seq<char>, start: nat, i: nat, cur: StringStyle, prev: StringStyle)
    requires
        start <= i <= s.len(),
        forall|k: int| i <= k && k + 1 < s.len() ==> !(#[trigger] s[k] == '\\' && s[k + 1] == 'f'),
    ensures
        seg_scan(s, start, i, cur, prev) == seq![
            (cur, decoded(s.subrange(start as int, s.len() as int))),
        ],
    decreases s.len() - i,
{
    if i + 1 >= s.len() {
    } else {
        lemma_seg_scan_no_switch(s, start, (i + 1) as nat, cur, prev);
    }
}

/// Law: a non-empty fragment with no font-switch token segments to
/// exactly one run, in Roman style, holding the fragment's decoded
/// content.
pub proof fn lemma_segment_no_font_switch(s: Seq<char>)
    requires
        s.len() > 0,
        forall|k: int| 0 <= k && k + 1 < s.len() ==> !(#[trigger] s[k] == '\\' && s[k + 1] == 'f'),
    ensures
        segment_spec(s) == seq![(StringStyle::Roman, decoded(s))],
{
    lemma_seg_scan_no_switch(s, 0, 0, StringStyle::Roman, StringStyle::Roman);
    assert(s.subrange(0, s.len() as int) =~= s);
}

} // verus!
