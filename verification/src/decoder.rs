//! Decoding of one line of text with embedded SGR escape sequences into an
//! ordered list of styled segments.
//!
//! An escape sequence starts with ESC `[`, runs up to and including the first
//! ASCII letter after that prefix (or to the end of the line if there is no
//! letter), and never contributes to the text of a segment. The characters
//! between the prefix and the terminating letter are the code; a known code
//! replaces the running style, an unknown one leaves it as it is.

use vstd::prelude::*;
use crate::style::{Color, Style};
use crate::text::{push_char, to_chars};

verus! {

/// A run of text drawn in one style.
#[derive(Debug)]
pub struct Segment {
    pub text: String,
    pub style: Style,
}

impl View for Segment {
    type V = (Seq<char>, Style);

    open spec fn view(&self) -> (Seq<char>, Style) {
        (self.text@, self.style)
    }
}

/// The views of a list of segments, in order.
pub open spec fn segments_view(segments: Seq<Segment>) -> Seq<(Seq<char>, Style)> {
    segments.map_values(|s: Segment| s@)
}

/// The escape character that opens a sequence.
pub open spec fn esc() -> char {
    '\x1B'
}

/// True for `a`-`z` and `A`-`Z`.
pub open spec fn is_ascii_letter(c: char) -> bool {
    ('a' <= c && c <= 'z') || ('A' <= c && c <= 'Z')
}

/// True if an escape sequence opens at index `i` of `s`.
pub open spec fn starts_escape(s: Seq<char>, i: int) -> bool {
    0 <= i && i + 1 < s.len() && s[i] == esc() && s[i + 1] == '['
}

/// The index of the first ASCII letter of `s` at or after `j`, or the length
/// of `s` if there is none.
pub open spec fn code_end(s: Seq<char>, j: int) -> int
    decreases s.len() - j,
{
    if j < 0 || j >= s.len() {
        s.len() as int
    } else if is_ascii_letter(s[j]) {
        j
    } else {
        code_end(s, j + 1)
    }
}

/// The code of the escape sequence that opens at `i`: what stands between the
/// prefix and the terminating letter.
pub open spec fn code_at(s: Seq<char>, i: int) -> Seq<char> {
    s.subrange(i + 2, code_end(s, i + 2))
}

/// The index just past the escape sequence that opens at `i`.
pub open spec fn escape_end(s: Seq<char>, i: int) -> int {
    let e = code_end(s, i + 2);
    if e < s.len() {
        e + 1
    } else {
        e
    }
}

/// The style in force after an escape sequence with the given code, when
/// `current` was in force before it.
pub open spec fn apply_code(code: Seq<char>, current: Style) -> Style {
    if code.len() == 1 && code[0] == '0' {
        Style::plain()
    } else if code.len() == 1 && code[0] == '1' {
        Style::strong()
    } else if code.len() == 2 && code[0] == '3' {
        match code[1] {
            '1' => Style::colored(Color::Red),
            '2' => Style::colored(Color::Green),
            '3' => Style::colored(Color::Yellow),
            '4' => Style::colored(Color::Blue),
            '5' => Style::colored(Color::Magenta),
            '6' => Style::colored(Color::Cyan),
            _ => current,
        }
    } else {
        current
    }
}

/// The segment that a pending buffer becomes when it is flushed: none if the
/// buffer is empty.
pub open spec fn flush(pending: Seq<char>, style: Style) -> Seq<(Seq<char>, Style)> {
    if pending.len() > 0 {
        seq![(pending, style)]
    } else {
        seq![]
    }
}

/// The segments still to come when decoding stands at index `i` of `s` with
/// `pending` text accumulated under `style`.
pub open spec fn decode_from(s: Seq<char>, i: int, pending: Seq<char>, style: Style) -> Seq<
    (Seq<char>, Style),
>
    decreases s.len() - i,
    via decode_from_terminates
{
    if i < 0 || i >= s.len() {
        flush(pending, style)
    } else if starts_escape(s, i) {
        flush(pending, style) + decode_from(
            s,
            escape_end(s, i),
            Seq::empty(),
            apply_code(code_at(s, i), style),
        )
    } else {
        decode_from(s, i + 1, pending.push(s[i]), style)
    }
}

#[via_fn]
proof fn decode_from_terminates(s: Seq<char>, i: int, pending: Seq<char>, style: Style) {
    if starts_escape(s, i) {
        lemma_code_end_bounds(s, i + 2);
    }
}

/// The segments of a whole line.
pub open spec fn decode_spec(s: Seq<char>) -> Seq<(Seq<char>, Style)> {
    decode_from(s, 0, Seq::empty(), Style::plain())
}

/// `code_end` lies between its start and the end of the line.
pub proof fn lemma_code_end_bounds(s: Seq<char>, j: int)
    requires
        0 <= j <= s.len(),
    ensures
        j <= code_end(s, j) <= s.len(),
        forall|k: int| j <= k < code_end(s, j) ==> !is_ascii_letter(#[trigger] s[k]),
        code_end(s, j) < s.len() ==> is_ascii_letter(s[code_end(s, j)]),
    decreases s.len() - j,
{
    if j < s.len() && !is_ascii_letter(s[j]) {
        lemma_code_end_bounds(s, j + 1);
    }
}

/// The text of `s` from index `i` on with every escape sequence removed.
pub open spec fn strip_escapes_from(s: Seq<char>, i: int) -> Seq<char>
    decreases s.len() - i,
    via strip_escapes_from_terminates
{
    if i < 0 || i >= s.len() {
        Seq::empty()
    } else if starts_escape(s, i) {
        strip_escapes_from(s, escape_end(s, i))
    } else {
        seq![s[i]] + strip_escapes_from(s, i + 1)
    }
}

#[via_fn]
proof fn strip_escapes_from_terminates(s: Seq<char>, i: int) {
    if starts_escape(s, i) {
        lemma_code_end_bounds(s, i + 2);
    }
}

/// The line `s` with every escape sequence removed.
pub open spec fn strip_escapes(s: Seq<char>) -> Seq<char> {
    strip_escapes_from(s, 0)
}

/// The texts of the segments, joined in order.
pub open spec fn concat_texts(segments: Seq<(Seq<char>, Style)>) -> Seq<char>
    decreases segments.len(),
{
    if segments.len() == 0 {
        Seq::empty()
    } else {
        segments[0].0 + concat_texts(segments.drop_first())
    }
}

proof fn lemma_concat_after_flush(
    pending: Seq<char>,
    style: Style,
    rest: Seq<(Seq<char>, Style)>,
)
    ensures
        concat_texts(flush(pending, style) + rest) == pending + concat_texts(rest),
{
    let all = flush(pending, style) + rest;
    if pending.len() > 0 {
        assert(all.drop_first() =~= rest);
    } else {
        assert(all =~= rest);
        assert(pending + concat_texts(rest) =~= concat_texts(rest));
    }
}

/// From any decoding state, the texts still to come join to the pending
/// buffer followed by the rest of the line without its escape sequences.
pub proof fn lemma_decode_from_texts(s: Seq<char>, i: int, pending: Seq<char>, style: Style)
    requires
        0 <= i <= s.len(),
    ensures
        concat_texts(decode_from(s, i, pending, style)) == pending + strip_escapes_from(s, i),
    decreases s.len() - i,
{
    if i >= s.len() {
        lemma_concat_after_flush(pending, style, Seq::empty());
        assert(flush(pending, style) + Seq::empty() =~= flush(pending, style));
    } else if starts_escape(s, i) {
        lemma_code_end_bounds(s, i + 2);
        let next = escape_end(s, i);
        let after = apply_code(code_at(s, i), style);
        lemma_decode_from_texts(s, next, Seq::empty(), after);
        lemma_concat_after_flush(pending, style, decode_from(s, next, Seq::empty(), after));
        assert(Seq::<char>::empty() + strip_escapes_from(s, next) =~= strip_escapes_from(
            s,
            next,
        ));
    } else {
        lemma_decode_from_texts(s, i + 1, pending.push(s[i]), style);
        assert(pending.push(s[i]) + strip_escapes_from(s, i + 1) =~= pending + (seq![s[i]]
            + strip_escapes_from(s, i + 1)));
    }
}

/// Joining the texts of a decoded line gives the line with every escape
/// sequence removed: no character of an escape sequence reaches a segment,
/// and no other character is lost or moved.
pub proof fn lemma_decode_strips_escapes(s: Seq<char>)
    ensures
        concat_texts(decode_spec(s)) == strip_escapes(s),
{
    lemma_decode_from_texts(s, 0, Seq::empty(), Style::plain());
    assert(Seq::<char>::empty() + strip_escapes_from(s, 0) =~= strip_escapes_from(s, 0));
}

proof fn lemma_decode_from_plain(s: Seq<char>, i: int, pending: Seq<char>, style: Style)
    requires
        0 <= i <= s.len(),
        forall|k: int| !starts_escape(s, k),
    ensures
        decode_from(s, i, pending, style) == flush(pending + s.subrange(i, s.len() as int), style),
    decreases s.len() - i,
{
    if i >= s.len() {
        assert(pending + s.subrange(i, s.len() as int) =~= pending);
    } else {
        assert(!starts_escape(s, i));
        lemma_decode_from_plain(s, i + 1, pending.push(s[i]), style);
        assert(pending.push(s[i]) + s.subrange(i + 1, s.len() as int) =~= pending + s.subrange(
            i,
            s.len() as int,
        ));
    }
}

/// A non-empty line in which no escape sequence opens decodes to exactly one
/// segment: the whole line in the default style.
pub proof fn lemma_decode_plain(s: Seq<char>)
    requires
        s.len() > 0,
        forall|k: int| !starts_escape(s, k),
    ensures
        decode_spec(s) == seq![(s, Style::plain())],
{
    lemma_decode_from_plain(s, 0, Seq::empty(), Style::plain());
    assert(Seq::<char>::empty() + s.subrange(0, s.len() as int) =~= s);
}

/// True if no segment of the list has an empty text.
pub open spec fn texts_nonempty(segments: Seq<(Seq<char>, Style)>) -> bool {
    forall|k: int| 0 <= k < segments.len() ==> (#[trigger] segments[k]).0.len() > 0
}

/// Every segment still to come from a decoding state has a non-empty text.
pub proof fn lemma_decode_from_nonempty(s: Seq<char>, i: int, pending: Seq<char>, style: Style)
    requires
        0 <= i <= s.len(),
    ensures
        texts_nonempty(decode_from(s, i, pending, style)),
    decreases s.len() - i,
{
    if i >= s.len() {
    } else if starts_escape(s, i) {
        lemma_code_end_bounds(s, i + 2);
        let head = flush(pending, style);
        let tail = decode_from(s, escape_end(s, i), Seq::empty(), apply_code(code_at(s, i), style));
        lemma_decode_from_nonempty(
            s,
            escape_end(s, i),
            Seq::empty(),
            apply_code(code_at(s, i), style),
        );
        assert forall|k: int| 0 <= k < (head + tail).len() implies (#[trigger] (head
            + tail)[k]).0.len() > 0 by {
            if k >= head.len() {
                assert((head + tail)[k] == tail[k - head.len()]);
            }
        }
    } else {
        lemma_decode_from_nonempty(s, i + 1, pending.push(s[i]), style);
    }
}

/// No segment of a decoded line has an empty text.
pub proof fn lemma_decode_nonempty(s: Seq<char>)
    ensures
        texts_nonempty(decode_spec(s)),
{
    lemma_decode_from_nonempty(s, 0, Seq::empty(), Style::plain());
}

fn is_letter(c: char) -> (b: bool)
    ensures
        b == is_ascii_letter(c),
{
    ('a' <= c && c <= 'z') || ('A' <= c && c <= 'Z')
}

fn style_for_code(chars: &Vec<char>, from: usize, to: usize, current: Style) -> (s: Style)
    requires
        from <= to <= chars.len(),
    ensures
        s == apply_code(chars@.subrange(from as int, to as int), current),
{
    let len: usize = to - from;
    if len == 1 && chars[from] == '0' {
        Style { color: Color::Default, bold: false }
    } else if len == 1 && chars[from] == '1' {
        Style { color: Color::Default, bold: true }
    } else if len == 2 && chars[from] == '3' {
        let d: char = chars[from + 1];
        let color = if d == '1' {
            Some(Color::Red)
        } else if d == '2' {
            Some(Color::Green)
        } else if d == '3' {
            Some(Color::Yellow)
        } else if d == '4' {
            Some(Color::Blue)
        } else if d == '5' {
            Some(Color::Magenta)
        } else if d == '6' {
            Some(Color::Cyan)
        } else {
            None
        };
        match color {
            Some(color) => Style { color, bold: false },
            None => current,
        }
    } else {
        current
    }
}

/// Decodes the characters of one line.
pub fn decode_chars(chars: &Vec<char>) -> (segments: Vec<Segment>)
    ensures
        segments_view(segments@) == decode_spec(chars@),
{
    let ghost s = chars@;
    let n: usize = chars.len();
    let mut out: Vec<Segment> = Vec::new();
    let mut pending = String::new();
    let mut style = Style::default();
    let mut i: usize = 0;
    assert(segments_view(out@) + decode_from(s, 0, pending@, style) =~= decode_spec(s));
    while i < n
        invariant
            s == chars@,
            n == s.len(),
            i <= n,
            segments_view(out@) + decode_from(s, i as int, pending@, style) == decode_spec(s),
        decreases n - i,
    {
        if chars[i] == '\x1B' && i + 1 < n && chars[i + 1] == '[' {
            let ghost before = segments_view(out@);
            let ghost flushed = pending@;
            let ghost style_before = style;
            if !pending.as_str().is_empty() {
                out.push(Segment { text: pending, style });
                pending = String::new();
            }
            assert(segments_view(out@) =~= before + flush(flushed, style));
            assert(pending@ =~= Seq::<char>::empty());
            let mut j: usize = i + 2;
            while j < n && !is_letter(chars[j])
                invariant
                    s == chars@,
                    n == s.len(),
                    i + 2 <= j <= n,
                    code_end(s, j as int) == code_end(s, i + 2),
                decreases n - j,
            {
                j += 1;
            }
            assert(j == code_end(s, i + 2));
            style = style_for_code(chars, i + 2, j, style);
            let ghost at = i as int;
            i = if j < n {
                j + 1
            } else {
                j
            };
            assert(i == escape_end(s, at));
            assert(style == apply_code(code_at(s, at), style_before));
            assert(segments_view(out@) + decode_from(s, i as int, pending@, style) =~= before
                + (flush(flushed, style_before) + decode_from(s, i as int, Seq::empty(), style)));
        } else {
            push_char(&mut pending, chars[i]);
            i += 1;
        }
    }
    let ghost before = segments_view(out@);
    let ghost flushed = pending@;
    if !pending.as_str().is_empty() {
        out.push(Segment { text: pending, style });
    }
    assert(segments_view(out@) =~= before + flush(flushed, style));
    out
}

/// Decodes one line into its styled segments, left to right. The texts of
/// the segments join to the line without its escape sequences, none of them
/// is empty, and a line without escape sequences comes back as one segment
/// in the default style.
pub fn decode(line: &str) -> (segments: Vec<Segment>)
    ensures
        segments_view(segments@) == decode_spec(line@),
        concat_texts(segments_view(segments@)) == strip_escapes(line@),
        texts_nonempty(segments_view(segments@)),
        line@.len() > 0 && (forall|k: int| !starts_escape(line@, k)) ==> segments_view(segments@)
            == seq![(line@, Style::plain())],
{
    let chars = to_chars(line);
    proof {
        lemma_decode_strips_escapes(line@);
        lemma_decode_nonempty(line@);
        if line@.len() > 0 && (forall|k: int| !starts_escape(line@, k)) {
            lemma_decode_plain(line@);
        }
    }
    decode_chars(&chars)
}

} // verus!
