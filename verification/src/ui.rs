//! Text shaping for the terminal screen: escaping what must not reach the
//! terminal, measuring display columns, and cutting text to a window or
//! wrapping it into rows. Drawing itself is done by the program around this
//! library.
use vstd::prelude::*;

use crate::app::Mode;
use crate::editor::{Editor, EditorControl, TextInput};
use crate::model::{kind_label, Field, FieldKind};
use crate::text::{char_utf8_len, chars_of, is_control_char, push_char};

verus! {

/// What `UnicodeWidthChar::width` of unicode-width gives for a character:
/// its display width in columns, or `None` for a control character.
pub uninterp spec fn char_width(c: char) -> Option<usize>;

/// The display width of `c` (unicode-width's `UnicodeWidthChar::width`).
/// The crate's source answers `None` exactly for the control characters
/// below U+0020 and from U+007F to U+009F, one column for the rest of
/// ASCII, and reads at most 3 columns from its tables for everything else.
/// Which width a table gives is not stated here; it is named by [`char_width`].
#[verifier::external_body]
fn width_of(c: char) -> (w: Option<usize>)
    ensures
        w == char_width(c),
        w is None <==> is_control_char(c),
        (0x20 <= c as u32 && (c as u32) < 0x7F) ==> w == Some(1usize),
        w matches Some(n) ==> n <= 3,
{
    unicode_width::UnicodeWidthChar::width(c)
}

/// Columns a character occupies: its width, or none for a control character.
pub open spec fn cell_width(c: char) -> nat {
    match char_width(c) {
        Some(n) => n as nat,
        None => 0,
    }
}

/// Columns `c` occupies on screen: none for a control character, one for
/// printable ASCII, at most three for anything else.
pub fn column_width(c: char) -> (w: usize)
    ensures
        w == cell_width(c),
        is_control_char(c) ==> w == 0,
        (0x20 <= c as u32 && (c as u32) < 0x7F) ==> w == 1,
        w <= 3,
{
    match width_of(c) {
        Some(n) => n,
        None => 0,
    }
}

/// Columns a character sequence occupies.
pub open spec fn text_width(s: Seq<char>) -> nat
    decreases s.len(),
{
    if s.len() == 0 {
        0
    } else {
        text_width(s.drop_last()) + cell_width(s.last())
    }
}

// ---------------------------------------------------------------------------
// Escaping
// ---------------------------------------------------------------------------

/// Invisible formatting and direction overrides: soft hyphen, Arabic letter
/// mark, Mongolian vowel separator, zero-width and bidirectional controls,
/// word joiners and invisible operators, the byte order mark, interlinear
/// annotation controls and tag characters.
pub open spec fn is_invisible(c: char) -> bool {
    let v = c as u32;
    ||| v == 0xAD
    ||| v == 0x61C
    ||| v == 0x180E
    ||| 0x200B <= v <= 0x200F
    ||| 0x2028 <= v <= 0x202E
    ||| 0x2060 <= v <= 0x206F
    ||| v == 0xFEFF
    ||| 0xFFF9 <= v <= 0xFFFB
    ||| 0xE0000 <= v <= 0xE007F
}

/// An uppercase hexadecimal digit.
pub open spec fn hex_upper(d: u32) -> char {
    if d < 10 {
        ((48 + d) as u8) as char
    } else {
        ((55 + d) as u8) as char
    }
}

/// The last `n` hexadecimal digits of `v`, most significant first.
pub open spec fn hex_digits(v: u32, n: nat) -> Seq<char>
    decreases n,
{
    if n == 0 {
        Seq::empty()
    } else {
        hex_digits(v / 16, (n - 1) as nat).push(hex_upper(v % 16))
    }
}

/// How many hexadecimal digits `{:04X}` writes for a code point.
pub open spec fn escape_digits(v: u32) -> nat {
    if v < 0x10000 {
        4
    } else if v < 0x100000 {
        5
    } else {
        6
    }
}

/// How a character appears on screen: newline, carriage return and tab as
/// their backslash escapes, escape as `<ESC>`, other control and invisible
/// characters as `\u{XXXX}`, everything else as itself.
pub open spec fn safe_char(c: char) -> Seq<char> {
    if c == '\n' {
        "\\n"@
    } else if c == '\r' {
        "\\r"@
    } else if c == '\t' {
        "\\t"@
    } else if c == '\u{1b}' {
        "<ESC>"@
    } else if is_control_char(c) || is_invisible(c) {
        "\\u{"@ + hex_digits(c as u32, escape_digits(c as u32)) + "}"@
    } else {
        seq![c]
    }
}

/// A character sequence as it appears on screen.
pub open spec fn safe_seq(s: Seq<char>) -> Seq<char>
    decreases s.len(),
{
    if s.len() == 0 {
        Seq::empty()
    } else {
        safe_seq(s.drop_last()) + safe_char(s.last())
    }
}

/// No character of `s` is a control character or invisible formatting.
pub open spec fn inert(s: Seq<char>) -> bool {
    forall|i: int| 0 <= i < s.len() ==> !is_control_char(#[trigger] s[i]) && !is_invisible(s[i])
}

proof fn lemma_hex_digits_inert(v: u32, n: nat)
    ensures
        inert(hex_digits(v, n)),
    decreases n,
{
    if n > 0 {
        lemma_hex_digits_inert(v / 16, (n - 1) as nat);
        let d = v % 16;
        assert(d < 16);
        let c = hex_upper(d);
        assert(48 <= c as u32 <= 70) by {
            if d < 10 {
                assert(((48 + d) as u8) as char == c);
            } else {
                assert(((55 + d) as u8) as char == c);
            }
        }
        let s = hex_digits(v / 16, (n - 1) as nat);
        assert forall|i: int| 0 <= i < s.push(c).len() implies !is_control_char(
            #[trigger] s.push(c)[i],
        ) && !is_invisible(s.push(c)[i]) by {
            if i < s.len() {
                assert(s.push(c)[i] == s[i]);
            }
        }
    }
}

/// What is shown of a character holds no control character or invisible formatting.
proof fn lemma_safe_char_inert(c: char)
    ensures
        inert(safe_char(c)),
{
    reveal_strlit("\\n");
    reveal_strlit("\\r");
    reveal_strlit("\\t");
    reveal_strlit("<ESC>");
    reveal_strlit("\\u{");
    reveal_strlit("}");
    lemma_hex_digits_inert(c as u32, escape_digits(c as u32));
    let digits = hex_digits(c as u32, escape_digits(c as u32));
    let full = "\\u{"@ + digits + "}"@;
    assert forall|i: int| 0 <= i < full.len() implies !is_control_char(#[trigger] full[i])
        && !is_invisible(full[i]) by {
        if 3 <= i < 3 + digits.len() {
            assert(full[i] == digits[i - 3]);
        }
    }
}

/// Text made safe shows no control character and no invisible formatting:
/// what reaches the terminal cannot move the cursor, change colors or
/// reorder text.
pub proof fn lemma_safe_seq_inert(s: Seq<char>)
    ensures
        inert(safe_seq(s)),
    decreases s.len(),
{
    if s.len() > 0 {
        lemma_safe_seq_inert(s.drop_last());
        lemma_safe_char_inert(s.last());
        let a = safe_seq(s.drop_last());
        let b = safe_char(s.last());
        assert forall|i: int| 0 <= i < (a + b).len() implies !is_control_char(#[trigger] (a + b)[i])
            && !is_invisible((a + b)[i]) by {
            if i < a.len() {
                assert((a + b)[i] == a[i]);
            } else {
                assert((a + b)[i] == b[i - a.len()]);
            }
        }
    }
}

/// Escaping works character by character: text put together is escaped as
/// its parts are.
pub proof fn lemma_safe_seq_concat(a: Seq<char>, b: Seq<char>)
    ensures
        safe_seq(a + b) == safe_seq(a) + safe_seq(b),
    decreases b.len(),
{
    if b.len() == 0 {
        assert(a + b =~= a);
        assert(safe_seq(a) + safe_seq(b) =~= safe_seq(a));
    } else {
        assert((a + b).drop_last() =~= a + b.drop_last());
        assert((a + b).last() == b.last());
        lemma_safe_seq_concat(a, b.drop_last());
        assert(safe_seq(a) + safe_seq(b.drop_last()) + safe_char(b.last()) =~= safe_seq(a) + (
        safe_seq(b.drop_last()) + safe_char(b.last())));
    }
}

/// Text with no control character and no invisible formatting is shown as it is.
proof fn lemma_safe_seq_inert_unchanged(s: Seq<char>)
    requires
        inert(s),
    ensures
        safe_seq(s) == s,
    decreases s.len(),
{
    if s.len() > 0 {
        let c = s.last();
        assert(c == s[s.len() - 1]);
        assert(inert(s.drop_last()));
        lemma_safe_seq_inert_unchanged(s.drop_last());
        assert(!is_control_char(c) && !is_invisible(c));
        assert(c != '\n' && c != '\r' && c != '\t' && c != '\u{1b}');
        assert(s.drop_last() + seq![c] =~= s);
    }
}

/// Escaping changes exactly the text that holds a control character or
/// invisible formatting, and escaping escaped text changes nothing.
pub proof fn lemma_safe_seq_fixed(s: Seq<char>)
    ensures
        safe_seq(s) == s <==> inert(s),
        safe_seq(safe_seq(s)) == safe_seq(s),
{
    lemma_safe_seq_inert(s);
    lemma_safe_seq_inert_unchanged(safe_seq(s));
    if inert(s) {
        lemma_safe_seq_inert_unchanged(s);
    }
}

fn hex_digit_upper(d: u32) -> (c: char)
    requires
        d < 16,
    ensures
        c == hex_upper(d),
{
    if d < 10 {
        let b: u8 = 48 + d as u8;
        b as char
    } else {
        let b: u8 = 55 + d as u8;
        b as char
    }
}

/// Appends the last `n` hexadecimal digits of `v`.
fn push_hex(out: &mut String, v: u32, n: usize)
    ensures
        final(out)@ == old(out)@ + hex_digits(v, n as nat),
    decreases n,
{
    if n > 0 {
        push_hex(out, v / 16, n - 1);
        push_char(out, hex_digit_upper(v % 16));
    }
}

fn is_invisible_char(c: char) -> (b: bool)
    ensures
        b == is_invisible(c),
{
    let v = c as u32;
    v == 0xAD || v == 0x61C || v == 0x180E || (0x200B <= v && v <= 0x200F) || (0x2028 <= v && v
        <= 0x202E) || (0x2060 <= v && v <= 0x206F) || v == 0xFEFF || (0xFFF9 <= v && v <= 0xFFFB)
        || (0xE0000 <= v && v <= 0xE007F)
}

/// Appends how `c` appears on screen.
fn push_safe(out: &mut String, c: char)
    ensures
        final(out)@ == old(out)@ + safe_char(c),
{
    if c == '\n' {
        out.append("\\n");
    } else if c == '\r' {
        out.append("\\r");
    } else if c == '\t' {
        out.append("\\t");
    } else if c == '\u{1b}' {
        out.append("<ESC>");
    } else if crate::text::is_control(c) || is_invisible_char(c) {
        let v = c as u32;
        out.append("\\u{");
        let n: usize = if v < 0x10000 {
            4
        } else if v < 0x100000 {
            5
        } else {
            6
        };
        push_hex(out, v, n);
        out.append("}");
    } else {
        push_char(out, c);
        assert(old(out)@.push(c) =~= old(out)@ + seq![c]);
    }
}

/// Makes terminal controls, direction overrides and invisible formatting
/// visible. Newlines are escaped too; only multiline views split them first.
pub fn safe_text(text: &str) -> (s: String)
    ensures
        s@ == safe_seq(text@),
        inert(s@),
{
    proof {
        lemma_safe_seq_inert(text@);
    }
    let chars = chars_of(text);
    let mut out = String::new();
    let mut i: usize = 0;
    while i < chars.len()
        invariant
            chars@ == text@,
            i <= chars@.len(),
            out@ == safe_seq(chars@.take(i as int)),
        decreases chars.len() - i,
    {
        proof {
            assert(chars@.take(i + 1).drop_last() =~= chars@.take(i as int));
        }
        push_safe(&mut out, chars[i]);
        i += 1;
    }
    assert(chars@.take(chars@.len() as int) =~= chars@);
    out
}

// ---------------------------------------------------------------------------
// Measuring and cutting
// ---------------------------------------------------------------------------

/// Columns `text` occupies.
pub fn display_width(text: &str) -> (w: usize)
    requires
        3 * text@.len() <= usize::MAX,
    ensures
        w == text_width(text@),
{
    let chars = chars_of(text);
    let mut total: usize = 0;
    let mut i: usize = 0;
    while i < chars.len()
        invariant
            chars@ == text@,
            3 * chars@.len() <= usize::MAX,
            i <= chars@.len(),
            total == text_width(chars@.take(i as int)),
            total <= 3 * i,
        decreases chars.len() - i,
    {
        proof {
            assert(chars@.take(i + 1).drop_last() =~= chars@.take(i as int));
        }
        let w = match width_of(chars[i]) {
            Some(n) => n,
            None => 0,
        };
        total = total + w;
        i += 1;
    }
    assert(chars@.take(chars@.len() as int) =~= chars@);
    total
}

/// The part of `s[i..]` shown in a window `width` columns wide that starts
/// `left` columns into the text, given that the characters before `i` took
/// `pos` columns of the text and `used` columns of the window. A wide
/// character cut by the left edge shows as a space.
pub open spec fn window_from(s: Seq<char>, i: int, pos: int, used: int, left: int, width: int) -> Seq<
    char,
>
    decreases s.len() - i,
{
    if i < 0 || i >= s.len() {
        Seq::empty()
    } else {
        let w = cell_width(s[i]) as int;
        if pos >= left {
            if used + w > width {
                Seq::empty()
            } else {
                seq![s[i]] + window_from(s, i + 1, pos + w, used + w, left, width)
            }
        } else if pos + w > left {
            seq![' '] + window_from(s, i + 1, pos + w, used + 1, left, width)
        } else {
            window_from(s, i + 1, pos + w, used, left, width)
        }
    }
}

/// The text visible in a window `width` columns wide scrolled `left` columns in.
pub fn window(text: &str, left: usize, width: usize) -> (s: String)
    requires
        3 * text@.len() <= usize::MAX,
    ensures
        s@ == window_from(text@, 0, 0, 0, left as int, width as int),
        width >= 1 ==> text_width(s@) <= width,
        left == 0 && text_width(text@) <= width ==> s@ == text@,
{
    // A wide character cut by the left edge shows as one space.
    let marker = column_width(' ');
    proof {
        if width >= 1 {
            lemma_window_from_width(text@, 0, 0, 0, left as int, width as int);
        }
        if left == 0 && text_width(text@) <= width {
            assert(text@.subrange(0, text@.len() as int) =~= text@);
            lemma_window_from_whole(text@, 0, 0, 0, width as int);
        }
    }
    let chars = chars_of(text);
    let mut out = String::new();
    let mut pos: usize = 0;
    let mut used: usize = 0;
    let mut i: usize = 0;
    while i < chars.len()
        invariant_except_break
            out@ + window_from(chars@, i as int, pos as int, used as int, left as int, width as int)
                == window_from(chars@, 0, 0, 0, left as int, width as int),
        invariant
            chars@ == text@,
            marker == 1,
            3 * chars@.len() <= usize::MAX,
            i <= chars@.len(),
            pos <= 3 * i,
            used <= 3 * i,
        ensures
            out@ == window_from(chars@, 0, 0, 0, left as int, width as int),
        decreases chars.len() - i,
    {
        let c = chars[i];
        let w = column_width(c);
        let ghost before = out@;
        if pos >= left {
            if used + w > width {
                break;
            }
            push_char(&mut out, c);
            used = used + w;
            proof {
                let rest = window_from(chars@, i + 1, pos + w, used as int, left as int, width as int);
                assert(before + (seq![c] + rest) =~= out@ + rest);
            }
        } else if pos + w > left {
            push_char(&mut out, ' ');
            used = used + marker;
            proof {
                let rest = window_from(chars@, i + 1, pos + w, used as int, left as int, width as int);
                assert(before + (seq![' '] + rest) =~= out@ + rest);
            }
        }
        pos = pos + w;
        i += 1;
    }
    if i == chars.len() {
        assert(out@ + Seq::<char>::empty() =~= out@);
    }
    out
}

/// The columns of two texts put together add up.
pub proof fn lemma_text_width_concat(a: Seq<char>, b: Seq<char>)
    ensures
        text_width(a + b) == text_width(a) + text_width(b),
    decreases b.len(),
{
    if b.len() == 0 {
        assert(a + b =~= a);
    } else {
        assert((a + b).drop_last() =~= a + b.drop_last());
        assert((a + b).last() == b.last());
        lemma_text_width_concat(a, b.drop_last());
    }
}

/// A single character takes its own columns.
proof fn lemma_text_width_one(c: char)
    ensures
        text_width(seq![c]) == cell_width(c),
{
    assert(seq![c].drop_last() =~= Seq::<char>::empty());
    assert(text_width(Seq::<char>::empty()) == 0);
    assert(seq![c].last() == c);
}

/// What is left of a window never overflows it: the columns already used plus
/// those of the rest stay within `width`.
proof fn lemma_window_from_width(s: Seq<char>, i: int, pos: int, used: int, left: int, width: int)
    requires
        0 <= i,
        0 <= used <= width,
        1 <= width,
        cell_width(' ') == 1,
        pos < left ==> used == 0,
    ensures
        used + text_width(window_from(s, i, pos, used, left, width)) <= width,
    decreases s.len() - i,
{
    if i < s.len() {
        let w = cell_width(s[i]) as int;
        if pos >= left {
            if used + w <= width {
                let rest = window_from(s, i + 1, pos + w, used + w, left, width);
                lemma_window_from_width(s, i + 1, pos + w, used + w, left, width);
                lemma_text_width_concat(seq![s[i]], rest);
                lemma_text_width_one(s[i]);
            }
        } else if pos + w > left {
            let rest = window_from(s, i + 1, pos + w, used + 1, left, width);
            lemma_window_from_width(s, i + 1, pos + w, used + 1, left, width);
            lemma_text_width_concat(seq![' '], rest);
            lemma_text_width_one(' ');
        } else {
            lemma_window_from_width(s, i + 1, pos + w, used, left, width);
        }
    }
}

proof fn lemma_window_from_prefix(s: Seq<char>, i: int, pos: int, used: int, left: int, width: int)
    ensures
        window_from(s, i, pos, used, left, width).is_prefix_of(
            window_from(s, i, pos, used, left, width + 1),
        ),
    decreases s.len() - i,
{
    let a = window_from(s, i, pos, used, left, width);
    let b = window_from(s, i, pos, used, left, width + 1);
    if i < 0 || i >= s.len() {
        assert(a =~= b.subrange(0, 0));
    } else {
        let w = cell_width(s[i]) as int;
        if pos >= left && used + w > width {
            assert(a =~= b.subrange(0, 0));
        } else if pos >= left || pos + w > left {
            let c = if pos >= left { s[i] } else { ' ' };
            let u = if pos >= left { used + w } else { used + 1 };
            lemma_window_from_prefix(s, i + 1, pos + w, u, left, width);
            let ra = window_from(s, i + 1, pos + w, u, left, width);
            let rb = window_from(s, i + 1, pos + w, u, left, width + 1);
            assert(a == seq![c] + ra);
            assert(b == seq![c] + rb);
            assert forall|k: int| 0 <= k < a.len() implies a[k] == b[k] by {
                if k > 0 {
                    assert(ra[k - 1] == rb.subrange(0, ra.len() as int)[k - 1]);
                }
            }
            assert(a =~= b.subrange(0, a.len() as int));
        } else {
            lemma_window_from_prefix(s, i + 1, pos + w, used, left, width);
        }
    }
}

proof fn lemma_window_from_whole(s: Seq<char>, i: int, pos: int, used: int, width: int)
    requires
        0 <= i <= s.len(),
        0 <= pos,
        used + text_width(s.subrange(i, s.len() as int)) <= width,
    ensures
        window_from(s, i, pos, used, 0, width) == s.subrange(i, s.len() as int),
    decreases s.len() - i,
{
    if i == s.len() {
        assert(s.subrange(i, s.len() as int) =~= Seq::<char>::empty());
    } else {
        let w = cell_width(s[i]) as int;
        assert(s.subrange(i, s.len() as int) =~= seq![s[i]] + s.subrange(i + 1, s.len() as int));
        lemma_text_width_concat(seq![s[i]], s.subrange(i + 1, s.len() as int));
        lemma_text_width_one(s[i]);
        lemma_window_from_whole(s, i + 1, pos + w, used + w, width);
    }
}

/// The laws of a window over any text: it never takes more columns than it
/// is wide (the one-column space that stands for a clipped wide character
/// included, as `column_width(' ')` gives it); widening it by a column only
/// shows more at its right end; and text that fits is shown whole.
pub proof fn lemma_window_laws(s: Seq<char>, left: int, width: int)
    ensures
        width >= 1 && cell_width(' ') == 1 ==> text_width(window_from(s, 0, 0, 0, left, width))
            <= width,
        window_from(s, 0, 0, 0, left, width).is_prefix_of(window_from(s, 0, 0, 0, left, width + 1)),
        text_width(s) <= width ==> window_from(s, 0, 0, 0, 0, width) == s,
{
    if width >= 1 && cell_width(' ') == 1 {
        lemma_window_from_width(s, 0, 0, 0, left, width);
    }
    lemma_window_from_prefix(s, 0, 0, 0, left, width);
    if text_width(s) <= width {
        assert(s.subrange(0, s.len() as int) =~= s);
        lemma_window_from_whole(s, 0, 0, 0, width);
    }
}

// ---------------------------------------------------------------------------
// Wrapping
// ---------------------------------------------------------------------------

/// Splits at each newline, as `str::split('\n')` does: `n` newlines give
/// `n + 1` pieces, empty ones included.
pub open spec fn split_lines(s: Seq<char>) -> Seq<Seq<char>>
    decreases s.len(),
{
    if s.len() == 0 {
        seq![Seq::empty()]
    } else {
        let prev = split_lines(s.drop_last());
        if s.last() == '\n' {
            prev.push(Seq::empty())
        } else {
            prev.update(prev.len() - 1, prev.last().push(s.last()))
        }
    }
}

/// Rows of `s[i..]` wrapped by character at `width` columns, the current row
/// holding `line` in `used` columns. A character that would overflow a
/// nonempty row starts the next one.
pub open spec fn wrap_from(s: Seq<char>, i: int, line: Seq<char>, used: int, width: int) -> Seq<
    Seq<char>,
>
    decreases s.len() - i,
{
    if i < 0 || i >= s.len() {
        seq![line]
    } else {
        let w = cell_width(s[i]) as int;
        if used + w > width && line.len() > 0 {
            seq![line] + wrap_from(s, i + 1, seq![s[i]], w, width)
        } else {
            wrap_from(s, i + 1, line.push(s[i]), used + w, width)
        }
    }
}

/// A row fits its width, or holds one character too wide to share a row.
pub open spec fn row_fits(row: Seq<char>, width: int) -> bool {
    text_width(row) <= width || row.len() == 1
}

/// Rows break only where needed: every row but the last is nonempty, and its
/// next row's first character would not have fit after it.
pub open spec fn breaks_greedily(rows: Seq<Seq<char>>, width: int) -> bool {
    forall|k: int|
        0 <= k < rows.len() - 1 ==> {
            &&& (#[trigger] rows[k]).len() > 0
            &&& rows[k + 1].len() > 0
            &&& text_width(rows[k]) + cell_width(rows[k + 1][0]) > width
        }
}

proof fn lemma_wrap_from_rows(s: Seq<char>, i: int, line: Seq<char>, used: int, width: int)
    requires
        0 <= i <= s.len(),
        0 <= width,
        used == text_width(line),
        line.len() > 0 ==> row_fits(line, width),
    ensures
        ({
            let rows = wrap_from(s, i, line, used, width);
            &&& rows.len() >= 1
            &&& rows.flatten() == line + s.subrange(i, s.len() as int)
            &&& rows[0].len() >= line.len()
            &&& rows[0].subrange(0, line.len() as int) == line
            &&& forall|k: int| 0 <= k < rows.len() ==> row_fits(#[trigger] rows[k], width)
            &&& breaks_greedily(rows, width)
        }),
    decreases s.len() - i,
{
    let rows = wrap_from(s, i, line, used, width);
    if i >= s.len() {
        assert(rows == seq![line]);
        assert(s.subrange(i, s.len() as int) =~= Seq::<char>::empty());
        assert(rows.drop_first() =~= Seq::<Seq<char>>::empty());
        assert(rows.drop_first().flatten() =~= Seq::<char>::empty());
        assert(line + Seq::<char>::empty() =~= line);
        assert(line.subrange(0, line.len() as int) =~= line);
        if line.len() == 0 {
            assert(text_width(line) == 0);
        }
    } else {
        let c = s[i];
        let w = cell_width(c) as int;
        assert(s.subrange(i, s.len() as int) =~= seq![c] + s.subrange(i + 1, s.len() as int));
        if used + w > width && line.len() > 0 {
            lemma_text_width_one(c);
            lemma_wrap_from_rows(s, i + 1, seq![c], w, width);
            let rest = wrap_from(s, i + 1, seq![c], w, width);
            assert(rows == seq![line] + rest);
            assert(rows.drop_first() =~= rest);
            assert(rows.flatten() == line + rest.flatten());
            assert(line + (seq![c] + s.subrange(i + 1, s.len() as int)) =~= line + s.subrange(
                i,
                s.len() as int,
            ));
            assert(line.subrange(0, line.len() as int) =~= line);
            assert(rest[0][0] == rest[0].subrange(0, 1)[0]);
            assert forall|k: int| 0 <= k < rows.len() implies row_fits(#[trigger] rows[k], width) by {
                if k > 0 {
                    assert(rows[k] == rest[k - 1]);
                }
            }
            assert forall|k: int| 0 <= k < rows.len() - 1 implies {
                &&& (#[trigger] rows[k]).len() > 0
                &&& rows[k + 1].len() > 0
                &&& text_width(rows[k]) + cell_width(rows[k + 1][0]) > width
            } by {
                if k > 0 {
                    assert(rows[k] == rest[k - 1]);
                    assert(rows[k + 1] == rest[k]);
                } else {
                    assert(rows[1] == rest[0]);
                }
            }
        } else {
            let next = line.push(c);
            assert(next.drop_last() =~= line);
            assert(next.last() == c);
            assert(text_width(next) == used + w);
            if line.len() == 0 {
                assert(next.len() == 1);
            }
            lemma_wrap_from_rows(s, i + 1, next, used + w, width);
            assert(next + s.subrange(i + 1, s.len() as int) =~= line + s.subrange(i, s.len() as int));
            let r0 = rows[0];
            assert(r0.subrange(0, next.len() as int) == next);
            assert(r0.subrange(0, line.len() as int) =~= next.subrange(0, line.len() as int));
            assert(next.subrange(0, line.len() as int) =~= line);
        }
    }
}

/// How one line is cut into rows: the rows put together give the line back,
/// each row fits the width unless it holds a single character wider than the
/// whole row, and a row ends only where the next character would not fit.
pub proof fn lemma_wrap_rows(s: Seq<char>, width: int)
    requires
        0 <= width,
    ensures
        ({
            let rows = wrap_from(s, 0, Seq::empty(), 0, width);
            &&& rows.len() >= 1
            &&& rows.flatten() == s
            &&& forall|k: int| 0 <= k < rows.len() ==> row_fits(#[trigger] rows[k], width)
            &&& breaks_greedily(rows, width)
        }),
{
    assert(text_width(Seq::<char>::empty()) == 0);
    lemma_wrap_from_rows(s, 0, Seq::empty(), 0, width);
    assert(Seq::<char>::empty() + s.subrange(0, s.len() as int) =~= s);
}

/// Rows of each line of text, made safe and wrapped.
pub open spec fn wrapped_lines(lines: Seq<Seq<char>>, width: int) -> Seq<Seq<char>>
    decreases lines.len(),
{
    if lines.len() == 0 {
        Seq::empty()
    } else {
        wrapped_lines(lines.drop_last(), width) + wrap_from(safe_seq(lines.last()), 0, Seq::empty(), 0, width)
    }
}

/// The texts of a list of strings.
pub open spec fn texts(v: Seq<String>) -> Seq<Seq<char>> {
    v.map_values(|s: String| s@)
}

/// Appends the rows of one line, made safe and wrapped at `width` columns.
fn wrap_into(rows: &mut Vec<String>, line: &Vec<char>, width: usize)
    requires
        line@.len() <= usize::MAX / 32,
    ensures
        texts(final(rows)@) == texts(old(rows)@) + wrap_from(safe_seq(line@), 0, Seq::empty(), 0, width as int),
{
    let raw = crate::text::string_from_chars(line.as_slice(), 0, line.len());
    assert(line@.subrange(0, line@.len() as int) =~= line@);
    let safe_string = safe_text(raw.as_str());
    let safe = chars_of(safe_string.as_str());
    proof {
        lemma_safe_seq_len(line@);
    }
    wrap_chars(rows, &safe, width);
}

/// Appends the rows of `safe` wrapped at `width` columns.
fn wrap_chars(rows: &mut Vec<String>, safe: &Vec<char>, width: usize)
    requires
        3 * safe@.len() <= usize::MAX,
    ensures
        texts(final(rows)@) == texts(old(rows)@) + wrap_from(safe@, 0, Seq::empty(), 0, width as int),
{
    let ghost start = texts(rows@);
    let ghost target = wrap_from(safe@, 0, Seq::empty(), 0, width as int);
    let mut current = String::new();
    let mut nonempty = false;
    let mut used: usize = 0;
    let mut i: usize = 0;
    while i < safe.len()
        invariant
            nonempty == (current@.len() > 0),
            3 * safe@.len() <= usize::MAX,
            i <= safe@.len(),
            used <= 3 * i,
            texts(rows@) + wrap_from(safe@, i as int, current@, used as int, width as int) == start
                + target,
        decreases safe.len() - i,
    {
        let c = safe[i];
        let w = match width_of(c) {
            Some(n) => n,
            None => 0,
        };
        if used + w > width && nonempty {
            let ghost before = texts(rows@);
            let mut next = String::new();
            push_char(&mut next, c);
            let mut finished = next;
            std::mem::swap(&mut current, &mut finished);
            rows.push(finished);
            proof {
                assert(texts(rows@) =~= before.push(finished@));
                assert(current@ =~= seq![c]);
                let rest = wrap_from(safe@, i + 1, seq![c], w as int, width as int);
                assert(before + (seq![finished@] + rest) =~= before.push(finished@) + rest);
            }
            used = w;
        } else {
            push_char(&mut current, c);
            nonempty = true;
            used = used + w;
        }
        i += 1;
    }
    let ghost before = texts(rows@);
    rows.push(current);
    proof {
        assert(texts(rows@) =~= before.push(current@));
        assert(before + seq![current@] =~= before.push(current@));
    }
}

/// Escaping multiplies a line's length by at most ten.
proof fn lemma_safe_seq_len(s: Seq<char>)
    ensures
        safe_seq(s).len() <= 10 * s.len(),
    decreases s.len(),
{
    if s.len() > 0 {
        lemma_safe_seq_len(s.drop_last());
        let c = s.last();
        reveal_strlit("\\n");
        reveal_strlit("\\r");
        reveal_strlit("\\t");
        reveal_strlit("<ESC>");
        reveal_strlit("\\u{");
        reveal_strlit("}");
        lemma_hex_digits_len(c as u32, escape_digits(c as u32));
    }
}

proof fn lemma_hex_digits_len(v: u32, n: nat)
    ensures
        hex_digits(v, n).len() == n,
    decreases n,
{
    if n > 0 {
        lemma_hex_digits_len(v / 16, (n - 1) as nat);
    }
}

/// Text cut into screen rows `width` columns wide: each line is made safe
/// and wrapped by character, so addresses and long tokens stay readable.
pub fn wrapped_safe(text: &str, width: usize) -> (rows: Vec<String>)
    requires
        text@.len() <= usize::MAX / 32,
    ensures
        texts(rows@) == wrapped_lines(split_lines(text@), width as int),
{
    let chars = chars_of(text);
    let mut rows: Vec<String> = Vec::new();
    let mut line: Vec<char> = Vec::new();
    let mut i: usize = 0;
    while i < chars.len()
        invariant
            chars@ == text@,
            chars@.len() <= usize::MAX / 32,
            i <= chars@.len(),
            line@.len() <= i,
            texts(rows@) == wrapped_lines(split_lines(chars@.take(i as int)).drop_last(), width as int),
            line@ == split_lines(chars@.take(i as int)).last(),
            split_lines(chars@.take(i as int)).len() > 0,
        decreases chars.len() - i,
    {
        let c = chars[i];
        let ghost prev = split_lines(chars@.take(i as int));
        proof {
            assert(chars@.take(i + 1).drop_last() =~= chars@.take(i as int));
            assert(chars@.take(i + 1).last() == c);
        }
        if c == '\n' {
            wrap_into(&mut rows, &line, width);
            line = Vec::new();
            proof {
                let next = split_lines(chars@.take(i + 1));
                assert(next == prev.push(Seq::empty()));
                assert(next.drop_last() =~= prev);
                assert(prev =~= prev.drop_last().push(prev.last()));
                assert(line@ =~= next.last());
            }
        } else {
            line.push(c);
            proof {
                let next = split_lines(chars@.take(i + 1));
                assert(next.drop_last() =~= prev.drop_last());
            }
        }
        i += 1;
    }
    proof {
        assert(chars@.take(chars@.len() as int) =~= chars@);
    }
    let ghost all = split_lines(chars@);
    wrap_into(&mut rows, &line, width);
    proof {
        assert(all =~= all.drop_last().push(all.last()));
    }
    rows
}

// ---------------------------------------------------------------------------
// Labels
// ---------------------------------------------------------------------------

/// The name each editor control shows.
pub open spec fn control_name(c: EditorControl) -> Seq<char> {
    match c {
        EditorControl::Label => "Record title"@,
        EditorControl::FieldList => "Field list"@,
        EditorControl::Name => "Field name"@,
        EditorControl::Kind => "Field type"@,
        EditorControl::Secret => "Secret toggle"@,
        EditorControl::Value => "Field value"@,
        EditorControl::Generate => "Generate"@,
        EditorControl::Add => "Add field"@,
        EditorControl::Remove => "Remove"@,
        EditorControl::MoveUp => "Move up"@,
        EditorControl::MoveDown => "Move down"@,
        EditorControl::Save => "Save"@,
        EditorControl::Cancel => "Cancel"@,
    }
}

/// The name an editor control shows.
pub fn control_label(control: EditorControl) -> (s: &'static str)
    ensures
        s@ == control_name(control),
{
    match control {
        EditorControl::Label => "Record title",
        EditorControl::FieldList => "Field list",
        EditorControl::Name => "Field name",
        EditorControl::Kind => "Field type",
        EditorControl::Secret => "Secret toggle",
        EditorControl::Value => "Field value",
        EditorControl::Generate => "Generate",
        EditorControl::Add => "Add field",
        EditorControl::Remove => "Remove",
        EditorControl::MoveUp => "Move up",
        EditorControl::MoveDown => "Move down",
        EditorControl::Save => "Save",
        EditorControl::Cancel => "Cancel",
    }
}

// ---------------------------------------------------------------------------
// Footer hints
// ---------------------------------------------------------------------------

/// The two key-hint lines of the footer for each mode.
pub open spec fn hints_of(mode: Mode) -> (Seq<char>, Seq<char>) {
    match mode {
        Mode::Create => (
            "Tab switch password / confirmation · Enter next / create"@,
            "Esc clears both · Ctrl-Q quit · no password recovery"@,
        ),
        Mode::Locked => (
            "Enter unlock · Esc clear · Ctrl-Q quit"@,
            "Password stays hidden; its length is not displayed."@,
        ),
        Mode::Browse => (
            "j/k move · h/l panes · / search · a add · e edit · d delete"@,
            "r reveal 10s · PgUp/PgDn scroll · L lock · t theme · ? help · q quit"@,
        ),
        Mode::Search => (
            "Type to filter record labels · Enter apply · Esc restore"@,
            "Only labels are searched; secret values are never searched."@,
        ),
        Mode::Edit => (
            "Tab / Shift-Tab focus · Enter / Space activate · Ctrl-S save"@,
            "Esc cancel · text: arrows / Home / End · Ctrl-U clear"@,
        ),
        Mode::Templates => (
            "j/k choose template · Enter create draft · Esc cancel"@,
            "Templates are a starting point. Every field is editable."@,
        ),
        Mode::Delete => (
            "y permanently delete · n / Esc keep record"@,
            "Deletion is saved immediately. There is no undo."@,
        ),
        Mode::Help => (
            "Esc / Enter / ? close help · L lock"@,
            "Ctrl-Q quits from any screen; unsaved drafts are discarded."@,
        ),
        Mode::Themes => (
            "j/k choose palette · Enter apply · Esc cancel"@,
            "Theme changes are session-only; use --theme at launch."@,
        ),
    }
}

/// The footer's key hints for a mode.
pub fn footer_hints(mode: Mode) -> (r: (&'static str, &'static str))
    ensures
        (r.0@, r.1@) == hints_of(mode),
{
    match mode {
        Mode::Create => (
            "Tab switch password / confirmation · Enter next / create",
            "Esc clears both · Ctrl-Q quit · no password recovery",
        ),
        Mode::Locked => (
            "Enter unlock · Esc clear · Ctrl-Q quit",
            "Password stays hidden; its length is not displayed.",
        ),
        Mode::Browse => (
            "j/k move · h/l panes · / search · a add · e edit · d delete",
            "r reveal 10s · PgUp/PgDn scroll · L lock · t theme · ? help · q quit",
        ),
        Mode::Search => (
            "Type to filter record labels · Enter apply · Esc restore",
            "Only labels are searched; secret values are never searched.",
        ),
        Mode::Edit => (
            "Tab / Shift-Tab focus · Enter / Space activate · Ctrl-S save",
            "Esc cancel · text: arrows / Home / End · Ctrl-U clear",
        ),
        Mode::Templates => (
            "j/k choose template · Enter create draft · Esc cancel",
            "Templates are a starting point. Every field is editable.",
        ),
        Mode::Delete => (
            "y permanently delete · n / Esc keep record",
            "Deletion is saved immediately. There is no undo.",
        ),
        Mode::Help => (
            "Esc / Enter / ? close help · L lock",
            "Ctrl-Q quits from any screen; unsaved drafts are discarded.",
        ),
        Mode::Themes => (
            "j/k choose palette · Enter apply · Esc cancel",
            "Theme changes are session-only; use --theme at launch.",
        ),
    }
}

// ---------------------------------------------------------------------------
// Field details
// ---------------------------------------------------------------------------

/// The constant mask shown for a secret; it never reflects the secret's length.
pub open spec fn mask() -> Seq<char> {
    "************"@
}

/// The rows a field's value shows in the details pane: the mask for a
/// secret that is not revealed, a placeholder for an empty value, and
/// otherwise the value made safe and wrapped.
pub open spec fn field_rows(f: Field, reveal: bool, width: int) -> Seq<Seq<char>> {
    if f.secret && !reveal {
        seq![mask()]
    } else if f.value@.len() == 0 {
        seq!["(empty)"@]
    } else {
        wrapped_lines(split_lines(f.value@), width)
    }
}

/// Whether the details pane shows a field's secret in clear: only a secret
/// field that is the selected one, while a reveal is on, in the browser.
pub fn reveals_value(field: &Field, revealed: bool, selected: bool, mode: Mode) -> (b: bool)
    ensures
        b == (field.secret && revealed && selected && mode == Mode::Browse),
{
    field.secret && revealed && selected && mode == Mode::Browse
}

/// The rows a field's value shows. A secret's value is not even copied
/// unless it is revealed.
pub fn field_content(field: &Field, reveal: bool, width: usize) -> (rows: Vec<String>)
    requires
        field.value@.len() <= usize::MAX / 32,
    ensures
        texts(rows@) == field_rows(*field, reveal, width as int),
{
    if field.secret && !reveal {
        let mut rows: Vec<String> = Vec::new();
        rows.push(String::from_str("************"));
        assert(texts(rows@) =~= seq![mask()]);
        rows
    } else if field.value.as_str().unicode_len() == 0 {
        let mut rows: Vec<String> = Vec::new();
        rows.push(String::from_str("(empty)"));
        assert(texts(rows@) =~= seq!["(empty)"@]);
        rows
    } else {
        wrapped_safe(field.value.as_str(), width)
    }
}

/// The first row of the details pane to show: with no scroll, the selected
/// field's rows are brought into view (from their start when they do not
/// fit); a scroll moves within the selected field's rows.
pub open spec fn detail_first_row(start: int, end: int, height: int, scroll: int) -> int {
    let base = if end <= height {
        0
    } else if end - start <= height {
        end - height
    } else {
        start
    };
    if scroll > 0 {
        let room = if end > start {
            end - start - 1
        } else {
            0
        };
        start + if scroll < room {
            scroll
        } else {
            room
        }
    } else {
        base
    }
}

/// The first row of the details pane to show, for the selected field's rows
/// `start..end` in a pane `height` rows tall scrolled by `scroll`.
pub fn detail_start(start: usize, end: usize, height: usize, scroll: usize) -> (r: usize)
    requires
        start <= end,
    ensures
        r == detail_first_row(start as int, end as int, height as int, scroll as int),
{
    if scroll > 0 {
        let room = if end > start {
            end - start - 1
        } else {
            0
        };
        start + if scroll < room {
            scroll
        } else {
            room
        }
    } else if end <= height {
        0
    } else if end - start <= height {
        end - height
    } else {
        start
    }
}

// ---------------------------------------------------------------------------
// Text input views
// ---------------------------------------------------------------------------

/// How many leading characters of `s[i..]` fit, one after another, within
/// `limit` bytes when `used` bytes are already taken: the character
/// position of a byte cursor, moved back to a character boundary.
pub open spec fn chars_within(s: Seq<char>, i: int, used: int, limit: int) -> int
    decreases s.len() - i,
{
    if 0 <= i < s.len() && used + char_utf8_len(s[i]) <= limit {
        chars_within(s, i + 1, used + char_utf8_len(s[i]), limit)
    } else {
        i
    }
}

/// How many newlines `s` holds.
pub open spec fn newlines(s: Seq<char>) -> nat
    decreases s.len(),
{
    if s.len() == 0 {
        0
    } else {
        newlines(s.drop_last()) + if s.last() == '\n' {
            1nat
        } else {
            0nat
        }
    }
}

/// The characters after the last newline of `s` (all of `s` without one).
pub open spec fn last_line(s: Seq<char>) -> Seq<char>
    decreases s.len(),
{
    if s.len() == 0 {
        Seq::empty()
    } else if s.last() == '\n' {
        Seq::empty()
    } else {
        last_line(s.drop_last()).push(s.last())
    }
}

/// `a - b`, or zero.
pub open spec fn sat_sub(a: int, b: int) -> int {
    if a > b {
        a - b
    } else {
        0
    }
}

/// The lines a text input shows: the value's lines when it is multiline,
/// otherwise the value as one line.
pub open spec fn input_lines(value: Seq<char>, multiline: bool) -> Seq<Seq<char>> {
    if multiline {
        split_lines(value)
    } else {
        seq![value]
    }
}

/// What a text input shows in a box `width` columns by `height` rows, with
/// the cursor at byte `cursor`: the visible part of each visible line (made
/// safe), and the cursor's column and row within the box. The view scrolls
/// just far enough right and down to keep the cursor inside.
pub open spec fn input_view_of(
    value: Seq<char>,
    cursor: int,
    multiline: bool,
    width: int,
    height: int,
) -> (Seq<Seq<char>>, int, int) {
    let before = value.take(chars_within(value, 0, 0, cursor));
    let row = if multiline {
        newlines(before) as int
    } else {
        0
    };
    let prefix = if multiline {
        last_line(before)
    } else {
        before
    };
    let column = text_width(safe_seq(prefix)) as int;
    let first = sat_sub(row, sat_sub(height, 1));
    let left = sat_sub(column, sat_sub(width, 1));
    let lines = input_lines(value, multiline);
    let lo = min_int(first, lines.len() as int);
    let hi = min_int(first + height, lines.len() as int);
    let shown = Seq::new(
        sat_sub(hi, lo) as nat,
        |j: int| window_from(safe_seq(lines[lo + j]), 0, 0, 0, left, width),
    );
    (shown, column - left, row - first)
}

/// The smaller of two integers.
pub open spec fn min_int(a: int, b: int) -> int {
    if a < b {
        a
    } else {
        b
    }
}

/// What a text input shows: its visible lines and the cursor's place in the box.
pub struct InputView {
    pub lines: Vec<String>,
    pub column: usize,
    pub row: usize,
}

/// Splits characters into lines at each newline.
fn split_chars(chars: &Vec<char>) -> (lines: Vec<Vec<char>>)
    ensures
        lines@.map_values(|l: Vec<char>| l@) == split_lines(chars@),
{
    let mut lines: Vec<Vec<char>> = Vec::new();
    let mut line: Vec<char> = Vec::new();
    let mut i: usize = 0;
    while i < chars.len()
        invariant
            i <= chars@.len(),
            lines@.map_values(|l: Vec<char>| l@) == split_lines(chars@.take(i as int)).drop_last(),
            line@ == split_lines(chars@.take(i as int)).last(),
            split_lines(chars@.take(i as int)).len() > 0,
        decreases chars.len() - i,
    {
        let c = chars[i];
        let ghost prev = split_lines(chars@.take(i as int));
        proof {
            assert(chars@.take(i + 1).drop_last() =~= chars@.take(i as int));
            assert(chars@.take(i + 1).last() == c);
        }
        if c == '\n' {
            let ghost before = lines@.map_values(|l: Vec<char>| l@);
            let finished = line;
            lines.push(finished);
            line = Vec::new();
            proof {
                let next = split_lines(chars@.take(i + 1));
                assert(lines@.map_values(|l: Vec<char>| l@) =~= before.push(finished@));
                assert(next.drop_last() =~= prev);
                assert(prev =~= prev.drop_last().push(prev.last()));
                assert(line@ =~= next.last());
            }
        } else {
            line.push(c);
            proof {
                let next = split_lines(chars@.take(i + 1));
                assert(next.drop_last() =~= prev.drop_last());
            }
        }
        i += 1;
    }
    proof {
        assert(chars@.take(chars@.len() as int) =~= chars@);
    }
    let ghost all = split_lines(chars@);
    let ghost before = lines@.map_values(|l: Vec<char>| l@);
    let last = line;
    lines.push(last);
    proof {
        assert(lines@.map_values(|l: Vec<char>| l@) =~= before.push(last@));
        assert(all =~= all.drop_last().push(all.last()));
    }
    lines
}

/// A string of characters.
fn text_of(chars: &Vec<char>) -> (s: String)
    ensures
        s@ == chars@,
{
    let s = crate::text::string_from_chars(chars.as_slice(), 0, chars.len());
    assert(chars@.subrange(0, chars@.len() as int) =~= chars@);
    s
}

/// The part of a line shown in the box: made safe, then cut to the window.
fn line_view(line: &Vec<char>, left: usize, width: usize) -> (s: String)
    requires
        line@.len() <= usize::MAX / 32,
    ensures
        s@ == window_from(safe_seq(line@), 0, 0, 0, left as int, width as int),
{
    let raw = text_of(line);
    let safe = safe_text(raw.as_str());
    proof {
        lemma_safe_seq_len(line@);
    }
    window(safe.as_str(), left, width)
}

/// What a text input shows in a box `width` columns by `height` rows.
/// A cursor inside a character is moved back to its start.
pub fn input_view(input: &TextInput, multiline: bool, width: usize, height: usize) -> (v: InputView)
    requires
        input.value@.len() <= usize::MAX / 32,
    ensures
        ({
            let (shown, column, row) = input_view_of(
                input.value@,
                input.cursor as int,
                multiline,
                width as int,
                height as int,
            );
            &&& texts(v.lines@) == shown
            &&& v.column == column
            &&& v.row == row
        }),
{
    let chars = chars_of(input.value.as_str());
    let mut k: usize = 0;
    let mut used: usize = 0;
    while k < chars.len() && crate::text::char_len(chars[k]) <= input.cursor - used
        invariant
            k <= chars@.len(),
            used <= input.cursor,
            chars_within(chars@, k as int, used as int, input.cursor as int) == chars_within(
                chars@,
                0,
                0,
                input.cursor as int,
            ),
        decreases chars.len() - k,
    {
        used = used + crate::text::char_len(chars[k]);
        k += 1;
    }
    let mut row: usize = 0;
    let mut prefix: Vec<char> = Vec::new();
    let mut i: usize = 0;
    while i < k
        invariant
            k <= chars@.len(),
            i <= k,
            row == newlines(chars@.take(i as int)),
            row <= i,
            prefix@ == (if multiline {
                last_line(chars@.take(i as int))
            } else {
                chars@.take(i as int)
            }),
        decreases k - i,
    {
        let c = chars[i];
        proof {
            assert(chars@.take(i + 1).drop_last() =~= chars@.take(i as int));
            assert(chars@.take(i + 1).last() == c);
        }
        if c == '\n' {
            row = row + 1;
        }
        if multiline && c == '\n' {
            prefix = Vec::new();
        } else {
            prefix.push(c);
        }
        i += 1;
    }
    let row = if multiline {
        row
    } else {
        0
    };
    let prefix_text = text_of(&prefix);
    let safe_prefix = safe_text(prefix_text.as_str());
    proof {
        assert(prefix@.len() <= chars@.len()) by {
            if multiline {
                lemma_last_line_len(chars@.take(k as int));
            }
        }
        lemma_safe_seq_len(prefix@);
    }
    let column = display_width(safe_prefix.as_str());
    let first = if height > 0 && row > height - 1 {
        row - (height - 1)
    } else if height == 0 {
        row
    } else {
        0
    };
    let left = if width == 0 {
        column
    } else if column > width - 1 {
        column - (width - 1)
    } else {
        0
    };
    let lines: Vec<Vec<char>> = if multiline {
        split_chars(&chars)
    } else {
        let mut single: Vec<Vec<char>> = Vec::new();
        single.push(chars);
        single
    };
    let ghost all = input_lines(input.value@, multiline);
    proof {
        assert(lines@.map_values(|l: Vec<char>| l@) =~= all);
        lemma_split_lines_bounded(input.value@);
    }
    let n = lines.len();
    let lo = if first < n {
        first
    } else {
        n
    };
    let hi = if height <= n - lo {
        lo + height
    } else {
        n
    };
    let mut shown: Vec<String> = Vec::new();
    let mut j = lo;
    while j < hi
        invariant
            lo <= j <= hi <= n,
            n == lines@.len(),
            lines@.map_values(|l: Vec<char>| l@) == all,
            forall|m: int| 0 <= m < all.len() ==> #[trigger] all[m].len() <= usize::MAX / 32,
            texts(shown@) == Seq::new(
                (j - lo) as nat,
                |m: int| window_from(safe_seq(all[lo + m]), 0, 0, 0, left as int, width as int),
            ),
        decreases hi - j,
    {
        let ghost before = texts(shown@);
        assert(lines@.map_values(|l: Vec<char>| l@)[j as int] == lines@[j as int]@);
        let s = line_view(&lines[j], left, width);
        shown.push(s);
        proof {
            assert(texts(shown@) =~= before.push(s@));
        }
        j += 1;
        proof {
            assert(texts(shown@) =~= Seq::new(
                (j - lo) as nat,
                |m: int| window_from(safe_seq(all[lo + m]), 0, 0, 0, left as int, width as int),
            ));
        }
    }
    InputView { lines: shown, column: column - left, row: row - first }
}

proof fn lemma_last_line_len(s: Seq<char>)
    ensures
        last_line(s).len() <= s.len(),
    decreases s.len(),
{
    if s.len() > 0 {
        lemma_last_line_len(s.drop_last());
    }
}

/// No line of a text is longer than the text.
proof fn lemma_split_lines_bounded(s: Seq<char>)
    ensures
        forall|m: int|
            0 <= m < split_lines(s).len() ==> #[trigger] split_lines(s)[m].len() <= s.len(),
        split_lines(s).len() >= 1,
    decreases s.len(),
{
    if s.len() > 0 {
        lemma_split_lines_bounded(s.drop_last());
    }
}


/// What a secret input shows: the mask, with the cursor just after it (or
/// in the box's last column). It takes no part of the input, so neither the
/// shown text nor the cursor reflects the secret or its length.
pub fn secret_view(width: usize) -> (v: InputView)
    ensures
        texts(v.lines@) == seq![mask()],
        v.column == min_int(12, sat_sub(width as int, 1)),
        v.row == 0,
{
    let mut lines: Vec<String> = Vec::new();
    lines.push(String::from_str("************"));
    assert(texts(lines@) =~= seq![mask()]);
    let room = if width > 0 {
        width - 1
    } else {
        0
    };
    InputView { lines, column: if room < 12 {
        room
    } else {
        12
    }, row: 0 }
}


/// What the compact editor says about a button or choice control, given
/// the selected field's kind (if a field is selected) and whether it is secret.
pub open spec fn control_description(c: EditorControl, kind: Option<FieldKind>, masked: bool) -> Seq<
    char,
> {
    match c {
        EditorControl::Kind => "‹ "@ + (match kind {
            Some(k) => kind_label(k),
            None => "No field"@,
        }) + " ›\nLeft / Right changes the type."@,
        EditorControl::Secret => (if masked {
            "[x] Secret / hidden"@
        } else {
            "[ ] Visible text"@
        }) + "\nSpace toggles visibility."@,
        EditorControl::Generate => "Generate a 24-character secret.\nReplaces this field's current value."@,
        EditorControl::Add => "Add a new custom text field."@,
        EditorControl::Remove => "Remove the selected field from this draft."@,
        EditorControl::MoveUp | EditorControl::MoveDown => "Reorder the selected field."@,
        EditorControl::Save => "Save this record to the encrypted vault."@,
        EditorControl::Cancel => "Discard this draft without saving."@,
        _ => Seq::empty(),
    }
}

/// What the compact editor says about the focused control.
pub fn describe_control(editor: &Editor) -> (s: String)
    ensures
        s@ == control_description(
            editor.focus,
            if editor.field < editor.record.fields@.len() {
                Some(editor.record.fields@[editor.field as int].kind)
            } else {
                None
            },
            editor.field < editor.record.fields@.len() && editor.record.fields@[editor.field as int].secret,
        ),
{
    let masked = editor.masked();
    match editor.focus {
        EditorControl::Kind => {
            let mut s = String::from_str("‹ ");
            if editor.field < editor.record.fields.len() {
                s.append(editor.record.fields[editor.field].kind.label());
            } else {
                s.append("No field");
            }
            s.append(" ›\nLeft / Right changes the type.");
            s
        },
        EditorControl::Secret => {
            let mut s = if masked {
                String::from_str("[x] Secret / hidden")
            } else {
                String::from_str("[ ] Visible text")
            };
            s.append("\nSpace toggles visibility.");
            s
        },
        EditorControl::Generate => String::from_str(
            "Generate a 24-character secret.\nReplaces this field's current value.",
        ),
        EditorControl::Add => String::from_str("Add a new custom text field."),
        EditorControl::Remove => String::from_str("Remove the selected field from this draft."),
        EditorControl::MoveUp | EditorControl::MoveDown => String::from_str(
            "Reorder the selected field.",
        ),
        EditorControl::Save => String::from_str("Save this record to the encrypted vault."),
        EditorControl::Cancel => String::from_str("Discard this draft without saving."),
        _ => String::new(),
    }
}

} // verus!
