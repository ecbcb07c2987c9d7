//! Single- and multi-line text inputs with a UTF-8 byte cursor, and the
//! record editor built from them.
use vstd::prelude::*;
use vstd::pervasive::VecAdditionalExecFns;

use crate::input::{KeyCode, KeyEvent};
use crate::model::{
    same_record,
    kind_at, kind_index, Field, FieldKind, Record, MAX_FIELDS_PER_RECORD, MAX_FIELD_NAME_LEN,
    MAX_FIELD_VALUE_LEN, MAX_LABEL_LEN, wipe_string,
};
use crate::text::{
    byte_len, chars_of, is_control, is_control_char, lemma_utf8_len_concat, lemma_utf8_len_push,
    lemma_utf8_len_take, lemma_utf8_len_take_strict, prefix_byte_len, string_from_chars, utf8_len,
};

verus! {

pub const NAME_LIMIT: usize = 128;
pub const INPUT_LIMIT: usize = 65536;
pub const LABEL_LIMIT: usize = 256;
pub const PASSWORD_LIMIT: usize = 1024;

// ---------------------------------------------------------------------------
// Text model
// ---------------------------------------------------------------------------

/// `k` characters of `s` span exactly `cursor` bytes.
pub open spec fn boundary(s: Seq<char>, cursor: int, k: int) -> bool {
    0 <= k <= s.len() && utf8_len(s.take(k)) == cursor
}

/// A byte offset names at most one character position.
pub proof fn lemma_boundary_unique(s: Seq<char>, cursor: int, k1: int, k2: int)
    requires
        boundary(s, cursor, k1),
        boundary(s, cursor, k2),
    ensures
        k1 == k2,
{
    if k1 < k2 {
        lemma_utf8_len_take_strict(s, k1, k2);
    } else if k2 < k1 {
        lemma_utf8_len_take_strict(s, k2, k1);
    }
}

/// Text may be inserted: the result stays within `limit` bytes and the text
/// holds no control character, except newlines in a multiline input.
pub open spec fn insert_allowed(s: Seq<char>, t: Seq<char>, multiline: bool, limit: usize) -> bool {
    &&& utf8_len(s) + utf8_len(t) <= limit
    &&& forall|i: int|
        0 <= i < t.len() ==> !is_control_char(#[trigger] t[i]) || (multiline && t[i] == '\n')
}

/// `t` inserted at character position `k` of `s`.
pub open spec fn insert_at(s: Seq<char>, k: int, t: Seq<char>) -> Seq<char> {
    s.take(k) + t + s.skip(k)
}

/// Start of the line holding position `k`: just after the newline before it.
pub open spec fn line_start(s: Seq<char>, k: int) -> int
    decreases k,
{
    if k <= 0 {
        0
    } else if s[k - 1] == '\n' {
        k
    } else {
        line_start(s, k - 1)
    }
}

/// End of the line holding position `k`: the next newline, or the end.
pub open spec fn line_end(s: Seq<char>, k: int) -> int
    decreases s.len() - k,
{
    if k >= s.len() {
        s.len() as int
    } else if s[k] == '\n' {
        k
    } else {
        line_end(s, k + 1)
    }
}

/// Position after moving one line up (`up`) or down, keeping the column
/// when the target line is long enough and otherwise ending the line.
pub open spec fn vertical(s: Seq<char>, k: int, up: bool) -> int {
    let start = line_start(s, k);
    let end = line_end(s, k);
    let column = k - start;
    if up && start > 0 {
        let ts = line_start(s, start - 1);
        let te = start - 1;
        if ts + column < te {
            ts + column
        } else {
            te
        }
    } else if !up && end < s.len() {
        let ts = end + 1;
        let te = line_end(s, end + 1);
        if ts + column < te {
            ts + column
        } else {
            te
        }
    } else {
        k
    }
}

/// No newline stands in `s` from `i` up to `j`.
pub open spec fn no_newline(s: Seq<char>, i: int, j: int) -> bool {
    forall|m: int| i <= m < j ==> #[trigger] s[m] != '\n'
}

/// The line holding `k` starts at `ls` when `ls` begins a line and no
/// newline stands between them.
proof fn lemma_line_start_is(s: Seq<char>, k: int, ls: int)
    requires
        0 <= ls <= k <= s.len(),
        ls == 0 || s[ls - 1] == '\n',
        no_newline(s, ls, k),
    ensures
        line_start(s, k) == ls,
    decreases k,
{
    if k > ls {
        assert(s[k - 1] != '\n');
        lemma_line_start_is(s, k - 1, ls);
    }
}

/// The line holding `k` ends at `e` when `e` is the end of the text or a
/// newline and no newline stands between them.
proof fn lemma_line_end_is(s: Seq<char>, k: int, e: int)
    requires
        0 <= k <= e <= s.len(),
        e == s.len() || s[e] == '\n',
        no_newline(s, k, e),
    ensures
        line_end(s, k) == e,
    decreases s.len() - k,
{
    if k < e {
        assert(s[k] != '\n');
        lemma_line_end_is(s, k + 1, e);
    }
}

/// Moving down keeps the column: from position `k` on the line `ls..e`
/// (ended by the newline at `e`), the cursor lands on the next line
/// `e + 1..te` at the same distance from its start, or at its end when that
/// line is shorter.
pub proof fn lemma_down_keeps_column(s: Seq<char>, ls: int, k: int, e: int, te: int)
    requires
        0 <= ls <= k <= e < te <= s.len(),
        ls == 0 || s[ls - 1] == '\n',
        no_newline(s, ls, e),
        e < s.len() && s[e] == '\n',
        te == s.len() || s[te] == '\n',
        no_newline(s, e + 1, te),
    ensures
        vertical(s, k, false) == e + 1 + vstd::math::min(k - ls, te - (e + 1)),
{
    lemma_line_start_is(s, k, ls);
    lemma_line_end_is(s, k, e);
    lemma_line_end_is(s, e + 1, te);
}

/// Moving up keeps the column: from position `k` on the line starting at
/// `ls`, the cursor lands on the previous line `ps..ls - 1` at the same
/// distance from its start, or at its end when that line is shorter.
pub proof fn lemma_up_keeps_column(s: Seq<char>, ps: int, ls: int, k: int)
    requires
        0 <= ps < ls <= k <= s.len(),
        ps == 0 || s[ps - 1] == '\n',
        no_newline(s, ps, ls - 1),
        s[ls - 1] == '\n',
        no_newline(s, ls, k),
    ensures
        vertical(s, k, true) == ps + vstd::math::min(k - ls, ls - 1 - ps),
{
    lemma_line_start_is(s, k, ls);
    lemma_line_start_is(s, ls - 1, ps);
}

/// On the last line moving down stays put, and on the first line moving up does.
pub proof fn lemma_vertical_edges(s: Seq<char>, k: int)
    requires
        0 <= k <= s.len(),
    ensures
        no_newline(s, k, s.len() as int) ==> vertical(s, k, false) == k,
        no_newline(s, 0, k) ==> vertical(s, k, true) == k,
{
    if no_newline(s, k, s.len() as int) {
        lemma_line_end_is(s, k, s.len() as int);
    }
    if no_newline(s, 0, k) {
        lemma_line_start_is(s, k, 0);
    }
}

/// Text, cursor position and whether the key was handled, after a key press
/// on the text `s` with the cursor at character position `k`.
pub open spec fn key_outcome(
    s: Seq<char>,
    k: int,
    key: KeyEvent,
    multiline: bool,
    limit: usize,
) -> (Seq<char>, int, bool) {
    if key.modifiers.control {
        match key.code {
            KeyCode::Char('a') => (s, 0, true),
            KeyCode::Char('e') => (s, s.len() as int, true),
            KeyCode::Char('u') => (Seq::empty(), 0, true),
            _ => (s, k, false),
        }
    } else if key.modifiers.alt {
        (s, k, false)
    } else {
        match key.code {
            KeyCode::Char(c) => if insert_allowed(s, seq![c], multiline, limit) {
                (insert_at(s, k, seq![c]), k + 1, true)
            } else {
                (s, k, false)
            },
            KeyCode::Enter => if multiline && insert_allowed(s, seq!['\n'], true, limit) {
                (insert_at(s, k, seq!['\n']), k + 1, true)
            } else {
                (s, k, false)
            },
            KeyCode::Left => (s, if k > 0 {
                k - 1
            } else {
                0
            }, true),
            KeyCode::Right => (s, if k < s.len() {
                k + 1
            } else {
                k
            }, true),
            KeyCode::Up => if multiline {
                (s, vertical(s, k, true), true)
            } else {
                (s, k, false)
            },
            KeyCode::Down => if multiline {
                (s, vertical(s, k, false), true)
            } else {
                (s, k, false)
            },
            KeyCode::Home => (s, if multiline {
                line_start(s, k)
            } else {
                0
            }, true),
            KeyCode::End => (s, if multiline {
                line_end(s, k)
            } else {
                s.len() as int
            }, true),
            KeyCode::Backspace => if k > 0 {
                (s.remove(k - 1), k - 1, true)
            } else {
                (s, k, false)
            },
            KeyCode::Delete => if k < s.len() {
                (s.remove(k), k, true)
            } else {
                (s, k, false)
            },
            _ => (s, k, false),
        }
    }
}

proof fn lemma_line_start_bounds(s: Seq<char>, k: int)
    requires
        0 <= k <= s.len(),
    ensures
        0 <= line_start(s, k) <= k,
    decreases k,
{
    if k > 0 && s[k - 1] != '\n' {
        lemma_line_start_bounds(s, k - 1);
    }
}

proof fn lemma_line_end_bounds(s: Seq<char>, k: int)
    requires
        0 <= k <= s.len(),
    ensures
        k <= line_end(s, k) <= s.len(),
    decreases s.len() - k,
{
    if k < s.len() && s[k] != '\n' {
        lemma_line_end_bounds(s, k + 1);
    }
}

proof fn lemma_vertical_bounds(s: Seq<char>, k: int, up: bool)
    requires
        0 <= k <= s.len(),
    ensures
        0 <= vertical(s, k, up) <= s.len(),
{
    lemma_line_start_bounds(s, k);
    lemma_line_end_bounds(s, k);
    let start = line_start(s, k);
    let end = line_end(s, k);
    if up && start > 0 {
        lemma_line_start_bounds(s, start - 1);
    } else if !up && end < s.len() {
        lemma_line_end_bounds(s, end + 1);
    }
}

/// Position of the line start before `k`.
fn find_line_start(s: &[char], k: usize) -> (r: usize)
    requires
        k <= s@.len(),
    ensures
        r == line_start(s@, k as int),
{
    let mut j = k;
    while j > 0 && s[j - 1] != '\n'
        invariant
            j <= k <= s@.len(),
            line_start(s@, j as int) == line_start(s@, k as int),
        decreases j,
    {
        j -= 1;
    }
    j
}

/// Position of the line end at or after `k`.
fn find_line_end(s: &[char], k: usize) -> (r: usize)
    requires
        k <= s@.len(),
    ensures
        r == line_end(s@, k as int),
{
    let mut j = k;
    while j < s.len() && s[j] != '\n'
        invariant
            k <= j <= s@.len(),
            line_end(s@, j as int) == line_end(s@, k as int),
        decreases s@.len() - j,
    {
        j += 1;
    }
    j
}

fn vertical_target(s: &[char], k: usize, up: bool) -> (r: usize)
    requires
        k <= s@.len(),
    ensures
        r == vertical(s@, k as int, up),
{
    proof {
        lemma_line_start_bounds(s@, k as int);
        lemma_line_end_bounds(s@, k as int);
    }
    let start = find_line_start(s, k);
    let end = find_line_end(s, k);
    let column = k - start;
    if up && start > 0 {
        let ts = find_line_start(s, start - 1);
        proof {
            lemma_line_start_bounds(s@, start - 1);
        }
        let te = start - 1;
        if ts + column < te {
            ts + column
        } else {
            te
        }
    } else if !up && end < s.len() {
        let ts = end + 1;
        let te = find_line_end(s, end + 1);
        proof {
            lemma_line_end_bounds(s@, end + 1);
        }
        if column < te - ts {
            ts + column
        } else {
            te
        }
    } else {
        k
    }
}

// ---------------------------------------------------------------------------
// Text inputs
// ---------------------------------------------------------------------------

/// An editable text value.
#[derive(Debug)]
pub struct TextInput {
    pub value: String,
    /// A byte offset, always on a UTF-8 character boundary.
    pub cursor: usize,
}

impl Default for TextInput {
    /// An empty input.
    fn default() -> (t: TextInput)
        ensures
            t.value@.len() == 0,
            t.cursor == 0,
            t.wf(),
            t.position() == 0,
    {
        let t = TextInput { value: String::new(), cursor: 0 };
        assert(boundary(t.value@, 0, 0));
        proof {
            lemma_position(&t, 0);
        }
        t
    }
}

impl TextInput {
    /// The cursor lies on a character boundary of the value.
    pub open spec fn wf(&self) -> bool {
        exists|k: int| boundary(self.value@, self.cursor as int, k)
    }

    /// The cursor as a character position.
    pub open spec fn position(&self) -> int {
        choose|k: int| boundary(self.value@, self.cursor as int, k)
    }

    /// An input holding `value` with the cursor at its end.
    pub fn new(value: &str) -> (t: TextInput)
        ensures
            t.value@ == value@,
            t.cursor == utf8_len(value@),
            t.wf(),
            t.position() == value@.len(),
    {
        let t = TextInput { value: value.to_owned(), cursor: byte_len(value) };
        assert(value@.take(value@.len() as int) =~= value@);
        assert(boundary(t.value@, t.cursor as int, value@.len() as int));
        proof {
            lemma_position(&t, value@.len() as int);
        }
        t
    }

    /// Wipes and empties the input.
    pub fn clear(&mut self)
        ensures
            final(self).value@.len() == 0,
            final(self).cursor == 0,
            final(self).wf(),
            final(self).position() == 0,
    {
        wipe_string(&mut self.value);
        self.cursor = 0;
        assert(boundary(self.value@, 0, 0));
        proof {
            lemma_position(self, 0);
        }
    }

    /// Replaces the value and cursor by characters and a position.
    fn set(&mut self, chars: &Vec<char>, k: usize)
        requires
            k <= chars@.len(),
            utf8_len(chars@) <= usize::MAX,
        ensures
            final(self).value@ == chars@,
            final(self).wf(),
            final(self).position() == k,
    {
        let value = string_from_chars(chars.as_slice(), 0, chars.len());
        assert(chars@.subrange(0, chars@.len() as int) =~= chars@);
        let cursor = prefix_byte_len(chars.as_slice(), k);
        let mut old = value;
        std::mem::swap(&mut self.value, &mut old);
        wipe_string(&mut old);
        self.cursor = cursor;
        assert(boundary(self.value@, self.cursor as int, k as int));
        proof {
            lemma_position(self, k as int);
        }
    }

    /// The characters and the cursor's character position.
    fn model(&self) -> (r: (Vec<char>, usize))
        requires
            self.wf(),
        ensures
            r.0@ == self.value@,
            r.1 == self.position(),
            boundary(self.value@, self.cursor as int, r.1 as int),
            utf8_len(r.0@) <= usize::MAX,
    {
        let chars = chars_of(self.value.as_str());
        let total = byte_len(self.value.as_str());
        let ghost target = self.position();
        proof {
            assert(boundary(self.value@, self.cursor as int, target));
        }
        let n = chars.len();
        let mut k: usize = 0;
        let mut bytes: usize = 0;
        while bytes < self.cursor
            invariant
                n == chars@.len(),
                chars@ == self.value@,
                total == utf8_len(chars@),
                k <= target,
                boundary(chars@, self.cursor as int, target),
                bytes == utf8_len(chars@.take(k as int)),
            decreases target - k,
        {
            proof {
                if k == target {
                    assert(false);
                }
                assert(chars@.take(k + 1) =~= chars@.take(k as int).push(chars@[k as int]));
                lemma_utf8_len_push(chars@.take(k as int), chars@[k as int]);
                lemma_utf8_len_take(chars@, k + 1);
                if k + 1 > target {
                    lemma_utf8_len_take_strict(chars@, target, k + 1);
                }
            }
            bytes = bytes + crate::text::char_len(chars[k]);
            k += 1;
        }
        proof {
            if k < target {
                lemma_utf8_len_take_strict(chars@, k as int, target);
            }
        }
        (chars, k)
    }

    /// Inserts `text` at the cursor when [`insert_allowed`]; returns whether it did.
    pub fn insert(&mut self, text: &str, multiline: bool, limit: usize) -> (ok: bool)
        requires
            old(self).wf(),
        ensures
            final(self).wf(),
            ok == insert_allowed(old(self).value@, text@, multiline, limit),
            ok ==> final(self).value@ == insert_at(old(self).value@, old(self).position(), text@)
                && final(self).position() == old(self).position() + text@.len(),
            !ok ==> *final(self) == *old(self),
    {
        let current = byte_len(self.value.as_str());
        let added = byte_len(text);
        let t = chars_of(text);
        if current > limit || added > limit - current || has_forbidden(&t, multiline) {
            return false;
        }
        let (chars, k) = self.model();
        let mut out: Vec<char> = Vec::new();
        let mut i: usize = 0;
        while i < k
            invariant
                i <= k <= chars@.len(),
                out@ == chars@.take(i as int),
            decreases k - i,
        {
            out.push(chars[i]);
            i += 1;
            assert(out@ =~= chars@.take(i as int));
        }
        let mut j: usize = 0;
        while j < t.len()
            invariant
                j <= t@.len(),
                out@ == chars@.take(k as int) + t@.take(j as int),
            decreases t.len() - j,
        {
            out.push(t[j]);
            j += 1;
            assert(out@ =~= chars@.take(k as int) + t@.take(j as int));
        }
        let mut m = k;
        while m < chars.len()
            invariant
                k <= m <= chars@.len(),
                out@ == chars@.take(k as int) + t@ + chars@.subrange(k as int, m as int),
            decreases chars.len() - m,
        {
            out.push(chars[m]);
            m += 1;
            assert(out@ =~= chars@.take(k as int) + t@ + chars@.subrange(k as int, m as int));
        }
        proof {
            assert(t@.take(t@.len() as int) =~= t@);
            assert(chars@.subrange(k as int, chars@.len() as int) =~= chars@.skip(k as int));
            assert(out@ =~= insert_at(chars@, k as int, t@));
            lemma_utf8_len_take(chars@, k as int);
            lemma_utf8_len_concat(chars@.take(k as int), t@);
            lemma_utf8_len_concat(chars@.take(k as int) + t@, chars@.skip(k as int));
        }
        assert(out@.len() == chars@.len() + t@.len());
        let _ = out.len();
        self.set(&out, k + t.len());
        true
    }

    /// Handles one key press; returns whether the input used it.
    pub fn key(&mut self, key: KeyEvent, multiline: bool, limit: usize) -> (handled: bool)
        requires
            old(self).wf(),
        ensures
            final(self).wf(),
            ({
                let (s, k, h) = key_outcome(old(self).value@, old(self).position(), key, multiline, limit);
                &&& handled == h
                &&& final(self).value@ == s
                &&& final(self).position() == k
            }),
    {
        let (chars, k) = self.model();
        proof {
            lemma_position(self, k as int);
        }
        if key.modifiers.control {
            match key.code {
                KeyCode::Char('a') => {
                    self.set(&chars, 0);
                    return true;
                },
                KeyCode::Char('e') => {
                    self.set(&chars, chars.len());
                    return true;
                },
                KeyCode::Char('u') => {
                    self.clear();
                    return true;
                },
                _ => {
                    return false;
                },
            }
        }
        if key.modifiers.alt {
            return false;
        }
        match key.code {
            KeyCode::Char(c) => {
                let mut text = String::new();
                crate::text::push_char(&mut text, c);
                assert(text@ =~= seq![c]);
                self.insert(text.as_str(), multiline, limit)
            },
            KeyCode::Enter => {
                if multiline {
                    let mut text = String::new();
                    crate::text::push_char(&mut text, '\n');
                    assert(text@ =~= seq!['\n']);
                    self.insert(text.as_str(), true, limit)
                } else {
                    false
                }
            },
            KeyCode::Left => {
                let target = if k > 0 {
                    k - 1
                } else {
                    0
                };
                self.set(&chars, target);
                true
            },
            KeyCode::Right => {
                let target = if k < chars.len() {
                    k + 1
                } else {
                    k
                };
                self.set(&chars, target);
                true
            },
            KeyCode::Up | KeyCode::Down => {
                if multiline {
                    let up = match key.code {
                        KeyCode::Up => true,
                        _ => false,
                    };
                    proof {
                        lemma_vertical_bounds(chars@, k as int, up);
                    }
                    let target = vertical_target(chars.as_slice(), k, up);
                    self.set(&chars, target);
                    true
                } else {
                    false
                }
            },
            KeyCode::Home => {
                let target = if multiline {
                    find_line_start(chars.as_slice(), k)
                } else {
                    0
                };
                proof {
                    lemma_line_start_bounds(chars@, k as int);
                }
                self.set(&chars, target);
                true
            },
            KeyCode::End => {
                let target = if multiline {
                    find_line_end(chars.as_slice(), k)
                } else {
                    chars.len()
                };
                proof {
                    lemma_line_end_bounds(chars@, k as int);
                }
                self.set(&chars, target);
                true
            },
            KeyCode::Backspace => {
                if k > 0 {
                    let mut out = chars;
                    out.remove(k - 1);
                    proof {
                        crate::text::lemma_utf8_len_ge_len(out@);
                        lemma_remove_shrinks(chars@, k - 1);
                    }
                    self.set(&out, k - 1);
                    true
                } else {
                    false
                }
            },
            KeyCode::Delete => {
                if k < chars.len() {
                    let mut out = chars;
                    out.remove(k);
                    proof {
                        lemma_remove_shrinks(chars@, k as int);
                    }
                    self.set(&out, k);
                    true
                } else {
                    false
                }
            },
            _ => false,
        }
    }
}

/// The position that [`TextInput::position`] names, when a boundary is known.
pub proof fn lemma_position(t: &TextInput, k: int)
    requires
        boundary(t.value@, t.cursor as int, k),
    ensures
        t.wf(),
        t.position() == k,
{
    let p = t.position();
    lemma_boundary_unique(t.value@, t.cursor as int, p, k);
}

proof fn lemma_remove_shrinks(s: Seq<char>, i: int)
    requires
        0 <= i < s.len(),
    ensures
        utf8_len(s.remove(i)) <= utf8_len(s),
{
    assert(s =~= s.take(i) + s.skip(i));
    assert(s.remove(i) =~= s.take(i) + s.skip(i + 1));
    assert(s.skip(i) =~= seq![s[i]] + s.skip(i + 1));
    lemma_utf8_len_concat(s.take(i), s.skip(i));
    lemma_utf8_len_concat(s.take(i), s.skip(i + 1));
    lemma_utf8_len_concat(seq![s[i]], s.skip(i + 1));
}

/// Inserted text adds exactly its own UTF-8 length.
proof fn lemma_insert_len(s: Seq<char>, k: int, t: Seq<char>)
    requires
        0 <= k <= s.len(),
    ensures
        utf8_len(insert_at(s, k, t)) == utf8_len(s) + utf8_len(t),
{
    assert(s =~= s.take(k) + s.skip(k));
    lemma_utf8_len_concat(s.take(k), s.skip(k));
    lemma_utf8_len_concat(s.take(k), t);
    lemma_utf8_len_concat(s.take(k) + t, s.skip(k));
}

/// No key takes an input past its byte limit, and every inserted character
/// is an allowed one: typing keeps an input within what it accepts.
pub proof fn lemma_key_keeps_limit(
    s: Seq<char>,
    k: int,
    key: KeyEvent,
    multiline: bool,
    limit: usize,
)
    requires
        0 <= k <= s.len(),
        utf8_len(s) <= limit,
    ensures
        utf8_len(key_outcome(s, k, key, multiline, limit).0) <= limit,
{
    if !key.modifiers.control && !key.modifiers.alt {
        match key.code {
            KeyCode::Char(c) => lemma_insert_len(s, k, seq![c]),
            KeyCode::Enter => lemma_insert_len(s, k, seq!['\n']),
            KeyCode::Backspace => if k > 0 {
                lemma_remove_shrinks(s, k - 1);
            },
            KeyCode::Delete => if k < s.len() {
                lemma_remove_shrinks(s, k);
            },
            _ => {},
        }
    }
}

/// Whether `t` holds a control character other than an allowed newline.
fn has_forbidden(t: &Vec<char>, multiline: bool) -> (b: bool)
    ensures
        b == !(forall|i: int|
            0 <= i < t@.len() ==> !is_control_char(#[trigger] t@[i]) || (multiline && t@[i]
                == '\n')),
{
    let mut i: usize = 0;
    while i < t.len()
        invariant
            i <= t@.len(),
            forall|j: int|
                0 <= j < i ==> !is_control_char(#[trigger] t@[j]) || (multiline && t@[j] == '\n'),
        decreases t.len() - i,
    {
        let c = t[i];
        if is_control(c) && !(multiline && c == '\n') {
            return true;
        }
        i += 1;
    }
    false
}

// ---------------------------------------------------------------------------
// Record editor
// ---------------------------------------------------------------------------

/// The controls of the record editor, in focus order.
#[derive(Clone, Copy, PartialEq, Eq, Structural, Debug)]
pub enum EditorControl {
    Label,
    FieldList,
    Name,
    Kind,
    Secret,
    Value,
    Generate,
    Add,
    Remove,
    MoveUp,
    MoveDown,
    Save,
    Cancel,
}

/// Position of each control in the focus order.
pub open spec fn control_index(c: EditorControl) -> int {
    match c {
        EditorControl::Label => 0,
        EditorControl::FieldList => 1,
        EditorControl::Name => 2,
        EditorControl::Kind => 3,
        EditorControl::Secret => 4,
        EditorControl::Value => 5,
        EditorControl::Generate => 6,
        EditorControl::Add => 7,
        EditorControl::Remove => 8,
        EditorControl::MoveUp => 9,
        EditorControl::MoveDown => 10,
        EditorControl::Save => 11,
        EditorControl::Cancel => 12,
    }
}

/// The control at a position of the focus order.
pub open spec fn control_at(i: int) -> EditorControl {
    if i == 0 {
        EditorControl::Label
    } else if i == 1 {
        EditorControl::FieldList
    } else if i == 2 {
        EditorControl::Name
    } else if i == 3 {
        EditorControl::Kind
    } else if i == 4 {
        EditorControl::Secret
    } else if i == 5 {
        EditorControl::Value
    } else if i == 6 {
        EditorControl::Generate
    } else if i == 7 {
        EditorControl::Add
    } else if i == 8 {
        EditorControl::Remove
    } else if i == 9 {
        EditorControl::MoveUp
    } else if i == 10 {
        EditorControl::MoveDown
    } else if i == 11 {
        EditorControl::Save
    } else {
        EditorControl::Cancel
    }
}

impl EditorControl {
    pub const ALL: [EditorControl; 13] = [
        EditorControl::Label,
        EditorControl::FieldList,
        EditorControl::Name,
        EditorControl::Kind,
        EditorControl::Secret,
        EditorControl::Value,
        EditorControl::Generate,
        EditorControl::Add,
        EditorControl::Remove,
        EditorControl::MoveUp,
        EditorControl::MoveDown,
        EditorControl::Save,
        EditorControl::Cancel,
    ];

    /// Position in the focus order.
    pub fn index(self) -> (i: usize)
        ensures
            i == control_index(self),
            i < 13,
    {
        match self {
            EditorControl::Label => 0,
            EditorControl::FieldList => 1,
            EditorControl::Name => 2,
            EditorControl::Kind => 3,
            EditorControl::Secret => 4,
            EditorControl::Value => 5,
            EditorControl::Generate => 6,
            EditorControl::Add => 7,
            EditorControl::Remove => 8,
            EditorControl::MoveUp => 9,
            EditorControl::MoveDown => 10,
            EditorControl::Save => 11,
            EditorControl::Cancel => 12,
        }
    }

    /// The control at position `i < 13` of the focus order.
    pub fn at(i: usize) -> (c: EditorControl)
        requires
            i < 13,
        ensures
            c == control_at(i as int),
    {
        if i == 0 {
            EditorControl::Label
        } else if i == 1 {
            EditorControl::FieldList
        } else if i == 2 {
            EditorControl::Name
        } else if i == 3 {
            EditorControl::Kind
        } else if i == 4 {
            EditorControl::Secret
        } else if i == 5 {
            EditorControl::Value
        } else if i == 6 {
            EditorControl::Generate
        } else if i == 7 {
            EditorControl::Add
        } else if i == 8 {
            EditorControl::Remove
        } else if i == 9 {
            EditorControl::MoveUp
        } else if i == 10 {
            EditorControl::MoveDown
        } else if i == 11 {
            EditorControl::Save
        } else {
            EditorControl::Cancel
        }
    }

    /// The control `direction` places further in the cyclic focus order.
    pub fn step(self, direction: isize) -> (c: EditorControl)
        requires
            control_index(self) + direction <= isize::MAX,
        ensures
            c == control_at((control_index(self) + direction) % 13),
    {
        let i = self.index() as isize + direction;
        match i.checked_rem_euclid(13) {
            Some(j) => EditorControl::at(j as usize),
            None => self,
        }
    }
}

/// Moving the focus by `d` and then by `-d` comes back to the same control:
/// the focus order is one cycle through all thirteen controls.
pub proof fn lemma_step_undo(c: EditorControl, d: int)
    ensures
        control_at((control_index(control_at((control_index(c) + d) % 13)) - d) % 13) == c,
{
    let i = control_index(c);
    let j = (i + d) % 13;
    assert(0 <= j < 13);
    assert(control_index(control_at(j)) == j);
    assert((j - d) % 13 == i) by (nonlinear_arith)
        requires
            0 <= i < 13,
            j == (i + d) % 13,
    ;
    assert(control_at(i) == c);
}

/// The record editor: a draft record and the inputs of its selected field.
#[derive(Debug)]
pub struct Editor {
    pub record: Record,
    pub label: TextInput,
    pub name: TextInput,
    pub value: TextInput,
    pub field: usize,
    pub focus: EditorControl,
    pub existing: bool,
}

/// The name and value inputs show the selected field, cursors at the end, or
/// are empty when no field is selected.
pub open spec fn loaded(record: Record, field: usize, name: TextInput, value: TextInput) -> bool {
    &&& name.wf()
    &&& value.wf()
    &&& name.position() == name.value@.len()
    &&& value.position() == value.value@.len()
    &&& if field < record.fields@.len() {
        &&& name.value@ == record.fields@[field as int].name@
        &&& value.value@ == record.fields@[field as int].value@
    } else {
        &&& name.value@.len() == 0
        &&& value.value@.len() == 0
    }
}

/// `after` is the editor's record with the label input and the selected
/// field's inputs written back into it.
pub open spec fn synced(e: Editor, after: Record) -> bool {
    &&& after.id@ == e.record.id@
    &&& after.label@ == e.label.value@
    &&& after.fields@.len() == e.record.fields@.len()
    &&& forall|i: int|
        0 <= i < after.fields@.len() && i != e.field ==> #[trigger] after.fields@[i]
            == e.record.fields@[i]
    &&& e.field < e.record.fields@.len() ==> {
        let f = after.fields@[e.field as int];
        let g = e.record.fields@[e.field as int];
        &&& f.name@ == e.name.value@
        &&& f.value@ == e.value.value@
        &&& f.kind == g.kind
        &&& f.secret == g.secret
    }
}


/// The field index after moving the selection by `direction` within `len` fields.
pub open spec fn clamped(field: int, direction: int, len: int) -> int {
    if len == 0 {
        field
    } else if field + direction < 0 {
        0
    } else if field + direction > len - 1 {
        len - 1
    } else {
        field + direction
    }
}

/// What `Editor::select_field` does: sync, then move the selection.
pub open spec fn select_post(b: Editor, a: Editor, direction: isize) -> bool {
    &&& synced(b, a.record)
    &&& a.field == clamped(b.field as int, direction as int, b.record.fields@.len() as int)
    &&& loaded(a.record, a.field, a.name, a.value)
    &&& a.label == b.label
    &&& a.focus == b.focus
    &&& a.existing == b.existing
}

/// What `Editor::tab` does: sync, then move the focus one control.
pub open spec fn tab_post(b: Editor, a: Editor, reverse: bool) -> bool {
    &&& synced(b, a.record)
    &&& a.focus == control_at((control_index(b.focus) + (if reverse { -1int } else { 1int })) % 13)
    &&& a.label == b.label
    &&& a.name == b.name
    &&& a.value == b.value
    &&& a.field == b.field
    &&& a.existing == b.existing
}

/// What `Editor::text_key` does: the focused input takes the key.
pub open spec fn text_key_post(b: Editor, a: Editor, key: KeyEvent, handled: bool) -> bool {
    &&& a.wf()
    &&& a.record == b.record
    &&& a.field == b.field
    &&& a.focus == b.focus
    &&& a.existing == b.existing
    &&& b.focus == EditorControl::Label ==> ({
        let (s, k, h) = key_outcome(b.label.value@, b.label.position(), key, false, LABEL_LIMIT);
        handled == h && a.label.value@ == s && a.label.position() == k && a.name == b.name
            && a.value == b.value
    })
    &&& b.focus == EditorControl::Name ==> ({
        let (s, k, h) = key_outcome(b.name.value@, b.name.position(), key, false, NAME_LIMIT);
        handled == h && a.name.value@ == s && a.name.position() == k && a.label == b.label
            && a.value == b.value
    })
    &&& b.focus == EditorControl::Value ==> ({
        let (s, k, h) = key_outcome(
            b.value.value@,
            b.value.position(),
            key,
            b.spec_multiline(),
            INPUT_LIMIT,
        );
        handled == h && a.value.value@ == s && a.value.position() == k && a.label == b.label
            && a.name == b.name
    })
    &&& !(b.focus == EditorControl::Label || b.focus == EditorControl::Name || b.focus
        == EditorControl::Value) ==> !handled && a.label == b.label && a.name == b.name && a.value
        == b.value
}

/// What `Editor::paste` does: the focused input takes the text when it fits.
pub open spec fn paste_post(b: Editor, a: Editor, text: Seq<char>, accepted: bool) -> bool {
    &&& a.wf()
    &&& a.record == b.record
    &&& a.field == b.field
    &&& a.focus == b.focus
    &&& a.existing == b.existing
    &&& b.focus == EditorControl::Label ==> accepted == insert_allowed(
        b.label.value@,
        text,
        false,
        LABEL_LIMIT,
    ) && (accepted ==> a.label.value@ == insert_at(b.label.value@, b.label.position(), text))
        && (!accepted ==> a.label == b.label) && a.name == b.name && a.value == b.value
    &&& b.focus == EditorControl::Name ==> accepted == insert_allowed(
        b.name.value@,
        text,
        false,
        NAME_LIMIT,
    ) && (accepted ==> a.name.value@ == insert_at(b.name.value@, b.name.position(), text))
        && (!accepted ==> a.name == b.name) && a.label == b.label && a.value == b.value
    &&& b.focus == EditorControl::Value ==> accepted == insert_allowed(
        b.value.value@,
        text,
        b.spec_multiline(),
        INPUT_LIMIT,
    ) && (accepted ==> a.value.value@ == insert_at(b.value.value@, b.value.position(), text))
        && (!accepted ==> a.value == b.value) && a.label == b.label && a.name == b.name
    &&& !(b.focus == EditorControl::Label || b.focus == EditorControl::Name || b.focus
        == EditorControl::Value) ==> !accepted && a.label == b.label && a.name == b.name && a.value
        == b.value
}

/// What `Editor::add_field` does: sync, then append a "custom" text field
/// when there is room, select it and focus its name.
pub open spec fn add_post(b: Editor, a: Editor) -> bool {
    &&& exists|r: Record|
        #![trigger synced(b, r)]
        synced(b, r) && if r.fields@.len() < MAX_FIELDS_PER_RECORD {
            &&& a.record.id@ == r.id@
            &&& a.record.label@ == r.label@
            &&& a.record.fields@.len() == r.fields@.len() + 1
            &&& a.record.fields@.take(r.fields@.len() as int) == r.fields@
            &&& a.record.fields@.last().name@ == "custom"@
            &&& a.record.fields@.last().value@.len() == 0
            &&& a.record.fields@.last().kind == FieldKind::Text
            &&& !a.record.fields@.last().secret
            &&& a.field == r.fields@.len()
            &&& a.focus == EditorControl::Name
            &&& loaded(a.record, a.field, a.name, a.value)
        } else {
            &&& same_record(a.record, r)
            &&& a.field == b.field
            &&& a.focus == b.focus
            &&& a.name == b.name
            &&& a.value == b.value
        }
    &&& a.label == b.label
    &&& a.existing == b.existing
}

/// What `Editor::remove_field` does: sync, then remove the selected field
/// and select the one now at its place, or the last one.
pub open spec fn remove_post(b: Editor, a: Editor) -> bool {
    &&& exists|r: Record|
        #![trigger synced(b, r)]
        synced(b, r) && if b.field < r.fields@.len() {
            &&& a.record.id@ == r.id@
            &&& a.record.label@ == r.label@
            &&& a.record.fields@ == r.fields@.remove(b.field as int)
            &&& a.field == (if b.field < a.record.fields@.len() {
                b.field as int
            } else if a.record.fields@.len() > 0 {
                a.record.fields@.len() - 1
            } else {
                0
            })
            &&& loaded(a.record, a.field, a.name, a.value)
        } else {
            &&& same_record(a.record, r)
            &&& a.field == b.field
            &&& a.name == b.name
            &&& a.value == b.value
        }
    &&& a.label == b.label
    &&& a.focus == b.focus
    &&& a.existing == b.existing
}

/// What `Editor::move_field` does: sync, then swap the selected field with
/// the one `direction` away when it exists, and follow it.
pub open spec fn move_post(b: Editor, a: Editor, direction: isize) -> bool {
    &&& exists|r: Record|
        #![trigger synced(b, r)]
        synced(b, r) && ({
            let target = b.field + direction;
            if 0 <= target < r.fields@.len() {
                &&& a.record.id@ == r.id@
                &&& a.record.label@ == r.label@
                &&& a.record.fields@ == r.fields@.update(b.field as int, r.fields@[target]).update(
                    target,
                    r.fields@[b.field as int],
                )
                &&& a.field == target
            } else {
                &&& same_record(a.record, r)
                &&& a.field == b.field
            }
        })
    &&& a.label == b.label
    &&& a.name == b.name
    &&& a.value == b.value
    &&& a.focus == b.focus
    &&& a.existing == b.existing
}

/// What `Editor::cycle_kind` does: the selected field's kind moves by
/// `direction` in [`FieldKind::ALL`]; a password kind makes it secret.
pub open spec fn cycle_post(b: Editor, a: Editor, direction: isize) -> bool {
    &&& a.record.id == b.record.id
    &&& a.record.label == b.record.label
    &&& a.label == b.label
    &&& a.name == b.name
    &&& a.value == b.value
    &&& a.field == b.field
    &&& a.focus == b.focus
    &&& a.existing == b.existing
    &&& b.field < b.record.fields@.len() ==> ({
        let i = b.field as int;
        let f = b.record.fields@[i];
        let kind = kind_at((kind_index(f.kind) + direction) % 6);
        a.record.fields@ == b.record.fields@.update(
            i,
            (Field { kind, secret: f.secret || kind == FieldKind::Password, ..f }),
        )
    })
    &&& b.field >= b.record.fields@.len() ==> a.record.fields@ == b.record.fields@
}

/// What `Editor::toggle_secret` does: the selected field's secrecy flips.
pub open spec fn toggle_post(b: Editor, a: Editor) -> bool {
    &&& a.record.id == b.record.id
    &&& a.record.label == b.record.label
    &&& a.label == b.label
    &&& a.name == b.name
    &&& a.value == b.value
    &&& a.field == b.field
    &&& a.focus == b.focus
    &&& a.existing == b.existing
    &&& b.field < b.record.fields@.len() ==> ({
        let i = b.field as int;
        let f = b.record.fields@[i];
        a.record.fields@ == b.record.fields@.update(i, (Field { secret: !f.secret, ..f }))
    })
    &&& b.field >= b.record.fields@.len() ==> a.record.fields@ == b.record.fields@
}

impl Editor {
    pub open spec fn wf(&self) -> bool {
        self.label.wf() && self.name.wf() && self.value.wf()
    }

    /// The selected field is a multiline field.
    pub open spec fn spec_multiline(&self) -> bool {
        self.field < self.record.fields@.len() && self.record.fields@[self.field as int].kind
            == FieldKind::Multiline
    }

    /// An editor on `record` with the label focused and its first field loaded.
    pub fn new(record: Record, existing: bool) -> (e: Editor)
        ensures
            e.record == record,
            e.label.value@ == record.label@,
            e.label.wf(),
            e.label.position() == record.label@.len(),
            e.field == 0,
            e.focus == EditorControl::Label,
            e.existing == existing,
            loaded(e.record, e.field, e.name, e.value),
            e.wf(),
    {
        let label = TextInput::new(record.label.as_str());
        let mut editor = Editor {
            record,
            label,
            name: TextInput::default(),
            value: TextInput::default(),
            field: 0,
            focus: EditorControl::Label,
            existing,
        };
        editor.load_field();
        editor
    }

    /// Writes the label and the selected field's inputs back into the record,
    /// wiping the strings they replace.
    pub fn sync(&mut self)
        ensures
            synced(*old(self), final(self).record),
            final(self).label == old(self).label,
            final(self).name == old(self).name,
            final(self).value == old(self).value,
            final(self).field == old(self).field,
            final(self).focus == old(self).focus,
            final(self).existing == old(self).existing,
    {
        let mut label = self.label.value.clone();
        std::mem::swap(&mut self.record.label, &mut label);
        wipe_string(&mut label);
        if self.field < self.record.fields.len() {
            let i = self.field;
            let kind = self.record.fields[i].kind;
            let secret = self.record.fields[i].secret;
            let mut slot = Field {
                name: self.name.value.clone(),
                value: self.value.value.clone(),
                kind,
                secret,
            };
            self.record.fields.set_and_swap(i, &mut slot);
            slot.zeroize();
        }
    }

    /// Loads the selected field into the name and value inputs.
    fn load_field(&mut self)
        ensures
            loaded(final(self).record, final(self).field, final(self).name, final(self).value),
            final(self).record == old(self).record,
            final(self).label == old(self).label,
            final(self).field == old(self).field,
            final(self).focus == old(self).focus,
            final(self).existing == old(self).existing,
    {
        if self.field < self.record.fields.len() {
            let name = TextInput::new(self.record.fields[self.field].name.as_str());
            let value = TextInput::new(self.record.fields[self.field].value.as_str());
            self.replace_inputs(name, value);
        } else {
            self.replace_inputs(TextInput::default(), TextInput::default());
        }
    }

    /// Installs new name and value inputs, wiping the old ones.
    fn replace_inputs(&mut self, name: TextInput, value: TextInput)
        ensures
            final(self).name == name,
            final(self).value == value,
            final(self).record == old(self).record,
            final(self).label == old(self).label,
            final(self).field == old(self).field,
            final(self).focus == old(self).focus,
            final(self).existing == old(self).existing,
    {
        let mut old_name = name;
        std::mem::swap(&mut self.name, &mut old_name);
        wipe_string(&mut old_name.value);
        let mut old_value = value;
        std::mem::swap(&mut self.value, &mut old_value);
        wipe_string(&mut old_value.value);
    }

    /// Syncs, then moves the selection by `direction` within the fields.
    pub fn select_field(&mut self, direction: isize)
        requires
            isize::MIN <= old(self).field + direction <= isize::MAX,
            old(self).field <= isize::MAX,
        ensures
            select_post(*old(self), *final(self), direction),
    {
        self.sync();
        let len = self.record.fields.len();
        if len > 0 {
            let target = self.field as isize + direction;
            if target < 0 {
                self.field = 0;
            } else if target as usize > len - 1 {
                self.field = len - 1;
            } else {
                self.field = target as usize;
            }
        }
        self.load_field();
    }

    /// Syncs, then moves focus to the next control (or the previous one).
    pub fn tab(&mut self, reverse: bool)
        ensures
            tab_post(*old(self), *final(self), reverse),
    {
        self.sync();
        self.focus = self.focus.step(if reverse {
            -1
        } else {
            1
        });
    }

    /// The selected field is multiline.
    pub fn multiline(&self) -> (b: bool)
        ensures
            b == self.spec_multiline(),
    {
        self.field < self.record.fields.len() && self.record.fields[self.field].kind
            == FieldKind::Multiline
    }

    /// The selected field is secret.
    pub fn masked(&self) -> (b: bool)
        ensures
            b == (self.field < self.record.fields@.len() && self.record.fields@[self.field as int].secret),
    {
        self.field < self.record.fields.len() && self.record.fields[self.field].secret
    }

    /// Passes a key to the focused text input; returns whether it was used.
    pub fn text_key(&mut self, key: KeyEvent) -> (handled: bool)
        requires
            old(self).wf(),
        ensures
            text_key_post(*old(self), *final(self), key, handled),
    {
        let multiline = self.multiline();
        match self.focus {
            EditorControl::Label => self.label.key(key, false, LABEL_LIMIT),
            EditorControl::Name => self.name.key(key, false, NAME_LIMIT),
            EditorControl::Value => self.value.key(key, multiline, INPUT_LIMIT),
            _ => false,
        }
    }

    /// Inserts pasted text into the focused text input; returns whether it fit.
    pub fn paste(&mut self, text: &str) -> (accepted: bool)
        requires
            old(self).wf(),
        ensures
            paste_post(*old(self), *final(self), text@, accepted),
    {
        let multiline = self.multiline();
        match self.focus {
            EditorControl::Label => self.label.insert(text, false, LABEL_LIMIT),
            EditorControl::Name => self.name.insert(text, false, NAME_LIMIT),
            EditorControl::Value => self.value.insert(text, multiline, INPUT_LIMIT),
            _ => false,
        }
    }

    /// Syncs, then appends a "custom" text field (when there is room),
    /// selects it and focuses its name.
    pub fn add_field(&mut self)
        ensures
            add_post(*old(self), *final(self)),
    {
        self.sync();
        let ghost synced_record = self.record;
        if self.record.fields.len() < MAX_FIELDS_PER_RECORD {
            self.record.fields.push(Field::new("custom", FieldKind::Text));
            self.field = self.record.fields.len() - 1;
            self.load_field();
            self.focus = EditorControl::Name;
            assert(self.record.fields@.take(synced_record.fields@.len() as int) =~= synced_record.fields@);
        }
        assert(synced(*old(self), synced_record));
    }

    /// Syncs, then removes the selected field (when there is one) and selects
    /// the field now at its place, or the last one.
    pub fn remove_field(&mut self)
        ensures
            remove_post(*old(self), *final(self)),
    {
        self.sync();
        let ghost synced_record = self.record;
        if self.field < self.record.fields.len() {
            let mut removed = self.record.fields.remove(self.field);
            removed.zeroize();
            let len = self.record.fields.len();
            if self.field >= len {
                self.field = if len > 0 {
                    len - 1
                } else {
                    0
                };
            }
            self.load_field();
        }
        assert(synced(*old(self), synced_record));
    }

    /// Syncs, then swaps the selected field with the one `direction` away,
    /// when that position exists, and follows it.
    pub fn move_field(&mut self, direction: isize)
        requires
            isize::MIN <= old(self).field + direction <= isize::MAX,
            old(self).field <= isize::MAX,
            0 <= old(self).field + direction < old(self).record.fields@.len() ==> old(self).field
                < old(self).record.fields@.len(),
        ensures
            move_post(*old(self), *final(self), direction),
    {
        self.sync();
        let ghost synced_record = self.record;
        let target = self.field as isize + direction;
        if target >= 0 && (target as usize) < self.record.fields.len() {
            let i = self.field;
            let j = target as usize;
            if i != j {
                let mut slot = Field::new("", FieldKind::Text);
                self.record.fields.set_and_swap(i, &mut slot);
                self.record.fields.set_and_swap(j, &mut slot);
                self.record.fields.set_and_swap(i, &mut slot);
            }
            self.field = j;
            assert(self.record.fields@ =~= synced_record.fields@.update(
                i as int,
                synced_record.fields@[j as int],
            ).update(j as int, synced_record.fields@[i as int]));
        }
        assert(synced(*old(self), synced_record));
    }

    /// Cycles the selected field's kind by `direction`; a password kind makes it secret.
    pub fn cycle_kind(&mut self, direction: isize)
        requires
            old(self).field < old(self).record.fields@.len() ==> kind_index(
                old(self).record.fields@[old(self).field as int].kind,
            ) + direction <= isize::MAX,
        ensures
            cycle_post(*old(self), *final(self), direction),
    {
        if self.field < self.record.fields.len() {
            let i = self.field;
            let index = self.record.fields[i].kind.index() as isize + direction;
            let kind = match index.checked_rem_euclid(6) {
                Some(j) => crate::model::FieldKind::at(j as usize),
                None => self.record.fields[i].kind,
            };
            let mut slot = Field::new("", FieldKind::Text);
            self.record.fields.set_and_swap(i, &mut slot);
            slot.kind = kind;
            if kind == FieldKind::Password {
                slot.secret = true;
            }
            self.record.fields.set_and_swap(i, &mut slot);
            let ghost f = old(self).record.fields@[i as int];
            assert(self.record.fields@ =~= old(self).record.fields@.update(
                i as int,
                (Field { kind, secret: f.secret || kind == FieldKind::Password, ..f }),
            ));
        } else {
            assert(self.record.fields@ =~= old(self).record.fields@);
        }
    }

    /// Flips the selected field's secrecy.
    pub fn toggle_secret(&mut self)
        ensures
            toggle_post(*old(self), *final(self)),
    {
        if self.field < self.record.fields.len() {
            let i = self.field;
            let mut slot = Field::new("", FieldKind::Text);
            self.record.fields.set_and_swap(i, &mut slot);
            slot.secret = !slot.secret;
            self.record.fields.set_and_swap(i, &mut slot);
            let ghost f = old(self).record.fields@[i as int];
            assert(self.record.fields@ =~= old(self).record.fields@.update(
                i as int,
                (Field { secret: !f.secret, ..f }),
            ));
        } else {
            assert(self.record.fields@ =~= old(self).record.fields@);
        }
    }
}

impl Editor {
    /// Wipes the draft record and every input.
    pub fn zeroize(&mut self)
        ensures
            final(self).record.fields@.len() == 0,
            final(self).label.value@.len() == 0,
            final(self).name.value@.len() == 0,
            final(self).value.value@.len() == 0,
    {
        self.record.zeroize();
        self.label.clear();
        self.name.clear();
        self.value.clear();
    }
}

} // verus!
