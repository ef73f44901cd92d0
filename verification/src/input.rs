//! A single-line text field with a cursor, edited key by key. The cursor
//! is a byte offset into the UTF-8 text, as `String` positions are.
use vstd::prelude::*;

use crate::key::{Key, KeyCode};
use crate::text::{chars_of, push_char, string_of_range};

verus! {

broadcast use vstd::utf8::char_is_scalar;

/// The number of bytes in the UTF-8 encoding of `c` (`char::len_utf8`).
pub open spec fn char_len(c: char) -> nat {
    if (c as u32) <= 0x7f {
        1
    } else if (c as u32) <= 0x7ff {
        2
    } else if (c as u32) <= 0xffff {
        3
    } else {
        4
    }
}

/// The number of bytes in the UTF-8 encoding of `s` (`str::len`).
pub open spec fn utf8_len(s: Seq<char>) -> nat
    decreases s.len(),
{
    if s.len() == 0 {
        0
    } else {
        char_len(s[0]) + utf8_len(s.drop_first())
    }
}

/// The byte offset at which the `k`-th character of `s` starts.
pub open spec fn offset(s: Seq<char>, k: int) -> nat {
    utf8_len(s.take(k))
}

pub proof fn lemma_char_len_encoding(c: char)
    ensures
        1 <= char_len(c) <= 4,
        char_len(c) == vstd::utf8::encode_scalar(c as u32).len(),
{
}

pub proof fn lemma_utf8_len_encoding(s: Seq<char>)
    ensures
        utf8_len(s) == vstd::utf8::encode_utf8(s).len(),
    decreases s.len(),
{
    if s.len() > 0 {
        lemma_char_len_encoding(s[0]);
        lemma_utf8_len_encoding(s.drop_first());
    }
}

pub proof fn lemma_utf8_len_concat(a: Seq<char>, b: Seq<char>)
    ensures
        utf8_len(a + b) == utf8_len(a) + utf8_len(b),
    decreases a.len(),
{
    if a.len() > 0 {
        assert((a + b).drop_first() =~= a.drop_first() + b);
        lemma_utf8_len_concat(a.drop_first(), b);
    } else {
        assert(a + b =~= b);
    }
}

pub proof fn lemma_offset_step(s: Seq<char>, k: int)
    requires
        0 <= k < s.len(),
    ensures
        offset(s, k + 1) == offset(s, k) + char_len(s[k]),
{
    assert(s.take(k + 1) =~= s.take(k) + seq![s[k]]);
    lemma_utf8_len_concat(s.take(k), seq![s[k]]);
    assert(seq![s[k]].drop_first() =~= Seq::<char>::empty());
    assert(utf8_len(seq![s[k]]) == char_len(s[k]) + utf8_len(Seq::<char>::empty()));
}

pub proof fn lemma_offset_monotone(s: Seq<char>, j: int, k: int)
    requires
        0 <= j <= k <= s.len(),
    ensures
        offset(s, j) <= offset(s, k),
        j < k ==> offset(s, j) < offset(s, k),
    decreases k - j,
{
    if j < k {
        lemma_offset_monotone(s, j, k - 1);
        lemma_offset_step(s, k - 1);
        lemma_char_len_encoding(s[k - 1]);
    }
}

pub proof fn lemma_offset_full(s: Seq<char>)
    ensures
        offset(s, s.len() as int) == utf8_len(s),
        offset(s, 0) == 0,
{
    assert(s.take(s.len() as int) =~= s);
    assert(s.take(0) =~= Seq::<char>::empty());
}

/// The index of the character that starts at byte `b`, or of the end when
/// `b` is the length.
pub open spec fn boundary_index_from(s: Seq<char>, b: nat, k: int) -> Option<int>
    decreases s.len() + 1 - k,
{
    if k < 0 || k > s.len() {
        None
    } else if offset(s, k) == b {
        Some(k)
    } else {
        boundary_index_from(s, b, k + 1)
    }
}

/// The index of the character that starts at byte `b`, if `b` is a
/// character boundary.
pub open spec fn boundary_index(s: Seq<char>, b: nat) -> Option<int> {
    boundary_index_from(s, b, 0)
}

/// The largest index from `k` down whose character starts before byte `pos`.
pub open spec fn last_below_from(s: Seq<char>, pos: nat, k: int) -> int
    decreases k,
{
    if k <= 0 {
        0
    } else if offset(s, k) < pos {
        k
    } else {
        last_below_from(s, pos, k - 1)
    }
}

/// The index of the last character boundary before byte `pos`.
pub open spec fn last_below(s: Seq<char>, pos: nat) -> int {
    last_below_from(s, pos, s.len() as int)
}

/// The smallest index from `k` up whose boundary lies after byte `pos`, or
/// the end.
pub open spec fn first_above_from(s: Seq<char>, pos: nat, k: int) -> int
    decreases s.len() - k,
{
    if k >= s.len() {
        s.len() as int
    } else if offset(s, k) > pos {
        k
    } else {
        first_above_from(s, pos, k + 1)
    }
}

/// The index of the first character boundary after byte `pos`.
pub open spec fn first_above(s: Seq<char>, pos: nat) -> int {
    first_above_from(s, pos, 0)
}

pub proof fn lemma_boundary_index_from(s: Seq<char>, b: nat, k: int)
    requires
        0 <= k,
    ensures
        boundary_index_from(s, b, k) matches Some(i) ==> k <= i <= s.len() && offset(s, i) == b,
    decreases s.len() + 1 - k,
{
    if k <= s.len() && offset(s, k) != b {
        lemma_boundary_index_from(s, b, k + 1);
    }
}

pub proof fn lemma_last_below_from(s: Seq<char>, pos: nat, k: int)
    requires
        0 <= k <= s.len(),
        pos > 0,
    ensures
        0 <= last_below_from(s, pos, k) <= k,
        offset(s, last_below_from(s, pos, k)) < pos,
    decreases k,
{
    lemma_offset_full(s);
    if k > 0 && offset(s, k) >= pos {
        lemma_last_below_from(s, pos, k - 1);
    }
}

pub proof fn lemma_first_above_from(s: Seq<char>, pos: nat, k: int)
    requires
        0 <= k <= s.len(),
    ensures
        k <= first_above_from(s, pos, k) <= s.len(),
    decreases s.len() - k,
{
    if k < s.len() && offset(s, k) <= pos {
        lemma_first_above_from(s, pos, k + 1);
    }
}

/// The value of a [`TextInput`]: its text and its cursor's byte offset.
#[verifier::ext_equal]
pub struct TextInputView {
    pub content: Seq<char>,
    pub cursor: nat,
}

impl TextInputView {
    /// The cursor stands on a character boundary of the text.
    pub open spec fn wf(self) -> bool {
        boundary_index(self.content, self.cursor) is Some
    }

    /// The index of the character at the cursor.
    pub open spec fn cursor_index(self) -> int {
        boundary_index(self.content, self.cursor).unwrap()
    }

    /// The key does not edit text from a cursor that is off a boundary
    /// (where `String`'s insert, drain and truncate would panic).
    pub open spec fn accepts(self, key: Key) -> bool {
        ||| self.wf()
        ||| match key.code {
            KeyCode::Char(c) => key.ctrl && c != 'u' && (c != 'k' || self.cursor
                > utf8_len(self.content)),
            KeyCode::Backspace => false,
            KeyCode::Delete => self.cursor > utf8_len(self.content),
            _ => true,
        }
    }

    /// What pressing `key` makes of the field.
    pub open spec fn after_key(self, key: Key) -> TextInputView {
        let s = self.content;
        let n = utf8_len(s);
        let cur = self.cursor;
        let k = self.cursor_index();
        match key.code {
            KeyCode::Char(c) => if key.ctrl {
                if c == 'a' {
                    TextInputView { cursor: 0, ..self }
                } else if c == 'e' {
                    TextInputView { cursor: n, ..self }
                } else if c == 'u' {
                    TextInputView { content: s.skip(k), cursor: 0 }
                } else if c == 'k' && cur < n {
                    TextInputView { content: s.take(k), ..self }
                } else {
                    self
                }
            } else {
                TextInputView { content: s.take(k).push(c) + s.skip(k), cursor: cur + char_len(c) }
            },
            KeyCode::Backspace => if cur > 0 {
                let p = last_below(s, cur);
                TextInputView { content: s.take(p) + s.skip(k), cursor: offset(s, p) }
            } else {
                self
            },
            KeyCode::Delete => if cur < n {
                TextInputView { content: s.take(k) + s.skip(first_above(s, cur)), ..self }
            } else {
                self
            },
            KeyCode::Left => if cur > 0 {
                TextInputView { cursor: offset(s, last_below(s, cur)), ..self }
            } else {
                self
            },
            KeyCode::Right => if cur < n {
                TextInputView { cursor: offset(s, first_above(s, cur)), ..self }
            } else {
                self
            },
            KeyCode::Home => TextInputView { cursor: 0, ..self },
            KeyCode::End => TextInputView { cursor: n, ..self },
            _ => self,
        }
    }
}

/// Every key press keeps the cursor of a field on a character boundary.
pub proof fn law_key_keeps_cursor_on_boundary(t: TextInputView, key: Key)
    requires
        t.wf(),
    ensures
        t.after_key(key).wf(),
{
    let s = t.content;
    let cur = t.cursor;
    let k = t.cursor_index();
    lemma_boundary_index_from(s, cur, 0);
    lemma_offset_full(s);
    lemma_boundary_of_offset(s, 0);
    lemma_boundary_of_offset(s, s.len() as int);
    match key.code {
        KeyCode::Char(c) => {
            if key.ctrl {
                if c == 'u' {
                    let r = s.skip(k);
                    lemma_boundary_of_offset(r, 0);
                    lemma_offset_full(r);
                } else if c == 'k' && cur < utf8_len(s) {
                    let r = s.take(k);
                    assert(r.take(k) =~= r);
                    assert(s.take(k) =~= r);
                    lemma_boundary_of_offset(r, k);
                }
            } else {
                let r = s.take(k).push(c) + s.skip(k);
                assert(r.take(k + 1) =~= s.take(k).push(c));
                assert(s.take(k).push(c) =~= s.take(k) + seq![c]);
                lemma_utf8_len_concat(s.take(k), seq![c]);
                assert(seq![c].drop_first() =~= Seq::<char>::empty());
                assert(utf8_len(seq![c]) == char_len(c) + utf8_len(Seq::<char>::empty()));
                lemma_boundary_of_offset(r, k + 1);
            }
        },
        KeyCode::Backspace => {
            if cur > 0 {
                lemma_last_below_from(s, cur, s.len() as int);
                let p = last_below(s, cur);
                if p > k {
                    lemma_offset_monotone(s, k, p);
                }
                let r = s.take(p) + s.skip(k);
                assert(r.take(p) =~= s.take(p));
                lemma_boundary_of_offset(r, p);
            }
        },
        KeyCode::Delete => {
            if cur < utf8_len(s) {
                lemma_first_above_from(s, cur, 0);
                let q = first_above(s, cur);
                let r = s.take(k) + s.skip(q);
                assert(r.take(k) =~= s.take(k));
                lemma_boundary_of_offset(r, k);
            }
        },
        KeyCode::Left => {
            if cur > 0 {
                lemma_last_below_from(s, cur, s.len() as int);
                lemma_boundary_of_offset(s, last_below(s, cur));
            }
        },
        KeyCode::Right => {
            if cur < utf8_len(s) {
                lemma_first_above_from(s, cur, 0);
                lemma_boundary_of_offset(s, first_above(s, cur));
            }
        },
        _ => {},
    }
}

/// The last boundary below `pos` is `m` when `m`'s offset lies below
/// `pos` and no later one up to `j` does.
proof fn lemma_last_below_is(s: Seq<char>, pos: nat, j: int, m: int)
    requires
        0 <= m <= j <= s.len(),
        offset(s, m) < pos,
        forall|q: int| m < q <= j ==> offset(s, q) >= pos,
    ensures
        last_below_from(s, pos, j) == m,
    decreases j,
{
    if j > m {
        assert(offset(s, j) >= pos);
        lemma_last_below_is(s, pos, j - 1, m);
    }
}

/// Typing a character and then pressing Backspace gives the field back as
/// it was, whatever the character's length in bytes.
pub proof fn law_backspace_undoes_typing(t: TextInputView, c: char)
    requires
        t.wf(),
    ensures
        t.after_key(Key { code: KeyCode::Char(c), ctrl: false }).after_key(
            Key { code: KeyCode::Backspace, ctrl: false },
        ) == t,
{
    let s = t.content;
    let cur = t.cursor;
    let k = t.cursor_index();
    lemma_boundary_index_from(s, cur, 0);
    let typed = t.after_key(Key { code: KeyCode::Char(c), ctrl: false });
    let r = s.take(k).push(c) + s.skip(k);
    assert(typed.content == r);
    assert(r.take(k + 1) =~= s.take(k).push(c));
    assert(r.take(k) =~= s.take(k));
    assert(s.take(k).push(c) =~= s.take(k) + seq![c]);
    lemma_utf8_len_concat(s.take(k), seq![c]);
    assert(seq![c].drop_first() =~= Seq::<char>::empty());
    assert(utf8_len(seq![c]) == char_len(c) + utf8_len(Seq::<char>::empty()));
    lemma_char_len_encoding(c);
    assert(offset(r, k + 1) == cur + char_len(c));
    assert(typed.cursor == cur + char_len(c));
    lemma_boundary_of_offset(r, k + 1);
    assert(typed.cursor_index() == k + 1);
    assert forall|q: int| k < q <= r.len() implies offset(r, q) >= typed.cursor by {
        lemma_offset_monotone(r, k + 1, q);
    }
    lemma_last_below_is(r, typed.cursor, r.len() as int, k);
    assert(last_below(r, typed.cursor) == k);
    assert(r.take(k) + r.skip(k + 1) =~= s);
}

/// Control+U cuts the text before the cursor and Control+K the text from
/// the cursor on: what Control+U keeps is the rest of the text after a
/// prefix as long in bytes as the cursor's offset, with the cursor then at
/// the start; what Control+K keeps is that prefix, the cursor staying.
pub proof fn law_control_cuts(t: TextInputView)
    requires
        t.wf(),
    ensures
        ({
            let after = t.after_key(Key { code: KeyCode::Char('u'), ctrl: true });
            &&& after.cursor == 0
            &&& exists|p: Seq<char>| #[trigger] utf8_len(p) == t.cursor && p + after.content == t.content
        }),
        ({
            let after = t.after_key(Key { code: KeyCode::Char('k'), ctrl: true });
            &&& after.cursor == t.cursor
            &&& utf8_len(after.content) == t.cursor
            &&& exists|q: Seq<char>| after.content + q == t.content
        }),
{
    let s = t.content;
    let k = t.cursor_index();
    lemma_boundary_index_from(s, t.cursor, 0);
    lemma_offset_full(s);
    lemma_offset_monotone(s, k, s.len() as int);
    assert(s.take(k) + s.skip(k) =~= s);
    assert(utf8_len(s.take(k)) == t.cursor);
    let u = t.after_key(Key { code: KeyCode::Char('u'), ctrl: true });
    assert(u.content == s.skip(k));
    assert(utf8_len(s.take(k)) == t.cursor && s.take(k) + u.content == t.content);
    let after_k = t.after_key(Key { code: KeyCode::Char('k'), ctrl: true });
    if t.cursor < utf8_len(s) {
        assert(after_k.content == s.take(k));
        assert(after_k.content + s.skip(k) == t.content);
    } else {
        assert(after_k == t);
        assert(s + Seq::<char>::empty() =~= s);
        assert(after_k.content + Seq::<char>::empty() == t.content);
    }
}

/// A text field: its content and a cursor, a byte offset into it.
#[derive(Debug)]
pub struct TextInput {
    pub content: String,
    pub cursor: usize,
}

impl View for TextInput {
    type V = TextInputView;

    open spec fn view(&self) -> TextInputView {
        TextInputView { content: self.content@, cursor: self.cursor as nat }
    }
}

/// The length of `s` in bytes.
fn byte_len(s: &String) -> (n: usize)
    ensures
        n == utf8_len(s@),
{
    proof {
        lemma_utf8_len_encoding(s@);
    }
    s.as_str().as_bytes().len()
}

/// The number of bytes in the UTF-8 encoding of `c`.
fn char_len_of(c: char) -> (n: usize)
    ensures
        n == char_len(c),
{
    let u = c as u32;
    if u <= 0x7f {
        1
    } else if u <= 0x7ff {
        2
    } else if u <= 0xffff {
        3
    } else {
        4
    }
}

/// The characters of `s` with their total byte length.
fn chars_and_len(s: &String) -> (r: (Vec<char>, usize))
    ensures
        r.0@ == s@,
        r.1 == utf8_len(s@),
{
    (chars_of(s.as_str()), byte_len(s))
}

/// The index of the character of `v` that starts at byte `b`, given that the
/// whole text has `n` bytes.
fn find_boundary(v: &Vec<char>, n: usize, b: usize) -> (r: Option<usize>)
    requires
        n == utf8_len(v@),
    ensures
        match r {
            Some(k) => boundary_index(v@, b as nat) == Some(k as int),
            None => boundary_index(v@, b as nat) is None,
        },
{
    proof {
        lemma_offset_full(v@);
    }
    let mut k: usize = 0;
    let mut off: usize = 0;
    while k <= v.len()
        invariant
            0 <= k <= v@.len() + 1,
            k <= v@.len() ==> off == offset(v@, k as int),
            off <= n,
            n == utf8_len(v@),
            offset(v@, v@.len() as int) == n,
            boundary_index(v@, b as nat) == boundary_index_from(v@, b as nat, k as int),
        decreases v@.len() + 1 - k,
    {
        if off == b {
            return Some(k);
        }
        if k == v.len() {
            assert(boundary_index_from(v@, b as nat, k + 1) is None);
            return None;
        }
        proof {
            lemma_offset_step(v@, k as int);
            lemma_offset_monotone(v@, k + 1, v@.len() as int);
        }
        off = off + char_len_of(v[k]);
        k += 1;
    }
    None
}

/// The index and byte offset of the last character boundary before byte
/// `pos` of the text `v`, which has `n` bytes.
fn prev_char_boundary(v: &Vec<char>, n: usize, pos: usize) -> (r: (usize, usize))
    requires
        pos > 0,
        n == utf8_len(v@),
    ensures
        r.0 == last_below(v@, pos as nat),
        r.1 == offset(v@, r.0 as int),
        r.0 <= v@.len(),
        r.1 < pos,
{
    proof {
        lemma_offset_full(v@);
        lemma_last_below_from(v@, pos as nat, v@.len() as int);
    }
    let mut k: usize = v.len();
    let mut off: usize = n;
    while k > 0 && off >= pos
        invariant
            0 <= k <= v@.len(),
            off == offset(v@, k as int),
            pos > 0,
            last_below(v@, pos as nat) == last_below_from(v@, pos as nat, k as int),
        decreases k,
    {
        proof {
            lemma_offset_step(v@, k - 1);
        }
        off = off - char_len_of(v[k - 1]);
        k -= 1;
    }
    proof {
        lemma_last_below_from(v@, pos as nat, k as int);
    }
    (k, off)
}

/// The index and byte offset of the first character boundary after byte
/// `pos` of the text `v`, which has `n` bytes.
fn next_char_boundary(v: &Vec<char>, n: usize, pos: usize) -> (r: (usize, usize))
    requires
        pos < n,
        n == utf8_len(v@),
    ensures
        r.0 == first_above(v@, pos as nat),
        r.1 == offset(v@, r.0 as int),
        r.0 <= v@.len(),
        pos < r.1 <= n,
{
    proof {
        lemma_offset_full(v@);
    }
    let mut k: usize = 0;
    let mut off: usize = 0;
    while k < v.len() && off <= pos
        invariant
            0 <= k <= v@.len(),
            off == offset(v@, k as int),
            off <= n,
            n == utf8_len(v@),
            offset(v@, v@.len() as int) == n,
            pos < n,
            first_above(v@, pos as nat) == first_above_from(v@, pos as nat, k as int),
        decreases v@.len() - k,
    {
        proof {
            lemma_offset_step(v@, k as int);
            lemma_offset_monotone(v@, k + 1, v@.len() as int);
        }
        off = off + char_len_of(v[k]);
        k += 1;
    }
    (k, off)
}

/// The character boundary at byte `offset(s, j)` is that of index `j`.
pub proof fn lemma_boundary_of_offset(s: Seq<char>, j: int)
    requires
        0 <= j <= s.len(),
    ensures
        boundary_index(s, offset(s, j)) == Some(j),
{
    lemma_boundary_of_offset_from(s, j, 0);
}

proof fn lemma_boundary_of_offset_from(s: Seq<char>, j: int, k: int)
    requires
        0 <= k <= j <= s.len(),
    ensures
        boundary_index_from(s, offset(s, j), k) == Some(j),
    decreases j - k,
{
    if k < j {
        lemma_offset_monotone(s, k, j);
        lemma_boundary_of_offset_from(s, j, k + 1);
    }
}

/// The text `a + b`, for character vectors `v[..i]` and `v[j..]`.
fn splice(v: &Vec<char>, i: usize, mid: Option<char>, j: usize) -> (r: String)
    requires
        i <= v@.len(),
        j <= v@.len(),
    ensures
        r@ == match mid {
            Some(c) => v@.take(i as int).push(c) + v@.skip(j as int),
            None => v@.take(i as int) + v@.skip(j as int),
        },
{
    let mut r = string_of_range(v, 0, i);
    if let Some(c) = mid {
        push_char(&mut r, c);
    }
    let rest = string_of_range(v, j, v.len());
    let r = r.concat(rest.as_str());
    assert(v@.subrange(0, i as int) =~= v@.take(i as int));
    assert(v@.subrange(j as int, v@.len() as int) =~= v@.skip(j as int));
    r
}

impl TextInput {
    /// A field holding `content`, with the cursor at its end.
    pub fn new(content: String) -> (r: TextInput)
        ensures
            r@ == (TextInputView { content: content@, cursor: utf8_len(content@) }),
    {
        let cursor = byte_len(&content);
        TextInput { content, cursor }
    }

    /// Empties the field.
    pub fn clear(&mut self)
        ensures
            final(self)@ == (TextInputView { content: Seq::empty(), cursor: 0 }),
    {
        self.content = String::new();
        self.cursor = 0;
    }

    /// Replaces the content, with the cursor at its end.
    pub fn set(&mut self, content: String)
        ensures
            final(self)@ == (TextInputView { content: content@, cursor: utf8_len(content@) }),
    {
        self.cursor = byte_len(&content);
        self.content = content;
    }

    /// The content.
    pub fn value(&self) -> (r: &str)
        ensures
            r@ == self.content@,
    {
        self.content.as_str()
    }

    /// The content before the cursor.
    pub fn before_cursor(&self) -> (r: String)
        requires
            self@.wf(),
        ensures
            r@ == self.content@.take(self@.cursor_index()),
    {
        let (v, n) = chars_and_len(&self.content);
        let k = find_boundary(&v, n, self.cursor).unwrap();
        proof {
            lemma_boundary_index_from(v@, self.cursor as nat, 0);
        }
        let r = string_of_range(&v, 0, k);
        assert(v@.subrange(0, k as int) =~= v@.take(k as int));
        r
    }

    /// The content from the cursor on.
    pub fn after_cursor(&self) -> (r: String)
        requires
            self@.wf(),
        ensures
            r@ == self.content@.skip(self@.cursor_index()),
    {
        let (v, n) = chars_and_len(&self.content);
        let k = find_boundary(&v, n, self.cursor).unwrap();
        proof {
            lemma_boundary_index_from(v@, self.cursor as nat, 0);
        }
        let r = string_of_range(&v, k, v.len());
        assert(v@.subrange(k as int, v@.len() as int) =~= v@.skip(k as int));
        r
    }
}

impl TextInput {
    /// Applies a key press: typing inserts at the cursor, Backspace and
    /// Delete remove the character before or at it, the arrows, Home and End
    /// move it, and Control with `a`, `e`, `u`, `k` jumps to the start or the
    /// end or cuts the text before or after the cursor.
    pub fn handle_key(&mut self, key: Key)
        requires
            old(self)@.accepts(key),
        ensures
            final(self)@ == old(self)@.after_key(key),
            old(self)@.wf() ==> final(self)@.wf(),
    {
        let ghost s = self.content@;
        let (v, n) = chars_and_len(&self.content);
        let found = find_boundary(&v, n, self.cursor);
        proof {
            lemma_boundary_index_from(s, self.cursor as nat, 0);
            lemma_offset_full(s);
            lemma_boundary_of_offset(s, 0);
            lemma_boundary_of_offset(s, s.len() as int);
        }
        match key.code {
            KeyCode::Char(c) => {
                if key.ctrl {
                    if c == 'a' {
                        self.cursor = 0;
                    } else if c == 'e' {
                        self.cursor = n;
                    } else if c == 'u' {
                        let k = found.unwrap();
                        self.content = splice(&v, 0, None, k);
                        self.cursor = 0;
                        proof {
                            assert(s.take(0) + s.skip(k as int) =~= s.skip(k as int));
                            lemma_boundary_of_offset(s.skip(k as int), 0);
                            lemma_offset_full(s.skip(k as int));
                        }
                    } else if c == 'k' && self.cursor < n {
                        let k = found.unwrap();
                        self.content = splice(&v, k, None, v.len());
                        proof {
                            assert(s.take(k as int) + s.skip(s.len() as int) =~= s.take(k as int));
                            assert(s.take(k as int).take(k as int) =~= s.take(k as int));
                            lemma_boundary_of_offset(s.take(k as int), k as int);
                        }
                    }
                } else {
                    let k = found.unwrap();
                    let w = char_len_of(c);
                    let content = splice(&v, k, Some(c), k);
                    let total = byte_len(&content);
                    let ghost t = content@;
                    proof {
                        assert(t.take(k + 1) =~= s.take(k as int).push(c));
                        assert(s.take(k as int).push(c) =~= s.take(k as int) + seq![c]);
                        lemma_utf8_len_concat(s.take(k as int), seq![c]);
                        assert(seq![c].drop_first() =~= Seq::<char>::empty());
                        assert(utf8_len(seq![c]) == char_len(c) + utf8_len(Seq::<char>::empty()));
                        assert(t =~= s.take(k as int).push(c) + s.skip(k as int));
                        lemma_offset_full(t);
                        lemma_offset_monotone(t, k + 1, t.len() as int);
                        lemma_boundary_of_offset(t, k + 1);
                    }
                    self.content = content;
                    self.cursor = self.cursor + w;
                }
            },
            KeyCode::Backspace => {
                if self.cursor > 0 {
                    let k = found.unwrap();
                    let (p, prev) = prev_char_boundary(&v, n, self.cursor);
                    self.content = splice(&v, p, None, k);
                    self.cursor = prev;
                    proof {
                        let t = s.take(p as int) + s.skip(k as int);
                        assert(t.take(p as int) =~= s.take(p as int));
                        lemma_boundary_of_offset(t, p as int);
                    }
                }
            },
            KeyCode::Delete => {
                if self.cursor < n {
                    let k = found.unwrap();
                    let (q, _next) = next_char_boundary(&v, n, self.cursor);
                    self.content = splice(&v, k, None, q);
                    proof {
                        let t = s.take(k as int) + s.skip(q as int);
                        assert(t.take(k as int) =~= s.take(k as int));
                        lemma_boundary_of_offset(t, k as int);
                    }
                }
            },
            KeyCode::Left => {
                if self.cursor > 0 {
                    let (p, prev) = prev_char_boundary(&v, n, self.cursor);
                    self.cursor = prev;
                    proof {
                        lemma_boundary_of_offset(s, p as int);
                    }
                }
            },
            KeyCode::Right => {
                if self.cursor < n {
                    let (q, next) = next_char_boundary(&v, n, self.cursor);
                    self.cursor = next;
                    proof {
                        lemma_boundary_of_offset(s, q as int);
                    }
                }
            },
            KeyCode::Home => {
                self.cursor = 0;
            },
            KeyCode::End => {
                self.cursor = n;
            },
            _ => {},
        }
    }
}

impl Default for TextInput {
    fn default() -> (r: TextInput)
        ensures
            r@ == (TextInputView { content: Seq::empty(), cursor: 0 }),
    {
        TextInput { content: String::new(), cursor: 0 }
    }
}

impl Clone for TextInput {
    fn clone(&self) -> (r: TextInput)
        ensures
            r@ == self@,
    {
        TextInput { content: self.content.clone(), cursor: self.cursor }
    }
}

} // verus!
