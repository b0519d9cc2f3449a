//! The one-line text field every screen types into: a line of characters and a cursor that
//! stands between two of them, with one key map for all of them.

use vstd::prelude::*;
use crate::ascii::{chars_of, string_of};
use crate::key::Key;

verus! {

/// What an editing key did to the field.
#[derive(Debug, Clone, Copy, PartialEq, Eq, Structural)]
pub enum Edit {
    /// The text changed.
    Changed,
    /// Only the cursor moved.
    Moved,
    /// The key is an editing key, but there was nothing for it to do here.
    Ignored,
}

/// The smaller of two naturals.
pub open spec fn min_nat(a: nat, b: nat) -> nat {
    if a <= b { a } else { b }
}

/// How many bytes UTF-8 spends on `c`.
pub open spec fn utf8_len(c: char) -> nat {
    if (c as u32) < 0x80 {
        1
    } else if (c as u32) < 0x800 {
        2
    } else if (c as u32) < 0x10000 {
        3
    } else {
        4
    }
}

/// How many bytes UTF-8 spends on `s`.
pub open spec fn utf8_bytes(s: Seq<char>) -> nat
    decreases s.len(),
{
    if s.len() == 0 {
        0
    } else {
        utf8_bytes(s.drop_last()) + utf8_len(s.last())
    }
}

/// Walking back from `i` over characters that are (`space`) or are not (`!space`) a space: the
/// index where that run begins.
pub open spec fn back_over(s: Seq<char>, i: int, space: bool) -> int
    decreases i,
{
    if i <= 0 || i > s.len() {
        if i > s.len() { i } else { 0 }
    } else if (s[i - 1] == ' ') == space {
        back_over(s, i - 1, space)
    } else {
        i
    }
}

/// Where `ctrl-w` deletes back to from `at`: over the spaces before the cursor, then over the
/// word before them.
pub open spec fn word_start(s: Seq<char>, at: int) -> int {
    back_over(s, back_over(s, at, true), false)
}

/// The Unicode `White_Space` characters, which `str::trim` removes.
pub open spec fn is_white(c: char) -> bool {
    ||| ('\t' <= c && c <= '\r')
    ||| c == ' '
    ||| c == '\u{85}'
    ||| c == '\u{a0}'
    ||| c == '\u{1680}'
    ||| ('\u{2000}' <= c && c <= '\u{200a}')
    ||| c == '\u{2028}'
    ||| c == '\u{2029}'
    ||| c == '\u{202f}'
    ||| c == '\u{205f}'
    ||| c == '\u{3000}'
}

/// The index of the first character of `s` from `i` on that is not white space.
pub open spec fn skip_white(s: Seq<char>, i: int) -> int
    decreases s.len() - i,
{
    if i < 0 || i >= s.len() {
        i
    } else if is_white(s[i]) {
        skip_white(s, i + 1)
    } else {
        i
    }
}

/// One past the last character of `s` before `i` that is not white space.
pub open spec fn skip_white_back(s: Seq<char>, i: int) -> int
    decreases i,
{
    if i <= 0 || i > s.len() {
        if i > s.len() { i } else { 0 }
    } else if is_white(s[i - 1]) {
        skip_white_back(s, i - 1)
    } else {
        i
    }
}

/// `s` without white space at either end: what `str::trim` gives back.
pub open spec fn trimmed(s: Seq<char>) -> Seq<char> {
    let lo = skip_white(s, 0);
    let hi = skip_white_back(s, s.len() as int);
    if lo >= hi {
        Seq::empty()
    } else {
        s.subrange(lo, hi)
    }
}

/// A line of text and a cursor that stands between two of its characters.
#[derive(Debug, Clone)]
pub struct Input {
    /// The line.
    pub chars: Vec<char>,
    /// The cursor, in characters; a value past the end of the line stands at its end.
    pub at: usize,
}

impl Input {
    /// The text of the line.
    pub open spec fn text(self) -> Seq<char> {
        self.chars@
    }

    /// The cursor, in characters from the start of the line.
    pub open spec fn pos(self) -> nat {
        if self.at <= self.chars.len() {
            self.at as nat
        } else {
            self.chars@.len()
        }
    }

    /// A copy of this field, text and cursor alike.
    pub fn duplicate(&self) -> (r: Input)
        ensures
            r.text() == self.text(),
            r.pos() == self.pos(),
    {
        Input { chars: self.chars.clone(), at: self.char_cursor() }
    }

    /// An empty line.
    pub fn new() -> (r: Input)
        ensures
            r.text() == Seq::<char>::empty(),
            r.pos() == 0,
    {
        Input { chars: Vec::new(), at: 0 }
    }

    /// A line holding `s`, with the cursor at its end.
    pub fn from_str(s: &str) -> (r: Input)
        ensures
            r.text() == s@,
            r.pos() == s@.len(),
    {
        let chars = chars_of(s);
        let at = chars.len();
        Input { chars, at }
    }

    /// The line as a string.
    pub fn as_str(&self) -> (r: String)
        ensures
            r@ == self.text(),
    {
        string_of(self.chars.as_slice())
    }

    /// The characters of the line.
    pub fn chars(&self) -> (r: &[char])
        ensures
            r@ == self.text(),
    {
        self.chars.as_slice()
    }

    /// The cursor, in characters.
    pub fn char_cursor(&self) -> (r: usize)
        ensures
            r == self.pos(),
    {
        if self.at <= self.chars.len() {
            self.at
        } else {
            self.chars.len()
        }
    }

    /// The cursor as a byte offset into the line's UTF-8 (saturating at `usize::MAX`).
    pub fn cursor(&self) -> (r: usize)
        ensures
            r == min_nat(utf8_bytes(self.text().subrange(0, self.pos() as int)), usize::MAX as nat),
    {
        let at = self.char_cursor();
        let mut bytes: usize = 0;
        let mut i: usize = 0;
        while i < at
            invariant
                at == self.pos(),
                at <= self.chars.len(),
                i <= at,
                bytes == min_nat(utf8_bytes(self.chars@.subrange(0, i as int)), usize::MAX as nat),
            decreases at - i,
        {
            let c = self.chars[i];
            let code = c as u32;
            let n: usize = if code < 0x80 {
                1
            } else if code < 0x800 {
                2
            } else if code < 0x10000 {
                3
            } else {
                4
            };
            proof {
                let p = self.chars@.subrange(0, i + 1);
                assert(p.drop_last() =~= self.chars@.subrange(0, i as int));
                assert(p.last() == c);
            }
            bytes = bytes.saturating_add(n);
            i = i + 1;
        }
        bytes
    }

    /// Whether the cursor is after the last character.
    pub fn at_end(&self) -> (r: bool)
        ensures
            r == (self.pos() == self.text().len()),
    {
        self.char_cursor() == self.chars.len()
    }

    /// Whether the line holds nothing.
    pub fn is_empty(&self) -> (r: bool)
        ensures
            r == (self.text().len() == 0),
    {
        self.chars.len() == 0
    }

    /// Replace the line, with the cursor at its end.
    pub fn set(&mut self, s: &str)
        ensures
            final(self).text() == s@,
            final(self).pos() == s@.len(),
    {
        let chars = chars_of(s);
        let at = chars.len();
        *self = Input { chars, at };
    }

    /// `c` at the cursor, and the cursor after it.
    pub fn insert(&mut self, c: char)
        ensures
            final(self).text() == old(self).text().insert(old(self).pos() as int, c),
            final(self).pos() == old(self).pos() + 1,
    {
        let at = self.char_cursor();
        let mut chars = self.chars.clone();
        chars.insert(at, c);
        let n = chars.len();
        assert(at < n);
        *self = Input { chars, at: at + 1 };
    }

    /// `s` at the cursor, and the cursor after it.
    pub fn insert_str(&mut self, s: &str)
        ensures
            final(self).text() == old(self).text().subrange(0, old(self).pos() as int) + s@
                + old(self).text().subrange(old(self).pos() as int, old(self).text().len() as int),
            final(self).pos() == old(self).pos() + s@.len(),
    {
        let add = chars_of(s);
        let ghost before = self.chars@;
        let ghost at0 = self.pos();
        let mut i: usize = 0;
        while i < add.len()
            invariant
                at0 <= before.len(),
                add@ == s@,
                i <= add.len(),
                self.pos() == at0 + i,
                self.chars@ == before.subrange(0, at0 as int) + add@.subrange(0, i as int)
                    + before.subrange(at0 as int, before.len() as int),
            decreases add.len() - i,
        {
            self.insert(add[i]);
            proof {
                assert(add@.subrange(0, i + 1) =~= add@.subrange(0, i as int).push(add@[i as int]));
                assert(self.chars@ =~= before.subrange(0, at0 as int) + add@.subrange(0, i + 1)
                    + before.subrange(at0 as int, before.len() as int));
            }
            i = i + 1;
        }
        proof {
            assert(add@.subrange(0, add@.len() as int) =~= add@);
        }
    }

    /// The cursor to the start of the line.
    pub fn home(&mut self)
        ensures
            final(self).text() == old(self).text(),
            final(self).pos() == 0,
    {
        self.at = 0;
    }

    /// The cursor to the end of the line.
    pub fn end(&mut self)
        ensures
            final(self).text() == old(self).text(),
            final(self).pos() == old(self).text().len(),
    {
        self.at = self.chars.len();
    }

    /// One character left; `false` at the start of the line.
    pub fn left(&mut self) -> (moved: bool)
        ensures
            moved == (old(self).pos() > 0),
            final(self).text() == old(self).text(),
            final(self).pos() == if moved { old(self).pos() - 1 } else { old(self).pos() as int },
    {
        let at = self.char_cursor();
        if at > 0 {
            self.at = at - 1;
            true
        } else {
            false
        }
    }

    /// One character right; `false` at the end of the line.
    pub fn right(&mut self) -> (moved: bool)
        ensures
            moved == (old(self).pos() < old(self).text().len()),
            final(self).text() == old(self).text(),
            final(self).pos() == if moved { old(self).pos() as int + 1 } else { old(self).pos() as int + 0 },
    {
        let at = self.char_cursor();
        if at < self.chars.len() {
            self.at = at + 1;
            true
        } else {
            false
        }
    }

    /// Deletes the characters from `from` up to the cursor, and puts the cursor at `from`.
    fn cut_back_to(&mut self, from: usize)
        requires
            from <= old(self).pos(),
        ensures
            final(self).text() == old(self).text().subrange(0, from as int) + old(
                self,
            ).text().subrange(old(self).pos() as int, old(self).text().len() as int),
            final(self).pos() == from,
    {
        let mut chars: Vec<char> = Vec::new();
        let mut i: usize = 0;
        let n = self.chars.len();
        let at = self.char_cursor();
        while i < n
            invariant
                n == self.chars@.len(),
                from <= at <= n,
                at == self.pos(),
                i <= n,
                chars@ == self.chars@.subrange(0, if i < from { i as int } else { from as int })
                    + self.chars@.subrange(at as int, if i < at { at as int } else { i as int }),
            decreases n - i,
        {
            if i < from || i >= at {
                chars.push(self.chars[i]);
            }
            proof {
                let s = self.chars@;
                if i < from {
                    assert(s.subrange(0, i + 1) =~= s.subrange(0, i as int).push(s[i as int]));
                    assert(s.subrange(at as int, at as int) =~= Seq::<char>::empty());
                } else if i >= at {
                    assert(s.subrange(at as int, i + 1) =~= s.subrange(at as int, i as int).push(
                        s[i as int],
                    ));
                }
            }
            i = i + 1;
        }
        *self = Input { chars, at: from };
    }

    /// The character before the cursor; `false` at the start of the line.
    pub fn backspace(&mut self) -> (changed: bool)
        ensures
            changed == (old(self).pos() > 0),
            changed ==> final(self).text() == old(self).text().remove(old(self).pos() - 1),
            changed ==> final(self).pos() == old(self).pos() - 1,
            !changed ==> *final(self) == *old(self),
    {
        let at = self.char_cursor();
        if at == 0 {
            return false;
        }
        let from = at - 1;
        let ghost t = self.text();
        let ghost p = self.pos();
        self.cut_back_to(from);
        proof {
            assert(self.text() =~= t.remove(p - 1));
        }
        true
    }

    /// Where `ctrl-w` cuts back to.
    fn word_start_exec(&self) -> (r: usize)
        ensures
            r == word_start(self.text(), self.pos() as int),
            r <= self.pos(),
    {
        let at = self.char_cursor();
        let mut i = at;
        while i > 0 && self.chars[i - 1] == ' '
            invariant
                at == self.pos(),
                at <= self.chars.len(),
                i <= at,
                back_over(self.chars@, i as int, true) == back_over(self.chars@, at as int, true),
            decreases i,
        {
            i = i - 1;
        }
        let ghost mid = i;
        let mut j = i;
        while j > 0 && self.chars[j - 1] != ' '
            invariant
                at == self.pos(),
                at <= self.chars.len(),
                j <= mid <= at,
                back_over(self.chars@, j as int, false) == back_over(self.chars@, mid as int, false),
            decreases j,
        {
            j = j - 1;
        }
        j
    }

    /// One editing key, on this field. `None` for a key that is not an editing key, so the
    /// screen that owns the field can give it a meaning of its own.
    pub fn key(&mut self, key: Key) -> (r: Option<Edit>)
        ensures
            r == key_edit(*old(self), key).0,
            final(self).text() == key_edit(*old(self), key).1,
            final(self).pos() == key_edit(*old(self), key).2,
    {
        let at = self.char_cursor();
        match key {
            Key::Char(c) => {
                self.insert(c);
                Some(Edit::Changed)
            },
            Key::Backspace => {
                if self.backspace() {
                    Some(Edit::Changed)
                } else {
                    Some(Edit::Ignored)
                }
            },
            Key::Left => {
                if self.left() {
                    Some(Edit::Moved)
                } else {
                    Some(Edit::Ignored)
                }
            },
            Key::Right => {
                if self.right() {
                    Some(Edit::Moved)
                } else {
                    Some(Edit::Ignored)
                }
            },
            Key::Home | Key::Ctrl('a') => {
                self.home();
                Some(Edit::Moved)
            },
            Key::End | Key::Ctrl('e') => {
                self.end();
                Some(Edit::Moved)
            },
            Key::Ctrl('w') => {
                let from = self.word_start_exec();
                if from == at {
                    Some(Edit::Ignored)
                } else {
                    self.cut_back_to(from);
                    Some(Edit::Changed)
                }
            },
            Key::Ctrl('u') => {
                if at == 0 {
                    Some(Edit::Ignored)
                } else {
                    self.cut_back_to(0);
                    Some(Edit::Changed)
                }
            },
            _ => None,
        }
    }

    /// The line without white space at either end.
    pub fn trim(&self) -> (r: String)
        ensures
            r@ == trimmed(self.text()),
    {
        let v = trim_chars(self.chars.as_slice());
        string_of(v.as_slice())
    }
}

impl Default for Input {
    fn default() -> (r: Input)
        ensures
            r.text() == Seq::<char>::empty(),
            r.pos() == 0,
    {
        Input::new()
    }
}

/// What one key does to a field: what it answers, and the line and cursor it leaves.
pub open spec fn key_edit(i: Input, key: Key) -> (Option<Edit>, Seq<char>, nat) {
    let t = i.text();
    let p = i.pos();
    match key {
        Key::Char(c) => (Some(Edit::Changed), t.insert(p as int, c), p + 1),
        Key::Backspace => if p > 0 {
            (Some(Edit::Changed), t.remove(p - 1), (p - 1) as nat)
        } else {
            (Some(Edit::Ignored), t, p)
        },
        Key::Left => if p > 0 {
            (Some(Edit::Moved), t, (p - 1) as nat)
        } else {
            (Some(Edit::Ignored), t, p)
        },
        Key::Right => if p < t.len() {
            (Some(Edit::Moved), t, p + 1)
        } else {
            (Some(Edit::Ignored), t, p)
        },
        Key::Home => (Some(Edit::Moved), t, 0),
        Key::End => (Some(Edit::Moved), t, t.len()),
        Key::Ctrl(c) => if c == 'a' {
            (Some(Edit::Moved), t, 0)
        } else if c == 'e' {
            (Some(Edit::Moved), t, t.len())
        } else if c == 'w' {
            let from = word_start(t, p as int);
            if from == p {
                (Some(Edit::Ignored), t, p)
            } else {
                (Some(Edit::Changed), t.subrange(0, from) + t.subrange(p as int, t.len() as int), from as nat)
            }
        } else if c == 'u' {
            if p == 0 {
                (Some(Edit::Ignored), t, p)
            } else {
                (Some(Edit::Changed), t.subrange(p as int, t.len() as int), 0)
            }
        } else {
            (None, t, p)
        },
        _ => (None, t, p),
    }
}

/// `s` without white space at either end.
pub fn trim_chars(s: &[char]) -> (r: Vec<char>)
    ensures
        r@ == trimmed(s@),
{
    let mut lo: usize = 0;
    while lo < s.len() && is_white_exec(s[lo])
        invariant
            lo <= s.len(),
            skip_white(s@, lo as int) == skip_white(s@, 0),
        decreases s.len() - lo,
    {
        lo = lo + 1;
    }
    let mut hi: usize = s.len();
    while hi > 0 && is_white_exec(s[hi - 1])
        invariant
            hi <= s.len(),
            skip_white_back(s@, hi as int) == skip_white_back(s@, s@.len() as int),
        decreases hi,
    {
        hi = hi - 1;
    }
    let mut r: Vec<char> = Vec::new();
    if lo >= hi {
        return r;
    }
    let mut i = lo;
    while i < hi
        invariant
            lo <= i <= hi <= s.len(),
            r@ == s@.subrange(lo as int, i as int),
        decreases hi - i,
    {
        r.push(s[i]);
        proof {
            assert(s@.subrange(lo as int, i + 1) =~= s@.subrange(lo as int, i as int).push(s@[i as int]));
        }
        i = i + 1;
    }
    r
}

/// Whether `c` is Unicode white space.
pub fn is_white_exec(c: char) -> (r: bool)
    ensures
        r == is_white(c),
{
    ('\t' <= c && c <= '\r') || c == ' ' || c == '\u{85}' || c == '\u{a0}' || c == '\u{1680}'
        || ('\u{2000}' <= c && c <= '\u{200a}') || c == '\u{2028}' || c == '\u{2029}'
        || c == '\u{202f}' || c == '\u{205f}' || c == '\u{3000}'
}

/// `backspace` right after a typed character takes back exactly that character: the line and
/// the cursor are what they were before it was typed.
pub proof fn lemma_backspace_undoes_typing(before: Input, c: char, after: Input)
    requires
        after.text() == key_edit(before, Key::Char(c)).1,
        after.pos() == key_edit(before, Key::Char(c)).2,
    ensures
        key_edit(after, Key::Backspace).0 == Some(Edit::Changed),
        key_edit(after, Key::Backspace).1 == before.text(),
        key_edit(after, Key::Backspace).2 == before.pos(),
{
    let t = before.text();
    let p = before.pos() as int;
    assert(t.insert(p, c).remove(p) =~= t);
}

/// `left` then `right` puts the cursor back where it was, away from the start of the line.
pub proof fn lemma_right_undoes_left(before: Input, after: Input)
    requires
        before.pos() > 0,
        after.text() == key_edit(before, Key::Left).1,
        after.pos() == key_edit(before, Key::Left).2,
    ensures
        key_edit(after, Key::Right).1 == before.text(),
        key_edit(after, Key::Right).2 == before.pos(),
{
}

} // verus!
