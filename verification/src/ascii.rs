//! Characters and strings, folded the way every matcher in the crate folds them: ASCII letters
//! only, so a name that is not ASCII still matches itself exactly.

use vstd::prelude::*;

verus! {

/// `c` with an ASCII capital folded to its small letter; every other character unchanged.
pub open spec fn fold(c: char) -> char {
    if 'A' <= c && c <= 'Z' {
        ((c as u32) + 32) as char
    } else {
        c
    }
}

/// A sequence of characters, folded character by character.
pub open spec fn fold_seq(s: Seq<char>) -> Seq<char> {
    s.map_values(|c: char| fold(c))
}

/// `a` and `b` spell the same word once ASCII case is set aside.
pub open spec fn eq_ci(a: Seq<char>, b: Seq<char>) -> bool {
    fold_seq(a) == fold_seq(b)
}

/// `needle` is a prefix of `hay`, ASCII case set aside.
pub open spec fn starts_ci_spec(hay: Seq<char>, needle: Seq<char>) -> bool {
    needle.len() <= hay.len() && eq_ci(hay.subrange(0, needle.len() as int), needle)
}

/// `needle` occurs in `hay` starting at `at`.
pub open spec fn occurs_at(hay: Seq<char>, needle: Seq<char>, at: int) -> bool {
    0 <= at && at + needle.len() <= hay.len() && hay.subrange(at, at + needle.len()) == needle
}

/// `needle` occurs somewhere in `hay`; an empty needle occurs everywhere.
pub open spec fn contains_spec(hay: Seq<char>, needle: Seq<char>) -> bool {
    exists|at: int| occurs_at(hay, needle, at)
}

/// `needle` occurs in `hay`, ASCII case set aside.
pub open spec fn contains_ci_spec(hay: Seq<char>, needle: Seq<char>) -> bool {
    contains_spec(fold_seq(hay), fold_seq(needle))
}

/// The characters of `s`, in order.
pub fn chars_of(s: &str) -> (out: Vec<char>)
    ensures
        out@ == s@,
{
    let n = s.unicode_len();
    let mut out: Vec<char> = Vec::new();
    let mut i: usize = 0;
    while i < n
        invariant
            n == s@.len(),
            i <= n,
            out@ == s@.subrange(0, i as int),
        decreases n - i,
    {
        out.push(s.get_char(i));
        i = i + 1;
    }
    proof {
        assert(s@.subrange(0, n as int) =~= s@);
    }
    out
}

/// Appends one character: `String::push`.
#[verifier::external_body]
pub(crate) fn push_char(s: &mut String, c: char)
    ensures
        final(s)@ == old(s)@.push(c),
{
    s.push(c);
}

/// A string holding exactly the characters of `v`.
pub fn string_of(v: &[char]) -> (out: String)
    ensures
        out@ == v@,
{
    let mut out = String::new();
    let mut i: usize = 0;
    while i < v.len()
        invariant
            i <= v.len(),
            out@ == v@.subrange(0, i as int),
        decreases v.len() - i,
    {
        push_char(&mut out, v[i]);
        proof {
            assert(v@.subrange(0, i + 1) =~= v@.subrange(0, i as int).push(v@[i as int]));
        }
        i = i + 1;
    }
    proof {
        assert(v@.subrange(0, v.len() as int) =~= v@);
    }
    out
}

/// One character, folded.
pub fn fold_char(c: char) -> (out: char)
    ensures
        out == fold(c),
{
    if 'A' <= c && c <= 'Z' {
        let b: u8 = c as u8;
        (b + 32) as char
    } else {
        c
    }
}

/// Whether two characters are equal once ASCII case is set aside.
pub fn char_eq_ci(a: char, b: char) -> (out: bool)
    ensures
        out == (fold(a) == fold(b)),
{
    fold_char(a) == fold_char(b)
}

/// Whether the window of `hay` at `at` equals `needle`, ASCII case set aside.
fn matches_at_ci(hay: &[char], needle: &[char], at: usize) -> (out: bool)
    requires
        at + needle@.len() <= hay@.len(),
    ensures
        out == eq_ci(hay@.subrange(at as int, at + needle@.len()), needle@),
{
    let mut i: usize = 0;
    while i < needle.len()
        invariant
            at + needle.len() <= hay.len(),
            i <= needle.len(),
            forall|j: int| 0 <= j < i ==> fold(#[trigger] hay@[at + j]) == fold(needle@[j]),
        decreases needle.len() - i,
    {
        if !char_eq_ci(hay[at + i], needle[i]) {
            proof {
                let w = hay@.subrange(at as int, at + needle@.len());
                assert(fold_seq(w)[i as int] != fold_seq(needle@)[i as int]);
            }
            return false;
        }
        i = i + 1;
    }
    proof {
        let w = hay@.subrange(at as int, at + needle@.len());
        assert forall|j: int| 0 <= j < needle@.len() implies fold_seq(w)[j] == fold_seq(needle@)[j] by {
            assert(w[j] == hay@[at + j]);
        }
        assert(fold_seq(w) =~= fold_seq(needle@));
    }
    true
}

/// Whether the window of `hay` at `at` equals `needle` exactly.
fn matches_at(hay: &[char], needle: &[char], at: usize) -> (out: bool)
    requires
        at + needle@.len() <= hay@.len(),
    ensures
        out == (hay@.subrange(at as int, at + needle@.len()) == needle@),
{
    let mut i: usize = 0;
    while i < needle.len()
        invariant
            at + needle.len() <= hay.len(),
            i <= needle.len(),
            forall|j: int| 0 <= j < i ==> #[trigger] hay@[at + j] == needle@[j],
        decreases needle.len() - i,
    {
        if hay[at + i] != needle[i] {
            proof {
                let w = hay@.subrange(at as int, at + needle@.len());
                assert(w[i as int] != needle@[i as int]);
            }
            return false;
        }
        i = i + 1;
    }
    proof {
        let w = hay@.subrange(at as int, at + needle@.len());
        assert forall|j: int| 0 <= j < needle@.len() implies w[j] == needle@[j] by {
            assert(w[j] == hay@[at + j]);
        }
        assert(w =~= needle@);
    }
    true
}

/// `needle` is a prefix of `hay`, ASCII case set aside.
pub fn starts_ci_chars(hay: &[char], needle: &[char]) -> (out: bool)
    ensures
        out == starts_ci_spec(hay@, needle@),
{
    if needle.len() > hay.len() {
        return false;
    }
    matches_at_ci(hay, needle, 0)
}

/// `needle` occurs in `hay`, ASCII case set aside.
pub fn contains_ci_chars(hay: &[char], needle: &[char]) -> (out: bool)
    ensures
        out == contains_ci_spec(hay@, needle@),
{
    if needle.len() > hay.len() {
        proof {
            assert forall|at: int| !occurs_at(fold_seq(hay@), fold_seq(needle@), at) by {}
        }
        return false;
    }
    if needle.len() == 0 {
        proof {
            assert(fold_seq(hay@).subrange(0, 0) =~= fold_seq(needle@));
            assert(occurs_at(fold_seq(hay@), fold_seq(needle@), 0));
        }
        return true;
    }
    let last = hay.len() - needle.len();
    let mut at: usize = 0;
    while at <= last
        invariant
            last == hay@.len() - needle@.len(),
            0 < needle@.len() <= hay@.len(),
            last < hay.len(),
            forall|k: int| 0 <= k < at ==> !occurs_at(fold_seq(hay@), fold_seq(needle@), k),
        decreases last + 1 - at,
    {
        if matches_at_ci(hay, needle, at) {
            proof {
                lemma_fold_window(hay@, at as int, at + needle@.len());
                assert(occurs_at(fold_seq(hay@), fold_seq(needle@), at as int));
            }
            return true;
        }
        proof {
            lemma_fold_window(hay@, at as int, at + needle@.len());
        }
        at = at + 1;
    }
    proof {
        assert forall|k: int| !occurs_at(fold_seq(hay@), fold_seq(needle@), k) by {
            if 0 <= k < at {
            }
        }
    }
    false
}

/// `needle` occurs in `hay` exactly.
pub fn contains_chars(hay: &[char], needle: &[char]) -> (out: bool)
    ensures
        out == contains_spec(hay@, needle@),
{
    if needle.len() > hay.len() {
        return false;
    }
    if needle.len() == 0 {
        proof {
            assert(hay@.subrange(0, 0) =~= needle@);
            assert(occurs_at(hay@, needle@, 0));
        }
        return true;
    }
    let last = hay.len() - needle.len();
    let mut at: usize = 0;
    while at <= last
        invariant
            last == hay@.len() - needle@.len(),
            0 < needle@.len() <= hay@.len(),
            last < hay.len(),
            forall|k: int| 0 <= k < at ==> !occurs_at(hay@, needle@, k),
        decreases last + 1 - at,
    {
        if matches_at(hay, needle, at) {
            assert(occurs_at(hay@, needle@, at as int));
            return true;
        }
        at = at + 1;
    }
    false
}

/// Folding a window is the window of the folding.
pub proof fn lemma_fold_window(s: Seq<char>, lo: int, hi: int)
    requires
        0 <= lo <= hi <= s.len(),
    ensures
        fold_seq(s.subrange(lo, hi)) == fold_seq(s).subrange(lo, hi),
{
    assert(fold_seq(s.subrange(lo, hi)) =~= fold_seq(s).subrange(lo, hi));
}

/// `needle` is a prefix of `hay`, ASCII case set aside.
pub fn starts_ci(hay: &str, needle: &str) -> (out: bool)
    ensures
        out == starts_ci_spec(hay@, needle@),
{
    let h = chars_of(hay);
    let n = chars_of(needle);
    starts_ci_chars(h.as_slice(), n.as_slice())
}

/// `needle` occurs in `hay`, ASCII case set aside. An empty needle is in everything.
pub fn contains_ci(hay: &str, needle: &str) -> (out: bool)
    ensures
        out == contains_ci_spec(hay@, needle@),
{
    let h = chars_of(hay);
    let n = chars_of(needle);
    contains_ci_chars(h.as_slice(), n.as_slice())
}

/// `a` and `b` are the same word once ASCII case is set aside.
pub fn eq_ignore_case(a: &str, b: &str) -> (out: bool)
    ensures
        out == eq_ci(a@, b@),
{
    let x = chars_of(a);
    let y = chars_of(b);
    if x.len() != y.len() {
        proof {
            assert(fold_seq(a@).len() != fold_seq(b@).len());
        }
        return false;
    }
    let r = matches_at_ci(x.as_slice(), y.as_slice(), 0);
    proof {
        assert(x@.subrange(0, y@.len() as int) =~= x@);
    }
    r
}

/// The characters of `s`, folded.
pub fn fold_chars(s: &[char]) -> (out: Vec<char>)
    ensures
        out@ == fold_seq(s@),
{
    let mut out: Vec<char> = Vec::new();
    let mut i: usize = 0;
    while i < s.len()
        invariant
            i <= s.len(),
            out@ == fold_seq(s@.subrange(0, i as int)),
        decreases s.len() - i,
    {
        out.push(fold_char(s[i]));
        proof {
            assert(fold_seq(s@.subrange(0, i + 1)) =~= fold_seq(s@.subrange(0, i as int)).push(
                fold(s@[i as int]),
            ));
        }
        i = i + 1;
    }
    proof {
        assert(s@.subrange(0, s.len() as int) =~= s@);
    }
    out
}

} // verus!

verus! {

/// The characters of `v` from `lo` up to `hi`.
pub fn slice_chars(v: &[char], lo: usize, hi: usize) -> (out: Vec<char>)
    requires
        lo <= hi <= v@.len(),
    ensures
        out@ == v@.subrange(lo as int, hi as int),
{
    let mut out: Vec<char> = Vec::new();
    let mut i = lo;
    while i < hi
        invariant
            lo <= i <= hi <= v@.len(),
            out@ == v@.subrange(lo as int, i as int),
        decreases hi - i,
    {
        out.push(v[i]);
        proof {
            assert(v@.subrange(lo as int, i + 1) =~= v@.subrange(lo as int, i as int).push(v@[i as int]));
        }
        i = i + 1;
    }
    out
}

/// A copy of a string.
pub fn copy_string(s: &String) -> (out: String)
    ensures
        out@ == s@,
{
    s.clone()
}

} // verus!

verus! {

/// Whether `c` is alphabetic or numeric in Unicode's sense: what `char::is_alphanumeric`
/// answers.
pub uninterp spec fn unicode_alphanumeric(c: char) -> bool;

/// The ASCII letters and digits.
pub open spec fn ascii_alphanumeric(c: char) -> bool {
    ('a' <= c && c <= 'z') || ('A' <= c && c <= 'Z') || ('0' <= c && c <= '9')
}

/// `char::is_alphanumeric`: Unicode's alphabetic-or-numeric test. Named, not stated: the
/// properties are Unicode's tables, and the answer depends on `c` alone.
#[verifier::external_body]
pub(crate) fn is_alphanumeric(c: char) -> (r: bool)
    ensures
        r == unicode_alphanumeric(c),
{
    c.is_alphanumeric()
}

} // verus!

verus! {

/// Whether two strings hold the same characters.
pub fn str_eq(a: &str, b: &str) -> (r: bool)
    ensures
        r == (a@ == b@),
{
    let x = chars_of(a);
    let y = chars_of(b);
    if x.len() != y.len() {
        return false;
    }
    let mut i: usize = 0;
    while i < x.len()
        invariant
            x@ == a@,
            y@ == b@,
            x@.len() == y@.len(),
            i <= x@.len(),
            forall|j: int| 0 <= j < i ==> x@[j] == y@[j],
        decreases x.len() - i,
    {
        if x[i] != y[i] {
            return false;
        }
        i = i + 1;
    }
    proof {
        assert(x@ =~= y@);
    }
    true
}

} // verus!

verus! {

/// The character of one decimal digit.
pub open spec fn digit(d: nat) -> char {
    ((d + 48) as u8) as char
}

/// `n` in decimal, most significant digit first.
pub open spec fn decimal(n: nat) -> Seq<char>
    decreases n,
{
    if n < 10 {
        seq![digit(n)]
    } else {
        decimal(n / 10).push(digit(n % 10))
    }
}

/// `n` in decimal.
pub fn decimal_string(n: u64) -> (r: String)
    ensures
        r@ == decimal(n as nat),
{
    let mut digits: Vec<char> = Vec::new();
    let mut m = n;
    // Digits least significant first, then reversed.
    while m >= 10
        invariant
            decimal(n as nat) == decimal(m as nat) + digits@.reverse(),
        decreases m,
    {
        let d = m % 10;
        digits.push(((d as u8) + 48) as char);
        proof {
            assert(decimal(m as nat) == decimal((m / 10) as nat).push(digit((m % 10) as nat)));
            assert(digits@.reverse() =~= seq![digit((m % 10) as nat)] + digits@.drop_last().reverse());
            assert(decimal((m / 10) as nat).push(digit((m % 10) as nat)) + digits@.drop_last().reverse() =~= decimal((m / 10) as nat) + digits@.reverse());
        }
        m = m / 10;
    }
    let mut out: Vec<char> = Vec::new();
    out.push(((m as u8) + 48) as char);
    let mut i = digits.len();
    while i > 0
        invariant
            i <= digits@.len(),
            out@ == seq![digit(m as nat)] + digits@.subrange(i as int, digits@.len() as int).reverse(),
        decreases i,
    {
        i = i - 1;
        out.push(digits[i]);
        proof {
            assert(digits@.subrange(i as int, digits@.len() as int).reverse() =~= digits@.subrange(i + 1, digits@.len() as int).reverse().push(digits@[i as int]));
        }
    }
    proof {
        assert(digits@.subrange(0, digits@.len() as int) =~= digits@);
        assert(decimal(m as nat) == seq![digit(m as nat)]);
    }
    string_of(out.as_slice())
}

/// A string of `a` followed by `b`.
pub fn concat(a: &str, b: &str) -> (r: String)
    ensures
        r@ == a@ + b@,
{
    let mut s = String::from_str(a);
    s.append(b);
    s
}

} // verus!
