//! Character-sequence primitives: substring containment, prefix/suffix and
//! extension tests, lexicographic order, and line-oriented search.
//!
//! All executable functions here work on `Vec<char>` buffers obtained from
//! string slices, so every contract is stated over `Seq<char>` views.

use vstd::prelude::*;
use vstd::string::StrSliceExecFns;

verus! {

/// `pat` occurs in `text` starting exactly at index `i`.
pub open spec fn matches_at(text: Seq<char>, pat: Seq<char>, i: int) -> bool {
    0 <= i && i + pat.len() <= text.len() && text.subrange(i, i + pat.len() as int) == pat
}

/// `pat` occurs somewhere in `text` (plain substring containment).
pub open spec fn contains_seq(text: Seq<char>, pat: Seq<char>) -> bool {
    exists|i: int| matches_at(text, pat, i)
}

/// `text` begins with `prefix`.
pub open spec fn starts_with(text: Seq<char>, prefix: Seq<char>) -> bool {
    prefix.len() <= text.len() && text.subrange(0, prefix.len() as int) == prefix
}

/// `text` ends with `suffix`.
pub open spec fn ends_with(text: Seq<char>, suffix: Seq<char>) -> bool {
    suffix.len() <= text.len() && text.subrange(text.len() - suffix.len(), text.len() as int)
        == suffix
}

/// `path` ends with `.` followed by `ext` (an exact suffix match, so
/// `foo.jssx` does not have extension `js`).
pub open spec fn has_extension(path: Seq<char>, ext: Seq<char>) -> bool {
    path.len() > ext.len() && path[path.len() - ext.len() - 1] == '.' && ends_with(path, ext)
}

/// Copies the characters of a string slice into a vector, so that verified
/// code can index them one by one.
pub fn chars_of(s: &str) -> (r: Vec<char>)
    ensures
        r@ == s@,
{
    let n = s.unicode_len();
    let mut r: Vec<char> = Vec::new();
    let mut i: usize = 0;
    while i < n
        invariant
            i <= n,
            n == s@.len(),
            r@ == s@.subrange(0, i as int),
        decreases n - i,
    {
        r.push(s.get_char(i));
        i = i + 1;
        assert(r@ =~= s@.subrange(0, i as int));
    }
    assert(r@ =~= s@);
    r
}

/// Character-for-character equality of two buffers.
pub fn seq_eq(a: &Vec<char>, b: &Vec<char>) -> (r: bool)
    ensures
        r == (a@ == b@),
{
    if a.len() != b.len() {
        return false;
    }
    let mut i: usize = 0;
    while i < a.len()
        invariant
            i <= a@.len(),
            a@.len() == b@.len(),
            forall|k: int| 0 <= k < i ==> a@[k] == b@[k],
        decreases a@.len() - i,
    {
        if a[i] != b[i] {
            return false;
        }
        i = i + 1;
    }
    assert(a@ =~= b@);
    true
}

/// Whether `text` starts with `prefix`, executably.
pub fn starts_with_exec(text: &Vec<char>, prefix: &Vec<char>) -> (r: bool)
    ensures
        r == starts_with(text@, prefix@),
{
    if prefix.len() > text.len() {
        return false;
    }
    let mut i: usize = 0;
    while i < prefix.len()
        invariant
            i <= prefix@.len(),
            prefix@.len() <= text@.len(),
            forall|k: int| 0 <= k < i ==> text@[k] == prefix@[k],
        decreases prefix@.len() - i,
    {
        if text[i] != prefix[i] {
            assert(!starts_with(text@, prefix@)) by {
                if text@.subrange(0, prefix@.len() as int) == prefix@ {
                    assert(text@.subrange(0, prefix@.len() as int)[i as int] == prefix@[i as int]);
                }
            }
            return false;
        }
        i = i + 1;
    }
    assert(text@.subrange(0, prefix@.len() as int) =~= prefix@);
    true
}

/// Whether `path` has extension `ext` (a `.` followed by `ext` as an exact
/// suffix), executably.
pub fn has_extension_exec(path: &Vec<char>, ext: &Vec<char>) -> (r: bool)
    ensures
        r == has_extension(path@, ext@),
{
    if path.len() <= ext.len() {
        return false;
    }
    let dot_pos = path.len() - ext.len() - 1;
    if path[dot_pos] != '.' {
        return false;
    }
    let start = path.len() - ext.len();
    let mut i: usize = 0;
    while i < ext.len()
        invariant
            i <= ext@.len(),
            ext@.len() < path@.len(),
            path.len() == path@.len(),
            start == path@.len() - ext@.len(),
            forall|k: int| 0 <= k < i ==> path@[start + k] == ext@[k],
        decreases ext@.len() - i,
    {
        if path[start + i] != ext[i] {
            assert(!ends_with(path@, ext@)) by {
                if path@.subrange(path@.len() - ext@.len(), path@.len() as int) == ext@ {
                    assert(path@.subrange(path@.len() - ext@.len(), path@.len() as int)[i as int]
                        == ext@[i as int]);
                }
            }
            return false;
        }
        i = i + 1;
    }
    assert(path@.subrange(path@.len() - ext@.len(), path@.len() as int) =~= ext@);
    true
}

/// Whether `pat` occurs in `text` at exactly position `i`, executably.
fn matches_at_exec(text: &Vec<char>, pat: &Vec<char>, i: usize) -> (r: bool)
    requires
        i + pat@.len() <= text@.len(),
    ensures
        r == matches_at(text@, pat@, i as int),
{
    let mut j: usize = 0;
    while j < pat.len()
        invariant
            j <= pat@.len(),
            i + pat@.len() <= text@.len(),
            text.len() == text@.len(),
            forall|k: int| 0 <= k < j ==> text@[i + k] == pat@[k],
        decreases pat@.len() - j,
    {
        if text[i + j] != pat[j] {
            assert(!matches_at(text@, pat@, i as int)) by {
                if text@.subrange(i as int, i + pat@.len() as int) == pat@ {
                    assert(text@.subrange(i as int, i + pat@.len() as int)[j as int]
                        == pat@[j as int]);
                }
            }
            return false;
        }
        j = j + 1;
    }
    assert(text@.subrange(i as int, i + pat@.len() as int) =~= pat@);
    true
}

/// Plain substring search, executably.
pub fn contains_exec(text: &Vec<char>, pat: &Vec<char>) -> (r: bool)
    ensures
        r == contains_seq(text@, pat@),
{
    if pat.len() > text.len() {
        return false;
    }
    if pat.len() == 0 {
        assert(text@.subrange(0, 0) =~= pat@);
        assert(matches_at(text@, pat@, 0));
        return true;
    }
    let last = text.len() - pat.len();
    let mut i: usize = 0;
    while i <= last
        invariant
            i <= last + 1,
            last == text@.len() - pat@.len(),
            0 < pat@.len() <= text@.len(),
            text.len() == text@.len(),
            forall|k: int| 0 <= k < i ==> !matches_at(text@, pat@, k),
        decreases last + 1 - i,
    {
        if matches_at_exec(text, pat, i) {
            return true;
        }
        i = i + 1;
    }
    assert(!contains_seq(text@, pat@)) by {
        assert(forall|k: int| matches_at(text@, pat@, k) ==> 0 <= k <= last);
    }
    false
}

/// Copies `text[start..end]` into a fresh buffer.
pub fn copy_range(text: &Vec<char>, start: usize, end: usize) -> (r: Vec<char>)
    requires
        start <= end <= text@.len(),
    ensures
        r@ == text@.subrange(start as int, end as int),
{
    let mut r: Vec<char> = Vec::new();
    let mut i: usize = start;
    while i < end
        invariant
            start <= i <= end <= text@.len(),
            r@ == text@.subrange(start as int, i as int),
        decreases end - i,
    {
        r.push(text[i]);
        i = i + 1;
        assert(r@ =~= text@.subrange(start as int, i as int));
    }
    r
}

/// `[a, b)` is one line of `text`: a maximal span free of newline
/// characters, delimited by the ends of the text or by `'\n'`.  Empty text
/// has no lines.
pub open spec fn line_span(text: Seq<char>, a: int, b: int) -> bool {
    &&& text.len() > 0
    &&& 0 <= a <= b <= text.len()
    &&& (a == 0 || text[a - 1] == '\n')
    &&& (b == text.len() || text[b] == '\n')
    &&& forall|j: int| a <= j < b ==> text[j] != '\n'
}

/// The text of line `[a, b)`.  A trailing carriage return is dropped when
/// the line was ended by a newline, so `\r\n` line endings behave like
/// `\n`; a carriage return at the very end of the text is kept.
pub open spec fn line_text(text: Seq<char>, a: int, b: int) -> Seq<char> {
    if b < text.len() && a < b && text[b - 1] == '\r' {
        text.subrange(a, b - 1)
    } else {
        text.subrange(a, b)
    }
}

/// `term` occurs somewhere inside at least one line of `content`.
pub open spec fn text_has_term(content: Seq<char>, term: Seq<char>) -> bool {
    exists|a: int, b: int|
        #[trigger] line_span(content, a, b) && contains_seq(line_text(content, a, b), term)
}

/// Strict order on single characters, by code point.
pub open spec fn char_lt(a: char, b: char) -> bool {
    (a as int) < (b as int)
}

/// Strict lexicographic order on character sequences.
pub open spec fn lex_lt(a: Seq<char>, b: Seq<char>) -> bool
    decreases a.len(),
{
    if b.len() == 0 {
        false
    } else if a.len() == 0 {
        true
    } else if a[0] == b[0] {
        lex_lt(a.drop_first(), b.drop_first())
    } else {
        char_lt(a[0], b[0])
    }
}

/// Reflexive lexicographic order.
pub open spec fn lex_le(a: Seq<char>, b: Seq<char>) -> bool {
    !lex_lt(b, a)
}

proof fn lemma_lex_lt_skip(a: Seq<char>, b: Seq<char>, i: int)
    requires
        0 <= i <= a.len(),
        i <= b.len(),
        forall|k: int| 0 <= k < i ==> a[k] == b[k],
    ensures
        lex_lt(a, b) == lex_lt(a.skip(i), b.skip(i)),
    decreases i,
{
    if i > 0 {
        lemma_lex_lt_skip(a.drop_first(), b.drop_first(), i - 1);
        assert(a.drop_first().skip(i - 1) =~= a.skip(i));
        assert(b.drop_first().skip(i - 1) =~= b.skip(i));
    } else {
        assert(a.skip(0) =~= a);
        assert(b.skip(0) =~= b);
    }
}

/// No sequence is lexicographically below itself.
pub proof fn lemma_lex_lt_irreflexive(a: Seq<char>)
    ensures
        !lex_lt(a, a),
    decreases a.len(),
{
    if a.len() > 0 {
        lemma_lex_lt_irreflexive(a.drop_first());
    }
}

/// Any two sequences are lexicographically comparable.
pub proof fn lemma_lex_lt_trichotomy(a: Seq<char>, b: Seq<char>)
    ensures
        lex_lt(a, b) || a == b || lex_lt(b, a),
    decreases a.len(),
{
    if b.len() == 0 {
        if a.len() == 0 {
            assert(a =~= b);
        } else {
            assert(lex_lt(b, a));
        }
    } else if a.len() == 0 {
        assert(lex_lt(a, b));
    } else if a[0] == b[0] {
        lemma_lex_lt_trichotomy(a.drop_first(), b.drop_first());
        if a.drop_first() == b.drop_first() {
            assert(a =~= seq![a[0]] + a.drop_first());
            assert(b =~= seq![b[0]] + b.drop_first());
        } else if lex_lt(a.drop_first(), b.drop_first()) {
            assert(lex_lt(a, b));
        } else {
            assert(lex_lt(b, a));
        }
    } else {
        assert((a[0] as int) != (b[0] as int));
        if (a[0] as int) < (b[0] as int) {
            assert(lex_lt(a, b));
        } else {
            assert(lex_lt(b, a));
        }
    }
}

/// Lexicographic order is transitive.
pub proof fn lemma_lex_lt_transitive(a: Seq<char>, b: Seq<char>, c: Seq<char>)
    requires
        lex_lt(a, b),
        lex_lt(b, c),
    ensures
        lex_lt(a, c),
    decreases a.len(),
{
    if a.len() > 0 && a[0] == b[0] && b[0] == c[0] {
        lemma_lex_lt_transitive(a.drop_first(), b.drop_first(), c.drop_first());
    }
}

/// Strict lexicographic comparison, executably.
pub fn lex_lt_exec(a: &Vec<char>, b: &Vec<char>) -> (r: bool)
    ensures
        r == lex_lt(a@, b@),
{
    let mut i: usize = 0;
    while i < a.len() && i < b.len() && a[i] == b[i]
        invariant
            i <= a@.len(),
            i <= b@.len(),
            forall|k: int| 0 <= k < i ==> a@[k] == b@[k],
        decreases a@.len() - i,
    {
        i = i + 1;
    }
    proof {
        lemma_lex_lt_skip(a@, b@, i as int);
    }
    if i == a.len() {
        assert(a@.skip(i as int).len() == 0);
        i < b.len()
    } else if i == b.len() {
        assert(b@.skip(i as int).len() == 0);
        false
    } else {
        assert(a@.skip(i as int)[0] == a@[i as int]);
        assert(b@.skip(i as int)[0] == b@[i as int]);
        a[i] < b[i]
    }
}

} // verus!
