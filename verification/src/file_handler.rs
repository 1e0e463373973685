//! Searching file content: line-oriented substring search.
//!
//! Reading a file's bytes into text is left to the caller; only the search
//! over the obtained text lives here.

use vstd::prelude::*;

use crate::text::{chars_of, contains_exec, contains_seq, copy_range, line_span, line_text,
    matches_at, text_has_term};

verus! {

/// Whether `term` occurs inside any single line of `content`.
///
/// Lines are separated by `'\n'`; a carriage return directly before a
/// separator is not part of the line.  The match is a plain case-sensitive
/// substring match with no word-boundary requirement.
pub fn string_exists_in_multiline_text(term: &str, content: &str) -> (r: bool)
    ensures
        r == text_has_term(content@, term@),
{
    let termv = chars_of(term);
    let text = chars_of(content);
    let n = text.len();
    if n == 0 {
        return false;
    }
    let mut pos: usize = 0;
    while pos < n
        invariant
            text@ == content@,
            termv@ == term@,
            n == text.len(),
            n == text@.len(),
            0 < n,
            pos <= n,
            pos == 0 || text@[pos - 1] == '\n',
            forall|a: int, b: int|
                #[trigger] line_span(text@, a, b) && b < pos ==> !contains_seq(
                    line_text(text@, a, b),
                    termv@,
                ),
        decreases n - pos,
    {
        let mut e: usize = pos;
        while e < n && text[e] != '\n'
            invariant
                pos <= e <= n,
                n == text.len(),
                n == text@.len(),
                forall|j: int| pos <= j < e ==> text@[j] != '\n',
            decreases n - e,
        {
            e = e + 1;
        }
        let le: usize = if e < n && e > pos && text[e - 1] == '\r' {
            e - 1
        } else {
            e
        };
        let line = copy_range(&text, pos, le);
        proof {
            assert(line_span(text@, pos as int, e as int));
            assert(line@ == line_text(text@, pos as int, e as int));
        }
        if contains_exec(&line, &termv) {
            return true;
        }
        proof {
            assert forall|a: int, b: int|
                #[trigger] line_span(text@, a, b) && b < e + 1 implies !contains_seq(
                line_text(text@, a, b),
                termv@,
            ) by {
                if b >= pos {
                    if b < e {
                        assert(text@[b] == '\n');
                        assert(false);
                    }
                    if a < pos {
                        assert(text@[pos - 1] == '\n');
                        assert(a <= pos - 1 < b);
                        assert(false);
                    }
                    if a > pos {
                        assert(text@[a - 1] == '\n');
                        assert(pos <= a - 1 < e);
                        assert(false);
                    }
                    assert(a == pos && b == e);
                }
            }
        }
        if e == n {
            // This line ran to the end of the text, so every line of the
            // text has now been searched.
            return false;
        }
        pos = e + 1;
    }
    if pos == n {
        // The text ends with a newline, so the only line not yet examined
        // is the empty one after it; it holds `term` exactly when `term`
        // is empty.
        if termv.len() == 0 {
            proof {
                assert(line_span(text@, n as int, n as int));
                assert(line_text(text@, n as int, n as int) =~= Seq::<char>::empty());
                assert(matches_at(line_text(text@, n as int, n as int), termv@, 0)) by {
                    assert(line_text(text@, n as int, n as int).subrange(0, 0) =~= termv@);
                }
            }
            return true;
        }
        proof {
            assert forall|a: int, b: int|
                #[trigger] line_span(text@, a, b) implies !contains_seq(
                line_text(text@, a, b),
                termv@,
            ) by {
                if b >= pos {
                    assert(b == n);
                    if a < n {
                        assert(text@[n - 1] == '\n');
                        assert(a <= n - 1 < b);
                        assert(false);
                    }
                    assert(line_text(text@, a, b).len() == 0);
                }
            }
        }
        return false;
    }
    false
}

} // verus!
