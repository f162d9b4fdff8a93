//! Replacing the word under the cursor of the chat input by a completion.
use vstd::prelude::*;
use crate::text::{is_ws, is_whitespace, chars_of, string_of};

verus! {

/// A separator between words of the chat input: white space other than a tab,
/// outside double quotes.
pub open spec fn is_separator(c: char) -> bool {
    is_ws(c) && c != '\t'
}

/// Scans `s` from character `k`: `in_quote` tells whether an odd number of `"`
/// came before, `pre` is the last separator before `cursor` seen so far.  Gives
/// the last separator before the cursor and the first one at or after it.
pub open spec fn scan_separators(s: Seq<char>, cursor: int, k: int, in_quote: bool, pre: Option<int>)
    -> (Option<int>, Option<int>)
    decreases s.len() - k,
{
    if k < 0 || k >= s.len() {
        (pre, None)
    } else if s[k] == '"' {
        scan_separators(s, cursor, k + 1, !in_quote, pre)
    } else if !in_quote && is_separator(s[k]) {
        if k < cursor {
            scan_separators(s, cursor, k + 1, in_quote, Some(k))
        } else {
            (pre, Some(k))
        }
    } else {
        scan_separators(s, cursor, k + 1, in_quote, pre)
    }
}

/// The input with the word around `cursor` replaced by `word`, and the character
/// position just after the inserted word.
pub open spec fn tab_completion(cursor: int, s: Seq<char>, word: Seq<char>) -> (Seq<char>, int) {
    match scan_separators(s, cursor, 0, false, None) {
        (None, None) => (word, word.len() as int),
        (None, Some(j)) => (word + s.subrange(j, s.len() as int), word.len() as int),
        (Some(i), None) => (s.subrange(0, i) + seq![' '] + word, i + 1 + word.len()),
        (Some(i), Some(j)) => (
            s.subrange(0, i) + seq![' '] + word + s.subrange(j, s.len() as int),
            i + 1 + word.len(),
        ),
    }
}

/// Replaces the word of `input` that holds character position `cursor` by
/// `word`; words are split at white space other than tabs that is not inside
/// double quotes.  Returns the new input and the character position after the
/// inserted word.
pub fn do_tab_completion(cursor: usize, input: &str, word: &str) -> (r: (String, usize))
    requires
        input@.len() + 1 + word@.len() <= usize::MAX,
    ensures
        tab_completion(cursor as int, input@, word@) == (r.0@, r.1 as int),
{
    let s = chars_of(input);
    let w = chars_of(word);
    let mut pre: Option<usize> = None;
    let mut post: Option<usize> = None;
    let mut in_quote = false;
    let mut k: usize = 0;
    while k < s.len() && post.is_none()
        invariant
            k <= s.len(),
            s@ == input@,
            pre matches Some(i) ==> i < k && i < cursor,
            post matches Some(j) ==> j < s.len() && (pre matches Some(i) ==> i < j),
            scan_separators(s@, cursor as int, 0, false, None) == (match post {
                None => scan_separators(
                    s@,
                    cursor as int,
                    k as int,
                    in_quote,
                    match pre {
                        Some(i) => Some(i as int),
                        None => None,
                    },
                ),
                Some(j) => (
                    match pre {
                        Some(i) => Some(i as int),
                        None => None,
                    },
                    Some(j as int),
                ),
            }),
        decreases s.len() - k,
    {
        let c = s[k];
        if c == '"' {
            in_quote = !in_quote;
        } else if !in_quote && is_whitespace(c) && c != '\t' {
            if k < cursor {
                pre = Some(k);
            } else {
                post = Some(k);
            }
        }
        k = k + 1;
    }
    let ghost pre_i: Option<int> = match pre {
        Some(i) => Some(i as int),
        None => None,
    };
    let ghost post_i: Option<int> = match post {
        Some(j) => Some(j as int),
        None => None,
    };
    assert(scan_separators(s@, cursor as int, 0, false, None) == (pre_i, post_i));
    let mut out: Vec<char> = Vec::new();
    let offset: usize;
    match pre {
        Some(i) => {
            let mut m: usize = 0;
            while m < i
                invariant
                    i < s.len(),
                    m <= i,
                    out@ == s@.subrange(0, m as int),
                decreases i - m,
            {
                out.push(s[m]);
                m = m + 1;
                assert(out@ =~= s@.subrange(0, m as int));
            }
            out.push(' ');
            offset = i + 1 + w.len();
        },
        None => {
            offset = w.len();
        },
    }
    let ghost before_word = out@;
    let mut m: usize = 0;
    while m < w.len()
        invariant
            m <= w.len(),
            out@ == before_word + w@.subrange(0, m as int),
        decreases w.len() - m,
    {
        out.push(w[m]);
        m = m + 1;
        assert(out@ =~= before_word + w@.subrange(0, m as int));
    }
    assert(w@.subrange(0, w.len() as int) =~= w@);
    let ghost before_tail = out@;
    match post {
        Some(j) => {
            let mut m: usize = j;
            while m < s.len()
                invariant
                    j <= m <= s.len(),
                    out@ == before_tail + s@.subrange(j as int, m as int),
                decreases s.len() - m,
            {
                out.push(s[m]);
                m = m + 1;
                assert(out@ =~= before_tail + s@.subrange(j as int, m as int));
            }
        },
        None => {
            assert(out@ =~= before_tail + Seq::<char>::empty());
        },
    }
    let result = string_of(out.as_slice());
    proof {
        match pre {
            Some(i) => {
                assert(before_word =~= s@.subrange(0, i as int) + seq![' ']);
            },
            None => {
                assert(before_word =~= Seq::<char>::empty());
            },
        }
        match post {
            Some(j) => {},
            None => {},
        }
    }
    (result, offset)
}

} // verus!
