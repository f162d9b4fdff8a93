//! The grammar of chat commands typed after the command prefix:
//! an identifier followed by arguments, each either a run of characters that are
//! neither white space nor `"`, or a double-quoted string with backslash escapes.
use vstd::prelude::*;
use crate::text::{is_ws, is_whitespace, chars_of, string_of};

verus! {

/// First character of a command name: an ASCII letter or `_`.
pub open spec fn is_ident_start(c: char) -> bool {
    ('a' <= c && c <= 'z') || ('A' <= c && c <= 'Z') || c == '_'
}

/// Later characters of a command name: ASCII letters, digits or `_`.
pub open spec fn is_ident_continue(c: char) -> bool {
    is_ident_start(c) || ('0' <= c && c <= '9')
}

/// End of the longest run of name characters starting at `i`.
pub open spec fn ident_end(s: Seq<char>, i: int) -> int
    decreases s.len() - i,
{
    if 0 <= i < s.len() && is_ident_continue(s[i]) {
        ident_end(s, i + 1)
    } else {
        i
    }
}

/// Length of the command name at the start of `s` (0 when there is none).
pub open spec fn ident_len(s: Seq<char>) -> int {
    if s.len() > 0 && is_ident_start(s[0]) {
        ident_end(s, 1)
    } else {
        0
    }
}

/// End of the run of white space starting at `i`.
pub open spec fn skip_ws(s: Seq<char>, i: int) -> int
    decreases s.len() - i,
{
    if 0 <= i < s.len() && is_ws(s[i]) {
        skip_ws(s, i + 1)
    } else {
        i
    }
}

/// End of the longest run, starting at `i`, of characters that are neither
/// white space nor `"`.
pub open spec fn unquoted_end(s: Seq<char>, i: int) -> int
    decreases s.len() - i,
{
    if 0 <= i < s.len() && !is_ws(s[i]) && s[i] != '"' {
        unquoted_end(s, i + 1)
    } else {
        i
    }
}

/// The character that `\` followed by `c` stands for inside quotes.
pub open spec fn escape_of(c: char) -> Option<char> {
    if c == '\\' {
        Some('\\')
    } else if c == '/' {
        Some('/')
    } else if c == '"' {
        Some('"')
    } else if c == 'b' {
        Some('\x08')
    } else if c == 'f' {
        Some('\x0C')
    } else if c == 'n' {
        Some('\n')
    } else if c == 'r' {
        Some('\r')
    } else if c == 't' {
        Some('\t')
    } else {
        None
    }
}

/// The rest of a quoted argument whose opening quote ends just before `i`:
/// the position after the closing quote and the unescaped contents, or `None`
/// when the quote is not closed or an escape is invalid.
pub open spec fn quoted_body(s: Seq<char>, i: int) -> Option<(int, Seq<char>)>
    decreases s.len() - i,
{
    if i < 0 || i >= s.len() {
        None
    } else if s[i] == '"' {
        Some((i + 1, Seq::<char>::empty()))
    } else if s[i] == '\\' {
        if i + 1 < s.len() && escape_of(s[i + 1]) is Some {
            match quoted_body(s, i + 2) {
                Some((e, body)) => Some((e, seq![escape_of(s[i + 1])->0] + body)),
                None => None,
            }
        } else {
            None
        }
    } else {
        match quoted_body(s, i + 1) {
            Some((e, body)) => Some((e, seq![s[i]] + body)),
            None => None,
        }
    }
}

/// One argument starting exactly at `i`: where it ends and its value.
pub open spec fn parse_arg(s: Seq<char>, i: int) -> Option<(int, Seq<char>)> {
    if 0 <= i < s.len() && s[i] == '"' {
        quoted_body(s, i + 1)
    } else if unquoted_end(s, i) > i {
        Some((unquoted_end(s, i), s.subrange(i, unquoted_end(s, i))))
    } else {
        None
    }
}

pub proof fn lemma_skip_ws_bounds(s: Seq<char>, i: int)
    requires
        0 <= i <= s.len(),
    ensures
        i <= skip_ws(s, i) <= s.len(),
        forall|k: int| i <= k < skip_ws(s, i) ==> is_ws(#[trigger] s[k]),
        skip_ws(s, i) < s.len() ==> !is_ws(s[skip_ws(s, i)]),
    decreases s.len() - i,
{
    if i < s.len() && is_ws(s[i]) {
        lemma_skip_ws_bounds(s, i + 1);
    }
}

pub proof fn lemma_unquoted_bounds(s: Seq<char>, i: int)
    requires
        0 <= i <= s.len(),
    ensures
        i <= unquoted_end(s, i) <= s.len(),
    decreases s.len() - i,
{
    if i < s.len() && !is_ws(s[i]) && s[i] != '"' {
        lemma_unquoted_bounds(s, i + 1);
    }
}

pub proof fn lemma_ident_bounds(s: Seq<char>, i: int)
    requires
        0 <= i <= s.len(),
    ensures
        i <= ident_end(s, i) <= s.len(),
    decreases s.len() - i,
{
    if i < s.len() && is_ident_continue(s[i]) {
        lemma_ident_bounds(s, i + 1);
    }
}

pub proof fn lemma_quoted_bounds(s: Seq<char>, i: int)
    requires
        0 <= i,
    ensures
        quoted_body(s, i) matches Some((e, _)) ==> i < e <= s.len(),
    decreases s.len() - i,
{
    if i < s.len() && s[i] != '"' {
        if s[i] == '\\' {
            if i + 1 < s.len() && escape_of(s[i + 1]) is Some {
                lemma_quoted_bounds(s, i + 2);
            }
        } else {
            lemma_quoted_bounds(s, i + 1);
        }
    }
}

pub proof fn lemma_arg_bounds(s: Seq<char>, i: int)
    requires
        0 <= i <= s.len(),
    ensures
        parse_arg(s, i) matches Some((e, _)) ==> i < e <= s.len(),
{
    lemma_unquoted_bounds(s, i);
    if i < s.len() && s[i] == '"' {
        lemma_quoted_bounds(s, i + 1);
    }
}

/// The arguments from position `p` to the end of the input: white space, an
/// argument and white space, repeatedly; then the input must end exactly at the
/// position reached after the last argument.
pub open spec fn parse_args(s: Seq<char>, p: int) -> Option<Seq<Seq<char>>>
    decreases s.len() - p,
{
    if p < 0 || p > s.len() {
        None
    } else {
        let q = skip_ws(s, p);
        match parse_arg(s, q) {
            Some((r, a)) => {
                let t = skip_ws(s, r);
                proof {
                    lemma_skip_ws_bounds(s, p);
                    lemma_arg_bounds(s, q);
                    lemma_skip_ws_bounds(s, r);
                }
                match parse_args(s, t) {
                    Some(rest) => Some(seq![a] + rest),
                    None => None,
                }
            },
            None => if p == s.len() {
                Some(Seq::<Seq<char>>::empty())
            } else {
                None
            },
        }
    }
}

/// A whole command line: its name and its arguments, or `None` when it does not
/// follow the grammar.
pub open spec fn parse_cmd_spec(s: Seq<char>) -> Option<(Seq<char>, Seq<Seq<char>>)> {
    let n = ident_len(s);
    if n == 0 {
        None
    } else {
        match parse_args(s, n) {
            Some(args) => Some((s.subrange(0, n), args)),
            None => None,
        }
    }
}

/// The position at which the argument loop started at `p` stops: the place
/// after the last argument that could be read.  The command is well formed
/// exactly when this is the end of the input.
pub open spec fn parse_stop(s: Seq<char>, p: int) -> int
    decreases s.len() - p,
{
    if p < 0 || p > s.len() {
        p
    } else {
        let q = skip_ws(s, p);
        match parse_arg(s, q) {
            Some((r, a)) => {
                let t = skip_ws(s, r);
                proof {
                    lemma_skip_ws_bounds(s, p);
                    lemma_arg_bounds(s, q);
                    lemma_skip_ws_bounds(s, r);
                }
                parse_stop(s, t)
            },
            None => p,
        }
    }
}

/// What could have followed where reading a malformed command stopped.
#[derive(Clone, Copy, Debug, PartialEq, Eq, Structural)]
pub enum Expected {
    /// Nothing in particular (the command name was missing).
    Nothing,
    /// An opening quote.
    Quote,
    /// A closing quote or a backslash.
    QuoteOrBackslash,
    /// One of the characters that may follow a backslash.
    Escape,
}

/// Where reading a quoted argument, whose opening quote ends just before `i`,
/// fails and what could have followed there; `None` when the quote is closed.
pub open spec fn quoted_failure(s: Seq<char>, i: int) -> Option<(int, Expected)>
    decreases s.len() - i,
{
    if i < 0 {
        None
    } else if i >= s.len() {
        Some((s.len() as int, Expected::QuoteOrBackslash))
    } else if s[i] == '"' {
        None
    } else if s[i] == '\\' {
        if i + 1 < s.len() && escape_of(s[i + 1]) is Some {
            quoted_failure(s, i + 2)
        } else {
            Some((i + 1, Expected::Escape))
        }
    } else {
        quoted_failure(s, i + 1)
    }
}

/// Where a malformed command is reported, and what could have followed there:
/// the furthest point that reading reached.  Without a name that is the start.
/// Otherwise it is where the argument after the last readable one fails: inside
/// an unclosed or badly escaped quoted argument, or, when only white space is
/// left, at the end of the input, where an opening quote could have followed.
pub open spec fn failure(s: Seq<char>) -> (int, Expected) {
    if ident_len(s) == 0 {
        (0, Expected::Nothing)
    } else {
        let q = skip_ws(s, parse_stop(s, ident_len(s)));
        if 0 <= q < s.len() && s[q] == '"' {
            match quoted_failure(s, q + 1) {
                Some(f) => f,
                None => (q, Expected::Quote),
            }
        } else {
            (q, Expected::Quote)
        }
    }
}

/// The characters that may follow a backslash in a quoted argument.
pub open spec fn escape_chars() -> Seq<char> {
    seq!['\\', '/', '"', 'b', 'f', 'n', 'r', 't']
}

/// The texts `debug_quoted(c)` of the characters `cs`, separated by `", "`.
pub open spec fn quoted_list(cs: Seq<char>) -> Seq<char>
    decreases cs.len(),
{
    if cs.len() == 0 {
        Seq::empty()
    } else if cs.len() == 1 {
        debug_quoted(cs[0])
    } else {
        quoted_list(cs.drop_last()) + ", "@ + debug_quoted(cs.last())
    }
}

/// What the error text says could have followed.
pub open spec fn expected_text(e: Expected) -> Seq<char> {
    match e {
        Expected::Nothing => Seq::empty(),
        Expected::Quote => " but expected "@ + debug_quoted('"'),
        Expected::QuoteOrBackslash => " but expected one of "@ + quoted_list(seq!['"', '\\']),
        Expected::Escape => " but expected one of "@ + quoted_list(escape_chars()),
    }
}

/// The error text for a malformed command: the character found where it is
/// reported (as `Debug` prints it in a string) or the end of the input, then
/// what could have followed.
pub open spec fn failure_text(s: Seq<char>) -> Seq<char> {
    let (p, e) = failure(s);
    (if 0 <= p < s.len() {
        "found "@ + debug_quoted(s[p])
    } else {
        "found end of input"@
    }) + expected_text(e)
}

/// What `format!("{:?}", c.to_string())` gives for the character `c`.
pub uninterp spec fn debug_quoted(c: char) -> Seq<char>;

/// `Debug` of the one-character string `c` (std): `c` between double quotes,
/// escaped as `char::escape_debug` documents it.  A printable ASCII character
/// other than `"` and `\` stands for itself; `"` and `\` get a backslash.
/// Other characters (controls, non-printable or combining ones) are left to
/// std.
#[verifier::external_body]
fn debug_quoted_exec(c: char) -> (r: String)
    ensures
        r@ == debug_quoted(c),
        (' ' <= c && c <= '~' && c != '"' && c != '\\') ==> r@ == seq!['"', c, '"'],
        c == '"' ==> r@ == seq!['"', '\\', '"', '"'],
        c == '\\' ==> r@ == seq!['"', '\\', '\\', '"'],
{
    format!("{:?}", c.to_string())
}

fn is_ident_start_exec(c: char) -> (r: bool)
    ensures
        r == is_ident_start(c),
{
    ('a' <= c && c <= 'z') || ('A' <= c && c <= 'Z') || c == '_'
}

fn is_ident_continue_exec(c: char) -> (r: bool)
    ensures
        r == is_ident_continue(c),
{
    is_ident_start_exec(c) || ('0' <= c && c <= '9')
}

fn escape_exec(c: char) -> (r: Option<char>)
    ensures
        r == escape_of(c),
{
    if c == '\\' {
        Some('\\')
    } else if c == '/' {
        Some('/')
    } else if c == '"' {
        Some('"')
    } else if c == 'b' {
        Some('\x08')
    } else if c == 'f' {
        Some('\x0C')
    } else if c == 'n' {
        Some('\n')
    } else if c == 'r' {
        Some('\r')
    } else if c == 't' {
        Some('\t')
    } else {
        None
    }
}

fn ident_len_exec(s: &Vec<char>) -> (r: usize)
    ensures
        r == ident_len(s@),
        r <= s.len(),
{
    if s.len() == 0 || !is_ident_start_exec(s[0]) {
        return 0;
    }
    let mut k: usize = 1;
    while k < s.len() && is_ident_continue_exec(s[k])
        invariant
            1 <= k <= s.len(),
            ident_end(s@, k as int) == ident_end(s@, 1),
        decreases s.len() - k,
    {
        k = k + 1;
    }
    k
}

fn skip_ws_exec(s: &Vec<char>, i: usize) -> (r: usize)
    requires
        i <= s.len(),
    ensures
        r == skip_ws(s@, i as int),
        i <= r <= s.len(),
{
    let mut k = i;
    while k < s.len() && is_whitespace(s[k])
        invariant
            i <= k <= s.len(),
            skip_ws(s@, k as int) == skip_ws(s@, i as int),
        decreases s.len() - k,
    {
        k = k + 1;
    }
    k
}

fn quoted_body_exec(s: &Vec<char>, i: usize) -> (r: Option<(usize, Vec<char>)>)
    requires
        i <= s.len(),
    ensures
        match r {
            Some((e, b)) => quoted_body(s@, i as int) == Some((e as int, b@)),
            None => quoted_body(s@, i as int) is None,
        },
{
    let mut body: Vec<char> = Vec::new();
    let mut k = i;
    loop
        invariant
            i <= k <= s.len(),
            quoted_body(s@, i as int) == (match quoted_body(s@, k as int) {
                Some((e, b)) => Some((e, body@ + b)),
                None => None,
            }),
        decreases s.len() - k,
    {
        if k >= s.len() {
            return None;
        }
        let c = s[k];
        if c == '"' {
            assert(body@ + Seq::<char>::empty() =~= body@);
            return Some((k + 1, body));
        } else if c == '\\' {
            if k + 1 < s.len() {
                match escape_exec(s[k + 1]) {
                    Some(e) => {
                        let ghost old_body = body@;
                        body.push(e);
                        k = k + 2;
                        assert forall|b: Seq<char>| old_body + (seq![e] + b) =~= body@ + b by {}
                    },
                    None => {
                        return None;
                    },
                }
            } else {
                return None;
            }
        } else {
            let ghost old_body = body@;
            body.push(c);
            k = k + 1;
            assert forall|b: Seq<char>| old_body + (seq![c] + b) =~= body@ + b by {}
        }
    }
}

fn parse_arg_exec(s: &Vec<char>, i: usize) -> (r: Option<(usize, Vec<char>)>)
    requires
        i <= s.len(),
    ensures
        match r {
            Some((e, a)) => parse_arg(s@, i as int) == Some((e as int, a@)),
            None => parse_arg(s@, i as int) is None,
        },
{
    if i < s.len() && s[i] == '"' {
        return quoted_body_exec(s, i + 1);
    }
    let mut k = i;
    let mut a: Vec<char> = Vec::new();
    while k < s.len() && !is_whitespace(s[k]) && s[k] != '"'
        invariant
            i <= k <= s.len(),
            unquoted_end(s@, k as int) == unquoted_end(s@, i as int),
            a@ == s@.subrange(i as int, k as int),
        decreases s.len() - k,
    {
        a.push(s[k]);
        k = k + 1;
        assert(a@ =~= s@.subrange(i as int, k as int));
    }
    if k > i {
        Some((k, a))
    } else {
        None
    }
}

fn push_all(v: &mut Vec<char>, s: &str)
    ensures
        final(v)@ == old(v)@ + s@,
{
    let mut w = chars_of(s);
    v.append(&mut w);
}

fn quoted_list_exec(cs: &Vec<char>) -> (r: Vec<char>)
    ensures
        r@ == quoted_list(cs@),
{
    let mut r: Vec<char> = Vec::new();
    let mut i: usize = 0;
    while i < cs.len()
        invariant
            i <= cs.len(),
            r@ == quoted_list(cs@.subrange(0, i as int)),
        decreases cs.len() - i,
    {
        proof {
            assert(cs@.subrange(0, i + 1).drop_last() =~= cs@.subrange(0, i as int));
        }
        if i > 0 {
            push_all(&mut r, ", ");
            proof {
                reveal_strlit(", ");
            }
        }
        let d = debug_quoted_exec(cs[i]);
        push_all(&mut r, d.as_str());
        i = i + 1;
    }
    assert(cs@.subrange(0, cs.len() as int) =~= cs@);
    r
}

fn quoted_failure_exec(s: &Vec<char>, i: usize) -> (r: Option<(usize, Expected)>)
    requires
        i <= s.len(),
    ensures
        match r {
            Some((p, e)) => quoted_failure(s@, i as int) == Some((p as int, e)),
            None => quoted_failure(s@, i as int) is None,
        },
{
    let mut k = i;
    loop
        invariant
            i <= k <= s.len(),
            quoted_failure(s@, i as int) == quoted_failure(s@, k as int),
        decreases s.len() - k,
    {
        if k >= s.len() {
            return Some((s.len(), Expected::QuoteOrBackslash));
        }
        let c = s[k];
        if c == '"' {
            return None;
        } else if c == '\\' {
            if k + 1 < s.len() && escape_exec(s[k + 1]).is_some() {
                k = k + 2;
            } else {
                return Some((k + 1, Expected::Escape));
            }
        } else {
            k = k + 1;
        }
    }
}

fn failure_text_exec(s: &Vec<char>, p: usize, e: Expected) -> (r: String)
    ensures
        r@ == (if p < s.len() {
            "found "@ + debug_quoted(s@[p as int])
        } else {
            "found end of input"@
        }) + expected_text(e),
{
    let mut t: Vec<char> = Vec::new();
    if p < s.len() {
        push_all(&mut t, "found ");
        let d = debug_quoted_exec(s[p]);
        push_all(&mut t, d.as_str());
    } else {
        push_all(&mut t, "found end of input");
    }
    let ghost head = t@;
    match e {
        Expected::Nothing => {},
        Expected::Quote => {
            push_all(&mut t, " but expected ");
            let d = debug_quoted_exec('"');
            push_all(&mut t, d.as_str());
        },
        Expected::QuoteOrBackslash => {
            push_all(&mut t, " but expected one of ");
            let cs = vec!['"', '\\'];
            let l = quoted_list_exec(&cs);
            push_all(&mut t, string_of(l.as_slice()).as_str());
        },
        Expected::Escape => {
            push_all(&mut t, " but expected one of ");
            let cs = vec!['\\', '/', '"', 'b', 'f', 'n', 'r', 't'];
            assert(cs@ =~= escape_chars());
            let l = quoted_list_exec(&cs);
            push_all(&mut t, string_of(l.as_slice()).as_str());
        },
    }
    let r = string_of(t.as_slice());
    assert(r@ =~= (if p < s.len() {
        "found "@ + debug_quoted(s@[p as int])
    } else {
        "found end of input"@
    }) + expected_text(e));
    r
}

/// Splits a chat command (the text after the command prefix) into its name and
/// arguments.  Quoted arguments may hold white space and the escapes `\\`, `\/`,
/// `\"`, `\b`, `\f`, `\n`, `\r`, `\t`.  A malformed command gives an error text
/// naming the character found where reading got furthest and what could have
/// followed there.
pub fn parse_cmd(msg: &str) -> (r: Result<(String, Vec<String>), String>)
    ensures
        match r {
            Ok((name, args)) => {
                &&& parse_cmd_spec(msg@) matches Some((n, a))
                &&& name@ == n
                &&& args.len() == a.len()
                &&& forall|i: int| 0 <= i < args.len() ==> #[trigger] args[i]@ == a[i]
            },
            Err(e) => parse_cmd_spec(msg@) is None && e@ == failure_text(msg@),
        },
{
    let s = chars_of(msg);
    let n = ident_len_exec(&s);
    if n == 0 {
        assert(failure(s@) == (0int, Expected::Nothing));
        return Err(failure_text_exec(&s, 0, Expected::Nothing));
    }
    let mut args: Vec<String> = Vec::new();
    let ghost mut arg_seqs: Seq<Seq<char>> = Seq::empty();
    let mut p = n;
    loop
        invariant
            0 < n <= p <= s.len(),
            n == ident_len(s@),
            s@ == msg@,
            args.len() == arg_seqs.len(),
            forall|i: int| 0 <= i < args.len() ==> #[trigger] args[i]@ == arg_seqs[i],
            parse_args(s@, n as int) == (match parse_args(s@, p as int) {
                Some(rest) => Some(arg_seqs + rest),
                None => None,
            }),
            parse_stop(s@, n as int) == parse_stop(s@, p as int),
        decreases s.len() - p,
    {
        let q = skip_ws_exec(&s, p);
        match parse_arg_exec(&s, q) {
            Some((r, a)) => {
                proof {
                    lemma_arg_bounds(s@, q as int);
                }
                let t = skip_ws_exec(&s, r);
                let ghost old_seqs = arg_seqs;
                proof {
                    arg_seqs = arg_seqs.push(a@);
                    assert forall|rest: Seq<Seq<char>>|
                        old_seqs + (seq![a@] + rest) =~= arg_seqs + rest by {}
                }
                args.push(string_of(a.as_slice()));
                p = t;
            },
            None => {
                assert(parse_arg(s@, skip_ws(s@, p as int)) is None);
                assert(parse_stop(s@, p as int) == p);
                if p == s.len() {
                    assert(parse_args(s@, p as int) == Some(Seq::<Seq<char>>::empty()));
                    assert(arg_seqs + Seq::<Seq<char>>::empty() =~= arg_seqs);
                    let name = string_of(&s.as_slice()[0..n]);
                    assert(name@ == s@.subrange(0, n as int));
                    assert(parse_cmd_spec(msg@) == Some((s@.subrange(0, n as int), arg_seqs)));
                    return Ok((name, args));
                } else {
                    assert(parse_args(s@, p as int) is None);
                    let q = skip_ws_exec(&s, p);
                    let (f, e) = if q < s.len() && s[q] == '"' {
                        match quoted_failure_exec(&s, q + 1) {
                            Some(fe) => fe,
                            None => (q, Expected::Quote),
                        }
                    } else {
                        (q, Expected::Quote)
                    };
                    assert(failure(s@) == (f as int, e));
                    return Err(failure_text_exec(&s, f, e));
                }
            },
        }
    }
}

} // verus!
