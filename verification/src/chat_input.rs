//! The chat input box: browsing the history of sent lines, cycling through tab
//! completions, switching the chat mode by command, and sending a line.
use vstd::prelude::*;
use vstd::utf8::encode_utf8;
use vstd::string::StringSliceAdditionalSpecFns;
use std::collections::VecDeque;
use crate::text::{is_ws, is_whitespace, chars_of, string_of, sub_chars, eq_str};
use crate::chat::{ChatMsg, ChatType, kept_messages};
use crate::chat_command::{parse_cmd, parse_cmd_spec, failure_text};
use crate::tab_completion::{do_tab_completion, tab_completion};

verus! {

/// A key pressed in the chat input, as far as the input box cares.
#[derive(Clone, Copy, Debug, PartialEq, Eq, Structural)]
pub enum ChatKey {
    Up,
    Down,
    Tab,
    Other,
}

/// Steps through the history, steps through completions, and whether another
/// key stopped completion, after the keys `keys`: Up goes back in history and
/// to the previous completion, Down the other way, Tab to the next completion.
pub open spec fn key_fold(keys: Seq<ChatKey>) -> (int, int, bool)
    decreases keys.len(),
{
    if keys.len() == 0 {
        (0, 0, false)
    } else {
        let (n, m, stop) = key_fold(keys.drop_last());
        match keys.last() {
            ChatKey::Up => (n + 1, m - 1, stop),
            ChatKey::Down => (n - 1, m + 1, stop),
            ChatKey::Tab => (n, m + 1, stop),
            ChatKey::Other => (n, m, true),
        }
    }
}

proof fn lemma_key_fold_bounds(keys: Seq<ChatKey>)
    ensures
        -keys.len() <= key_fold(keys).0 <= keys.len(),
        -keys.len() <= key_fold(keys).1 <= keys.len(),
    decreases keys.len(),
{
    if keys.len() > 0 {
        lemma_key_fold_bounds(keys.drop_last());
    }
}

/// The history direction, completion direction and stop flag for the keys
/// pressed in a frame.
pub fn key_directions(keys: &[ChatKey]) -> (r: (isize, isize, bool))
    requires
        keys@.len() <= isize::MAX,
    ensures
        (r.0 as int, r.1 as int, r.2) == key_fold(keys@),
{
    let mut n: isize = 0;
    let mut m: isize = 0;
    let mut stop = false;
    let mut i: usize = 0;
    while i < keys.len()
        invariant
            i <= keys.len(),
            keys@.len() <= isize::MAX,
            (n as int, m as int, stop) == key_fold(keys@.subrange(0, i as int)),
        decreases keys.len() - i,
    {
        proof {
            lemma_key_fold_bounds(keys@.subrange(0, i as int));
            assert(keys@.subrange(0, i + 1).drop_last() =~= keys@.subrange(0, i as int));
        }
        match keys[i] {
            ChatKey::Up => {
                n = n + 1;
                m = m - 1;
            },
            ChatKey::Down => {
                n = n - 1;
                m = m + 1;
            },
            ChatKey::Tab => {
                m = m + 1;
            },
            ChatKey::Other => {
                stop = true;
            },
        }
        i = i + 1;
    }
    assert(keys@.subrange(0, keys.len() as int) =~= keys@);
    (n, m, stop)
}

/// Number of bytes of the UTF-8 encoding of `c`.
pub open spec fn utf8_width(c: char) -> int {
    let u = c as u32;
    if u < 0x80 {
        1
    } else if u < 0x800 {
        2
    } else if u < 0x10000 {
        3
    } else {
        4
    }
}

proof fn lemma_encode_concat(a: Seq<char>, b: Seq<char>)
    ensures
        encode_utf8(a + b) == encode_utf8(a) + encode_utf8(b),
    decreases a.len(),
{
    if a.len() == 0 {
        assert(a + b =~= b);
        assert(encode_utf8(a) =~= Seq::<u8>::empty());
        assert(encode_utf8(a) + encode_utf8(b) =~= encode_utf8(b));
    } else {
        assert((a + b).drop_first() =~= a.drop_first() + b);
        assert((a + b)[0] == a[0]);
        lemma_encode_concat(a.drop_first(), b);
        assert(encode_utf8(a + b) =~= encode_utf8(a) + encode_utf8(b));
    }
}

proof fn lemma_encode_push(a: Seq<char>, c: char)
    ensures
        encode_utf8(a.push(c)).len() == encode_utf8(a).len() + utf8_width(c),
{
    lemma_encode_concat(a, seq![c]);
    assert(a.push(c) =~= a + seq![c]);
    assert(seq![c].drop_first() =~= Seq::<char>::empty());
    vstd::utf8::char_is_scalar(c);
    let u = c as u32;
    assert(encode_utf8(Seq::<char>::empty()) =~= Seq::<u8>::empty());
    assert(encode_utf8(seq![c]) =~= vstd::utf8::encode_scalar(u));
}

proof fn lemma_encode_prefix_mono(s: Seq<char>, i: int, j: int)
    requires
        0 <= i <= j <= s.len(),
    ensures
        encode_utf8(s.subrange(0, i)).len() <= encode_utf8(s.subrange(0, j)).len(),
{
    lemma_encode_concat(s.subrange(0, i), s.subrange(i, j));
    assert(s.subrange(0, i) + s.subrange(i, j) =~= s.subrange(0, j));
}

fn utf8_width_exec(c: char) -> (r: usize)
    ensures
        r == utf8_width(c),
{
    let u = c as u32;
    if u < 0x80 {
        1
    } else if u < 0x800 {
        2
    } else if u < 0x10000 {
        3
    } else {
        4
    }
}

/// Byte length of the UTF-8 encoding of the first `k` characters of `s`.
fn byte_len_prefix(s: &Vec<char>, k: usize) -> (r: usize)
    requires
        k <= s.len(),
        encode_utf8(s@).len() <= usize::MAX,
    ensures
        r == encode_utf8(s@.subrange(0, k as int)).len(),
{
    let mut total: usize = 0;
    let mut i: usize = 0;
    assert(encode_utf8(s@.subrange(0, 0)) =~= Seq::<u8>::empty());
    while i < k
        invariant
            i <= k <= s.len(),
            encode_utf8(s@).len() <= usize::MAX,
            total == encode_utf8(s@.subrange(0, i as int)).len(),
        decreases k - i,
    {
        proof {
            lemma_encode_push(s@.subrange(0, i as int), s@[i as int]);
            assert(s@.subrange(0, i as int).push(s@[i as int]) =~= s@.subrange(0, i + 1));
            lemma_encode_prefix_mono(s@, i + 1, s.len() as int);
            assert(s@.subrange(0, s.len() as int) =~= s@);
        }
        total = total + utf8_width_exec(s[i]);
        i = i + 1;
    }
    total
}

/// `s` without its tab characters.
pub open spec fn without_tabs(s: Seq<char>) -> Seq<char>
    decreases s.len(),
{
    if s.len() == 0 {
        s
    } else if s.last() == '\t' {
        without_tabs(s.drop_last())
    } else {
        without_tabs(s.drop_last()).push(s.last())
    }
}

/// `s` without its line breaks (`\n`).
pub open spec fn without_newlines(s: Seq<char>) -> Seq<char>
    decreases s.len(),
{
    if s.len() == 0 {
        s
    } else if s.last() == '\n' {
        without_newlines(s.drop_last())
    } else {
        without_newlines(s.drop_last()).push(s.last())
    }
}

proof fn lemma_without_tabs_len(s: Seq<char>)
    ensures
        without_tabs(s).len() <= s.len(),
    decreases s.len(),
{
    if s.len() > 0 {
        lemma_without_tabs_len(s.drop_last());
    }
}

/// The position of the first tab of `s`, if any.
pub open spec fn first_tab(s: Seq<char>) -> Option<int> {
    if exists|k: int| 0 <= k < s.len() && s[k] == '\t' {
        Some(choose|k: int| 0 <= k < s.len() && s[k] == '\t' && forall|j: int| 0 <= j < k ==> s[j] != '\t')
    } else {
        None
    }
}

/// The state of the chat input box.
pub struct ChatInput {
    /// The line being edited.
    pub message: String,
    /// Lines sent, the most recent first.
    pub history: VecDeque<String>,
    /// 0 when not browsing the history, else one more than the index in
    /// `history` of the line shown.
    pub history_pos: usize,
    /// Candidates for the word being completed.
    pub completions: Vec<String>,
    /// Index in `completions` of the candidate shown.
    pub completions_index: Option<usize>,
    /// Byte position of the tab that started completion.
    pub completion_cursor: Option<usize>,
}

/// What the tab-completion step of a frame asks of the box.
pub struct TabStep {
    /// Completion just started: the candidates for the current input are wanted.
    pub request_completions: bool,
    /// Character position the text cursor is to be moved to.
    pub cursor_offset: Option<usize>,
}

/// A line sent from the input box.
#[derive(Debug)]
pub enum SentLine {
    /// A command (the line started with the command prefix) and its arguments.
    Command(String, Vec<String>),
    /// A line that started with the command prefix but is not a well-formed
    /// command: the error to show in the chat.
    CommandError(ChatMsg),
    /// A plain chat message.
    Message(String),
}

/// What the chat box asks of the game in a frame.
#[derive(Debug)]
pub enum ChatEvent {
    /// Completion started: candidates for this input are wanted.
    TabCompletionStart(String),
    /// The focus is to go to the input box.
    Focus,
    /// Enter was pressed: the chat is no longer forced open.
    DisableForceChat,
    /// A command and its arguments are to be sent.
    SendCommand(String, Vec<String>),
    /// A chat message is to be sent.
    SendMessage(String),
}

/// How many of the key presses `keys` are Return or keypad Enter (`true`).
pub open spec fn enter_count(keys: Seq<bool>) -> nat
    decreases keys.len(),
{
    if keys.len() == 0 {
        0
    } else {
        enter_count(keys.drop_last()) + if keys.last() {
            1nat
        } else {
            0nat
        }
    }
}

/// How many `DisableForceChat` events the Enter presses `keys` give: each Enter
/// gives one, up to and including the first Enter that sends a non-empty input.
pub open spec fn disable_count(keys: Seq<bool>, has_message: bool) -> nat {
    if has_message {
        if enter_count(keys) > 0 {
            1
        } else {
            0
        }
    } else {
        enter_count(keys)
    }
}

/// Every event of `events` is `DisableForceChat`.
pub open spec fn all_disable(events: Seq<ChatEvent>) -> bool {
    forall|j: int| 0 <= j < events.len() ==> #[trigger] events[j] is DisableForceChat
}

/// The events that sending `line` gives, and the messages waiting to be shown
/// afterwards (`after`, from `before`): a command is sent, a malformed command
/// adds its error to the waiting messages, and any other line is sent as a chat
/// message.
pub open spec fn send_events_ok(
    line: Seq<char>,
    prefix: char,
    events: Seq<ChatEvent>,
    before: Seq<ChatMsg>,
    after: Seq<ChatMsg>,
) -> bool {
    if line.len() > 0 && line[0] == prefix {
        let body = line.subrange(1, line.len() as int);
        match parse_cmd_spec(body) {
            Some((n, a)) => events.len() == 1 && (events[0] matches ChatEvent::SendCommand(
                name,
                args,
            ) && name@ == n && args.len() == a.len() && forall|i: int|
                0 <= i < args.len() ==> #[trigger] args[i]@ == a[i]) && after == before,
            None => events.len() == 0 && after.len() == before.len() + 1 && after.subrange(
                0,
                before.len() as int,
            ) == before && after.last().chat_type is CommandError && after.last().content@
                == failure_text(body),
        }
    } else {
        events.len() == 1 && (events[0] matches ChatEvent::SendMessage(m) && m@ == line)
            && after == before
    }
}

proof fn lemma_enter_count_prefix(keys: Seq<bool>, k: int)
    requires
        0 <= k <= keys.len(),
    ensures
        enter_count(keys.subrange(0, k)) <= enter_count(keys),
    decreases keys.len() - k,
{
    if k < keys.len() {
        lemma_enter_count_prefix(keys, k + 1);
        assert(keys.subrange(0, k + 1).drop_last() =~= keys.subrange(0, k));
    } else {
        assert(keys.subrange(0, k) =~= keys);
    }
}

/// Names of the commands that switch the chat mode: group, say, faction,
/// region and world, by full name or initial.
pub open spec fn is_chat_mode_name(name: Seq<char>) -> bool {
    ||| name == "group"@
    ||| name == "say"@
    ||| name == "faction"@
    ||| name == "region"@
    ||| name == "world"@
    ||| name == "g"@
    ||| name == "s"@
    ||| name == "f"@
    ||| name == "r"@
    ||| name == "w"@
}

/// Whether `name` switches the chat mode.
pub fn is_chat_mode_command(name: &str) -> (r: bool)
    ensures
        r == is_chat_mode_name(name@),
{
    let n = chars_of(name);
    eq_str(&n, "group") || eq_str(&n, "say") || eq_str(&n, "faction") || eq_str(&n, "region")
        || eq_str(&n, "world") || eq_str(&n, "g") || eq_str(&n, "s") || eq_str(&n, "f") || eq_str(
        &n,
        "r",
    ) || eq_str(&n, "w")
}

/// End of the white space at the start of `s`.
pub open spec fn trim_start_end(s: Seq<char>, i: int) -> int
    decreases s.len() - i,
{
    if 0 <= i < s.len() && is_ws(s[i]) {
        trim_start_end(s, i + 1)
    } else {
        i
    }
}

/// Start of the white space at the end of `s` (scanning down from `j`).
pub open spec fn trim_end_start(s: Seq<char>, lo: int, j: int) -> int
    decreases j - lo,
{
    if lo < j && j <= s.len() && is_ws(s[j - 1]) {
        trim_end_start(s, lo, j - 1)
    } else {
        j
    }
}

/// `s` without white space at either end.
pub open spec fn trim(s: Seq<char>) -> Seq<char> {
    let lo = trim_start_end(s, 0);
    s.subrange(lo, trim_end_start(s, lo, s.len() as int))
}

proof fn lemma_trim_bounds(s: Seq<char>, i: int)
    requires
        0 <= i <= s.len(),
    ensures
        i <= trim_start_end(s, i) <= s.len(),
    decreases s.len() - i,
{
    if i < s.len() && is_ws(s[i]) {
        lemma_trim_bounds(s, i + 1);
    }
}

proof fn lemma_trim_end_bounds(s: Seq<char>, lo: int, j: int)
    requires
        0 <= lo <= j <= s.len(),
    ensures
        lo <= trim_end_start(s, lo, j) <= j,
    decreases j - lo,
{
    if lo < j && is_ws(s[j - 1]) {
        lemma_trim_end_bounds(s, lo, j - 1);
    }
}

fn trim_chars(s: &Vec<char>) -> (r: Vec<char>)
    ensures
        r@ == trim(s@),
{
    let mut lo: usize = 0;
    while lo < s.len() && is_whitespace(s[lo])
        invariant
            lo <= s.len(),
            trim_start_end(s@, lo as int) == trim_start_end(s@, 0),
        decreases s.len() - lo,
    {
        lo = lo + 1;
    }
    let mut hi: usize = s.len();
    while lo < hi && is_whitespace(s[hi - 1])
        invariant
            lo <= hi <= s.len(),
            lo == trim_start_end(s@, 0),
            trim_end_start(s@, lo as int, hi as int) == trim_end_start(
                s@,
                lo as int,
                s.len() as int,
            ),
        decreases hi - lo,
    {
        hi = hi - 1;
    }
    let mut r: Vec<char> = Vec::new();
    let mut k = lo;
    while k < hi
        invariant
            lo <= k <= hi <= s.len(),
            r@ == s@.subrange(lo as int, k as int),
        decreases hi - k,
    {
        r.push(s[k]);
        k = k + 1;
        assert(r@ =~= s@.subrange(lo as int, k as int));
    }
    r
}

/// What a sent line becomes: a command, a command error, or a message.
pub open spec fn sent_line_ok(line: Seq<char>, prefix: char, r: SentLine) -> bool {
    if line.len() > 0 && line[0] == prefix {
        let body = line.subrange(1, line.len() as int);
        match parse_cmd_spec(body) {
            Some((n, a)) => r matches SentLine::Command(name, args) && name@ == n && args.len()
                == a.len() && forall|i: int| 0 <= i < args.len() ==> #[trigger] args[i]@ == a[i],
            None => r matches SentLine::CommandError(msg) && msg.chat_type is CommandError
                && msg.content@ == failure_text(body),
        }
    } else {
        r matches SentLine::Message(m) && m@ == line
    }
}

/// The history after sending `line`: unchanged when `line` is already the most
/// recent entry, else `line` in front, keeping at most `max` entries.
pub open spec fn history_after(history: Seq<String>, line: String, max: int) -> Seq<String> {
    if history.len() > 0 && history[0]@ == line@ {
        history
    } else {
        let h = seq![line] + history;
        if max <= h.len() {
            h.subrange(0, max)
        } else {
            h
        }
    }
}

/// The history position after a step in direction `dir` (not zero) from `pos`
/// in a history of `len` lines: one older line for a positive direction unless
/// at the oldest, one newer line for a negative direction unless already past
/// the newest.
pub open spec fn history_pos_after(pos: int, len: int, dir: int) -> int {
    if dir > 0 {
        if pos < len {
            pos + 1
        } else {
            pos
        }
    } else if pos > 0 {
        pos - 1
    } else {
        0
    }
}

/// `x` as a `usize`: a negative value wraps around (`x + usize::MAX + 1`).
pub open spec fn wrap_usize(x: int) -> int {
    if x >= 0 {
        x
    } else {
        x + usize::MAX + 1
    }
}

/// Where stepping through completions starts: the completion shown, else 0.
pub open spec fn completion_start(current: Option<usize>) -> int {
    match current {
        Some(i) => i as int,
        None => 0,
    }
}

/// The completion shown after stepping `tab_dir` from index `current` (none:
/// start from 0) among `len` candidates: the step `tab_dir + len` is taken as
/// a `usize`, so a step back past more candidates than there are wraps around
/// the machine word before the remainder is taken.
pub open spec fn completion_index_after(current: Option<usize>, tab_dir: int, len: int) -> int {
    (completion_start(current) + wrap_usize(tab_dir + len)) % len
}

/// A history step (see `ChatInput::browse_history`): from `s` in direction
/// `dir` to `t`, returning `r`.
pub open spec fn browse_ok(s: ChatInput, dir: int, t: ChatInput, r: Option<usize>) -> bool {
    &&& t.history == s.history
    &&& t.completions == s.completions
    &&& t.completions_index == s.completions_index
    &&& t.completion_cursor == s.completion_cursor
    &&& if dir != 0 && s.completion_cursor is None {
            let pos = history_pos_after(
                s.history_pos as int,
                s.history@.len() as int,
                dir,
            );
            &&& t.history_pos == pos
            &&& pos > 0 ==> t.message@ == s.history@[pos - 1]@ && r == Some(
                encode_utf8(t.message@).len() as usize,
            )
            &&& pos == 0 ==> t.message@.len() == 0 && r is None
        } else {
            t.message == s.message && t.history_pos == s.history_pos && r is None
        }
}

/// The bounds under which the completion step from `s` is taken (see
/// `ChatInput::update_tab_completion`): the machine-word limits, and the
/// overflow of the completion step that the step itself does not survive.
pub open spec fn tab_step_allowed(s: ChatInput, stop: bool, tab_dir: int) -> bool {
    &&& s.completions@.len() <= isize::MAX
    &&& encode_utf8(s.message@).len() <= usize::MAX
    &&& !stop && s.completion_cursor is Some && s.completions@.len() > 0 ==> {
            &&& tab_dir + s.completions@.len() <= isize::MAX
            &&& completion_start(s.completions_index) + wrap_usize(
                tab_dir + s.completions@.len(),
            ) <= usize::MAX
            &&& forall|i: int|
                0 <= i < s.completions@.len() ==> s.message@.len() + 1
                    + #[trigger] s.completions@[i]@.len() <= usize::MAX
        }
}

/// A completion step (see `ChatInput::update_tab_completion`): from `s`, with
/// the stop flag and direction, to `t`, returning `r`.
pub open spec fn tab_step_ok(s: ChatInput, stop: bool, tab_dir: int, t: ChatInput, r: TabStep) -> bool {
    &&& t.history == s.history
    &&& t.history_pos == s.history_pos
    &&& t.completions == s.completions
    &&& if stop {
            &&& t.completion_cursor is None
            &&& t.completions_index is None
            &&& t.message == s.message
            &&& !r.request_completions && r.cursor_offset is None
        } else if s.completion_cursor is Some {
            let cursor = s.completion_cursor->0;
            let cleaned = without_tabs(s.message@);
            let len = s.completions@.len();
            &&& t.completion_cursor == s.completion_cursor
            &&& !r.request_completions
            &&& if len > 0 && (tab_dir != 0 || s.completions_index is None) {
                let idx = completion_index_after(
                    s.completions_index,
                    tab_dir,
                    len as int,
                );
                let done = tab_completion(
                    cursor as int,
                    cleaned,
                    s.completions@[idx]@,
                );
                &&& t.completions_index == Some(idx as usize)
                &&& t.message@ == done.0
                &&& r.cursor_offset == Some(done.1 as usize)
            } else {
                &&& t.completions_index == s.completions_index
                &&& t.message@ == cleaned
                &&& r.cursor_offset is None
            }
        } else {
            &&& t.completions_index == s.completions_index
            &&& t.message == s.message
            &&& r.cursor_offset is None
            &&& match first_tab(s.message@) {
                Some(k) => t.completion_cursor == Some(
                    encode_utf8(s.message@.subrange(0, k)).len() as usize,
                ) && r.request_completions,
                None => t.completion_cursor is None && !r.request_completions,
            }
        }
}

/// A chat-mode step (see `ChatInput::chat_mode_command`): from `s` to `t`,
/// returning `r`.
pub open spec fn chat_mode_ok(s: ChatInput, prefix: char, t: ChatInput, r: Option<(String, Vec<String>)>) -> bool {
    &&& t.history == s.history
    &&& t.history_pos == s.history_pos
    &&& t.completions == s.completions
    &&& t.completions_index == s.completions_index
    &&& t.completion_cursor == s.completion_cursor
    &&& ({
            let m = s.message@;
            let cmd = if m.len() > 0 && m.last() == ' ' && m[0] == prefix {
                parse_cmd_spec(trim(m.subrange(1, m.len() as int)))
            } else {
                None
            };
            match cmd {
                Some((n, a)) => if is_chat_mode_name(n) && a.len() == 0 {
                    r matches Some((name, args)) && name@ == n && args.len() == 0
                        && t.message@.len() == 0
                } else {
                    r is None && t.message == s.message
                },
                None => r is None && t.message == s.message,
            }
        })
}

/// The end of a chat frame (see `ChatInput::finish_frame`): from `s` to `t`,
/// with the messages waiting to be shown going from `waiting` to
/// `waiting_after`, giving `events` and the scroll flag `scroll`.
pub open spec fn finish_ok(
    s: ChatInput,
    request_completions: bool,
    chat_focused: bool,
    enter_keys: Seq<bool>,
    force_chat: bool,
    scroll_next: bool,
    prefix: char,
    history_max: usize,
    waiting: Seq<ChatMsg>,
    t: ChatInput,
    waiting_after: Seq<ChatMsg>,
    events: Seq<ChatEvent>,
    scroll: bool,
) -> bool {
    &&& if request_completions {
            &&& events.len() == 1
            &&& events[0] matches ChatEvent::TabCompletionStart(text) && text@ == s.message@
            &&& t == s
            &&& scroll == scroll_next
            &&& waiting_after == waiting
        } else if chat_focused {
            &&& events.len() == 1
            &&& events[0] is Focus
            &&& t == s
            &&& scroll == scroll_next
            &&& waiting_after == waiting
        } else {
            let has_message = s.message@.len() > 0;
            let n = disable_count(enter_keys, has_message) as int;
            &&& n <= events.len()
            &&& all_disable(events.subrange(0, n))
            &&& scroll == (scroll_next || (n > 0 && force_chat))
            &&& if has_message && enter_count(enter_keys) > 0 {
                &&& send_events_ok(
                    s.message@,
                    prefix,
                    events.subrange(n, events.len() as int),
                    waiting,
                    waiting_after,
                )
                &&& t.message@.len() == 0
                &&& t.history_pos == 0
                &&& t.history@ == history_after(
                    s.history@,
                    s.message,
                    history_max as int,
                )
                &&& t.completions == s.completions
                &&& t.completions_index == s.completions_index
                &&& t.completion_cursor == s.completion_cursor
            } else {
                &&& events.len() == n
                &&& t == s
                &&& waiting_after == waiting
            }
        }
}

/// The box `s` after the completion candidates `completions`, if delivered,
/// replace its own.
pub open spec fn with_completions(s: ChatInput, completions: Option<Vec<String>>) -> ChatInput {
    ChatInput {
        completions: match completions {
            Some(c) => c,
            None => s.completions,
        },
        ..s
    }
}

/// The steps of a chat frame (see `ChatInput::frame`) from `s0` (the box with
/// the delivered candidates) to `t`, through the states `s1` (after
/// completion), `s2` (after the chat-mode step), `s3` (after the history step)
/// and `s4` (after a forced or typed text), with the key directions `dirs`,
/// giving the result `r`.
pub open spec fn frame_steps_ok(
    s0: ChatInput,
    dirs: (int, int, bool),
    prefix: char,
    force_input: Option<String>,
    typed: Option<String>,
    chat_focused: bool,
    enter_keys: Seq<bool>,
    force_chat: bool,
    scroll_next: bool,
    history_max: usize,
    t: ChatInput,
    waiting_after: Seq<ChatMsg>,
    r: (Vec<ChatEvent>, Option<usize>, bool),
    steps: (ChatInput, TabStep, ChatInput, Option<(String, Vec<String>)>, ChatInput, Option<usize>, ChatInput, Seq<ChatEvent>),
) -> bool {
    let (s1, step, s2, mode, s3, hcur, s4, tail) = steps;
    let (hdir, tdir, stop) = dirs;
    &&& tab_step_ok(s0, stop, tdir, s1, step)
    &&& chat_mode_ok(s1, prefix, s2, mode)
    &&& browse_ok(s2, hdir, s3, hcur)
    &&& s4.history == s3.history
    &&& s4.history_pos == s3.history_pos
    &&& s4.completions == s3.completions
    &&& s4.completions_index == s3.completions_index
    &&& s4.completion_cursor == s3.completion_cursor
    &&& s4.message@ == (match typed {
        Some(x) => without_newlines(x@),
        None => match force_input {
            Some(f) => f@,
            None => s3.message@,
        },
    })
    &&& finish_ok(
        s4,
        step.request_completions,
        chat_focused,
        enter_keys,
        force_chat,
        scroll_next,
        prefix,
        history_max,
        Seq::empty(),
        t,
        waiting_after,
        tail,
        r.2,
    )
    &&& r.0@ == (match mode {
        Some((name, args)) => seq![ChatEvent::SendCommand(name, args)],
        None => Seq::empty(),
    }) + tail
    &&& r.1 == (if hcur is Some {
        hcur
    } else {
        step.cursor_offset
    })
}

impl ChatInput {
    /// The box is consistent: a shown history line exists.
    pub open spec fn wf(&self) -> bool {
        self.history_pos <= self.history@.len()
    }

    /// An empty input box with no history.
    pub fn new() -> (r: Self)
        ensures
            r.wf(),
            r.message@.len() == 0,
            r.history@.len() == 0,
            r.history_pos == 0,
            r.completions@.len() == 0,
            r.completions_index is None,
            r.completion_cursor is None,
    {
        ChatInput {
            message: String::new(),
            history: VecDeque::new(),
            history_pos: 0,
            completions: Vec::new(),
            completions_index: None,
            completion_cursor: None,
        }
    }

    /// Moves through the history of sent lines, unless completion is in
    /// progress: a positive direction goes to an older line (if there is one), a
    /// negative one to a newer line; past the newest line the input is cleared.
    /// Returns the byte length of the line shown, where the cursor goes.
    pub fn browse_history(&mut self, history_dir: isize) -> (r: Option<usize>)
        requires
            old(self).wf(),
        ensures
            final(self).wf(),
            browse_ok(*old(self), history_dir as int, *final(self), r),
    {
        if history_dir != 0 && self.completion_cursor.is_none() {
            if history_dir > 0 {
                if self.history_pos < self.history.len() {
                    self.history_pos = self.history_pos + 1;
                }
            } else if self.history_pos > 0 {
                self.history_pos = self.history_pos - 1;
            }
            if self.history_pos > 0 {
                let line = self.history[self.history_pos - 1].clone();
                let len = line.as_str().len();
                self.message = line;
                Some(len)
            } else {
                self.message = String::new();
                None
            }
        } else {
            None
        }
    }

    /// The tab-completion step of a frame.  Another key than Up, Down or Tab
    /// ends completion.  While completing, tabs are removed from the input and,
    /// if there are candidates and the direction is not zero (or none was shown
    /// yet), the next candidate in that direction replaces the word at the
    /// completion cursor.  Otherwise a tab in the input starts completion at its
    /// byte position and asks for candidates.
    pub fn update_tab_completion(&mut self, stop: bool, tab_dir: isize) -> (r: TabStep)
        requires
            old(self).wf(),
            tab_step_allowed(*old(self), stop, tab_dir as int),
        ensures
            final(self).wf(),
            tab_step_ok(*old(self), stop, tab_dir as int, *final(self), r),
    {
        if stop {
            self.completion_cursor = None;
            self.completions_index = None;
            return TabStep { request_completions: false, cursor_offset: None };
        }
        match self.completion_cursor {
            Some(cursor) => {
                let chars = chars_of(self.message.as_str());
                let mut cleaned: Vec<char> = Vec::new();
                let mut i: usize = 0;
                while i < chars.len()
                    invariant
                        i <= chars.len(),
                        cleaned@ == without_tabs(chars@.subrange(0, i as int)),
                    decreases chars.len() - i,
                {
                    assert(chars@.subrange(0, i + 1).drop_last() =~= chars@.subrange(0, i as int));
                    if chars[i] != '\t' {
                        cleaned.push(chars[i]);
                    }
                    i = i + 1;
                }
                assert(chars@.subrange(0, chars.len() as int) =~= chars@);
                proof {
                    lemma_without_tabs_len(chars@);
                }
                let len = self.completions.len();
                if len > 0 && (tab_dir != 0 || self.completions_index.is_none()) {
                    let start: usize = match self.completions_index {
                        Some(i) => i,
                        None => 0,
                    };
                    let sum: isize = tab_dir + len as isize;
                    let step: usize = if sum >= 0 {
                        sum as usize
                    } else {
                        usize::MAX - ((-(sum + 1)) as usize)
                    };
                    let idx = (start + step) % len;
                    let cleaned_text = string_of(cleaned.as_slice());
                    let (completed, offset) = do_tab_completion(
                        cursor,
                        cleaned_text.as_str(),
                        self.completions[idx].as_str(),
                    );
                    self.completions_index = Some(idx);
                    self.message = completed;
                    TabStep { request_completions: false, cursor_offset: Some(offset) }
                } else {
                    self.message = string_of(cleaned.as_slice());
                    TabStep { request_completions: false, cursor_offset: None }
                }
            },
            None => {
                let chars = chars_of(self.message.as_str());
                let mut k: usize = 0;
                while k < chars.len() && chars[k] != '\t'
                    invariant
                        k <= chars.len(),
                        forall|j: int| 0 <= j < k ==> chars@[j] != '\t',
                    decreases chars.len() - k,
                {
                    k = k + 1;
                }
                if k < chars.len() {
                    let pos = byte_len_prefix(&chars, k);
                    proof {
                        let c = choose|c: int|
                            0 <= c < chars@.len() && chars@[c] == '\t' && forall|j: int|
                                0 <= j < c ==> chars@[j] != '\t';
                        assert(c == k);
                    }
                    self.completion_cursor = Some(pos);
                    TabStep { request_completions: true, cursor_offset: None }
                } else {
                    TabStep { request_completions: false, cursor_offset: None }
                }
            },
        }
    }

    /// When the input ends with a space and is a chat-mode command (after the
    /// command prefix, without white space at the ends) with no arguments, the
    /// input is cleared and the command returned, to be sent.
    pub fn chat_mode_command(&mut self, prefix: char) -> (r: Option<(String, Vec<String>)>)
        requires
            old(self).wf(),
        ensures
            final(self).wf(),
            chat_mode_ok(*old(self), prefix, *final(self), r),
    {
        let chars = chars_of(self.message.as_str());
        if chars.len() == 0 || chars[chars.len() - 1] != ' ' || chars[0] != prefix {
            return None;
        }
        let rest: Vec<char> = sub_chars(&chars, 1, chars.len());
        let trimmed = trim_chars(&rest);
        let text = string_of(trimmed.as_slice());
        match parse_cmd(text.as_str()) {
            Ok((name, args)) => {
                if is_chat_mode_command(name.as_str()) && args.len() == 0 {
                    self.message = String::new();
                    Some((name, args))
                } else {
                    None
                }
            },
            Err(_) => None,
        }
    }

    /// The events that end a chat frame.  When completion has just started, the
    /// candidates for the input are asked for; else, when the chat box itself
    /// holds the keyboard, the focus is passed to the input box; else the key
    /// presses `enter_keys` of the input box (`true` for Return or keypad
    /// Enter) are gone through: each Enter stops forcing the chat open (and,
    /// when `force_chat`, asks to scroll down the next time), until an Enter
    /// finds a non-empty input, which is then sent (see `submit`).  Returns the
    /// events and whether to scroll down next time.
    pub fn finish_frame(
        &mut self,
        request_completions: bool,
        chat_focused: bool,
        enter_keys: &[bool],
        force_chat: bool,
        scroll_next: bool,
        prefix: char,
        history_max: usize,
        new_messages: &mut VecDeque<ChatMsg>,
    ) -> (r: (Vec<ChatEvent>, bool))
        requires
            old(self).wf(),
        ensures
            final(self).wf(),
            finish_ok(
                *old(self),
                request_completions,
                chat_focused,
                enter_keys@,
                force_chat,
                scroll_next,
                prefix,
                history_max,
                old(new_messages)@,
                *final(self),
                final(new_messages)@,
                r.0@,
                r.1,
            ),
    {
        let mut events: Vec<ChatEvent> = Vec::new();
        if request_completions {
            events.push(ChatEvent::TabCompletionStart(self.message.clone()));
            return (events, scroll_next);
        }
        if chat_focused {
            events.push(ChatEvent::Focus);
            return (events, scroll_next);
        }
        let has_message = !self.message.as_str().is_empty();
        let mut scroll = scroll_next;
        let mut send = false;
        let mut i: usize = 0;
        while i < enter_keys.len() && !send
            invariant
                i <= enter_keys@.len(),
                all_disable(events@),
                send ==> has_message && events@.len() == 1 && enter_count(enter_keys@) > 0
                    && scroll == (scroll_next || force_chat),
                !send ==> events@.len() == enter_count(enter_keys@.subrange(0, i as int)) && (
                has_message ==> events@.len() == 0) && scroll == (scroll_next || (events@.len()
                    > 0 && force_chat)),
            decreases enter_keys.len() - i,
        {
            proof {
                assert(enter_keys@.subrange(0, i + 1).drop_last() =~= enter_keys@.subrange(0, i as int));
            }
            if enter_keys[i] {
                scroll = scroll || force_chat;
                events.push(ChatEvent::DisableForceChat);
                if has_message {
                    send = true;
                    proof {
                        lemma_enter_count_prefix(enter_keys@, i as int + 1);
                    }
                }
            }
            i = i + 1;
        }
        proof {
            if !send {
                assert(enter_keys@.subrange(0, enter_keys@.len() as int) =~= enter_keys@);
            }
        }
        let ghost n = events@.len();
        if send {
            let ghost before = events@;
            let ghost waiting = new_messages@;
            match self.submit(prefix, history_max) {
                Some(SentLine::Command(name, args)) => {
                    events.push(ChatEvent::SendCommand(name, args));
                    assert(events@.subrange(n as int, events@.len() as int) =~= seq![events@[n as int]]);
                },
                Some(SentLine::CommandError(msg)) => {
                    new_messages.push_back(msg);
                    assert(new_messages@.subrange(0, waiting.len() as int) =~= waiting);
                    assert(events@.subrange(n as int, events@.len() as int) =~= Seq::<ChatEvent>::empty());
                },
                Some(SentLine::Message(m)) => {
                    events.push(ChatEvent::SendMessage(m));
                    assert(events@.subrange(n as int, events@.len() as int) =~= seq![events@[n as int]]);
                },
                None => {},
            }
            proof {
                assert(events@.subrange(0, n as int) =~= before);
            }
        }
        (events, scroll)
    }

    /// The text typed into the input box becomes the input, without line
    /// breaks.
    pub fn set_typed(&mut self, typed: &str)
        requires
            old(self).wf(),
        ensures
            final(self).wf(),
            final(self).message@ == without_newlines(typed@),
            final(self).history == old(self).history,
            final(self).history_pos == old(self).history_pos,
            final(self).completions == old(self).completions,
            final(self).completions_index == old(self).completions_index,
            final(self).completion_cursor == old(self).completion_cursor,
    {
        let chars = chars_of(typed);
        let mut kept: Vec<char> = Vec::new();
        let mut i: usize = 0;
        while i < chars.len()
            invariant
                i <= chars.len(),
                kept@ == without_newlines(chars@.subrange(0, i as int)),
            decreases chars.len() - i,
        {
            assert(chars@.subrange(0, i + 1).drop_last() =~= chars@.subrange(0, i as int));
            if chars[i] != '\n' {
                kept.push(chars[i]);
            }
            i = i + 1;
        }
        assert(chars@.subrange(0, chars.len() as int) =~= chars@);
        self.message = string_of(kept.as_slice());
    }

    /// A whole frame of the chat box, in the order the box takes its steps:
    /// the message list is updated (see `update_messages`); delivered
    /// completion candidates replace the old ones; the keys `keys` give the
    /// history and completion directions; the completion step, the chat-mode
    /// step and the history step follow; a forced text and then the typed text
    /// (line breaks removed) replace the input; and the frame ends (see
    /// `finish_frame`), any command error waiting for the next frame.  Returns
    /// the events (a chat-mode command first), where the text cursor goes (set
    /// by the history step, else by completion), and the scroll flag.
    pub fn frame(
        &mut self,
        messages: &mut VecDeque<ChatMsg>,
        new_messages: &mut VecDeque<ChatMsg>,
        clear_messages: bool,
        completions: Option<Vec<String>>,
        keys: &[ChatKey],
        force_input: Option<String>,
        typed: Option<String>,
        chat_focused: bool,
        enter_keys: &[bool],
        force_chat: bool,
        scroll_next: bool,
        prefix: char,
        history_max: usize,
    ) -> (r: (Vec<ChatEvent>, Option<usize>, bool))
        requires
            old(self).wf(),
            keys@.len() <= isize::MAX,
            tab_step_allowed(
                with_completions(*old(self), completions),
                key_fold(keys@).2,
                key_fold(keys@).1,
            ),
        ensures
            final(self).wf(),
            final(messages)@ == kept_messages(old(messages)@, clear_messages) + old(new_messages)@,
            exists|s1: ChatInput, step: TabStep, s2: ChatInput, mode: Option<(String, Vec<String>)>,
                s3: ChatInput, hcur: Option<usize>, s4: ChatInput, tail: Seq<ChatEvent>|
                #[trigger] frame_steps_ok(
                    with_completions(*old(self), completions),
                    key_fold(keys@),
                    prefix,
                    force_input,
                    typed,
                    chat_focused,
                    enter_keys@,
                    force_chat,
                    scroll_next,
                    history_max,
                    *final(self),
                    final(new_messages)@,
                    r,
                    (s1, step, s2, mode, s3, hcur, s4, tail),
                ),
    {
        crate::chat::update_messages(messages, clear_messages, new_messages);
        match completions {
            Some(c) => {
                self.completions = c;
            },
            None => {},
        }
        let ghost s0 = *self;
        let (history_dir, tab_dir, stop) = key_directions(keys);
        let step = self.update_tab_completion(stop, tab_dir);
        let ghost s1 = *self;
        let mode = self.chat_mode_command(prefix);
        let ghost s2 = *self;
        let ghost mode_g = mode;
        let hcur = self.browse_history(history_dir);
        let ghost s3 = *self;
        match force_input {
            Some(f) => {
                self.message = f;
            },
            None => {},
        }
        match typed {
            Some(x) => {
                self.set_typed(x.as_str());
            },
            None => {},
        }
        let ghost s4 = *self;
        let ghost waiting = new_messages@;
        assert(waiting =~= Seq::<ChatMsg>::empty());
        let (tail, scroll) = self.finish_frame(
            step.request_completions,
            chat_focused,
            enter_keys,
            force_chat,
            scroll_next,
            prefix,
            history_max,
            new_messages,
        );
        let ghost tail_g = tail@;
        let mut events: Vec<ChatEvent> = Vec::new();
        match mode {
            Some((name, args)) => {
                events.push(ChatEvent::SendCommand(name, args));
            },
            None => {},
        }
        let ghost head = events@;
        let mut tail = tail;
        events.append(&mut tail);
        let cursor = match hcur {
            Some(c) => Some(c),
            None => step.cursor_offset,
        };
        proof {
            assert(s0 == with_completions(*old(self), completions));
            assert(head == (match mode_g {
                Some((name, args)) => seq![ChatEvent::SendCommand(name, args)],
                None => Seq::<ChatEvent>::empty(),
            }));
            assert(tab_step_ok(s0, stop, tab_dir as int, s1, step));
            assert(chat_mode_ok(s1, prefix, s2, mode_g));
            assert(browse_ok(s2, history_dir as int, s3, hcur));
            assert(events@ == head + tail_g);
            assert(frame_steps_ok(
                s0,
                key_fold(keys@),
                prefix,
                force_input,
                typed,
                chat_focused,
                enter_keys@,
                force_chat,
                scroll_next,
                history_max,
                *self,
                new_messages@,
                (events, cursor, scroll),
                (s1, step, s2, mode_g, s3, hcur, s4, tail_g),
            ));
        }
        (events, cursor, scroll)
    }

    /// Sends the input line, if not empty: the input is cleared, history
    /// browsing ends, and the line goes to the front of the history (kept to
    /// `history_max` lines) unless it repeats the most recent one.  A line that
    /// starts with `prefix` is a command.
    pub fn submit(&mut self, prefix: char, history_max: usize) -> (r: Option<SentLine>)
        requires
            old(self).wf(),
        ensures
            final(self).wf(),
            final(self).completions == old(self).completions,
            final(self).completions_index == old(self).completions_index,
            final(self).completion_cursor == old(self).completion_cursor,
            old(self).message@.len() == 0 ==> r is None && final(self).message == old(self).message
                && final(self).history == old(self).history && final(self).history_pos == old(
                self,
            ).history_pos,
            old(self).message@.len() > 0 ==> {
                &&& r matches Some(line) && sent_line_ok(old(self).message@, prefix, line)
                &&& final(self).message@.len() == 0
                &&& final(self).history_pos == 0
                &&& final(self).history@ == history_after(
                    old(self).history@,
                    old(self).message,
                    history_max as int,
                )
            },
    {
        let chars = chars_of(self.message.as_str());
        if chars.len() == 0 {
            return None;
        }
        let line = self.message.clone();
        self.message = String::new();
        self.history_pos = 0;
        let same = self.history.len() > 0 && self.history[0] == line;
        if !same {
            self.history.push_front(line.clone());
            self.history.truncate(history_max);
        }
        if chars[0] == prefix {
            let rest: Vec<char> = sub_chars(&chars, 1, chars.len());
            let text = string_of(rest.as_slice());
            match parse_cmd(text.as_str()) {
                Ok((name, args)) => Some(SentLine::Command(name, args)),
                Err(err) => Some(
                    SentLine::CommandError(ChatMsg { chat_type: ChatType::CommandError, content: err }),
                ),
            }
        } else {
            Some(SentLine::Message(line))
        }
    }
}

} // verus!
