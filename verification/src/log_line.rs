//! The grammar of the server's log: which lines report a fatal error, a
//! change of lifecycle state or an event, and what they say.
//!
//! Three shapes of line are recognised, each taking the whole line:
//!
//! ```text
//! <seconds>.<subseconds> Error <component> <message>
//! <seconds>.<subseconds> Info <anything> changing state from(<OLD>) to(<NEW>)
//! <YYYY>-MM-DD HH:MM:SS [<EVENT>] <message>
//! ```
//!
//! Where a line can be divided in several ways, one division is preferred.
//! The parts written `<...>` above are as short as they can be, the earlier
//! part first; the white space between an error's component and its message
//! is as long as it can be.

use vstd::prelude::*;
use crate::text::{
    all_space,
    char_is_numeral,
    char_is_space,
    chars_of,
    numerals_end,
    has_at,
    is_numeral,
    is_space,
    matches_at,
    no_newline,
    skip_numerals,
    skip_spaces,
    spaces_end,
    substring,
};

pub mod written;

verus! {

/// What a line of the log says.
#[derive(Debug, Clone, PartialEq, Eq)]
pub enum LogLine {
    /// A fatal error, with its message.
    Error(String),
    /// A change of lifecycle state, with the name of the new state.
    Transition(String),
    /// An event, with its tag and its message.
    Event(String, String),
    /// Anything else.
    Other,
}

/// What a line of the log says, over sequences of characters.
pub enum LogLineView {
    Error(Seq<char>),
    Transition(Seq<char>),
    Event(Seq<char>, Seq<char>),
    Other,
}

impl View for LogLine {
    type V = LogLineView;

    open spec fn view(&self) -> LogLineView {
        match self {
            LogLine::Error(m) => LogLineView::Error(m@),
            LogLine::Transition(n) => LogLineView::Transition(n@),
            LogLine::Event(e, m) => LogLineView::Event(e@, m@),
            LogLine::Other => LogLineView::Other,
        }
    }
}

/// The position after a line's time stamp: after optional white space, one
/// or more numerals, a full stop, one or more numerals and one white-space
/// character.
pub open spec fn stamp_end(line: Seq<char>) -> Option<int> {
    let a = spaces_end(line, 0);
    let b = numerals_end(line, a);
    let c = numerals_end(line, b + 1);
    if a < b && b < line.len() && line[b] == '.' && b + 1 < c && c < line.len() && is_space(
        line[c],
    ) {
        Some(c + 1)
    } else {
        None
    }
}

/// Whether `line` is the server's last line: a time stamp and `Goodbye`.
pub open spec fn is_goodbye(line: Seq<char>) -> bool {
    match stamp_end(line) {
        Some(p) => line.subrange(p, line.len() as int) == "Goodbye"@,
        None => false,
    }
}

/// Where the component of an error line begins: after the time stamp, the
/// word `Error` and one white-space character.
pub open spec fn error_body(line: Seq<char>) -> Option<int> {
    match stamp_end(line) {
        Some(p) => if has_at(line, p, "Error"@) && p + 5 < line.len() && is_space(line[p + 5]) {
            Some(p + 6)
        } else {
            None
        },
        None => None,
    }
}

/// One way to divide what follows `Error`: the component from `b` to `c`,
/// white space up to `q`, the message up to `t`, and white space to the end
/// of the line. Component and message are not empty and hold no line feed.
pub open spec fn error_split(line: Seq<char>, b: int, c: int, q: int, t: int) -> bool {
    &&& 0 <= b < c < q < t <= line.len()
    &&& no_newline(line, b, c)
    &&& all_space(line, c, q)
    &&& no_newline(line, q, t)
    &&& all_space(line, t, line.len() as int)
}

/// Whether the division of an error line at `c`, `q`, `t` is the preferred
/// one: no other has a shorter component, or the same component and more
/// white space after it, or those and a shorter message.
pub open spec fn is_error_capture(line: Seq<char>, b: int, c: int, q: int, t: int) -> bool {
    &&& error_split(line, b, c, q, t)
    &&& forall|c2: int, q2: int, t2: int| #[trigger]
        error_split(line, b, c2, q2, t2) ==> c < c2 || (c == c2 && (q > q2 || (q == q2 && t
            <= t2)))
}

/// The preferred division of an error line whose component begins at `b`.
pub open spec fn error_capture_at(line: Seq<char>, b: int) -> (int, int, int) {
    choose|c: int, q: int, t: int| is_error_capture(line, b, c, q, t)
}

/// The message of an error line, if `line` is one.
pub open spec fn error_message(line: Seq<char>) -> Option<Seq<char>> {
    match error_body(line) {
        Some(b) => if exists|c: int, q: int, t: int| is_error_capture(line, b, c, q, t) {
            let (c, q, t) = error_capture_at(line, b);
            Some(line.subrange(q, t))
        } else {
            None
        },
        None => None,
    }
}

/// Where the free text of a state line begins: after the time stamp and the
/// word `Info`.
pub open spec fn state_body(line: Seq<char>) -> Option<int> {
    match stamp_end(line) {
        Some(p) => if has_at(line, p, "Info"@) {
            Some(p + 4)
        } else {
            None
        },
        None => None,
    }
}

/// Whether `line` holds at `i` the words `changing state from(`, with one
/// white-space character between each two of them.
pub open spec fn has_change_marker(line: Seq<char>, i: int) -> bool {
    &&& has_at(line, i, "changing"@)
    &&& i + 8 < line.len() && is_space(line[i + 8])
    &&& has_at(line, i + 9, "state"@)
    &&& i + 14 < line.len() && is_space(line[i + 14])
    &&& has_at(line, i + 15, "from("@)
}

/// Whether `line` holds at `j` a closing bracket, one white-space character
/// and `to(`.
pub open spec fn has_to_marker(line: Seq<char>, j: int) -> bool {
    &&& 0 <= j && j + 1 < line.len()
    &&& line[j] == ')'
    &&& is_space(line[j + 1])
    &&& has_at(line, j + 2, "to("@)
}

/// One way to divide a state line from the old state's name on: the name
/// begins after the marker at `i` and ends at `j`, where `) to(` follows;
/// the new state's name is what is left, up to the bracket that closes the
/// line. Both names are not empty and hold no line feed.
pub open spec fn state_tail(line: Seq<char>, i: int, j: int) -> bool {
    &&& i + 20 < j
    &&& no_newline(line, i + 20, j)
    &&& has_to_marker(line, j)
    &&& j + 5 < line.len() - 1
    &&& no_newline(line, j + 5, line.len() - 1)
    &&& line[line.len() - 1] == ')'
}

/// One way to divide a state line: free text from `b` to `i`, not empty and
/// without line feed, the marker at `i`, and the two names around `j`.
pub open spec fn state_split(line: Seq<char>, b: int, i: int, j: int) -> bool {
    &&& 0 <= b < i
    &&& no_newline(line, b, i)
    &&& has_change_marker(line, i)
    &&& state_tail(line, i, j)
}

/// Whether the division of a state line at `i`, `j` is the preferred one:
/// no other has a shorter free text, or the same and a shorter old name.
pub open spec fn is_state_capture(line: Seq<char>, b: int, i: int, j: int) -> bool {
    &&& state_split(line, b, i, j)
    &&& forall|i2: int, j2: int| #[trigger]
        state_split(line, b, i2, j2) ==> i < i2 || (i == i2 && j <= j2)
}

/// The preferred division of a state line whose free text begins at `b`.
pub open spec fn state_capture_at(line: Seq<char>, b: int) -> (int, int) {
    choose|i: int, j: int| is_state_capture(line, b, i, j)
}

/// The name of the new state of a state line, if `line` is one.
pub open spec fn new_state_name(line: Seq<char>) -> Option<Seq<char>> {
    match state_body(line) {
        Some(b) => if exists|i: int, j: int| is_state_capture(line, b, i, j) {
            let (i, j) = state_capture_at(line, b);
            Some(line.subrange(j + 5, line.len() - 1))
        } else {
            None
        },
        None => None,
    }
}

/// Whether `line` holds two numerals at `i`.
pub open spec fn two_numerals(line: Seq<char>, i: int) -> bool {
    0 <= i && i + 1 < line.len() && is_numeral(line[i]) && is_numeral(line[i + 1])
}

/// Where the tag of an event line begins: after a date of four or more
/// numerals, two numerals and two numerals with hyphens between them, one
/// white-space character, a time of three times two numerals with colons
/// between them, one white-space character and an opening square bracket.
pub open spec fn event_body(line: Seq<char>) -> Option<int> {
    let y = numerals_end(line, 0);
    if {
        &&& y >= 4
        &&& y + 17 <= line.len()
        &&& line[y] == '-'
        &&& two_numerals(line, y + 1)
        &&& line[y + 3] == '-'
        &&& two_numerals(line, y + 4)
        &&& is_space(line[y + 6])
        &&& two_numerals(line, y + 7)
        &&& line[y + 9] == ':'
        &&& two_numerals(line, y + 10)
        &&& line[y + 12] == ':'
        &&& two_numerals(line, y + 13)
        &&& is_space(line[y + 15])
        &&& line[y + 16] == '['
    } {
        Some(y + 17)
    } else {
        None
    }
}

/// One way to divide an event line: the tag from `g` to `h`, a closing
/// square bracket, one white-space character, and the message to the end of
/// the line. Tag and message are not empty and hold no line feed.
pub open spec fn event_split(line: Seq<char>, g: int, h: int) -> bool {
    &&& 0 <= g < h
    &&& h + 2 < line.len()
    &&& no_newline(line, g, h)
    &&& line[h] == ']'
    &&& is_space(line[h + 1])
    &&& no_newline(line, h + 2, line.len() as int)
}

/// Whether the division of an event line at `h` is the preferred one: the
/// one with the shortest tag.
pub open spec fn is_event_capture(line: Seq<char>, g: int, h: int) -> bool {
    &&& event_split(line, g, h)
    &&& forall|h2: int| #[trigger] event_split(line, g, h2) ==> h <= h2
}

/// The preferred division of an event line whose tag begins at `g`.
pub open spec fn event_capture_at(line: Seq<char>, g: int) -> int {
    choose|h: int| is_event_capture(line, g, h)
}

/// The tag and the message of an event line, if `line` is one.
pub open spec fn event_parts(line: Seq<char>) -> Option<(Seq<char>, Seq<char>)> {
    match event_body(line) {
        Some(g) => if exists|h: int| is_event_capture(line, g, h) {
            let h = event_capture_at(line, g);
            Some((line.subrange(g, h), line.subrange(h + 2, line.len() as int)))
        } else {
            None
        },
        None => None,
    }
}

/// What `line` says. A line that has the shape of an error line is one,
/// whatever else it looks like; a state line comes before an event line.
pub open spec fn classify(line: Seq<char>) -> LogLineView {
    if let Some(m) = error_message(line) {
        LogLineView::Error(m)
    } else if let Some(n) = new_state_name(line) {
        LogLineView::Transition(n)
    } else if let Some((e, m)) = event_parts(line) {
        LogLineView::Event(e, m)
    } else {
        LogLineView::Other
    }
}

/// The message of an error line is that of its preferred division.
pub proof fn lemma_error_message(line: Seq<char>, b: int, c: int, q: int, t: int)
    requires
        error_body(line) == Some(b),
        is_error_capture(line, b, c, q, t),
    ensures
        error_message(line) == Some(line.subrange(q, t)),
{
    let (c2, q2, t2) = error_capture_at(line, b);
    assert(is_error_capture(line, b, c2, q2, t2));
}

/// The new state of a state line is that of its preferred division.
pub proof fn lemma_new_state_name(line: Seq<char>, b: int, i: int, j: int)
    requires
        state_body(line) == Some(b),
        is_state_capture(line, b, i, j),
    ensures
        new_state_name(line) == Some(line.subrange(j + 5, line.len() - 1)),
{
    let (i2, j2) = state_capture_at(line, b);
    assert(is_state_capture(line, b, i2, j2));
}

/// Tag and message of an event line are those of its preferred division.
pub proof fn lemma_event_parts(line: Seq<char>, g: int, h: int)
    requires
        event_body(line) == Some(g),
        is_event_capture(line, g, h),
    ensures
        event_parts(line) == Some((line.subrange(g, h), line.subrange(h + 2, line.len() as int))),
{
    let h2 = event_capture_at(line, g);
    assert(is_event_capture(line, g, h2));
}

/// Among the divisions of an event line there is a preferred one.
proof fn lemma_event_capture_exists(line: Seq<char>, g: int, h: int)
    requires
        event_split(line, g, h),
    ensures
        exists|h0: int| is_event_capture(line, g, h0),
    decreases h - g,
{
    if exists|h2: int| h2 < h && event_split(line, g, h2) {
        let h2 = choose|h2: int| h2 < h && event_split(line, g, h2);
        lemma_event_capture_exists(line, g, h2);
    } else {
        assert(is_event_capture(line, g, h));
    }
}

/// Among the divisions of a state line with the free text up to `i` there
/// is one with the shortest old name.
proof fn lemma_state_shortest_old(line: Seq<char>, b: int, i: int, j: int)
    requires
        state_split(line, b, i, j),
    ensures
        exists|j0: int|
            state_split(line, b, i, j0) && forall|j2: int| #[trigger]
                state_split(line, b, i, j2) ==> j0 <= j2,
    decreases j - i,
{
    if exists|j2: int| j2 < j && state_split(line, b, i, j2) {
        let j2 = choose|j2: int| j2 < j && state_split(line, b, i, j2);
        lemma_state_shortest_old(line, b, i, j2);
    }
}

/// Among the divisions of a state line there is a preferred one.
proof fn lemma_state_capture_exists(line: Seq<char>, b: int, i: int, j: int)
    requires
        state_split(line, b, i, j),
    ensures
        exists|i0: int, j0: int| is_state_capture(line, b, i0, j0),
    decreases i - b,
{
    if exists|i2: int, j2: int| i2 < i && state_split(line, b, i2, j2) {
        let (i2, j2) = choose|i2: int, j2: int| i2 < i && state_split(line, b, i2, j2);
        lemma_state_capture_exists(line, b, i2, j2);
    } else {
        lemma_state_shortest_old(line, b, i, j);
        let j0 = choose|j0: int|
            state_split(line, b, i, j0) && forall|j2: int| #[trigger]
                state_split(line, b, i, j2) ==> j0 <= j2;
        assert(is_state_capture(line, b, i, j0));
    }
}

/// Among the divisions of an error line with the component up to `c` and
/// the message from `q` on there is one with the shortest message.
proof fn lemma_error_shortest_message(line: Seq<char>, b: int, c: int, q: int, t: int)
    requires
        error_split(line, b, c, q, t),
    ensures
        exists|t0: int|
            error_split(line, b, c, q, t0) && forall|t2: int| #[trigger]
                error_split(line, b, c, q, t2) ==> t0 <= t2,
    decreases t - q,
{
    if exists|t2: int| t2 < t && error_split(line, b, c, q, t2) {
        let t2 = choose|t2: int| t2 < t && error_split(line, b, c, q, t2);
        lemma_error_shortest_message(line, b, c, q, t2);
    }
}

/// Among the divisions of an error line with the component up to `c` there
/// is one with the most white space after the component and, with that, the
/// shortest message.
proof fn lemma_error_longest_gap(line: Seq<char>, b: int, c: int, q: int, t: int)
    requires
        error_split(line, b, c, q, t),
    ensures
        exists|q0: int, t0: int|
            error_split(line, b, c, q0, t0) && forall|q2: int, t2: int| #[trigger]
                error_split(line, b, c, q2, t2) ==> q0 > q2 || (q0 == q2 && t0 <= t2),
    decreases line.len() - q,
{
    if exists|q2: int, t2: int| q2 > q && error_split(line, b, c, q2, t2) {
        let (q2, t2) = choose|q2: int, t2: int| q2 > q && error_split(line, b, c, q2, t2);
        lemma_error_longest_gap(line, b, c, q2, t2);
    } else {
        lemma_error_shortest_message(line, b, c, q, t);
        let t0 = choose|t0: int|
            error_split(line, b, c, q, t0) && forall|t2: int| #[trigger]
                error_split(line, b, c, q, t2) ==> t0 <= t2;
        assert(forall|q2: int, t2: int| #[trigger]
            error_split(line, b, c, q2, t2) ==> q > q2 || (q == q2 && t0 <= t2));
    }
}

/// Among the divisions of an error line there is a preferred one.
proof fn lemma_error_capture_exists(line: Seq<char>, b: int, c: int, q: int, t: int)
    requires
        error_split(line, b, c, q, t),
    ensures
        exists|c0: int, q0: int, t0: int| is_error_capture(line, b, c0, q0, t0),
    decreases c - b,
{
    if exists|c2: int, q2: int, t2: int| c2 < c && error_split(line, b, c2, q2, t2) {
        let (c2, q2, t2) = choose|c2: int, q2: int, t2: int|
            c2 < c && error_split(line, b, c2, q2, t2);
        lemma_error_capture_exists(line, b, c2, q2, t2);
    } else {
        lemma_error_longest_gap(line, b, c, q, t);
        let (q0, t0) = choose|q0: int, t0: int|
            error_split(line, b, c, q0, t0) && forall|q2: int, t2: int| #[trigger]
                error_split(line, b, c, q2, t2) ==> q0 > q2 || (q0 == q2 && t0 <= t2);
        assert(is_error_capture(line, b, c, q0, t0));
    }
}

/// A line is an error line if and only if what follows `Error` in it can be
/// divided into component, white space, message and white space.
pub proof fn lemma_error_line_is_divided(line: Seq<char>)
    ensures
        error_message(line) is Some <==> (error_body(line) matches Some(b) && exists|
            c: int,
            q: int,
            t: int,
        | error_split(line, b, c, q, t)),
{
    if let Some(b) = error_body(line) {
        if exists|c: int, q: int, t: int| error_split(line, b, c, q, t) {
            let (c, q, t) = choose|c: int, q: int, t: int| error_split(line, b, c, q, t);
            lemma_error_capture_exists(line, b, c, q, t);
        }
        if exists|c: int, q: int, t: int| is_error_capture(line, b, c, q, t) {
            let (c, q, t) = choose|c: int, q: int, t: int| is_error_capture(line, b, c, q, t);
            assert(error_split(line, b, c, q, t));
        }
    }
}

/// A line is a state line if and only if what follows `Info` in it can be
/// divided into free text, the marker, the old name, `) to(`, the new name
/// and a closing bracket.
pub proof fn lemma_state_line_is_divided(line: Seq<char>)
    ensures
        new_state_name(line) is Some <==> (state_body(line) matches Some(b) && exists|
            i: int,
            j: int,
        | state_split(line, b, i, j)),
{
    if let Some(b) = state_body(line) {
        if exists|i: int, j: int| state_split(line, b, i, j) {
            let (i, j) = choose|i: int, j: int| state_split(line, b, i, j);
            lemma_state_capture_exists(line, b, i, j);
        }
        if exists|i: int, j: int| is_state_capture(line, b, i, j) {
            let (i, j) = choose|i: int, j: int| is_state_capture(line, b, i, j);
            assert(state_split(line, b, i, j));
        }
    }
}

/// A line is an event line if and only if what follows its head can be
/// divided into tag, closing square bracket, white space and message.
pub proof fn lemma_event_line_is_divided(line: Seq<char>)
    ensures
        event_parts(line) is Some <==> (event_body(line) matches Some(g) && exists|h: int|
            event_split(line, g, h)),
{
    if let Some(g) = event_body(line) {
        if exists|h: int| event_split(line, g, h) {
            let h = choose|h: int| event_split(line, g, h);
            lemma_event_capture_exists(line, g, h);
        }
        if exists|h: int| is_event_capture(line, g, h) {
            let h = choose|h: int| is_event_capture(line, g, h);
            assert(event_split(line, g, h));
        }
    }
}

/// Whether no character of `v` from `from` up to `to` is a line feed.
fn free_of_newline(v: &Vec<char>, from: usize, to: usize) -> (r: bool)
    requires
        from <= to <= v.len(),
    ensures
        r == no_newline(v@, from as int, to as int),
{
    let mut k: usize = from;
    while k < to
        invariant
            from <= k <= to <= v.len(),
            no_newline(v@, from as int, k as int),
        decreases to - k,
    {
        if v[k] == '\n' {
            return false;
        }
        k += 1;
    }
    true
}

/// The position after the time stamp of `v`.
fn stamp_end_of(v: &Vec<char>) -> (r: Option<usize>)
    ensures
        match r {
            Some(p) => stamp_end(v@) == Some(p as int) && p <= v.len(),
            None => stamp_end(v@).is_none(),
        },
{
    let a = skip_spaces(v, 0);
    let b = skip_numerals(v, a);
    if !(a < b && b < v.len() && v[b] == '.') {
        return None;
    }
    let c = skip_numerals(v, b + 1);
    if b + 1 < c && c < v.len() && char_is_space(v[c]) {
        Some(c + 1)
    } else {
        None
    }
}

/// Whether `line` is the server's last line.
pub fn is_end_marker(line: &str) -> (r: bool)
    ensures
        r == is_goodbye(line@),
{
    let v = chars_of(line);
    match stamp_end_of(&v) {
        Some(p) => {
            let r = matches_at(&v, p, "Goodbye");
            let n = "Goodbye".unicode_len();
            proof {
                if r && p + n == v.len() {
                    assert(v@.subrange(p as int, v.len() as int) == "Goodbye"@);
                }
                if v@.subrange(p as int, v.len() as int) == "Goodbye"@ {
                    assert(p + n == v.len());
                }
            }
            r && v.len() - p == n
        },
        None => false,
    }
}

/// The preferred division of the error line `v` whose component begins at
/// `b`: where its message begins and ends.
fn error_capture(v: &Vec<char>, b: usize) -> (r: Option<(usize, usize)>)
    requires
        b <= v.len(),
    ensures
        match r {
            Some((q, t)) => q <= t <= v.len() && exists|c: int|
                is_error_capture(v@, b as int, c, q as int, t as int),
            None => forall|c: int, q: int, t: int| !error_split(v@, b as int, c, q, t),
        },
{
    let n = v.len();
    if b >= n {
        return None;
    }
    let mut e: usize = n;
    while e > 0 && char_is_space(v[e - 1])
        invariant
            e <= n == v.len(),
            all_space(v@, e as int, n as int),
        decreases e,
    {
        e -= 1;
    }
    let mut c: usize = b + 1;
    while c < n
        invariant
            b < c <= n == v.len(),
            e <= n,
            all_space(v@, e as int, n as int),
            e > 0 ==> !is_space(v[e - 1]),
            no_newline(v@, b as int, c - 1),
            forall|c2: int, q2: int, t2: int|
                c2 < c ==> !#[trigger] error_split(v@, b as int, c2, q2, t2),
        decreases n - c,
    {
        if v[c - 1] == '\n' {
            return None;
        }
        if char_is_space(v[c]) {
            let q0 = skip_spaces(v, c);
            if q0 < n {
                assert(q0 < e);
                if free_of_newline(v, q0, e) {
                    proof {
                        assert(error_split(v@, b as int, c as int, q0 as int, e as int));
                        assert forall|c2: int, q2: int, t2: int| #[trigger]
                            error_split(v@, b as int, c2, q2, t2) implies c < c2 || (c == c2 && (q0
                            > q2 || (q0 == q2 && e <= t2))) by {
                            if c2 == c {
                                if q2 > q0 {
                                    assert(is_space(v@[q0 as int]));
                                }
                                if t2 < e {
                                    assert(is_space(v@[e - 1]));
                                }
                            }
                        }
                        assert(is_error_capture(v@, b as int, c as int, q0 as int, e as int));
                    }
                    return Some((q0, e));
                }
                proof {
                    assert forall|q2: int, t2: int| !#[trigger] error_split(
                        v@,
                        b as int,
                        c as int,
                        q2,
                        t2,
                    ) by {
                        if error_split(v@, b as int, c as int, q2, t2) {
                            if q2 > q0 {
                                assert(is_space(v@[q0 as int]));
                            }
                            if t2 < e {
                                assert(is_space(v@[e - 1]));
                            }
                            assert(no_newline(v@, q0 as int, e as int));
                        }
                    }
                }
            } else {
                let mut q: usize = n;
                while q > c + 1 && v[q - 1] == '\n'
                    invariant
                        c < q <= n == v.len(),
                        forall|k: int| q <= k < n ==> v@[k] == '\n',
                    decreases q,
                {
                    q -= 1;
                }
                if q > c + 1 {
                    proof {
                        assert(error_split(v@, b as int, c as int, q - 1, q as int));
                        assert forall|c2: int, q2: int, t2: int| #[trigger]
                            error_split(v@, b as int, c2, q2, t2) implies c < c2 || (c == c2 && (q
                            - 1 > q2 || (q - 1 == q2 && q <= t2))) by {
                            if c2 == c {
                                assert(v@[q2] != '\n');
                            }
                        }
                        assert(is_error_capture(v@, b as int, c as int, q - 1, q as int));
                    }
                    return Some((q - 1, q));
                }
                proof {
                    assert forall|q2: int, t2: int| !#[trigger] error_split(
                        v@,
                        b as int,
                        c as int,
                        q2,
                        t2,
                    ) by {
                        if error_split(v@, b as int, c as int, q2, t2) {
                            assert(v@[q2] != '\n');
                        }
                    }
                }
            }
        } else {
            proof {
                assert forall|q2: int, t2: int| !#[trigger] error_split(
                    v@,
                    b as int,
                    c as int,
                    q2,
                    t2,
                ) by {
                    if error_split(v@, b as int, c as int, q2, t2) {
                        assert(is_space(v@[c as int]));
                    }
                }
            }
        }
        c += 1;
    }
    None
}

/// The message of `line`, if it is an error line.
fn error_message_of(line: &str, v: &Vec<char>) -> (r: Option<String>)
    requires
        v@ == line@,
    ensures
        match r {
            Some(m) => error_message(line@) == Some(m@),
            None => error_message(line@).is_none(),
        },
{
    proof {
        reveal_strlit("Error");
    }
    let p = match stamp_end_of(v) {
        Some(p) => p,
        None => {
            return None;
        },
    };
    if !matches_at(v, p, "Error") {
        return None;
    }
    if !(p + 5 < v.len() && char_is_space(v[p + 5])) {
        return None;
    }
    let b = p + 6;
    assert(error_body(v@) == Some(b as int));
    match error_capture(v, b) {
        Some((q, t)) => {
            proof {
                let c = choose|c: int| is_error_capture(v@, b as int, c, q as int, t as int);
                lemma_error_message(v@, b as int, c, q as int, t as int);
            }
            Some(substring(line, q, t))
        },
        None => None,
    }
}

/// Whether `v` holds at `i` the words `changing state from(`.
fn change_marker_at(v: &Vec<char>, i: usize) -> (r: bool)
    requires
        i <= v.len(),
    ensures
        r == has_change_marker(v@, i as int),
        r ==> i + 20 <= v.len(),
{
    proof {
        reveal_strlit("changing");
        reveal_strlit("state");
        reveal_strlit("from(");
    }
    if !matches_at(v, i, "changing") {
        return false;
    }
    if !(v.len() - i > 8 && char_is_space(v[i + 8])) {
        return false;
    }
    if !matches_at(v, i + 9, "state") {
        return false;
    }
    if !(v.len() - i > 14 && char_is_space(v[i + 14])) {
        return false;
    }
    matches_at(v, i + 15, "from(")
}

/// Whether `v` holds at `j` a closing bracket, white space and `to(`.
fn to_marker_at(v: &Vec<char>, j: usize) -> (r: bool)
    requires
        j <= v.len(),
    ensures
        r == has_to_marker(v@, j as int),
        r ==> j + 5 <= v.len(),
{
    proof {
        reveal_strlit("to(");
    }
    v.len() - j > 1 && v[j] == ')' && char_is_space(v[j + 1]) && matches_at(v, j + 2, "to(")
}

/// The end of the shortest old name after the marker at `i`, where `f` is
/// the position after the last line feed before the line's last character.
fn find_to_marker(v: &Vec<char>, i: usize, f: usize) -> (r: Option<usize>)
    requires
        i + 20 <= v.len(),
        v.len() > 0,
        v[v.len() - 1] == ')',
        f <= v.len() - 1,
        no_newline(v@, f as int, v.len() - 1),
        f > 0 ==> v[f - 1] == '\n',
    ensures
        match r {
            Some(j) => j + 5 < v.len() - 1 && state_tail(v@, i as int, j as int) && forall|j2: int|
                #[trigger] state_tail(v@, i as int, j2) ==> j <= j2,
            None => forall|j2: int| !#[trigger] state_tail(v@, i as int, j2),
        },
{
    let n = v.len();
    if n - i < 28 {
        return None;
    }
    let mut j: usize = i + 21;
    while n - j > 6
        invariant
            i + 20 < j <= n == v.len(),
            n > 0,
            v[n - 1] == ')',
            f <= n - 1,
            no_newline(v@, f as int, n - 1),
            f > 0 ==> v[f - 1] == '\n',
            no_newline(v@, i + 20, j - 1),
            forall|j2: int| j2 < j ==> !#[trigger] state_tail(v@, i as int, j2),
        decreases n - j,
    {
        if v[j - 1] == '\n' {
            proof {
                assert forall|j2: int| !#[trigger] state_tail(v@, i as int, j2) by {
                    if state_tail(v@, i as int, j2) && j2 >= j {
                        assert(v@[j - 1] != '\n');
                    }
                }
            }
            return None;
        }
        if to_marker_at(v, j) && j + 5 >= f {
            proof {
                assert(state_tail(v@, i as int, j as int));
            }
            return Some(j);
        }
        proof {
            if state_tail(v@, i as int, j as int) {
                assert(v@[f - 1] != '\n');
            }
        }
        j += 1;
    }
    None
}

/// The preferred division of the state line `v` whose free text begins at
/// `b`: where the old state's name ends.
fn state_capture(v: &Vec<char>, b: usize) -> (r: Option<usize>)
    requires
        b <= v.len(),
    ensures
        match r {
            Some(j) => j + 5 < v.len() - 1 && exists|i: int|
                is_state_capture(v@, b as int, i, j as int),
            None => forall|i: int, j: int| !state_split(v@, b as int, i, j),
        },
{
    let n = v.len();
    if b >= n || v[n - 1] != ')' {
        return None;
    }
    let mut f: usize = n - 1;
    while f > 0 && v[f - 1] != '\n'
        invariant
            f <= n - 1,
            n == v.len(),
            no_newline(v@, f as int, n - 1),
        decreases f,
    {
        f -= 1;
    }
    let mut i: usize = b + 1;
    while i < n
        invariant
            b < i <= n == v.len(),
            v[n - 1] == ')',
            f <= n - 1,
            no_newline(v@, f as int, n - 1),
            f > 0 ==> v[f - 1] == '\n',
            no_newline(v@, b as int, i - 1),
            forall|i2: int, j2: int| i2 < i ==> !#[trigger] state_split(v@, b as int, i2, j2),
        decreases n - i,
    {
        if v[i - 1] == '\n' {
            proof {
                assert forall|i2: int, j2: int| !#[trigger] state_split(v@, b as int, i2, j2) by {
                    if state_split(v@, b as int, i2, j2) && i2 >= i {
                        assert(v@[i - 1] != '\n');
                    }
                }
            }
            return None;
        }
        if change_marker_at(v, i) {
            match find_to_marker(v, i, f) {
                Some(j) => {
                    proof {
                        assert(state_split(v@, b as int, i as int, j as int));
                        assert(is_state_capture(v@, b as int, i as int, j as int));
                    }
                    return Some(j);
                },
                None => {},
            }
        }
        i += 1;
    }
    None
}

/// The name of the new state of `line`, if it is a state line.
fn new_state_name_of(line: &str, v: &Vec<char>) -> (r: Option<String>)
    requires
        v@ == line@,
    ensures
        match r {
            Some(name) => new_state_name(line@) == Some(name@),
            None => new_state_name(line@).is_none(),
        },
{
    proof {
        reveal_strlit("Info");
    }
    let p = match stamp_end_of(v) {
        Some(p) => p,
        None => {
            return None;
        },
    };
    if !matches_at(v, p, "Info") {
        return None;
    }
    let b = p + 4;
    assert(state_body(v@) == Some(b as int));
    match state_capture(v, b) {
        Some(j) => {
            proof {
                let i = choose|i: int| is_state_capture(v@, b as int, i, j as int);
                lemma_new_state_name(v@, b as int, i, j as int);
            }
            Some(substring(line, j + 5, v.len() - 1))
        },
        None => None,
    }
}

/// Whether `v` holds two numerals at `i`.
fn two_numerals_at(v: &Vec<char>, i: usize) -> (r: bool)
    requires
        i + 2 <= v.len(),
    ensures
        r == two_numerals(v@, i as int),
{
    char_is_numeral(v[i]) && char_is_numeral(v[i + 1])
}

/// Where the tag of the event line `v` begins.
fn event_body_of(v: &Vec<char>) -> (r: Option<usize>)
    ensures
        match r {
            Some(g) => event_body(v@) == Some(g as int) && g <= v.len(),
            None => event_body(v@).is_none(),
        },
{
    let y = skip_numerals(v, 0);
    if y < 4 || v.len() - y < 17 {
        return None;
    }
    if v[y] == '-' && two_numerals_at(v, y + 1) && v[y + 3] == '-' && two_numerals_at(v, y + 4)
        && char_is_space(v[y + 6]) && two_numerals_at(v, y + 7) && v[y + 9] == ':' && two_numerals_at(
        v,
        y + 10,
    ) && v[y + 12] == ':' && two_numerals_at(v, y + 13) && char_is_space(v[y + 15]) && v[y + 16]
        == '[' {
        Some(y + 17)
    } else {
        None
    }
}

/// The preferred division of the event line `v` whose tag begins at `g`:
/// where the tag ends.
fn event_capture(v: &Vec<char>, g: usize) -> (r: Option<usize>)
    requires
        g <= v.len(),
    ensures
        match r {
            Some(h) => g < h && h + 2 < v.len() && is_event_capture(v@, g as int, h as int),
            None => forall|h: int| !event_split(v@, g as int, h),
        },
{
    let n = v.len();
    if n - g < 4 {
        return None;
    }
    let mut f: usize = n;
    while f > 0 && v[f - 1] != '\n'
        invariant
            f <= n == v.len(),
            no_newline(v@, f as int, n as int),
        decreases f,
    {
        f -= 1;
    }
    let mut h: usize = g + 1;
    while n - h > 2
        invariant
            g < h <= n == v.len(),
            f <= n,
            no_newline(v@, f as int, n as int),
            f > 0 ==> v[f - 1] == '\n',
            no_newline(v@, g as int, h - 1),
            forall|h2: int| h2 < h ==> !#[trigger] event_split(v@, g as int, h2),
        decreases n - h,
    {
        if v[h - 1] == '\n' {
            proof {
                assert forall|h2: int| !#[trigger] event_split(v@, g as int, h2) by {
                    if event_split(v@, g as int, h2) && h2 >= h {
                        assert(v@[h - 1] != '\n');
                    }
                }
            }
            return None;
        }
        if v[h] == ']' && char_is_space(v[h + 1]) && h + 2 >= f {
            proof {
                assert(event_split(v@, g as int, h as int));
            }
            return Some(h);
        }
        proof {
            if event_split(v@, g as int, h as int) {
                assert(v@[f - 1] != '\n');
            }
        }
        h += 1;
    }
    None
}

/// The tag and the message of `line`, if it is an event line.
fn event_parts_of(line: &str, v: &Vec<char>) -> (r: Option<(String, String)>)
    requires
        v@ == line@,
    ensures
        match r {
            Some((tag, message)) => event_parts(line@) == Some((tag@, message@)),
            None => event_parts(line@).is_none(),
        },
{
    let g = match event_body_of(v) {
        Some(g) => g,
        None => {
            return None;
        },
    };
    match event_capture(v, g) {
        Some(h) => {
            proof {
                lemma_event_parts(v@, g as int, h as int);
            }
            Some((substring(line, g, h), substring(line, h + 2, v.len())))
        },
        None => None,
    }
}

impl LogLine {
    /// Reads one line of the server's log.
    pub fn classify(line: &str) -> (r: LogLine)
        ensures
            r@ == classify(line@),
    {
        let v = chars_of(line);
        if let Some(message) = error_message_of(line, &v) {
            return LogLine::Error(message);
        }
        if let Some(name) = new_state_name_of(line, &v) {
            return LogLine::Transition(name);
        }
        if let Some((tag, message)) = event_parts_of(line, &v) {
            return LogLine::Event(tag, message);
        }
        LogLine::Other
    }
}

} // verus!
