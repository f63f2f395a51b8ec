//! Lines as the server writes them: that a line put together from its parts
//! is read as the line of those parts.

use vstd::prelude::*;
use crate::log_line::{
    classify,
    error_body,
    error_message,
    error_split,
    event_body,
    event_split,
    has_change_marker,
    has_to_marker,
    is_error_capture,
    is_event_capture,
    is_goodbye,
    is_state_capture,
    lemma_error_message,
    lemma_event_parts,
    lemma_new_state_name,
    stamp_end,
    state_body,
    state_split,
    state_tail,
    LogLineView,
};
use crate::text::{
    all_space,
    first_word,
    has_at,
    is_numeral,
    is_space,
    lemma_numerals_end,
    lemma_spaces_end,
    no_newline,
    numerals_end,
    spaces_end,
    word_end,
};

verus! {

/// Whether `stamp` is a time stamp with the white-space character after it,
/// and nothing more.
pub open spec fn is_stamp(stamp: Seq<char>) -> bool {
    stamp_end(stamp) == Some(stamp.len() as int)
}

/// Whether `head` is the head of an event line, up to the square bracket
/// that opens the tag, and nothing more.
pub open spec fn is_event_head(head: Seq<char>) -> bool {
    event_body(head) == Some(head.len() as int)
}

/// No character of `s` is `c`.
pub open spec fn free_of(s: Seq<char>, c: char) -> bool {
    forall|k: int| 0 <= k < s.len() ==> #[trigger] s[k] != c
}

/// No character of `s` is white space.
pub open spec fn free_of_space(s: Seq<char>) -> bool {
    forall|k: int| 0 <= k < s.len() ==> !is_space(#[trigger] s[k])
}

/// Every character of `s` is a numeral.
pub open spec fn all_numerals(s: Seq<char>) -> bool {
    forall|k: int| 0 <= k < s.len() ==> is_numeral(#[trigger] s[k])
}

/// A run of white space that is followed by something else ends there.
proof fn lemma_spaces_end_is(s: Seq<char>, i: int, j: int)
    requires
        0 <= i <= j <= s.len(),
        all_space(s, i, j),
        j < s.len() ==> !is_space(s[j]),
    ensures
        spaces_end(s, i) == j,
    decreases j - i,
{
    if i < j {
        lemma_spaces_end_is(s, i + 1, j);
    }
}

/// A run of numerals that is followed by something else ends there.
proof fn lemma_numerals_end_is(s: Seq<char>, i: int, j: int)
    requires
        0 <= i <= j <= s.len(),
        forall|k: int| i <= k < j ==> is_numeral(#[trigger] s[k]),
        j < s.len() ==> !is_numeral(s[j]),
    ensures
        numerals_end(s, i) == j,
    decreases j - i,
{
    if i < j {
        lemma_numerals_end_is(s, i + 1, j);
    }
}

/// A run of characters other than white space that is followed by white
/// space ends there.
proof fn lemma_word_end_is(s: Seq<char>, i: int, j: int)
    requires
        0 <= i <= j <= s.len(),
        forall|k: int| i <= k < j ==> !is_space(#[trigger] s[k]),
        j < s.len() ==> is_space(s[j]),
    ensures
        word_end(s, i) == j,
    decreases j - i,
{
    if i < j {
        lemma_word_end_is(s, i + 1, j);
    }
}

/// White space, numerals, a full stop, numerals and a white-space character
/// are a time stamp.
pub proof fn lemma_stamp(lead: Seq<char>, seconds: Seq<char>, fraction: Seq<char>, gap: char)
    requires
        all_space(lead, 0, lead.len() as int),
        seconds.len() > 0,
        all_numerals(seconds),
        fraction.len() > 0,
        all_numerals(fraction),
        is_space(gap),
    ensures
        is_stamp(lead + seconds + seq!['.'] + fraction + seq![gap]),
{
    let stamp = lead + seconds + seq!['.'] + fraction + seq![gap];
    let a = lead.len() as int;
    let b = a + seconds.len();
    let c = b + 1 + fraction.len();
    assert(stamp.len() == c + 1);
    assert forall|k: int| 0 <= k < a implies stamp[k] == lead[k] by {}
    assert forall|k: int| 0 <= k < seconds.len() implies stamp[a + k] == seconds[k] by {}
    assert(stamp[b] == '.');
    assert forall|k: int| 0 <= k < fraction.len() implies stamp[b + 1 + k] == fraction[k] by {}
    assert(stamp[c] == gap);
    assert(stamp[a + 0] == seconds[0]);
    assert(all_space(stamp, 0, a)) by {
        assert forall|k: int| 0 <= k < a implies is_space(#[trigger] stamp[k]) by {
            assert(stamp[k] == lead[k]);
        }
    }
    lemma_spaces_end_is(stamp, 0, a);
    assert forall|k: int| a <= k < b implies is_numeral(#[trigger] stamp[k]) by {
        assert(stamp[a + (k - a)] == seconds[k - a]);
    }
    lemma_numerals_end_is(stamp, a, b);
    assert forall|k: int| b + 1 <= k < c implies is_numeral(#[trigger] stamp[k]) by {
        assert(stamp[b + 1 + (k - b - 1)] == fraction[k - b - 1]);
    }
    lemma_numerals_end_is(stamp, b + 1, c);
}

/// A date of four or more numerals, two numerals and two numerals with
/// hyphens between them, a white-space character, a time of three times two
/// numerals with colons between them, a white-space character and an
/// opening square bracket are the head of an event line.
pub proof fn lemma_event_head(
    year: Seq<char>,
    month: Seq<char>,
    day: Seq<char>,
    gap: char,
    hour: Seq<char>,
    minute: Seq<char>,
    second: Seq<char>,
    last_gap: char,
)
    requires
        year.len() >= 4,
        all_numerals(year),
        month.len() == 2,
        all_numerals(month),
        day.len() == 2,
        all_numerals(day),
        is_space(gap),
        hour.len() == 2,
        all_numerals(hour),
        minute.len() == 2,
        all_numerals(minute),
        second.len() == 2,
        all_numerals(second),
        is_space(last_gap),
    ensures
        is_event_head(
            year + seq!['-'] + month + seq!['-'] + day + seq![gap] + hour + seq![':'] + minute
                + seq![':'] + second + seq![last_gap] + seq!['['],
        ),
{
    let head = year + seq!['-'] + month + seq!['-'] + day + seq![gap] + hour + seq![':'] + minute
        + seq![':'] + second + seq![last_gap] + seq!['['];
    let y = year.len() as int;
    assert(head.len() == y + 17);
    assert forall|k: int| 0 <= k < y implies head[k] == year[k] by {}
    assert(head[y] == '-');
    assert(head[y + 1] == month[0] && head[y + 2] == month[1]);
    assert(head[y + 3] == '-');
    assert(head[y + 4] == day[0] && head[y + 5] == day[1]);
    assert(head[y + 6] == gap);
    assert(head[y + 7] == hour[0] && head[y + 8] == hour[1]);
    assert(head[y + 9] == ':');
    assert(head[y + 10] == minute[0] && head[y + 11] == minute[1]);
    assert(head[y + 12] == ':');
    assert(head[y + 13] == second[0] && head[y + 14] == second[1]);
    assert(head[y + 15] == last_gap);
    assert(head[y + 16] == '[');
    assert forall|k: int| 0 <= k < y implies is_numeral(#[trigger] head[k]) by {
        assert(head[k] == year[k]);
    }
    lemma_numerals_end_is(head, 0, y);
}

/// The first word of a text that begins with a word and goes on with white
/// space, if it goes on, is that word.
pub proof fn lemma_first_word(word: Seq<char>, rest: Seq<char>)
    requires
        word.len() > 0,
        free_of_space(word),
        rest.len() > 0 ==> is_space(rest[0]),
    ensures
        first_word(word + rest) == Some(word),
{
    let s = word + rest;
    let n = word.len() as int;
    assert forall|k: int| 0 <= k < n implies s[k] == word[k] by {}
    assert(s[0] == word[0]);
    lemma_spaces_end_is(s, 0, 0);
    if rest.len() > 0 {
        assert(s[n] == rest[0]);
    }
    assert forall|k: int| 0 <= k < n implies !is_space(#[trigger] s[k]) by {
        assert(s[k] == word[k]);
    }
    lemma_word_end_is(s, 0, n);
    assert(s.subrange(0, n) =~= word);
}

/// A run of white space that ends before the end of a text ends at the same
/// place when the text goes on.
proof fn lemma_spaces_end_extends(s: Seq<char>, rest: Seq<char>, i: int)
    requires
        0 <= i <= s.len(),
        spaces_end(s, i) < s.len(),
    ensures
        spaces_end(s + rest, i) == spaces_end(s, i),
    decreases s.len() - i,
{
    if i < s.len() {
        assert((s + rest)[i] == s[i]);
        if is_space(s[i]) {
            lemma_spaces_end_extends(s, rest, i + 1);
        }
    }
}

/// A run of numerals that ends before the end of a text ends at the same
/// place when the text goes on.
proof fn lemma_numerals_end_extends(s: Seq<char>, rest: Seq<char>, i: int)
    requires
        0 <= i <= s.len(),
        numerals_end(s, i) < s.len(),
    ensures
        numerals_end(s + rest, i) == numerals_end(s, i),
    decreases s.len() - i,
{
    if i < s.len() {
        assert((s + rest)[i] == s[i]);
        if is_numeral(s[i]) {
            lemma_numerals_end_extends(s, rest, i + 1);
        }
    }
}

/// A text that begins with a time stamp has its time stamp end there.
pub proof fn lemma_stamp_then(stamp: Seq<char>, rest: Seq<char>)
    requires
        is_stamp(stamp),
    ensures
        stamp_end(stamp + rest) == Some(stamp.len() as int),
{
    let line = stamp + rest;
    let a = spaces_end(stamp, 0);
    let b = numerals_end(stamp, a);
    let c = numerals_end(stamp, b + 1);
    lemma_spaces_end(stamp, 0);
    lemma_numerals_end(stamp, a);
    lemma_numerals_end(stamp, b + 1);
    lemma_spaces_end_extends(stamp, rest, 0);
    lemma_numerals_end_extends(stamp, rest, a);
    lemma_numerals_end_extends(stamp, rest, b + 1);
    assert(line[b] == stamp[b]);
    assert(line[c] == stamp[c]);
}

/// A text that begins with the head of an event line has its tag begin
/// there.
pub proof fn lemma_event_head_then(head: Seq<char>, rest: Seq<char>)
    requires
        is_event_head(head),
    ensures
        event_body(head + rest) == Some(head.len() as int),
        stamp_end(head + rest).is_none(),
{
    let line = head + rest;
    let y = numerals_end(head, 0);
    lemma_numerals_end(head, 0);
    lemma_numerals_end_extends(head, rest, 0);
    assert forall|k: int| 0 <= k < head.len() implies line[k] == head[k] by {}
    assert(line[y] == head[y]);
    assert(line[y + 1] == head[y + 1]);
    assert(line[y + 2] == head[y + 2]);
    assert(line[y + 3] == head[y + 3]);
    assert(line[y + 4] == head[y + 4]);
    assert(line[y + 5] == head[y + 5]);
    assert(line[y + 6] == head[y + 6]);
    assert(line[y + 7] == head[y + 7]);
    assert(line[y + 8] == head[y + 8]);
    assert(line[y + 9] == head[y + 9]);
    assert(line[y + 10] == head[y + 10]);
    assert(line[y + 11] == head[y + 11]);
    assert(line[y + 12] == head[y + 12]);
    assert(line[y + 13] == head[y + 13]);
    assert(line[y + 14] == head[y + 14]);
    assert(line[y + 15] == head[y + 15]);
    assert(line[y + 16] == head[y + 16]);
    // No time stamp: the line begins with numerals, and a hyphen follows.
    assert(line[0] == head[0]);
    assert(is_numeral(line[0]));
    assert(!is_space(line[0]));
    assert(spaces_end(line, 0) == 0);
}

/// A time stamp and `Goodbye` is the server's last line.
pub proof fn lemma_goodbye_line(stamp: Seq<char>)
    requires
        is_stamp(stamp),
    ensures
        is_goodbye(stamp + "Goodbye"@),
{
    let line = stamp + "Goodbye"@;
    lemma_stamp_then(stamp, "Goodbye"@);
    assert(line.subrange(stamp.len() as int, line.len() as int) =~= "Goodbye"@);
}

/// Whether `line` holds, from position `b` on, the free text, the marker,
/// the old name, `) to(`, the new name and a closing bracket.
spec fn state_laid_out(
    line: Seq<char>,
    b: int,
    free: Seq<char>,
    old: Seq<char>,
    new: Seq<char>,
) -> bool {
    let i0 = b + free.len();
    let j0 = i0 + 20 + old.len();
    &&& 0 <= b
    &&& line.len() == j0 + 5 + new.len() + 1
    &&& forall|k: int| 0 <= k < free.len() ==> line[b + k] == #[trigger] free[k]
    &&& has_change_marker(line, i0)
    &&& forall|k: int| 0 <= k < 19 ==> #[trigger] line[i0 + k] != '('
    &&& forall|k: int| 0 <= k < old.len() ==> line[i0 + 20 + k] == #[trigger] old[k]
    &&& has_to_marker(line, j0)
    &&& forall|k: int| 0 <= k < new.len() ==> line[j0 + 5 + k] == #[trigger] new[k]
    &&& line[line.len() - 1] == ')'
}

/// A line that is put together from the parts of a state line holds them
/// where they were put.
proof fn lemma_state_layout(stamp: Seq<char>, free: Seq<char>, old: Seq<char>, new: Seq<char>)
    requires
        is_stamp(stamp),
    ensures
        ({
            let line = stamp + "Info"@ + free + "changing state from("@ + old + ") to("@ + new
                + ")"@;
            &&& stamp_end(line) == Some(stamp.len() as int)
            &&& state_body(line) == Some(stamp.len() as int + 4)
            &&& error_body(line).is_none()
            &&& state_laid_out(line, stamp.len() as int + 4, free, old, new)
        }),
{
    reveal_strlit("Info");
    reveal_strlit("Error");
    reveal_strlit("changing state from(");
    reveal_strlit("changing");
    reveal_strlit("state");
    reveal_strlit("from(");
    reveal_strlit(") to(");
    reveal_strlit("to(");
    reveal_strlit(")");
    let marker = "changing state from("@;
    let rest = "Info"@ + free + marker + old + ") to("@ + new + ")"@;
    let line = stamp + "Info"@ + free + marker + old + ") to("@ + new + ")"@;
    assert(line =~= stamp + rest);
    lemma_stamp_then(stamp, rest);
    let p = stamp.len() as int;
    let b = p + 4;
    let i0 = b + free.len();
    let j0 = i0 + 20 + old.len();
    let n = line.len() as int;
    assert(n == j0 + 5 + new.len() + 1);
    assert forall|k: int| 0 <= k < 4 implies line[p + k] == "Info"@[k] by {}
    assert forall|k: int| 0 <= k < free.len() implies line[b + k] == free[k] by {}
    assert forall|k: int| 0 <= k < 20 implies line[i0 + k] == marker[k] by {}
    assert forall|k: int| 0 <= k < old.len() implies line[i0 + 20 + k] == old[k] by {}
    assert forall|k: int| 0 <= k < 5 implies line[j0 + k] == ") to("@[k] by {}
    assert forall|k: int| 0 <= k < new.len() implies line[j0 + 5 + k] == new[k] by {}
    assert(line[n - 1] == ')');
    assert(line.subrange(p, p + 4) =~= "Info"@);
    assert(!has_at(line, p, "Error"@)) by {
        if has_at(line, p, "Error"@) {
            assert(line.subrange(p, p + 5)[0] == 'E');
            assert(line[p + 0] == "Info"@[0]);
        }
    }
    assert(line.subrange(i0, i0 + 8) =~= "changing"@);
    assert(line.subrange(i0 + 9, i0 + 14) =~= "state"@);
    assert(line.subrange(i0 + 15, i0 + 20) =~= "from("@);
    assert(line[i0 + 8] == marker[8]);
    assert(line[i0 + 14] == marker[14]);
    assert(has_change_marker(line, i0));
    assert(line.subrange(j0 + 2, j0 + 5) =~= "to("@);
    assert(line[j0 + 0] == ") to("@[0]);
    assert(line[j0 + 1] == ") to("@[1]);
    assert(has_to_marker(line, j0));
    assert forall|k: int| 0 <= k < 19 implies #[trigger] line[i0 + k] != '(' by {
        assert(line[i0 + k] == marker[k]);
    }
}

/// In a line that holds the parts of a state line, the division at the
/// parts is the preferred one.
proof fn lemma_state_division(
    line: Seq<char>,
    b: int,
    free: Seq<char>,
    old: Seq<char>,
    new: Seq<char>,
)
    requires
        state_laid_out(line, b, free, old, new),
        free.len() > 0,
        no_newline(free, 0, free.len() as int),
        free_of(free, '('),
        old.len() > 0,
        no_newline(old, 0, old.len() as int),
        free_of(old, ')'),
        new.len() > 0,
        no_newline(new, 0, new.len() as int),
    ensures
        is_state_capture(line, b, b + free.len(), b + free.len() + 20 + old.len()),
        line.subrange(b + free.len() + 20 + old.len() + 5, line.len() - 1) == new,
{
    reveal_strlit("from(");
    let i0 = b + free.len();
    let j0 = i0 + 20 + old.len();
    let n = line.len() as int;
    assert(no_newline(line, b, i0)) by {
        assert forall|k: int| b <= k < i0 implies line[k] != '\n' by {
            assert(line[b + (k - b)] == free[k - b]);
        }
    }
    assert(no_newline(line, i0 + 20, j0)) by {
        assert forall|k: int| i0 + 20 <= k < j0 implies line[k] != '\n' by {
            assert(line[i0 + 20 + (k - i0 - 20)] == old[k - i0 - 20]);
        }
    }
    assert(no_newline(line, j0 + 5, n - 1)) by {
        assert forall|k: int| j0 + 5 <= k < n - 1 implies line[k] != '\n' by {
            assert(line[j0 + 5 + (k - j0 - 5)] == new[k - j0 - 5]);
        }
    }
    assert(state_tail(line, i0, j0));
    assert(state_split(line, b, i0, j0));
    assert forall|i2: int, j2: int| #[trigger] state_split(line, b, i2, j2) implies i0 < i2 || (i0
        == i2 && j0 <= j2) by {
        assert(line.subrange(i2 + 15, i2 + 20)[4] == '(');
        assert(line[i2 + 19] == '(');
        if i2 < i0 {
            let k = i2 + 19;
            if k < i0 {
                assert(line[b + (k - b)] == free[k - b]);
            } else {
                assert(line[i0 + (k - i0)] != '(');
            }
            assert(false);
        }
        if i2 == i0 && j2 < j0 {
            assert(line[i0 + 20 + (j2 - i0 - 20)] == old[j2 - i0 - 20]);
            assert(false);
        }
    }
    assert(line.subrange(j0 + 5, n - 1) =~= new) by {
        assert forall|k: int| 0 <= k < new.len() implies line.subrange(j0 + 5, n - 1)[k]
            == new[k] by {
            assert(line[j0 + 5 + k] == new[k]);
        }
    }
}

/// A time stamp, `Info`, free text, `changing state from(`, the old state's
/// name, `) to(`, the new state's name and a closing bracket is read as the
/// change to the new state, where the free text holds no opening bracket
/// and the old name no closing one.
pub proof fn lemma_state_line(stamp: Seq<char>, free: Seq<char>, old: Seq<char>, new: Seq<char>)
    requires
        is_stamp(stamp),
        free.len() > 0,
        no_newline(free, 0, free.len() as int),
        free_of(free, '('),
        old.len() > 0,
        no_newline(old, 0, old.len() as int),
        free_of(old, ')'),
        new.len() > 0,
        no_newline(new, 0, new.len() as int),
    ensures
        classify(
            stamp + "Info"@ + free + "changing state from("@ + old + ") to("@ + new + ")"@,
        ) == LogLineView::Transition(new),
{
    let line = stamp + "Info"@ + free + "changing state from("@ + old + ") to("@ + new + ")"@;
    let b = stamp.len() as int + 4;
    lemma_state_layout(stamp, free, old, new);
    lemma_state_division(line, b, free, old, new);
    lemma_new_state_name(line, b, b + free.len(), b + free.len() + 20 + old.len());
    assert(error_message(line).is_none());
}

/// A time stamp, `Error`, a component, white space, a message and white
/// space to the end is read as the error with that message, where the
/// component holds no white space and the message neither begins nor ends
/// with any.
pub proof fn lemma_error_line(
    stamp: Seq<char>,
    component: Seq<char>,
    gap: Seq<char>,
    message: Seq<char>,
    trail: Seq<char>,
)
    requires
        is_stamp(stamp),
        component.len() > 0,
        free_of_space(component),
        gap.len() > 0,
        all_space(gap, 0, gap.len() as int),
        message.len() > 0,
        no_newline(message, 0, message.len() as int),
        !is_space(message.first()),
        !is_space(message.last()),
        all_space(trail, 0, trail.len() as int),
    ensures
        classify(stamp + "Error "@ + component + gap + message + trail) == LogLineView::Error(
            message,
        ),
{
    reveal_strlit("Error ");
    reveal_strlit("Error");
    let rest = "Error "@ + component + gap + message + trail;
    let line = stamp + "Error "@ + component + gap + message + trail;
    assert(line =~= stamp + rest);
    lemma_stamp_then(stamp, rest);
    let p = stamp.len() as int;
    let b = p + 6;
    let c0 = b + component.len();
    let q0 = c0 + gap.len();
    let t0 = q0 + message.len();
    let n = line.len() as int;
    assert(n == t0 + trail.len());
    assert forall|k: int| 0 <= k < 6 implies line[p + k] == "Error "@[k] by {}
    assert forall|k: int| 0 <= k < component.len() implies line[b + k] == component[k] by {}
    assert forall|k: int| 0 <= k < gap.len() implies line[c0 + k] == gap[k] by {}
    assert forall|k: int| 0 <= k < message.len() implies line[q0 + k] == message[k] by {}
    assert forall|k: int| 0 <= k < trail.len() implies line[t0 + k] == trail[k] by {}
    assert(line.subrange(p, p + 5) =~= "Error"@);
    assert(line[p + 5] == "Error "@[5]);
    assert(error_body(line) == Some(b));
    assert(no_newline(line, b, c0)) by {
        assert forall|k: int| b <= k < c0 implies line[k] != '\n' by {
            assert(line[b + (k - b)] == component[k - b]);
        }
    }
    assert(all_space(line, c0, q0)) by {
        assert forall|k: int| c0 <= k < q0 implies is_space(#[trigger] line[k]) by {
            assert(line[c0 + (k - c0)] == gap[k - c0]);
        }
    }
    assert(no_newline(line, q0, t0)) by {
        assert forall|k: int| q0 <= k < t0 implies line[k] != '\n' by {
            assert(line[q0 + (k - q0)] == message[k - q0]);
        }
    }
    assert(all_space(line, t0, n)) by {
        assert forall|k: int| t0 <= k < n implies is_space(#[trigger] line[k]) by {
            assert(line[t0 + (k - t0)] == trail[k - t0]);
        }
    }
    assert(error_split(line, b, c0, q0, t0));
    assert forall|c2: int, q2: int, t2: int| #[trigger]
        error_split(line, b, c2, q2, t2) implies c0 < c2 || (c0 == c2 && (q0 > q2 || (q0 == q2
        && t0 <= t2))) by {
        if c2 < c0 {
            assert(is_space(line[c2]));
            assert(line[b + (c2 - b)] == component[c2 - b]);
            assert(false);
        }
        if c2 == c0 {
            if q2 > q0 {
                assert(is_space(line[q0]));
                assert(line[q0 + 0] == message[0]);
                assert(false);
            }
            if q2 == q0 && t2 < t0 {
                assert(is_space(line[t0 - 1]));
                assert(line[q0 + (message.len() - 1)] == message[message.len() - 1]);
                assert(false);
            }
        }
    }
    assert(is_error_capture(line, b, c0, q0, t0));
    lemma_error_message(line, b, c0, q0, t0);
    assert(line.subrange(q0, t0) =~= message);
}

/// The head of an event line, a tag, a closing square bracket, a space and
/// a message is read as the event with that tag and message, where the tag
/// holds no closing square bracket.
pub proof fn lemma_event_line(head: Seq<char>, tag: Seq<char>, message: Seq<char>)
    requires
        is_event_head(head),
        tag.len() > 0,
        no_newline(tag, 0, tag.len() as int),
        free_of(tag, ']'),
        message.len() > 0,
        no_newline(message, 0, message.len() as int),
    ensures
        classify(head + tag + "] "@ + message) == LogLineView::Event(tag, message),
{
    reveal_strlit("] ");
    let rest = tag + "] "@ + message;
    let line = head + tag + "] "@ + message;
    assert(line =~= head + rest);
    lemma_event_head_then(head, rest);
    let g = head.len() as int;
    let h0 = g + tag.len();
    let n = line.len() as int;
    assert(n == h0 + 2 + message.len());
    assert forall|k: int| 0 <= k < tag.len() implies line[g + k] == tag[k] by {}
    assert forall|k: int| 0 <= k < 2 implies line[h0 + k] == "] "@[k] by {}
    assert forall|k: int| 0 <= k < message.len() implies line[h0 + 2 + k] == message[k] by {}
    assert(line[h0 + 0] == ']');
    assert(line[h0 + 1] == ' ');
    assert(no_newline(line, g, h0)) by {
        assert forall|k: int| g <= k < h0 implies line[k] != '\n' by {
            assert(line[g + (k - g)] == tag[k - g]);
        }
    }
    assert(no_newline(line, h0 + 2, n)) by {
        assert forall|k: int| h0 + 2 <= k < n implies line[k] != '\n' by {
            assert(line[h0 + 2 + (k - h0 - 2)] == message[k - h0 - 2]);
        }
    }
    assert(event_split(line, g, h0));
    assert forall|h2: int| #[trigger] event_split(line, g, h2) implies h0 <= h2 by {
        if h2 < h0 {
            assert(line[g + (h2 - g)] == tag[h2 - g]);
            assert(false);
        }
    }
    assert(is_event_capture(line, g, h0));
    lemma_event_parts(line, g, h0);
    assert(line.subrange(g, h0) =~= tag);
    assert(line.subrange(h0 + 2, n) =~= message);
    assert(error_body(line).is_none());
    assert(state_body(line).is_none());
}

} // verus!
