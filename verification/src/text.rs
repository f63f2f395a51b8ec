//! What the readers of texts share: classes of characters, runs of
//! characters, fixed words at a position, and words between white space.

use vstd::prelude::*;
use vstd::string::*;

verus! {

/// Whether `c` is white space: the characters with the Unicode property
/// `White_Space`.
pub open spec fn is_space(c: char) -> bool {
    let u = c as u32;
    ||| 0x09 <= u <= 0x0d
    ||| u == 0x20
    ||| u == 0x85
    ||| u == 0xa0
    ||| u == 0x1680
    ||| 0x2000 <= u <= 0x200a
    ||| 0x2028 <= u <= 0x2029
    ||| u == 0x202f
    ||| u == 0x205f
    ||| u == 0x3000
}

/// Whether `c` is one of the digits `0` to `9`.
pub open spec fn is_digit(c: char) -> bool {
    '0' <= c <= '9'
}

/// Whether `c` is a numeral: a decimal digit of any script, that is a
/// character of the general category `Nd` of Unicode 16.
pub open spec fn is_numeral(c: char) -> bool {
    let u = c as u32;
    ||| 0x0030 <= u <= 0x0039
    ||| 0x0660 <= u <= 0x0669
    ||| 0x06f0 <= u <= 0x06f9
    ||| 0x07c0 <= u <= 0x07c9
    ||| 0x0966 <= u <= 0x096f
    ||| 0x09e6 <= u <= 0x09ef
    ||| 0x0a66 <= u <= 0x0a6f
    ||| 0x0ae6 <= u <= 0x0aef
    ||| 0x0b66 <= u <= 0x0b6f
    ||| 0x0be6 <= u <= 0x0bef
    ||| 0x0c66 <= u <= 0x0c6f
    ||| 0x0ce6 <= u <= 0x0cef
    ||| 0x0d66 <= u <= 0x0d6f
    ||| 0x0de6 <= u <= 0x0def
    ||| 0x0e50 <= u <= 0x0e59
    ||| 0x0ed0 <= u <= 0x0ed9
    ||| 0x0f20 <= u <= 0x0f29
    ||| 0x1040 <= u <= 0x1049
    ||| 0x1090 <= u <= 0x1099
    ||| 0x17e0 <= u <= 0x17e9
    ||| 0x1810 <= u <= 0x1819
    ||| 0x1946 <= u <= 0x194f
    ||| 0x19d0 <= u <= 0x19d9
    ||| 0x1a80 <= u <= 0x1a89
    ||| 0x1a90 <= u <= 0x1a99
    ||| 0x1b50 <= u <= 0x1b59
    ||| 0x1bb0 <= u <= 0x1bb9
    ||| 0x1c40 <= u <= 0x1c49
    ||| 0x1c50 <= u <= 0x1c59
    ||| 0xa620 <= u <= 0xa629
    ||| 0xa8d0 <= u <= 0xa8d9
    ||| 0xa900 <= u <= 0xa909
    ||| 0xa9d0 <= u <= 0xa9d9
    ||| 0xa9f0 <= u <= 0xa9f9
    ||| 0xaa50 <= u <= 0xaa59
    ||| 0xabf0 <= u <= 0xabf9
    ||| 0xff10 <= u <= 0xff19
    ||| 0x104a0 <= u <= 0x104a9
    ||| 0x10d30 <= u <= 0x10d39
    ||| 0x10d40 <= u <= 0x10d49
    ||| 0x11066 <= u <= 0x1106f
    ||| 0x110f0 <= u <= 0x110f9
    ||| 0x11136 <= u <= 0x1113f
    ||| 0x111d0 <= u <= 0x111d9
    ||| 0x112f0 <= u <= 0x112f9
    ||| 0x11450 <= u <= 0x11459
    ||| 0x114d0 <= u <= 0x114d9
    ||| 0x11650 <= u <= 0x11659
    ||| 0x116c0 <= u <= 0x116c9
    ||| 0x116d0 <= u <= 0x116e3
    ||| 0x11730 <= u <= 0x11739
    ||| 0x118e0 <= u <= 0x118e9
    ||| 0x11950 <= u <= 0x11959
    ||| 0x11bf0 <= u <= 0x11bf9
    ||| 0x11c50 <= u <= 0x11c59
    ||| 0x11d50 <= u <= 0x11d59
    ||| 0x11da0 <= u <= 0x11da9
    ||| 0x11f50 <= u <= 0x11f59
    ||| 0x16130 <= u <= 0x16139
    ||| 0x16a60 <= u <= 0x16a69
    ||| 0x16ac0 <= u <= 0x16ac9
    ||| 0x16b50 <= u <= 0x16b59
    ||| 0x16d70 <= u <= 0x16d79
    ||| 0x1ccf0 <= u <= 0x1ccf9
    ||| 0x1d7ce <= u <= 0x1d7ff
    ||| 0x1e140 <= u <= 0x1e149
    ||| 0x1e2f0 <= u <= 0x1e2f9
    ||| 0x1e4f0 <= u <= 0x1e4f9
    ||| 0x1e5f1 <= u <= 0x1e5fa
    ||| 0x1e950 <= u <= 0x1e959
    ||| 0x1fbf0 <= u <= 0x1fbf9
}

/// Every character of `s` from `from` up to `to` is white space.
pub open spec fn all_space(s: Seq<char>, from: int, to: int) -> bool {
    forall|k: int| from <= k < to ==> is_space(#[trigger] s[k])
}

/// No character of `s` from `from` up to `to` is a line feed.
pub open spec fn no_newline(s: Seq<char>, from: int, to: int) -> bool {
    forall|k: int| from <= k < to ==> #[trigger] s[k] != '\n'
}

/// `s` holds the characters of `lit` from position `i` on.
pub open spec fn has_at(s: Seq<char>, i: int, lit: Seq<char>) -> bool {
    &&& 0 <= i
    &&& i + lit.len() <= s.len()
    &&& s.subrange(i, i + lit.len()) == lit
}

/// The end of the run of white space that starts at `i`: the first position
/// from `i` on that holds no white space, or the length of `s`.
pub open spec fn spaces_end(s: Seq<char>, i: int) -> int
    decreases s.len() - i,
{
    if 0 <= i < s.len() && is_space(s[i]) {
        spaces_end(s, i + 1)
    } else {
        i
    }
}

/// The end of the run of digits that starts at `i`.
pub open spec fn digits_end(s: Seq<char>, i: int) -> int
    decreases s.len() - i,
{
    if 0 <= i < s.len() && is_digit(s[i]) {
        digits_end(s, i + 1)
    } else {
        i
    }
}

/// The end of the run of numerals that starts at `i`.
pub open spec fn numerals_end(s: Seq<char>, i: int) -> int
    decreases s.len() - i,
{
    if 0 <= i < s.len() && is_numeral(s[i]) {
        numerals_end(s, i + 1)
    } else {
        i
    }
}

/// The end of the run of characters other than white space that starts at `i`.
pub open spec fn word_end(s: Seq<char>, i: int) -> int
    decreases s.len() - i,
{
    if 0 <= i < s.len() && !is_space(s[i]) {
        word_end(s, i + 1)
    } else {
        i
    }
}

/// The first white-space delimited word of `s`, if it has one.
pub open spec fn first_word(s: Seq<char>) -> Option<Seq<char>> {
    let start = spaces_end(s, 0);
    if start < s.len() {
        Some(s.subrange(start, word_end(s, start)))
    } else {
        None
    }
}

/// What `spaces_end` returns is the end of a run of white space.
pub proof fn lemma_spaces_end(s: Seq<char>, i: int)
    requires
        0 <= i <= s.len(),
    ensures
        i <= spaces_end(s, i) <= s.len(),
        all_space(s, i, spaces_end(s, i)),
        spaces_end(s, i) < s.len() ==> !is_space(s[spaces_end(s, i)]),
    decreases s.len() - i,
{
    if i < s.len() && is_space(s[i]) {
        lemma_spaces_end(s, i + 1);
    }
}

/// What `digits_end` returns is the end of a run of digits.
pub proof fn lemma_digits_end(s: Seq<char>, i: int)
    requires
        0 <= i <= s.len(),
    ensures
        i <= digits_end(s, i) <= s.len(),
        forall|k: int| i <= k < digits_end(s, i) ==> is_digit(#[trigger] s[k]),
        digits_end(s, i) < s.len() ==> !is_digit(s[digits_end(s, i)]),
    decreases s.len() - i,
{
    if i < s.len() && is_digit(s[i]) {
        lemma_digits_end(s, i + 1);
    }
}

/// What `numerals_end` returns is the end of a run of numerals.
pub proof fn lemma_numerals_end(s: Seq<char>, i: int)
    requires
        0 <= i <= s.len(),
    ensures
        i <= numerals_end(s, i) <= s.len(),
        forall|k: int| i <= k < numerals_end(s, i) ==> is_numeral(#[trigger] s[k]),
        numerals_end(s, i) < s.len() ==> !is_numeral(s[numerals_end(s, i)]),
    decreases s.len() - i,
{
    if i < s.len() && is_numeral(s[i]) {
        lemma_numerals_end(s, i + 1);
    }
}

/// What `word_end` returns is the end of a run of characters that are not
/// white space.
pub proof fn lemma_word_end(s: Seq<char>, i: int)
    requires
        0 <= i <= s.len(),
    ensures
        i <= word_end(s, i) <= s.len(),
        forall|k: int| i <= k < word_end(s, i) ==> !is_space(#[trigger] s[k]),
        word_end(s, i) < s.len() ==> is_space(s[word_end(s, i)]),
    decreases s.len() - i,
{
    if i < s.len() && !is_space(s[i]) {
        lemma_word_end(s, i + 1);
    }
}

/// A run of digits that is followed by something else ends where `digits_end`
/// says.
pub proof fn lemma_digits_end_is(s: Seq<char>, i: int, j: int)
    requires
        0 <= i <= j <= s.len(),
        forall|k: int| i <= k < j ==> is_digit(#[trigger] s[k]),
        j < s.len() ==> !is_digit(s[j]),
    ensures
        digits_end(s, i) == j,
    decreases j - i,
{
    if i < j {
        lemma_digits_end_is(s, i + 1, j);
    }
}

/// The characters of `s`, in order.
pub(crate) fn chars_of(s: &str) -> (v: Vec<char>)
    ensures
        v@ == s@,
{
    let mut v: Vec<char> = Vec::new();
    for c in it: s.chars()
        invariant
            v@ == it.seq().take(it.index()),
    {
        v.push(c);
    }
    v
}

/// The characters of `s` from position `from` up to `to`, as a string.
pub(crate) fn substring(s: &str, from: usize, to: usize) -> (r: String)
    requires
        from <= to <= s@.len(),
    ensures
        r@ == s@.subrange(from as int, to as int),
{
    s.substring_char(from, to).to_owned()
}

/// Whether `c` is white space.
pub(crate) fn char_is_space(c: char) -> (r: bool)
    ensures
        r == is_space(c),
{
    let u: u32 = c as u32;
    (0x09 <= u && u <= 0x0d) || u == 0x20 || u == 0x85 || u == 0xa0 || u == 0x1680 || (0x2000 <= u
        && u <= 0x200a) || (0x2028 <= u && u <= 0x2029) || u == 0x202f || u == 0x205f || u
        == 0x3000
}

/// Whether `c` is one of the digits `0` to `9`.
pub(crate) fn char_is_digit(c: char) -> (r: bool)
    ensures
        r == is_digit(c),
{
    '0' <= c && c <= '9'
}

/// Whether `c` is a numeral.
pub(crate) fn char_is_numeral(c: char) -> (r: bool)
    ensures
        r == is_numeral(c),
{
    let u: u32 = c as u32;
    (0x0030 <= u && u <= 0x0039) || (0x0660 <= u && u <= 0x0669) || (0x06f0 <= u && u <= 0x06f9) || (0x07c0 <= u && u <= 0x07c9) || (0x0966 <= u && u <= 0x096f) || (0x09e6 <= u && u <= 0x09ef) || (0x0a66 <= u && u <= 0x0a6f) || (0x0ae6 <= u && u <= 0x0aef) || (0x0b66 <= u && u <= 0x0b6f) || (0x0be6 <= u && u <= 0x0bef) || (0x0c66 <= u && u <= 0x0c6f) || (0x0ce6 <= u && u <= 0x0cef) || (0x0d66 <= u && u <= 0x0d6f) || (0x0de6 <= u && u <= 0x0def) || (0x0e50 <= u && u <= 0x0e59) || (0x0ed0 <= u && u <= 0x0ed9) || (0x0f20 <= u && u <= 0x0f29) || (0x1040 <= u && u <= 0x1049) || (0x1090 <= u && u <= 0x1099) || (0x17e0 <= u && u <= 0x17e9) || (0x1810 <= u && u <= 0x1819) || (0x1946 <= u && u <= 0x194f) || (0x19d0 <= u && u <= 0x19d9) || (0x1a80 <= u && u <= 0x1a89) || (0x1a90 <= u && u <= 0x1a99) || (0x1b50 <= u && u <= 0x1b59) || (0x1bb0 <= u && u <= 0x1bb9) || (0x1c40 <= u && u <= 0x1c49) || (0x1c50 <= u && u <= 0x1c59) || (0xa620 <= u && u <= 0xa629) || (0xa8d0 <= u && u <= 0xa8d9) || (0xa900 <= u && u <= 0xa909) || (0xa9d0 <= u && u <= 0xa9d9) || (0xa9f0 <= u && u <= 0xa9f9) || (0xaa50 <= u && u <= 0xaa59) || (0xabf0 <= u && u <= 0xabf9) || (0xff10 <= u && u <= 0xff19) || (0x104a0 <= u && u <= 0x104a9) || (0x10d30 <= u && u <= 0x10d39) || (0x10d40 <= u && u <= 0x10d49) || (0x11066 <= u && u <= 0x1106f) || (0x110f0 <= u && u <= 0x110f9) || (0x11136 <= u && u <= 0x1113f) || (0x111d0 <= u && u <= 0x111d9) || (0x112f0 <= u && u <= 0x112f9) || (0x11450 <= u && u <= 0x11459) || (0x114d0 <= u && u <= 0x114d9) || (0x11650 <= u && u <= 0x11659) || (0x116c0 <= u && u <= 0x116c9) || (0x116d0 <= u && u <= 0x116e3) || (0x11730 <= u && u <= 0x11739) || (0x118e0 <= u && u <= 0x118e9) || (0x11950 <= u && u <= 0x11959) || (0x11bf0 <= u && u <= 0x11bf9) || (0x11c50 <= u && u <= 0x11c59) || (0x11d50 <= u && u <= 0x11d59) || (0x11da0 <= u && u <= 0x11da9) || (0x11f50 <= u && u <= 0x11f59) || (0x16130 <= u && u <= 0x16139) || (0x16a60 <= u && u <= 0x16a69) || (0x16ac0 <= u && u <= 0x16ac9) || (0x16b50 <= u && u <= 0x16b59) || (0x16d70 <= u && u <= 0x16d79) || (0x1ccf0 <= u && u <= 0x1ccf9) || (0x1d7ce <= u && u <= 0x1d7ff) || (0x1e140 <= u && u <= 0x1e149) || (0x1e2f0 <= u && u <= 0x1e2f9) || (0x1e4f0 <= u && u <= 0x1e4f9) || (0x1e5f1 <= u && u <= 0x1e5fa) || (0x1e950 <= u && u <= 0x1e959) || (0x1fbf0 <= u && u <= 0x1fbf9)
}

/// The end of the run of numerals that starts at `i`.
pub(crate) fn skip_numerals(v: &Vec<char>, i: usize) -> (j: usize)
    requires
        i <= v.len(),
    ensures
        j == numerals_end(v@, i as int),
        i <= j <= v.len(),
        forall|k: int| i <= k < j ==> is_numeral(#[trigger] v[k]),
        j < v.len() ==> !is_numeral(v[j as int]),
{
    proof {
        lemma_numerals_end(v@, i as int);
    }
    let mut j: usize = i;
    while j < v.len() && char_is_numeral(v[j])
        invariant
            i <= j <= v.len(),
            numerals_end(v@, j as int) == numerals_end(v@, i as int),
        decreases v.len() - j,
    {
        j += 1;
    }
    j
}

/// The end of the run of white space that starts at `i`.
pub(crate) fn skip_spaces(v: &Vec<char>, i: usize) -> (j: usize)
    requires
        i <= v.len(),
    ensures
        j == spaces_end(v@, i as int),
        i <= j <= v.len(),
        all_space(v@, i as int, j as int),
        j < v.len() ==> !is_space(v[j as int]),
{
    proof {
        lemma_spaces_end(v@, i as int);
    }
    let mut j: usize = i;
    while j < v.len() && char_is_space(v[j])
        invariant
            i <= j <= v.len(),
            spaces_end(v@, j as int) == spaces_end(v@, i as int),
        decreases v.len() - j,
    {
        j += 1;
    }
    j
}

/// The end of the run of digits that starts at `i`.
pub(crate) fn skip_digits(v: &Vec<char>, i: usize) -> (j: usize)
    requires
        i <= v.len(),
    ensures
        j == digits_end(v@, i as int),
        i <= j <= v.len(),
        forall|k: int| i <= k < j ==> is_digit(#[trigger] v[k]),
        j < v.len() ==> !is_digit(v[j as int]),
{
    proof {
        lemma_digits_end(v@, i as int);
    }
    let mut j: usize = i;
    while j < v.len() && char_is_digit(v[j])
        invariant
            i <= j <= v.len(),
            digits_end(v@, j as int) == digits_end(v@, i as int),
        decreases v.len() - j,
    {
        j += 1;
    }
    j
}

/// The end of the run of characters other than white space that starts at
/// `i`.
pub(crate) fn skip_word(v: &Vec<char>, i: usize) -> (j: usize)
    requires
        i <= v.len(),
    ensures
        j == word_end(v@, i as int),
        i <= j <= v.len(),
{
    proof {
        lemma_word_end(v@, i as int);
    }
    let mut j: usize = i;
    while j < v.len() && !char_is_space(v[j])
        invariant
            i <= j <= v.len(),
            word_end(v@, j as int) == word_end(v@, i as int),
        decreases v.len() - j,
    {
        j += 1;
    }
    j
}

/// Whether `v` holds the characters of `lit` from position `i` on.
pub(crate) fn matches_at(v: &Vec<char>, i: usize, lit: &str) -> (r: bool)
    requires
        i <= v.len(),
    ensures
        r == has_at(v@, i as int, lit@),
{
    let l = chars_of(lit);
    if l.len() > v.len() - i {
        return false;
    }
    let mut k: usize = 0;
    while k < l.len()
        invariant
            k <= l.len(),
            i + l.len() <= v.len(),
            l@ == lit@,
            forall|m: int| 0 <= m < k ==> v[i + m] == l[m],
        decreases l.len() - k,
    {
        if v[i + k] != l[k] {
            proof {
                let sub = v@.subrange(i as int, i + l.len());
                assert(sub[k as int] == v[i + k]);
            }
            return false;
        }
        k += 1;
    }
    proof {
        assert(v@.subrange(i as int, i + l.len()) =~= l@);
    }
    true
}

/// The texts of a list of strings.
pub open spec fn strings_view(strings: Seq<String>) -> Seq<Seq<char>> {
    strings.map_values(|s: String| s@)
}

/// Whether `v` holds exactly the characters of `lit`.
pub(crate) fn equals(v: &Vec<char>, lit: &str) -> (r: bool)
    ensures
        r == (v@ == lit@),
{
    let r = matches_at(v, 0, lit);
    if r {
        let n = lit.unicode_len();
        proof {
            if n == v.len() {
                assert(v@.subrange(0, n as int) =~= v@);
            }
        }
        n == v.len()
    } else {
        proof {
            if v@ == lit@ {
                assert(v@.subrange(0, lit@.len() as int) =~= v@);
            }
        }
        false
    }
}

/// The text that the standard library writes for a string under `{:?}`.
pub uninterp spec fn debug_text(s: Seq<char>) -> Seq<char>;

/// Calls the standard library's `Debug` formatting of `str`. The result is
/// named, not described: it is `debug_text` of the string.
#[verifier::external_body]
pub(crate) fn debug_string(s: &str) -> (r: String)
    ensures
        r@ == debug_text(s@),
{
    format!("{:?}", s)
}

/// The first white-space delimited word of `s`.
pub fn first_word_of(s: &str) -> (r: Option<String>)
    ensures
        match r {
            Some(w) => first_word(s@) == Some(w@),
            None => first_word(s@).is_none(),
        },
{
    let v = chars_of(s);
    let start = skip_spaces(&v, 0);
    if start < v.len() {
        let end = skip_word(&v, start);
        Some(substring(s, start, end))
    } else {
        None
    }
}

} // verus!
