//! The custom list of devices: the text `name:cores,name:cores,...` by
//! which more kinds of device are made known, or known ones are changed.

use crate::error::GPUError;
use vstd::prelude::*;

verus! {

/// `String::push`: appends one character.
#[verifier::external_body]
fn string_push(s: &mut String, c: char)
    ensures
        final(s)@ == old(s)@.push(c),
{
    s.push(c)
}

/// The place of the first `sep` in `s`, or the length of `s` if there is
/// none.
pub open spec fn first_of(s: Seq<char>, sep: char) -> int
    decreases s.len(),
{
    if s.len() == 0 || s[0] == sep {
        0
    } else {
        1 + first_of(s.drop_first(), sep)
    }
}

/// The fields of `s` between the separators `sep`. There is always one
/// field at least, and a field may be empty.
pub open spec fn fields(s: Seq<char>, sep: char) -> Seq<Seq<char>>
    decreases s.len(),
    via fields_decreases
{
    let i = first_of(s, sep);
    if i >= s.len() {
        seq![s]
    } else {
        seq![s.subrange(0, i)] + fields(s.subrange(i + 1, s.len() as int), sep)
    }
}

#[via_fn]
proof fn fields_decreases(s: Seq<char>, sep: char) {
    lemma_first_of(s, sep);
}

/// The first separator lies in the text, and none lies before it.
pub proof fn lemma_first_of(s: Seq<char>, sep: char)
    ensures
        0 <= first_of(s, sep) <= s.len(),
        first_of(s, sep) < s.len() ==> s[first_of(s, sep)] == sep,
        forall|j: int| 0 <= j < first_of(s, sep) ==> s[j] != sep,
    decreases s.len(),
{
    if s.len() != 0 && s[0] != sep {
        lemma_first_of(s.drop_first(), sep);
        assert forall|j: int| 0 <= j < first_of(s, sep) implies s[j] != sep by {
            if j > 0 {
                assert(s.drop_first()[j - 1] == s[j]);
            }
        }
    }
}

/// Whether `c` is white space: a character with the property `White_Space`
/// of the Unicode standard.
pub open spec fn is_white(c: char) -> bool {
    let u = c as u32;
    ||| 0x09 <= u <= 0x0d
    ||| u == 0x20
    ||| u == 0x85
    ||| u == 0xa0
    ||| u == 0x1680
    ||| 0x2000 <= u <= 0x200a
    ||| u == 0x2028
    ||| u == 0x2029
    ||| u == 0x202f
    ||| u == 0x205f
    ||| u == 0x3000
}

/// `s` without the white space at its start.
pub open spec fn trim_start(s: Seq<char>) -> Seq<char>
    decreases s.len(),
{
    if s.len() > 0 && is_white(s[0]) {
        trim_start(s.drop_first())
    } else {
        s
    }
}

/// `s` without the white space at its end.
pub open spec fn trim_end(s: Seq<char>) -> Seq<char>
    decreases s.len(),
{
    if s.len() > 0 && is_white(s.last()) {
        trim_end(s.drop_last())
    } else {
        s
    }
}

/// `s` without the white space at its start and at its end.
pub open spec fn trim(s: Seq<char>) -> Seq<char> {
    trim_end(trim_start(s))
}

/// Whether `c` is one of the digits `0` to `9`.
pub open spec fn is_digit(c: char) -> bool {
    '0' <= c <= '9'
}

/// The number that the decimal digits `s` stand for, if `s` holds digits
/// only; the empty text stands for zero.
pub open spec fn digits_value(s: Seq<char>) -> Option<nat>
    decreases s.len(),
{
    if s.len() == 0 {
        Some(0nat)
    } else if !is_digit(s.last()) {
        None
    } else {
        match digits_value(s.drop_last()) {
            Some(v) => Some((10 * v + (s.last() as u32 - '0' as u32)) as nat),
            None => None,
        }
    }
}

/// The number that the text `s` stands for: `s` is a decimal number of one
/// digit at least, with or without a `+` before it, that a `usize` holds.
pub open spec fn number(s: Seq<char>) -> Option<usize> {
    let digits = if s.len() > 0 && s[0] == '+' {
        s.drop_first()
    } else {
        s
    };
    if digits.len() == 0 {
        None
    } else {
        match digits_value(digits) {
            Some(v) => if v <= usize::MAX {
                Some(v as usize)
            } else {
                None
            },
            None => None,
        }
    }
}

/// The name and the number of cores that one entry of the list gives:
/// the entry has two fields around one `:`, the name and the number, each
/// with or without white space around it.
pub open spec fn entry(card: Seq<char>) -> Option<(Seq<char>, usize)> {
    let parts = fields(card, ':');
    if parts.len() != 2 {
        None
    } else {
        match number(trim(parts[1])) {
            Some(cores) => Some((trim(parts[0]), cores)),
            None => None,
        }
    }
}

/// The entries that the first `n` of the cards give, if each of the cards
/// is an entry.
pub open spec fn entries(cards: Seq<Seq<char>>, n: int) -> Option<Seq<(Seq<char>, usize)>>
    decreases n,
{
    if n <= 0 {
        Some(Seq::empty())
    } else {
        match (entries(cards, n - 1), entry(cards[n - 1])) {
            (Some(before), Some(e)) => Some(before.push(e)),
            _ => None,
        }
    }
}

/// The list that the text `var` stands for: its fields between commas are
/// the entries, in order. A text with a field that is no entry stands for
/// no list; the empty text is one such.
pub open spec fn custom_list(var: Seq<char>) -> Option<Seq<(Seq<char>, usize)>> {
    entries(fields(var, ','), fields(var, ',').len() as int)
}

/// The names and numbers of a list, with each name as its characters.
pub open spec fn list_view(list: Seq<(String, usize)>) -> Seq<(Seq<char>, usize)> {
    Seq::new(list.len(), |i: int| (list[i].0@, list[i].1))
}

/// The characters of a text.
fn chars_of(s: &str) -> (chars: Vec<char>)
    ensures
        chars@ == s@,
{
    let mut chars: Vec<char> = Vec::new();
    for c in it: s.chars()
        invariant
            it.seq() == s@,
            chars@ == s@.take(it.index() as int),
    {
        chars.push(c);
    }
    chars
}

/// The first separator is where a separator is found with none before
/// it, and at the end where none is found at all.
proof fn lemma_first_of_is(s: Seq<char>, sep: char, k: int)
    requires
        0 <= k <= s.len(),
        forall|j: int| 0 <= j < k ==> s[j] != sep,
        k < s.len() ==> s[k] == sep,
    ensures
        first_of(s, sep) == k,
    decreases s.len(),
{
    if k > 0 {
        lemma_first_of_is(s.drop_first(), sep, k - 1);
    }
}

/// The views of the fields gathered so far.
spec fn views(parts: Seq<Vec<char>>) -> Seq<Seq<char>> {
    Seq::new(parts.len(), |i: int| parts[i]@)
}

/// The fields of a text between the separators `sep`.
fn split_fields(s: &Vec<char>, sep: char) -> (parts: Vec<Vec<char>>)
    ensures
        views(parts@) == fields(s@, sep),
{
    let mut parts: Vec<Vec<char>> = Vec::new();
    let mut current: Vec<char> = Vec::new();
    let ghost mut start: int = 0;
    let mut i: usize = 0;
    proof {
        assert(s@.subrange(0, s@.len() as int) =~= s@);
    }
    while i < s.len()
        invariant
            0 <= start <= i <= s.len(),
            current@ == s@.subrange(start, i as int),
            forall|j: int| start <= j < i ==> s@[j] != sep,
            fields(s@, sep) == views(parts@) + fields(s@.subrange(start, s@.len() as int), sep),
        decreases s.len() - i,
    {
        let c = s[i];
        if c == sep {
            proof {
                let rest = s@.subrange(start, s@.len() as int);
                lemma_first_of_is(rest, sep, i - start);
                assert(rest.subrange(0, i - start) =~= current@);
                assert(rest.subrange(i - start + 1, rest.len() as int) =~= s@.subrange(
                    i + 1,
                    s@.len() as int,
                ));
                start = i + 1;
            }
            parts.push(current);
            current = Vec::new();
        } else {
            current.push(c);
        }
        i += 1;
    }
    proof {
        let rest = s@.subrange(start, s@.len() as int);
        lemma_first_of_is(rest, sep, rest.len() as int);
    }
    parts.push(current);
    parts
}

/// Whether `c` is white space.
fn white(c: char) -> (w: bool)
    ensures
        w == is_white(c),
{
    let u: u32 = c as u32;
    (0x09 <= u && u <= 0x0d) || u == 0x20 || u == 0x85 || u == 0xa0 || u == 0x1680 || (0x2000 <= u
        && u <= 0x200a) || u == 0x2028 || u == 0x2029 || u == 0x202f || u == 0x205f || u == 0x3000
}

/// A text without the white space at its start and at its end.
fn trimmed(s: &Vec<char>) -> (t: Vec<char>)
    ensures
        t@ == trim(s@),
{
    let mut a: usize = 0;
    proof {
        assert(s@.subrange(0, s@.len() as int) =~= s@);
    }
    while a < s.len() && white(s[a])
        invariant
            a <= s.len(),
            trim_start(s@) == trim_start(s@.subrange(a as int, s@.len() as int)),
        decreases s.len() - a,
    {
        proof {
            assert(s@.subrange(a as int, s@.len() as int).drop_first() =~= s@.subrange(
                a + 1,
                s@.len() as int,
            ));
        }
        a += 1;
    }
    let mut b: usize = s.len();
    while b > a && white(s[b - 1])
        invariant
            a <= b <= s.len(),
            trim_start(s@) == s@.subrange(a as int, s@.len() as int),
            trim(s@) == trim_end(s@.subrange(a as int, b as int)),
        decreases b,
    {
        proof {
            assert(s@.subrange(a as int, b as int).drop_last() =~= s@.subrange(
                a as int,
                b - 1,
            ));
        }
        b -= 1;
    }
    let mut t: Vec<char> = Vec::new();
    let mut i: usize = a;
    while i < b
        invariant
            a <= i <= b <= s.len(),
            t@ == s@.subrange(a as int, i as int),
        decreases b - i,
    {
        t.push(s[i]);
        i += 1;
    }
    t
}

/// A text that holds something other than a digit stands for no number.
proof fn lemma_not_digits(s: Seq<char>, i: int)
    requires
        0 <= i < s.len(),
        !is_digit(s[i]),
    ensures
        digits_value(s).is_none(),
    decreases s.len(),
{
    if i < s.len() - 1 {
        lemma_not_digits(s.drop_last(), i);
    }
}

/// The digits at the start of a number stand for no more than the whole.
proof fn lemma_digits_grow(s: Seq<char>, i: int)
    requires
        0 <= i <= s.len(),
        digits_value(s).is_some(),
    ensures
        digits_value(s.take(i)).is_some(),
        digits_value(s.take(i)).unwrap() <= digits_value(s).unwrap(),
    decreases s.len(),
{
    if i == s.len() {
        assert(s.take(i) =~= s);
    } else {
        assert(s.drop_last().take(i) =~= s.take(i));
        lemma_digits_grow(s.drop_last(), i);
    }
}

/// The number that a text stands for.
fn parse_number(s: &Vec<char>) -> (n: Option<usize>)
    ensures
        n == number(s@),
{
    let first: usize = if s.len() > 0 && s[0] == '+' {
        1
    } else {
        0
    };
    if first == s.len() {
        return None;
    }
    let ghost digits = s@.subrange(first as int, s@.len() as int);
    proof {
        if first == 1 {
            assert(digits =~= s@.drop_first());
        } else {
            assert(digits =~= s@);
        }
    }
    let mut value: usize = 0;
    let mut i: usize = first;
    while i < s.len()
        invariant
            first <= i <= s.len(),
            digits == s@.subrange(first as int, s@.len() as int),
            number(s@) == (match digits_value(digits) {
                Some(v) => if v <= usize::MAX {
                    Some(v as usize)
                } else {
                    None
                },
                None => None,
            }),
            digits_value(digits.take(i - first)) == Some(value as nat),
        decreases s.len() - i,
    {
        let c = s[i];
        proof {
            assert(digits.take(i - first + 1).drop_last() =~= digits.take(i - first));
        }
        if !('0' <= c && c <= '9') {
            proof {
                lemma_not_digits(digits, i - first);
            }
            return None;
        }
        let d: usize = (c as u32 - '0' as u32) as usize;
        if value > (usize::MAX - d) / 10 {
            proof {
                if digits_value(digits).is_some() {
                    lemma_digits_grow(digits, i - first + 1);
                }
            }
            return None;
        }
        value = value * 10 + d;
        i += 1;
    }
    proof {
        assert(digits.take(i - first) =~= digits);
    }
    Some(value)
}

/// The text that holds the given characters.
fn string_of(chars: &Vec<char>) -> (s: String)
    ensures
        s@ == chars@,
{
    let mut s = String::new();
    let mut i: usize = 0;
    while i < chars.len()
        invariant
            i <= chars.len(),
            s@ == chars@.take(i as int),
        decreases chars.len() - i,
    {
        string_push(&mut s, chars[i]);
        i += 1;
    }
    s
}

/// The name and the number of cores that one entry gives.
fn parse_entry(card: &Vec<char>) -> (e: Option<(String, usize)>)
    ensures
        match e {
            Some(pair) => entry(card@) == Some((pair.0@, pair.1)),
            None => entry(card@).is_none(),
        },
{
    let parts = split_fields(card, ':');
    if parts.len() != 2 {
        return None;
    }
    let name = trimmed(&parts[0]);
    let cores = trimmed(&parts[1]);
    match parse_number(&cores) {
        Some(n) => Some((string_of(&name), n)),
        None => None,
    }
}

/// Reads the custom list of devices. Each entry is a name and a number of
/// cores with a colon between them, and the entries stand with commas
/// between them; white space around a name or a number does not count. A
/// text that is not of this form is refused as a whole.
pub fn parse_custom_gpu(var: &str) -> (r: Result<Vec<(String, usize)>, GPUError>)
    ensures
        match r {
            Ok(list) => custom_list(var@) == Some(list_view(list@)),
            Err(e) => custom_list(var@).is_none() && e.msg@ == "Invalid BELLMAN_CUSTOM_GPU!"@,
        },
{
    let chars = chars_of(var);
    let cards = split_fields(&chars, ',');
    let mut list: Vec<(String, usize)> = Vec::new();
    let mut i: usize = 0;
    while i < cards.len()
        invariant
            i <= cards.len(),
            views(cards@) == fields(var@, ','),
            views(cards@).len() == cards@.len(),
            entries(views(cards@), i as int) == Some(list_view(list@)),
        decreases cards.len() - i,
    {
        match parse_entry(&cards[i]) {
            Some(pair) => {
                list.push(pair);
            },
            None => {
                proof {
                    lemma_entries_fail(views(cards@), i + 1, cards@.len() as int);
                }
                return Err(GPUError { msg: "Invalid BELLMAN_CUSTOM_GPU!".to_owned() });
            },
        }
        i += 1;
    }
    Ok(list)
}

/// A list with a card that is no entry is no list.
proof fn lemma_entries_fail(cards: Seq<Seq<char>>, i: int, n: int)
    requires
        i <= n,
        entries(cards, i).is_none(),
    ensures
        entries(cards, n).is_none(),
    decreases n - i,
{
    if i < n {
        lemma_entries_fail(cards, i, n - 1);
    }
}

} // verus!
