//! Plain text as sequences of characters: character classes, searching,
//! trimming and splitting.

use vstd::prelude::*;
use vstd::slice::slice_subrange;

verus! {

/// Whether `c` is white space: one of the twenty-five characters to which
/// Unicode gives the property `White_Space`.
pub open spec fn white_space(c: char) -> bool {
    let code = c as u32;
    ||| 0x09 <= code <= 0x0d
    ||| code == 0x20
    ||| code == 0x85
    ||| code == 0xa0
    ||| code == 0x1680
    ||| 0x2000 <= code <= 0x200a
    ||| code == 0x2028
    ||| code == 0x2029
    ||| code == 0x202f
    ||| code == 0x205f
    ||| code == 0x3000
}

/// Whether `c` is white space.
pub fn is_white_space(c: char) -> (b: bool)
    ensures
        b == white_space(c),
{
    let code = c as u32;
    (0x09 <= code && code <= 0x0d) || code == 0x20 || code == 0x85 || code == 0xa0 || code
        == 0x1680 || (0x2000 <= code && code <= 0x200a) || code == 0x2028 || code == 0x2029 || code
        == 0x202f || code == 0x205f || code == 0x3000
}

/// Whether Unicode counts `c` as a numeral. This is the answer of
/// `char::is_numeric`, which goes by the Unicode categories of decimal
/// digits, of letters that are numbers and of other numbers.
pub uninterp spec fn unicode_numeral(c: char) -> bool;

/// Whether `c` counts as a numeral: within ASCII the ten decimal digits, and
/// beyond ASCII what Unicode counts as one.
pub open spec fn numeric(c: char) -> bool {
    if (c as u32) < 0x80 {
        '0' <= c <= '9'
    } else {
        unicode_numeral(c)
    }
}

/// Calls `char::is_numeric`. Nothing is proved of it: the contract only
/// gives the answer its name, [`unicode_numeral`].
#[verifier::external_body]
fn is_unicode_numeral(c: char) -> (b: bool)
    ensures
        b == unicode_numeral(c),
{
    c.is_numeric()
}

/// Whether `c` counts as a numeral.
pub fn is_numeric(c: char) -> (b: bool)
    ensures
        b == numeric(c),
{
    if (c as u32) < 0x80 {
        '0' <= c && c <= '9'
    } else {
        is_unicode_numeral(c)
    }
}

/// Calls `String::push`, which appends one character to the end of the
/// string and leaves the rest as it was.
#[verifier::external_body]
pub(crate) fn push_char(s: &mut String, c: char)
    ensures
        final(s)@ == old(s)@.push(c),
{
    s.push(c)
}

/// The characters of `s`, in order.
pub fn chars_of(s: &str) -> (v: Vec<char>)
    ensures
        v@ == s@,
{
    let mut v: Vec<char> = Vec::new();
    for c in it: s.chars()
        invariant
            it.seq() == s@,
            v@ == s@.take(it.index() as int),
    {
        v.push(c);
    }
    v
}

/// A string made of the characters of `s`.
pub fn string_of(s: &[char]) -> (text: String)
    ensures
        text@ == s@,
{
    let mut text = String::new();
    let mut i: usize = 0;
    while i < s.len()
        invariant
            i <= s.len(),
            text@ == s@.take(i as int),
        decreases s.len() - i,
    {
        push_char(&mut text, s[i]);
        i += 1;
    }
    text
}

/// Whether `a` and `b` hold the same characters.
pub fn same_text(a: &[char], b: &str) -> (same: bool)
    ensures
        same == (a@ == b@),
{
    let other = chars_of(b);
    if a.len() != other.len() {
        return false;
    }
    let mut i: usize = 0;
    while i < a.len()
        invariant
            i <= a.len(),
            a.len() == other.len(),
            other@ == b@,
            a@.take(i as int) == other@.take(i as int),
        decreases a.len() - i,
    {
        if a[i] != other[i] {
            return false;
        }
        i += 1;
    }
    assert(a@ == a@.take(a.len() as int));
    assert(other@ == other@.take(a.len() as int));
    true
}

/// The index of the first `c` in `s`.
pub fn find(s: &[char], c: char) -> (found: Option<usize>)
    ensures
        match found {
            Some(i) => s@.index_of_first(c) == Some(i as int),
            None => s@.index_of_first(c) is None,
        },
{
    let mut i: usize = 0;
    while i < s.len()
        invariant
            i <= s.len(),
            forall|j: int| 0 <= j < i ==> s@[j] != c,
        decreases s.len() - i,
    {
        if s[i] == c {
            proof {
                s@.index_of_first_ensures(c);
            }
            return Some(i);
        }
        i += 1;
    }
    proof {
        s@.index_of_first_ensures(c);
    }
    None
}

/// The index of the last `c` in `s`.
pub fn rfind(s: &[char], c: char) -> (found: Option<usize>)
    ensures
        match found {
            Some(i) => s@.index_of_last(c) == Some(i as int),
            None => s@.index_of_last(c) is None,
        },
{
    let mut i: usize = s.len();
    while i > 0
        invariant
            i <= s.len(),
            forall|j: int| i <= j < s.len() ==> s@[j] != c,
        decreases i,
    {
        i -= 1;
        if s[i] == c {
            proof {
                s@.index_of_last_ensures(c);
            }
            return Some(i);
        }
    }
    proof {
        s@.index_of_last_ensures(c);
    }
    None
}

/// The index of the first numeral in `s`, if it holds one.
pub open spec fn first_numeric(s: Seq<char>) -> Option<int>
    decreases s.len(),
{
    if s.len() == 0 {
        None
    } else if numeric(s[0]) {
        Some(0)
    } else {
        match first_numeric(s.drop_first()) {
            Some(i) => Some(i + 1),
            None => None,
        }
    }
}

/// [`first_numeric`] is the least index of a numeral.
pub proof fn lemma_first_numeric(s: Seq<char>)
    ensures
        match first_numeric(s) {
            Some(i) => 0 <= i < s.len() && numeric(s[i]) && forall|j: int|
                0 <= j < i ==> !numeric(#[trigger] s[j]),
            None => forall|j: int| 0 <= j < s.len() ==> !numeric(#[trigger] s[j]),
        },
    decreases s.len(),
{
    if s.len() > 0 && !numeric(s[0]) {
        let rest = s.drop_first();
        lemma_first_numeric(rest);
        match first_numeric(rest) {
            Some(i) => {
                assert forall|j: int| 0 <= j < i + 1 implies !numeric(#[trigger] s[j]) by {
                    if j > 0 {
                        assert(s[j] == rest[j - 1]);
                    }
                }
            },
            None => {
                assert forall|j: int| 0 <= j < s.len() implies !numeric(#[trigger] s[j]) by {
                    if j > 0 {
                        assert(s[j] == rest[j - 1]);
                    }
                }
            },
        }
    }
}

/// The index of the first numeral in `s`.
pub fn find_numeric(s: &[char]) -> (found: Option<usize>)
    ensures
        match found {
            Some(i) => first_numeric(s@) == Some(i as int),
            None => first_numeric(s@) is None,
        },
{
    let mut i: usize = 0;
    while i < s.len()
        invariant
            i <= s.len(),
            forall|j: int| 0 <= j < i ==> !numeric(#[trigger] s@[j]),
        decreases s.len() - i,
    {
        if is_numeric(s[i]) {
            proof {
                lemma_first_numeric(s@);
            }
            return Some(i);
        }
        i += 1;
    }
    proof {
        lemma_first_numeric(s@);
    }
    None
}

/// How many white-space characters `s` begins with.
pub open spec fn leading_space(s: Seq<char>) -> nat
    decreases s.len(),
{
    if s.len() > 0 && white_space(s[0]) {
        1 + leading_space(s.drop_first())
    } else {
        0
    }
}

/// How many white-space characters `s` ends with.
pub open spec fn trailing_space(s: Seq<char>) -> nat
    decreases s.len(),
{
    if s.len() > 0 && white_space(s.last()) {
        1 + trailing_space(s.drop_last())
    } else {
        0
    }
}

/// `s` without the white space at its two ends.
pub open spec fn trimmed(s: Seq<char>) -> Seq<char> {
    let rest = s.skip(leading_space(s) as int);
    rest.take(rest.len() - trailing_space(rest))
}

/// A run of `n` white-space characters at the start of `s` that a
/// character of another kind or the end of `s` follows is all the leading
/// white space.
pub proof fn lemma_leading_space(s: Seq<char>, n: int)
    requires
        0 <= n <= s.len(),
        forall|j: int| 0 <= j < n ==> white_space(#[trigger] s[j]),
        n < s.len() ==> !white_space(s[n]),
    ensures
        leading_space(s) == n,
    decreases n,
{
    if n > 0 {
        let rest = s.drop_first();
        assert forall|j: int| 0 <= j < n - 1 implies white_space(#[trigger] rest[j]) by {
            assert(rest[j] == s[j + 1]);
        }
        lemma_leading_space(rest, n - 1);
    }
}

/// A run of `n` white-space characters at the end of `s` that a character
/// of another kind or the start of `s` precedes is all the trailing white
/// space.
pub proof fn lemma_trailing_space(s: Seq<char>, n: int)
    requires
        0 <= n <= s.len(),
        forall|j: int| s.len() - n <= j < s.len() ==> white_space(#[trigger] s[j]),
        n < s.len() ==> !white_space(s[s.len() - n - 1]),
    ensures
        trailing_space(s) == n,
    decreases n,
{
    if n > 0 {
        let rest = s.drop_last();
        assert forall|j: int| rest.len() - (n - 1) <= j < rest.len() implies white_space(
            #[trigger] rest[j],
        ) by {
            assert(rest[j] == s[j]);
        }
        lemma_trailing_space(rest, n - 1);
    }
}

/// The part of `s` between its leading and its trailing white space.
pub fn trim(s: &[char]) -> (kept: &[char])
    ensures
        kept@ == trimmed(s@),
{
    let mut from: usize = 0;
    while from < s.len() && is_white_space(s[from])
        invariant
            from <= s.len(),
            forall|j: int| 0 <= j < from ==> white_space(#[trigger] s@[j]),
        decreases s.len() - from,
    {
        from += 1;
    }
    let mut to: usize = s.len();
    while to > from && is_white_space(s[to - 1])
        invariant
            from <= to <= s.len(),
            forall|j: int| to <= j < s.len() ==> white_space(#[trigger] s@[j]),
        decreases to,
    {
        to -= 1;
    }
    proof {
        lemma_leading_space(s@, from as int);
        let rest = s@.skip(from as int);
        assert forall|j: int| rest.len() - (s.len() - to) <= j < rest.len() implies white_space(
            #[trigger] rest[j],
        ) by {
            assert(rest[j] == s@[j + from]);
        }
        lemma_trailing_space(rest, s.len() - to);
    }
    slice_subrange(s, from, to)
}

/// How many characters that are no white space `s` begins with.
pub open spec fn word_len(s: Seq<char>) -> nat
    decreases s.len(),
{
    if s.len() > 0 && !white_space(s[0]) {
        1 + word_len(s.drop_first())
    } else {
        0
    }
}

/// The first word of `s` lies within `s`.
pub proof fn lemma_word_len_bound(s: Seq<char>)
    ensures
        word_len(s) <= s.len(),
    decreases s.len(),
{
    if s.len() > 0 && !white_space(s[0]) {
        lemma_word_len_bound(s.drop_first());
    }
}

/// A run of `n` characters that are no white space at the start of `s`,
/// which white space or the end of `s` follows, is the first word.
pub proof fn lemma_word_len(s: Seq<char>, n: int)
    requires
        0 <= n <= s.len(),
        forall|j: int| 0 <= j < n ==> !white_space(#[trigger] s[j]),
        n < s.len() ==> white_space(s[n]),
    ensures
        word_len(s) == n,
    decreases n,
{
    if n > 0 {
        let rest = s.drop_first();
        assert forall|j: int| 0 <= j < n - 1 implies !white_space(#[trigger] rest[j]) by {
            assert(rest[j] == s[j + 1]);
        }
        lemma_word_len(rest, n - 1);
    }
}

/// The words of `s`: its longest runs of characters that are no white
/// space, in order. White space separates words and belongs to none.
pub open spec fn words(s: Seq<char>) -> Seq<Seq<char>>
    decreases s.len(),
{
    if s.len() == 0 {
        Seq::empty()
    } else if white_space(s[0]) {
        words(s.drop_first())
    } else {
        proof {
            lemma_word_len_bound(s);
        }
        let n = word_len(s) as int;
        seq![s.take(n)] + words(s.skip(n))
    }
}

/// The words of `s`, each as a vector of its characters.
pub fn split_words(s: &[char]) -> (found: Vec<Vec<char>>)
    ensures
        found@.len() == words(s@).len(),
        forall|k: int| 0 <= k < found@.len() ==> (#[trigger] found@[k])@ == words(s@)[k],
{
    let mut found: Vec<Vec<char>> = Vec::new();
    let ghost mut done: Seq<Seq<char>> = Seq::empty();
    let mut i: usize = 0;
    proof {
        assert(s@.skip(0) == s@);
    }
    while i < s.len()
        invariant
            i <= s.len(),
            found@.len() == done.len(),
            forall|k: int| 0 <= k < found@.len() ==> (#[trigger] found@[k])@ == done[k],
            words(s@) == done + words(s@.skip(i as int)),
        decreases s.len() - i,
    {
        let ghost rest = s@.skip(i as int);
        if is_white_space(s[i]) {
            proof {
                assert(rest.drop_first() == s@.skip(i + 1));
            }
            i += 1;
        } else {
            let start = i;
            while i < s.len() && !is_white_space(s[i])
                invariant
                    start <= i <= s.len(),
                    forall|j: int| start <= j < i ==> !white_space(#[trigger] s@[j]),
                decreases s.len() - i,
            {
                i += 1;
            }
            let word = vstd::slice::slice_to_vec(slice_subrange(s, start, i));
            proof {
                let n = i - start;
                assert forall|j: int| 0 <= j < n implies !white_space(#[trigger] rest[j]) by {
                    assert(rest[j] == s@[start + j]);
                }
                lemma_word_len(rest, n);
                assert(rest.take(n) == s@.subrange(start as int, i as int));
                assert(rest.skip(n) == s@.skip(i as int));
                done = done.push(word@);
            }
            found.push(word);
        }
    }
    found
}

/// The parts of `s` that `sep` separates, in order. A text without `sep` is
/// one part; two neighbouring `sep`, or one at an end, give an empty part.
pub open spec fn pieces(s: Seq<char>, sep: char) -> Seq<Seq<char>>
    decreases s.len(),
{
    match s.index_of_first(sep) {
        Some(i) => {
            proof {
                s.index_of_first_ensures(sep);
            }
            seq![s.take(i)] + pieces(s.skip(i + 1), sep)
        },
        None => seq![s],
    }
}

/// The parts of `s` that `sep` separates, each as a vector of its
/// characters.
pub fn split(s: &[char], sep: char) -> (found: Vec<Vec<char>>)
    ensures
        found@.len() == pieces(s@, sep).len(),
        forall|k: int| 0 <= k < found@.len() ==> (#[trigger] found@[k])@ == pieces(s@, sep)[k],
{
    let mut found: Vec<Vec<char>> = Vec::new();
    let ghost mut done: Seq<Seq<char>> = Seq::empty();
    let mut start: usize = 0;
    proof {
        assert(s@.skip(0) == s@);
    }
    loop
        invariant
            start <= s.len(),
            found@.len() == done.len(),
            forall|k: int| 0 <= k < found@.len() ==> (#[trigger] found@[k])@ == done[k],
            pieces(s@, sep) == done + pieces(s@.skip(start as int), sep),
        decreases s.len() - start,
    {
        let rest = slice_subrange(s, start, s.len());
        let ghost tail = s@.skip(start as int);
        match find(rest, sep) {
            Some(i) => {
                proof {
                    tail.index_of_first_ensures(sep);
                }
                let part = vstd::slice::slice_to_vec(slice_subrange(rest, 0, i));
                proof {
                    assert(tail.skip(i + 1) == s@.skip(start + i + 1));
                    done = done.push(part@);
                }
                found.push(part);
                start = start + i + 1;
            },
            None => {
                let part = vstd::slice::slice_to_vec(rest);
                proof {
                    done = done.push(part@);
                }
                found.push(part);
                return found;
            },
        }
    }
}

} // verus!
