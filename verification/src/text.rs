//! Characters, character classes and the line structure of a text.

use vstd::prelude::*;

verus! {

/// The characters that separate the fields of a line: those with the Unicode
/// property `White_Space`.
pub open spec fn is_blank(c: char) -> bool {
    let n = c as u32;
    ||| 0x09 <= n <= 0x0D
    ||| n == 0x20
    ||| n == 0x85
    ||| n == 0xA0
    ||| n == 0x1680
    ||| 0x2000 <= n <= 0x200A
    ||| n == 0x2028
    ||| n == 0x2029
    ||| n == 0x202F
    ||| n == 0x205F
    ||| n == 0x3000
}

/// Tells whether `c` separates fields.
pub fn blank(c: char) -> (b: bool)
    ensures
        b == is_blank(c),
{
    let n: u32 = c as u32;
    (0x09 <= n && n <= 0x0D) || n == 0x20 || n == 0x85 || n == 0xA0 || n == 0x1680 || (0x2000 <= n
        && n <= 0x200A) || n == 0x2028 || n == 0x2029 || n == 0x202F || n == 0x205F || n == 0x3000
}

/// What a scan of a text stops at.
#[derive(Clone, Copy, Debug, PartialEq, Eq)]
pub enum Mark {
    /// The line feed.
    Feed,
    /// A character that separates fields.
    Blank,
    /// A character that does not.
    Ink,
}

impl Mark {
    /// Whether `c` is a character of this kind.
    pub open spec fn fits(self, c: char) -> bool {
        match self {
            Mark::Feed => c == '\n',
            Mark::Blank => is_blank(c),
            Mark::Ink => !is_blank(c),
        }
    }

    /// Tells whether `c` is a character of this kind.
    pub fn test(&self, c: char) -> (b: bool)
        ensures
            b == self.fits(c),
    {
        match self {
            Mark::Feed => c == '\n',
            Mark::Blank => blank(c),
            Mark::Ink => !blank(c),
        }
    }
}

/// How many characters of `s` come before the first that `mark` fits: the
/// whole length of `s` where it fits none.
pub open spec fn until(s: Seq<char>, mark: Mark) -> nat
    decreases s.len(),
{
    if s.len() == 0 || mark.fits(s[0]) {
        0
    } else {
        1 + until(s.drop_first(), mark)
    }
}

/// A line as it was cut off before a line feed, without the carriage return
/// that may end it.
pub open spec fn without_return(raw: Seq<char>) -> Seq<char> {
    if raw.len() > 0 && raw.last() == '\r' {
        raw.drop_last()
    } else {
        raw
    }
}

/// The lines of a text. A line ends at a line feed, or at a carriage return
/// directly followed by one; neither belongs to the line. The last line need
/// not be ended, and what follows the last line feed is a line only if it is
/// not empty. A carriage return elsewhere is a character like any other.
pub open spec fn lines_of(text: Seq<char>) -> Seq<Seq<char>>
    decreases text.len(),
{
    let cut = until(text, Mark::Feed) as int;
    if text.len() == 0 {
        Seq::empty()
    } else if cut >= text.len() {
        seq![text]
    } else {
        seq![without_return(text.take(cut))] + lines_of(text.skip(cut + 1))
    }
}

/// What each of `strings` holds, in order.
pub open spec fn texts(strings: Seq<String>) -> Seq<Seq<char>> {
    strings.map_values(|s: String| s@)
}

/// The characters of `text`, in order.
pub fn characters(text: &str) -> (chars: Vec<char>)
    ensures
        chars@ == text@,
{
    let mut chars: Vec<char> = Vec::new();
    for c in it: text.chars()
        invariant
            it.seq() == text@,
            chars@ == it.seq().take(it.index()),
    {
        chars.push(c);
    }
    chars
}

/// The text made of the characters of `chars` from `from` up to `to`.
pub fn string_of(chars: &Vec<char>, from: usize, to: usize) -> (s: String)
    requires
        from <= to <= chars.len(),
    ensures
        s@ == chars@.subrange(from as int, to as int),
{
    let mut s = String::new();
    let mut i: usize = from;
    while i < to
        invariant
            from <= i <= to <= chars.len(),
            s@ == chars@.subrange(from as int, i as int),
        decreases to - i,
    {
        s.push(chars[i]);
        i += 1;
    }
    s
}

/// The first position at or after `from`, and before `to`, whose character
/// `mark` fits; `to` where there is none.
pub fn scan(chars: &Vec<char>, from: usize, to: usize, mark: Mark) -> (at: usize)
    requires
        from <= to <= chars.len(),
    ensures
        from <= at <= to,
        at - from == until(chars@.subrange(from as int, to as int), mark),
{
    let mut at: usize = from;
    while at < to && !mark.test(chars[at])
        invariant
            from <= at <= to <= chars.len(),
            forall|j: int| from <= j < at ==> !mark.fits(#[trigger] chars@[j]),
        decreases to - at,
    {
        at += 1;
    }
    proof {
        let part = chars@.subrange(from as int, to as int);
        assert forall|j: int| 0 <= j < at - from implies !mark.fits(#[trigger] part[j]) by {
            assert(part[j] == chars@[from + j]);
        }
        lemma_until_is(part, mark, at - from);
    }
    at
}

/// `until` is the one position that nothing fitting precedes and that is
/// either the end or fits itself.
pub proof fn lemma_until_is(s: Seq<char>, mark: Mark, at: int)
    requires
        0 <= at <= s.len(),
        forall|j: int| 0 <= j < at ==> !mark.fits(#[trigger] s[j]),
        at < s.len() ==> mark.fits(s[at]),
    ensures
        until(s, mark) == at,
    decreases s.len(),
{
    if at > 0 {
        let rest = s.drop_first();
        assert forall|j: int| 0 <= j < at - 1 implies !mark.fits(#[trigger] rest[j]) by {
            assert(rest[j] == s[j + 1]);
        }
        lemma_until_is(rest, mark, at - 1);
    }
}

/// Where `until` points: within the text, past everything that does not fit,
/// and at a character that fits unless at the end.
pub proof fn lemma_until_found(s: Seq<char>, mark: Mark)
    ensures
        until(s, mark) <= s.len(),
        forall|j: int| 0 <= j < until(s, mark) ==> !mark.fits(#[trigger] s[j]),
        until(s, mark) < s.len() ==> mark.fits(s[until(s, mark) as int]),
    decreases s.len(),
{
    if s.len() != 0 && !mark.fits(s[0]) {
        let rest = s.drop_first();
        lemma_until_found(rest, mark);
        assert forall|j: int| 0 <= j < until(s, mark) implies !mark.fits(#[trigger] s[j]) by {
            if j > 0 {
                assert(s[j] == rest[j - 1]);
            }
        }
    }
}

/// No line holds a line feed.
pub proof fn lemma_lines_hold_no_feed(text: Seq<char>)
    ensures
        forall|i: int, j: int|
            0 <= i < lines_of(text).len() && 0 <= j < lines_of(text)[i].len() ==> (
            #[trigger] lines_of(text)[i][j]) != '\n',
    decreases text.len(),
{
    let cut = until(text, Mark::Feed) as int;
    lemma_until_found(text, Mark::Feed);
    if text.len() > 0 && cut < text.len() {
        let rest = text.skip(cut + 1);
        let first = without_return(text.take(cut));
        lemma_lines_hold_no_feed(rest);
        assert forall|i: int, j: int|
            0 <= i < lines_of(text).len() && 0 <= j < lines_of(text)[i].len() implies (
        #[trigger] lines_of(text)[i][j]) != '\n' by {
            if i == 0 {
                assert(first[j] == text[j]);
            } else {
                assert(lines_of(text)[i] == lines_of(rest)[i - 1]);
            }
        }
    }
}

} // verus!
