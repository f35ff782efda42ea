//! Characters and runs of characters.
//!
//! The cells of the releases table are short texts. Everything the library
//! says about them is stated over sequences of characters, and the scanning
//! functions below work on the characters of a text held in a vector.

use vstd::prelude::*;

verus! {

/// The kinds of character that the cell texts are made of.
#[derive(Clone, Copy, PartialEq, Eq, Debug)]
pub enum CharClass {
    /// A character with the Unicode property `White_Space`.
    Whitespace,
    /// One of the ten ASCII digits.
    Digit,
    /// An ASCII letter, an ASCII digit or the underscore.
    Word,
    /// Any character but the one given.
    Except(char),
}

/// The characters with the Unicode property `White_Space`: those that
/// trimming a text removes.
pub open spec fn is_whitespace(c: char) -> bool {
    let n = c as u32;
    ||| 0x09 <= n <= 0x0D
    ||| n == 0x20
    ||| n == 0x85
    ||| n == 0xA0
    ||| n == 0x1680
    ||| 0x2000 <= n <= 0x200A
    ||| n == 0x2028
    ||| n == 0x2029
    ||| n == 0x202F
    ||| n == 0x205F
    ||| n == 0x3000
}

/// The ASCII digits.
pub open spec fn is_digit(c: char) -> bool {
    '0' <= c <= '9'
}

/// The ASCII letters and digits and the underscore.
pub open spec fn is_word(c: char) -> bool {
    ||| 'a' <= c <= 'z'
    ||| 'A' <= c <= 'Z'
    ||| '0' <= c <= '9'
    ||| c == '_'
}

/// The number that an ASCII digit stands for.
pub open spec fn digit_value(c: char) -> int {
    c as int - '0' as int
}

impl CharClass {
    /// Whether `c` belongs to the class.
    pub open spec fn has(self, c: char) -> bool {
        match self {
            CharClass::Whitespace => is_whitespace(c),
            CharClass::Digit => is_digit(c),
            CharClass::Word => is_word(c),
            CharClass::Except(other) => c != other,
        }
    }

    /// Tests whether `c` belongs to the class.
    pub fn contains(&self, c: char) -> (b: bool)
        ensures
            b == self.has(c),
    {
        let n: u32 = c as u32;
        match self {
            CharClass::Whitespace => {
                (0x09 <= n && n <= 0x0D) || n == 0x20 || n == 0x85 || n == 0xA0 || n == 0x1680
                    || (0x2000 <= n && n <= 0x200A) || n == 0x2028 || n == 0x2029 || n == 0x202F
                    || n == 0x205F || n == 0x3000
            },
            CharClass::Digit => 0x30 <= n && n <= 0x39,
            CharClass::Word => {
                (0x61 <= n && n <= 0x7A) || (0x41 <= n && n <= 0x5A) || (0x30 <= n && n <= 0x39)
                    || n == 0x5F
            },
            CharClass::Except(other) => c != *other,
        }
    }
}

/// Where the longest run of characters of `class` that starts at `from` ends.
pub open spec fn run_end(s: Seq<char>, from: int, class: CharClass) -> int
    decreases s.len() - from,
{
    if 0 <= from < s.len() && class.has(s[from]) {
        run_end(s, from + 1, class)
    } else {
        from
    }
}

/// Where the longest run of characters of `class` that ends at `to` starts.
pub open spec fn run_start(s: Seq<char>, to: int, class: CharClass) -> int
    decreases to,
{
    if 0 < to <= s.len() && class.has(s[to - 1]) {
        run_start(s, to - 1, class)
    } else {
        to
    }
}

/// Every character of `s` from `from` up to `to` belongs to `class`.
pub open spec fn all_in(s: Seq<char>, from: int, to: int, class: CharClass) -> bool {
    forall|k: int| from <= k < to ==> class.has(#[trigger] s[k])
}

/// A run is known by its two ends: it holds characters of the class only,
/// and the character behind it, if there is one, is of another kind.
pub proof fn lemma_run_end(s: Seq<char>, from: int, to: int, class: CharClass)
    requires
        0 <= from <= to <= s.len(),
        all_in(s, from, to, class),
        to == s.len() || !class.has(s[to]),
    ensures
        run_end(s, from, class) == to,
    decreases to - from,
{
    if from < to {
        assert(class.has(s[from]));
        lemma_run_end(s, from + 1, to, class);
    }
}

/// What `run_end` gives is the end of a run.
pub proof fn lemma_run_end_is_end(s: Seq<char>, from: int, class: CharClass)
    requires
        0 <= from <= s.len(),
    ensures
        from <= run_end(s, from, class) <= s.len(),
        all_in(s, from, run_end(s, from, class), class),
        run_end(s, from, class) == s.len() || !class.has(s[run_end(s, from, class)]),
    decreases s.len() - from,
{
    if from < s.len() && class.has(s[from]) {
        lemma_run_end_is_end(s, from + 1, class);
    }
}

/// The mirror image of `lemma_run_end`, for a run read backwards.
pub proof fn lemma_run_start(s: Seq<char>, from: int, to: int, class: CharClass)
    requires
        0 <= from <= to <= s.len(),
        all_in(s, from, to, class),
        from == 0 || !class.has(s[from - 1]),
    ensures
        run_start(s, to, class) == from,
    decreases to - from,
{
    if from < to {
        assert(class.has(s[to - 1]));
        lemma_run_start(s, from, to - 1, class);
    }
}

/// What `run_start` gives is the start of a run.
pub proof fn lemma_run_start_is_start(s: Seq<char>, to: int, class: CharClass)
    requires
        0 <= to <= s.len(),
    ensures
        0 <= run_start(s, to, class) <= to,
        all_in(s, run_start(s, to, class), to, class),
        run_start(s, to, class) == 0 || !class.has(s[run_start(s, to, class) - 1]),
    decreases to,
{
    if 0 < to && class.has(s[to - 1]) {
        lemma_run_start_is_start(s, to - 1, class);
    }
}

/// A text without the whitespace at its two ends.
pub open spec fn trim(s: Seq<char>) -> Seq<char> {
    let from = run_end(s, 0, CharClass::Whitespace);
    let to = run_start(s, s.len() as int, CharClass::Whitespace);
    if from < to {
        s.subrange(from, to)
    } else {
        Seq::empty()
    }
}

/// A trimmed text is empty, or begins and ends with a character that is no
/// whitespace.
pub open spec fn is_trimmed(s: Seq<char>) -> bool {
    s.len() > 0 ==> !is_whitespace(s[0]) && !is_whitespace(s[s.len() - 1])
}

/// Trimming leaves a trimmed text, and leaves a trimmed text as it is.
pub proof fn lemma_trim_is_trimmed(s: Seq<char>)
    ensures
        is_trimmed(trim(s)),
        is_trimmed(s) ==> trim(s) == s,
{
    let from = run_end(s, 0, CharClass::Whitespace);
    let to = run_start(s, s.len() as int, CharClass::Whitespace);
    lemma_run_end_is_end(s, 0, CharClass::Whitespace);
    lemma_run_start_is_start(s, s.len() as int, CharClass::Whitespace);
    if from < to {
        assert(!CharClass::Whitespace.has(s[from]));
        assert(!CharClass::Whitespace.has(s[to - 1]));
    }
    if is_trimmed(s) && s.len() > 0 {
        assert(!CharClass::Whitespace.has(s[0]));
        assert(!CharClass::Whitespace.has(s[s.len() - 1]));
        assert(s.subrange(0, s.len() as int) =~= s);
    }
}

/// Whitespace put before and behind a text is trimmed away with its own.
pub proof fn lemma_trim_padded(left: Seq<char>, s: Seq<char>, right: Seq<char>)
    requires
        all_in(left, 0, left.len() as int, CharClass::Whitespace),
        all_in(right, 0, right.len() as int, CharClass::Whitespace),
    ensures
        trim(left + s + right) == trim(s),
{
    let ws = CharClass::Whitespace;
    let t = left + s + right;
    let from = run_end(s, 0, ws);
    let to = run_start(s, s.len() as int, ws);
    let shift = left.len() as int;
    lemma_run_end_is_end(s, 0, ws);
    lemma_run_start_is_start(s, s.len() as int, ws);
    assert forall|k: int| 0 <= k < t.len() implies #[trigger] t[k] == (if k < shift {
        left[k]
    } else if k < shift + s.len() {
        s[k - shift]
    } else {
        right[k - shift - s.len()]
    }) by {}
    if from < s.len() {
        assert(!ws.has(s[from]));
        assert(from < to);
        assert(!ws.has(s[to - 1]));
        assert(all_in(t, 0, shift + from, ws)) by {
            assert forall|k: int| 0 <= k < shift + from implies ws.has(#[trigger] t[k]) by {
                if k >= shift {
                    assert(ws.has(s[k - shift]));
                } else {
                    assert(ws.has(left[k]));
                }
            }
        }
        assert(t[shift + from] == s[from]);
        lemma_run_end(t, 0, shift + from, ws);
        assert(all_in(t, shift + to, t.len() as int, ws)) by {
            assert forall|k: int| shift + to <= k < t.len() implies ws.has(#[trigger] t[k]) by {
                if k < shift + s.len() {
                    assert(ws.has(s[k - shift]));
                } else {
                    assert(ws.has(right[k - shift - s.len()]));
                }
            }
        }
        assert(t[shift + to - 1] == s[to - 1]);
        lemma_run_start(t, shift + to, t.len() as int, ws);
        assert(t.subrange(shift + from, shift + to) =~= s.subrange(from, to));
    } else {
        assert(all_in(t, 0, t.len() as int, ws)) by {
            assert forall|k: int| 0 <= k < t.len() implies ws.has(#[trigger] t[k]) by {
                if k < shift {
                    assert(ws.has(left[k]));
                } else if k < shift + s.len() {
                    assert(ws.has(s[k - shift]));
                } else {
                    assert(ws.has(right[k - shift - s.len()]));
                }
            }
        }
        lemma_run_end(t, 0, t.len() as int, ws);
        lemma_run_start_is_start(t, t.len() as int, ws);
        if to > 0 {
            assert(ws.has(s[to - 1]));
        }
    }
}

/// The characters of a text, in a vector.
pub fn chars_of(text: &str) -> (chars: Vec<char>)
    ensures
        chars@ == text@,
{
    let mut chars: Vec<char> = Vec::new();
    for c in it: text.chars()
        invariant
            chars@ == it.seq().take(it.index()),
            it.seq() == text@,
    {
        chars.push(c);
    }
    chars
}

/// Whether the characters from `from` up to `to` spell out the text.
pub fn spells(chars: &Vec<char>, from: usize, to: usize, text: &str) -> (same: bool)
    requires
        from <= to <= chars.len(),
    ensures
        same == (chars@.subrange(from as int, to as int) == text@),
{
    let other = chars_of(text);
    if to - from != other.len() {
        return false;
    }
    let mut i: usize = 0;
    while i < other.len()
        invariant
            i <= other.len(),
            from <= to <= chars.len(),
            to - from == other.len(),
            other@ == text@,
            forall|k: int| 0 <= k < i ==> chars@[from + k] == other@[k],
        decreases other.len() - i,
    {
        if chars[from + i] != other[i] {
            assert(chars@.subrange(from as int, to as int)[i as int] != text@[i as int]);
            return false;
        }
        i = i + 1;
    }
    assert(chars@.subrange(from as int, to as int) =~= other@);
    true
}

/// Scans the run of characters of `class` that starts at `from`.
pub fn scan_run(chars: &Vec<char>, from: usize, class: CharClass) -> (to: usize)
    requires
        from <= chars.len(),
    ensures
        to == run_end(chars@, from as int, class),
        from <= to <= chars.len(),
{
    let mut to: usize = from;
    while to < chars.len() && class.contains(chars[to])
        invariant
            from <= to <= chars.len(),
            all_in(chars@, from as int, to as int, class),
        decreases chars.len() - to,
    {
        to = to + 1;
    }
    proof {
        lemma_run_end(chars@, from as int, to as int, class);
    }
    to
}

/// The number that a digit stands for.
pub fn digit_number(digit: char) -> (n: u8)
    requires
        is_digit(digit),
    ensures
        n == digit_value(digit),
        n <= 9,
{
    let code: u32 = digit as u32;
    (code - 0x30) as u8
}

/// Finds what trimming leaves of the characters from `from` up to `to`.
pub fn trim_range(chars: &Vec<char>, from: usize, to: usize) -> (kept: (usize, usize))
    requires
        from <= to <= chars.len(),
    ensures
        from <= kept.0 <= kept.1 <= to,
        chars@.subrange(kept.0 as int, kept.1 as int) == trim(
            chars@.subrange(from as int, to as int),
        ),
{
    let ghost part = chars@.subrange(from as int, to as int);
    let ghost ws = CharClass::Whitespace;
    let mut first: usize = from;
    while first < to && CharClass::Whitespace.contains(chars[first])
        invariant
            from <= first <= to <= chars.len(),
            forall|k: int| from <= k < first ==> is_whitespace(#[trigger] chars@[k]),
        decreases to - first,
    {
        first = first + 1;
    }
    let mut last: usize = to;
    while last > first && CharClass::Whitespace.contains(chars[last - 1])
        invariant
            first <= last <= to <= chars.len(),
            forall|k: int| last <= k < to ==> is_whitespace(#[trigger] chars@[k]),
        decreases last,
    {
        last = last - 1;
    }
    proof {
        assert forall|k: int| 0 <= k < to - from implies #[trigger] part[k] == chars@[k + from] by {}
        assert(all_in(part, 0, first - from, ws));
        lemma_run_end(part, 0, first - from, ws);
        if first < to {
            assert(part[first - from] == chars@[first as int]);
            assert(part[last - from - 1] == chars@[last - 1]);
            assert(all_in(part, last - from, to - from, ws));
            lemma_run_start(part, last - from, to - from, ws);
            assert(part.subrange(first - from, last - from) =~= chars@.subrange(
                first as int,
                last as int,
            ));
        } else {
            lemma_run_start_is_start(part, part.len() as int, ws);
            assert(chars@.subrange(first as int, last as int) =~= Seq::<char>::empty());
        }
    }
    (first, last)
}

} // verus!
