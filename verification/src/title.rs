//! The version title: three dotted numbers, a channel and a counter.
//!
//! A version title such as `2024.2.1 Canary 7` is read from the left: a
//! run of digits, a dot, a second run, a dot and a third run; at most one
//! whitespace; the channel, a run of word characters; at most one
//! whitespace; and the counter, a digit. What follows is not read. The
//! counter may be absent from the shape, but a title without it names no
//! release. Digits are the ten ASCII digits, and word characters the ASCII
//! letters and digits and the underscore.

use vstd::prelude::*;
use vstd::string::StrSliceExecFns;
use crate::channel::{lemma_label_round_trip, Channel};
use crate::error::{FieldError, FieldFailure};
use crate::text::{
    all_in, chars_of, digit_number, digit_value, is_digit, is_whitespace, lemma_run_end, run_end,
    scan_run, CharClass,
};

verus! {

/// What a version title shows of its channel.
pub ghost struct TitleShape {
    /// The word in the place of the channel.
    pub channel: Seq<char>,
    /// The digit behind the channel, if there is one.
    pub counter: Option<char>,
}

/// The place behind the whitespace at `at`, or `at` where none stands there.
pub open spec fn skip_blank(s: Seq<char>, at: int) -> int {
    if 0 <= at < s.len() && is_whitespace(s[at]) {
        at + 1
    } else {
        at
    }
}

/// The digit at `at`, if one stands there.
pub open spec fn digit_at(s: Seq<char>, at: int) -> Option<char> {
    if 0 <= at < s.len() && is_digit(s[at]) {
        Some(s[at])
    } else {
        None
    }
}

/// The shape of a version title, read from the left; `None` where the text
/// does not begin as a version title does.
pub open spec fn title_shape(s: Seq<char>) -> Option<TitleShape> {
    let major = run_end(s, 0, CharClass::Digit);
    let minor = run_end(s, major + 1, CharClass::Digit);
    let patch = run_end(s, minor + 1, CharClass::Digit);
    let word = skip_blank(s, patch);
    let word_end = run_end(s, word, CharClass::Word);
    if 0 < major < s.len() && s[major] == '.' && major + 1 < minor < s.len() && s[minor] == '.'
        && minor + 1 < patch && word < word_end {
        Some(
            TitleShape {
                channel: s.subrange(word, word_end),
                counter: digit_at(s, skip_blank(s, word_end)),
            },
        )
    } else {
        None
    }
}

/// The channel of a version title. A text of another shape is malformed; a
/// word that is no label is an unknown channel, and is reported as it
/// stands.
pub open spec fn channel_of(s: Seq<char>) -> Result<Channel, FieldFailure> {
    match title_shape(s) {
        None => Err(FieldFailure::VersionTitleMalformed(s)),
        Some(shape) => match Channel::from_label(shape.channel) {
            Some(channel) => Ok(channel),
            None => Err(FieldFailure::UnknownChannel(shape.channel)),
        },
    }
}

/// The counter of a version title. A text of another shape is malformed,
/// and so is one without a digit behind the channel.
pub open spec fn channel_version_of(s: Seq<char>) -> Result<u8, FieldFailure> {
    match title_shape(s) {
        Some(TitleShape { channel: _, counter: Some(digit) }) => Ok(digit_value(digit) as u8),
        _ => Err(FieldFailure::VersionTitleMalformed(s)),
    }
}

/// Where the channel stands in a version title, and the counter.
struct TitleBounds {
    channel: (usize, usize),
    counter: Option<char>,
}

/// Steps over one whitespace, if one stands at `at`.
fn step_over_blank(chars: &Vec<char>, at: usize) -> (next: usize)
    requires
        at <= chars.len(),
    ensures
        next == skip_blank(chars@, at as int),
        at <= next <= chars.len(),
{
    if at < chars.len() && CharClass::Whitespace.contains(chars[at]) {
        at + 1
    } else {
        at
    }
}

/// Reads the shape of a version title.
fn read_shape(chars: &Vec<char>) -> (found: Option<TitleBounds>)
    ensures
        match found {
            Some(b) => b.channel.0 <= b.channel.1 <= chars.len() && title_shape(chars@) == Some(
                TitleShape {
                    channel: chars@.subrange(b.channel.0 as int, b.channel.1 as int),
                    counter: b.counter,
                },
            ),
            None => title_shape(chars@) is None,
        },
{
    let len = chars.len();
    let major = scan_run(chars, 0, CharClass::Digit);
    if major == 0 || major >= len || chars[major] != '.' {
        return None;
    }
    let minor = scan_run(chars, major + 1, CharClass::Digit);
    if minor == major + 1 || minor >= len || chars[minor] != '.' {
        return None;
    }
    let patch = scan_run(chars, minor + 1, CharClass::Digit);
    if patch == minor + 1 {
        return None;
    }
    let word = step_over_blank(chars, patch);
    let word_end = scan_run(chars, word, CharClass::Word);
    if word_end == word {
        return None;
    }
    let at = step_over_blank(chars, word_end);
    let counter = if at < len && CharClass::Digit.contains(chars[at]) {
        Some(chars[at])
    } else {
        None
    };
    Some(TitleBounds { channel: (word, word_end), counter })
}

/// Reads the channel from a version title.
pub fn parse_channel(version_title: &String) -> (channel: Result<Channel, FieldError>)
    ensures
        match channel {
            Ok(c) => channel_of(version_title@) == Ok::<Channel, FieldFailure>(c),
            Err(error) => channel_of(version_title@) == Err::<Channel, FieldFailure>(error@),
        },
{
    let chars = chars_of(version_title.as_str());
    match read_shape(&chars) {
        None => Err(FieldError::VersionTitleMalformed(version_title.clone())),
        Some(b) => {
            let word = version_title.as_str().substring_char(b.channel.0, b.channel.1);
            let word_chars = chars_of(word);
            match Channel::from_chars(&word_chars) {
                Some(c) => Ok(c),
                None => Err(FieldError::UnknownChannel(word.to_owned())),
            }
        },
    }
}

/// Reads the counter from a version title: the digit behind the channel.
pub fn parse_channel_version(version_title: &String) -> (counter: Result<u8, FieldError>)
    ensures
        match counter {
            Ok(n) => channel_version_of(version_title@) == Ok::<u8, FieldFailure>(n),
            Err(error) => channel_version_of(version_title@) == Err::<u8, FieldFailure>(error@),
        },
        counter matches Ok(n) ==> n <= 9,
{
    let chars = chars_of(version_title.as_str());
    match read_shape(&chars) {
        Some(TitleBounds { channel: _, counter: Some(digit) }) => Ok(digit_number(digit)),
        _ => Err(FieldError::VersionTitleMalformed(version_title.clone())),
    }
}

/// A version title written out: three numbers with dots between them, a
/// blank, the label of a channel, a blank and a digit.
pub open spec fn title_text(
    major: Seq<char>,
    minor: Seq<char>,
    patch: Seq<char>,
    channel: Channel,
    counter: char,
) -> Seq<char> {
    major + seq!['.'] + minor + seq!['.'] + patch + seq![' '] + channel.label() + seq![' ']
        + seq![counter]
}

/// The labels are words.
pub proof fn lemma_label_is_word(channel: Channel)
    ensures
        channel.label().len() > 0,
        all_in(channel.label(), 0, channel.label().len() as int, CharClass::Word),
{
    reveal_strlit("Canary");
    reveal_strlit("Beta");
    reveal_strlit("RC");
    reveal_strlit("Release");
    reveal_strlit("Patch");
}

/// A version title that is written out from three numbers, a channel and a
/// digit gives back that channel, and the digit as its counter.
pub proof fn lemma_title_round_trip(
    major: Seq<char>,
    minor: Seq<char>,
    patch: Seq<char>,
    channel: Channel,
    counter: char,
)
    requires
        major.len() > 0,
        minor.len() > 0,
        patch.len() > 0,
        all_in(major, 0, major.len() as int, CharClass::Digit),
        all_in(minor, 0, minor.len() as int, CharClass::Digit),
        all_in(patch, 0, patch.len() as int, CharClass::Digit),
        is_digit(counter),
    ensures
        channel_of(title_text(major, minor, patch, channel, counter)) == Ok::<
            Channel,
            FieldFailure,
        >(channel),
        channel_version_of(title_text(major, minor, patch, channel, counter)) == Ok::<
            u8,
            FieldFailure,
        >(digit_value(counter) as u8),
{
    let label = channel.label();
    let t = title_text(major, minor, patch, channel, counter);
    let a = major.len() as int;
    let b = a + 1 + minor.len();
    let c = b + 1 + patch.len();
    let w = c + 1;
    let e = w + label.len();
    lemma_label_is_word(channel);
    assert(t.len() == e + 2);
    assert forall|k: int| 0 <= k < a implies CharClass::Digit.has(#[trigger] t[k]) by {
        assert(t[k] == major[k]);
    }
    assert(t[a] == '.');
    lemma_run_end(t, 0, a, CharClass::Digit);
    assert forall|k: int| a + 1 <= k < b implies CharClass::Digit.has(#[trigger] t[k]) by {
        assert(t[k] == minor[k - a - 1]);
    }
    assert(t[b] == '.');
    lemma_run_end(t, a + 1, b, CharClass::Digit);
    assert forall|k: int| b + 1 <= k < c implies CharClass::Digit.has(#[trigger] t[k]) by {
        assert(t[k] == patch[k - b - 1]);
    }
    assert(t[c] == ' ');
    lemma_run_end(t, b + 1, c, CharClass::Digit);
    assert(skip_blank(t, c) == w);
    assert forall|k: int| w <= k < e implies CharClass::Word.has(#[trigger] t[k]) by {
        assert(t[k] == label[k - w]);
    }
    assert(t[e] == ' ');
    lemma_run_end(t, w, e, CharClass::Word);
    assert(skip_blank(t, e) == e + 1);
    assert(t[e + 1] == counter);
    assert(t.subrange(w, e) =~= label);
    lemma_label_round_trip(channel, label);
}

} // verus!
