//! The name cell: a codename and a version title, divided by a pipe.

use vstd::prelude::*;
use vstd::string::StrSliceExecFns;
use crate::error::{FieldError, FieldFailure};
use crate::text::{
    chars_of, is_trimmed, lemma_run_end, lemma_trim_is_trimmed, lemma_trim_padded, run_end,
    scan_run, trim, trim_range, CharClass,
};

verus! {

/// The codename and the version title of a name cell: what stands before
/// its first pipe and what stands behind it, both trimmed. A cell without a
/// pipe has neither, nor has one with nothing on one side of the pipe.
pub open spec fn split_name(s: Seq<char>) -> Option<(Seq<char>, Seq<char>)> {
    let pipe = run_end(s, 0, CharClass::Except('|'));
    let codename = trim(s.subrange(0, pipe));
    let title = trim(s.subrange(pipe + 1, s.len() as int));
    if pipe < s.len() && codename.len() > 0 && title.len() > 0 {
        Some((codename, title))
    } else {
        None
    }
}

/// The codename of a name cell.
pub open spec fn codename_of(s: Seq<char>) -> Result<Seq<char>, FieldFailure> {
    match split_name(s) {
        Some(parts) => Ok(parts.0),
        None => Err(FieldFailure::NameFieldMalformed(s)),
    }
}

/// The version title of a name cell.
pub open spec fn version_title_of(s: Seq<char>) -> Result<Seq<char>, FieldFailure> {
    match split_name(s) {
        Some(parts) => Ok(parts.1),
        None => Err(FieldFailure::NameFieldMalformed(s)),
    }
}

/// Where the codename and the version title stand in a name cell.
struct NameBounds {
    codename: (usize, usize),
    title: (usize, usize),
}

/// Finds the two parts of a name cell.
fn find_parts(chars: &Vec<char>) -> (found: Option<NameBounds>)
    ensures
        match found {
            Some(b) => b.codename.0 <= b.codename.1 <= chars.len()
                && b.title.0 <= b.title.1 <= chars.len()
                && split_name(chars@) == Some(
                (
                    chars@.subrange(b.codename.0 as int, b.codename.1 as int),
                    chars@.subrange(b.title.0 as int, b.title.1 as int),
                ),
            ),
            None => split_name(chars@) is None,
        },
{
    let pipe = scan_run(chars, 0, CharClass::Except('|'));
    if pipe >= chars.len() {
        return None;
    }
    let codename = trim_range(chars, 0, pipe);
    let title = trim_range(chars, pipe + 1, chars.len());
    if codename.0 < codename.1 && title.0 < title.1 {
        Some(NameBounds { codename, title })
    } else {
        None
    }
}

/// Reads the codename from the text of a name cell: what stands before the
/// first pipe, trimmed.
pub fn parse_codename(release_name: &String) -> (codename: Result<String, FieldError>)
    ensures
        match codename {
            Ok(text) => codename_of(release_name@) == Ok::<Seq<char>, FieldFailure>(text@),
            Err(error) => codename_of(release_name@) == Err::<Seq<char>, FieldFailure>(error@),
        },
        codename matches Ok(text) ==> text@.len() > 0 && is_trimmed(text@),
{
    let chars = chars_of(release_name.as_str());
    match find_parts(&chars) {
        Some(b) => {
            proof {
                let pipe = run_end(release_name@, 0, CharClass::Except('|'));
                lemma_trim_is_trimmed(release_name@.subrange(0, pipe));
            }
            Ok(release_name.as_str().substring_char(b.codename.0, b.codename.1).to_owned())
        },
        None => Err(FieldError::NameFieldMalformed(release_name.clone())),
    }
}

/// Reads the version title from the text of a name cell: what stands behind
/// the first pipe, trimmed.
pub fn parse_version_title(release_name: &String) -> (title: Result<String, FieldError>)
    ensures
        match title {
            Ok(text) => version_title_of(release_name@) == Ok::<Seq<char>, FieldFailure>(text@),
            Err(error) => version_title_of(release_name@) == Err::<Seq<char>, FieldFailure>(error@),
        },
        title matches Ok(text) ==> text@.len() > 0 && is_trimmed(text@),
{
    let chars = chars_of(release_name.as_str());
    match find_parts(&chars) {
        Some(b) => {
            proof {
                let pipe = run_end(release_name@, 0, CharClass::Except('|'));
                lemma_trim_is_trimmed(release_name@.subrange(pipe + 1, release_name@.len() as int));
            }
            Ok(release_name.as_str().substring_char(b.title.0, b.title.1).to_owned())
        },
        None => Err(FieldError::NameFieldMalformed(release_name.clone())),
    }
}

/// A cell made of a text without a pipe, a pipe and a second text divides
/// into the two texts, trimmed, where trimming leaves something of both.
/// The first text may hold blanks, and blanks may stand around the pipe.
pub proof fn lemma_split_name(before: Seq<char>, after: Seq<char>)
    requires
        !before.contains('|'),
        trim(before).len() > 0,
        trim(after).len() > 0,
    ensures
        split_name(before + seq!['|'] + after) == Some((trim(before), trim(after))),
{
    let s = before + seq!['|'] + after;
    let no_pipe = CharClass::Except('|');
    assert forall|k: int| 0 <= k < before.len() implies no_pipe.has(#[trigger] s[k]) by {
        assert(s[k] == before[k]);
        assert(before.contains(before[k]));
    }
    assert(s[before.len() as int] == '|');
    lemma_run_end(s, 0, before.len() as int, no_pipe);
    assert(s.subrange(0, before.len() as int) =~= before);
    assert(s.subrange(before.len() as int + 1, s.len() as int) =~= after);
}

/// The cell `A | B`, with a blank on either side of the pipe, divides into
/// `A` and `B`, both trimmed: for every `A` without a pipe and every `B`
/// of which trimming leaves something. `A` may hold blanks.
pub proof fn lemma_split_spaced_name(a: Seq<char>, b: Seq<char>)
    requires
        !a.contains('|'),
        trim(a).len() > 0,
        trim(b).len() > 0,
    ensures
        split_name(a + seq![' ', '|', ' '] + b) == Some((trim(a), trim(b))),
        codename_of(a + seq![' ', '|', ' '] + b) == Ok::<Seq<char>, FieldFailure>(trim(a)),
        version_title_of(a + seq![' ', '|', ' '] + b) == Ok::<Seq<char>, FieldFailure>(trim(b)),
{
    let blank = seq![' '];
    let before = a + blank;
    let after = blank + b;
    assert(Seq::<char>::empty() + a + blank =~= before);
    assert(blank + b + Seq::<char>::empty() =~= after);
    lemma_trim_padded(Seq::empty(), a, blank);
    lemma_trim_padded(blank, b, Seq::empty());
    assert forall|c: char| before.contains(c) implies c != '|' by {
        let k = choose|k: int| 0 <= k < before.len() && before[k] == c;
        if k < a.len() {
            assert(a.contains(a[k]));
        }
    }
    lemma_split_name(before, after);
    assert(before + seq!['|'] + after =~= a + seq![' ', '|', ' '] + b);
}

} // verus!
