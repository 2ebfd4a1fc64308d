//! The target of an `#include`: the path between `<` and `>` or between
//! double quotes.

use crate::symbol::{deep, lemma_deep_push};
use vstd::prelude::*;

verus! {

/// The pattern of a system include: a path between `<` and `>`.
pub open spec fn system_pattern() -> Seq<char> {
    "<([^>]+)>"@
}

/// The pattern of a user include: a path between double quotes.
pub open spec fn user_pattern() -> Seq<char> {
    "\"([^>]+)\""@
}

/// The first place at or after `from` at which `wanted` stands; the
/// length of the text where it stands at none.
pub open spec fn next_of(text: Seq<char>, from: int, wanted: char) -> int
    decreases text.len() - from,
{
    if from < 0 || from >= text.len() {
        text.len() as int
    } else if text[from] == wanted {
        from
    } else {
        next_of(text, from + 1, wanted)
    }
}

/// The last place from `lo` up to `hi` at which a double quote stands;
/// -1 where none does.
pub open spec fn last_quote(text: Seq<char>, lo: int, hi: int) -> int
    decreases hi - lo,
{
    if lo < 0 || hi <= lo || hi > text.len() {
        -1
    } else if text[hi - 1] == '"' {
        hi - 1
    } else {
        last_quote(text, lo, hi - 1)
    }
}

/// The path of the first system include from place `i` on: what stands
/// between the first `<` that is followed by at least one character
/// other than `>` and then by `>`, and that `>`.
pub open spec fn angle_path_from(text: Seq<char>, i: int) -> Option<Seq<char>>
    decreases text.len() - i,
{
    if i < 0 || i >= text.len() {
        None
    } else if text[i] == '<' && i + 1 < next_of(text, i + 1, '>') < text.len() {
        Some(text.subrange(i + 1, next_of(text, i + 1, '>')))
    } else {
        angle_path_from(text, i + 1)
    }
}

/// The path of the first user include from place `i` on: what stands
/// between the first double quote that has another after it, at least
/// one character on and before any `>`, and the last such double quote.
pub open spec fn quoted_path_from(text: Seq<char>, i: int) -> Option<Seq<char>>
    decreases text.len() - i,
{
    if i < 0 || i >= text.len() {
        None
    } else if text[i] == '"' && last_quote(text, i + 2, next_of(text, i + 1, '>')) >= 0 {
        Some(text.subrange(i + 1, last_quote(text, i + 2, next_of(text, i + 1, '>'))))
    } else {
        quoted_path_from(text, i + 1)
    }
}

/// `Regex::new` and `Regex::captures`, with the first group of the
/// match read off by `Captures::get` and `Match::as_str`.
///
/// The contract says what the leftmost match of the two patterns of
/// include paths captures; of other patterns it says nothing. In both
/// patterns the group is a run of characters other than `>`, as long as
/// can be: after `<` it ends at the next `>`, and after a double quote
/// it ends at the last double quote before the next `>`.
#[verifier::external_body]
fn regex_first_capture(pattern: &str, text: &str) -> (capture: Option<String>)
    ensures
        pattern@ == system_pattern() ==> capture is Some == angle_path_from(text@, 0) is Some,
        pattern@ == system_pattern() && capture is Some ==> capture->Some_0@ == angle_path_from(
            text@,
            0,
        )->Some_0,
        pattern@ == user_pattern() ==> capture is Some == quoted_path_from(text@, 0) is Some,
        pattern@ == user_pattern() && capture is Some ==> capture->Some_0@ == quoted_path_from(
            text@,
            0,
        )->Some_0,
{
    let regex = regex::Regex::new(pattern).ok()?;
    let captures = regex.captures(text)?;
    Some(captures.get(1)?.as_str().to_string())
}

/// The paths that the text of an include directive names: the path of
/// a system include, if the text holds one, and then the path of a user
/// include, if it holds one.
pub open spec fn include_paths_of(text: Seq<char>) -> Seq<Seq<char>> {
    let system = match angle_path_from(text, 0) {
        Some(path) => seq![path],
        None => Seq::empty(),
    };
    let user = match quoted_path_from(text, 0) {
        Some(path) => seq![path],
        None => Seq::empty(),
    };
    system + user
}

/// The paths that the text of an include directive names.
pub fn include_paths(text: &str) -> (paths: Vec<String>)
    ensures
        deep(paths@) == include_paths_of(text@),
{
    let mut paths: Vec<String> = Vec::new();
    proof {
        assert(deep(paths@) =~= Seq::<Seq<char>>::empty());
    }
    match regex_first_capture("<([^>]+)>", text) {
        Some(path) => {
            let ghost before = paths@;
            paths.push(path);
            proof {
                lemma_deep_push(before, path);
            }
        },
        None => {},
    }
    let ghost system = deep(paths@);
    match regex_first_capture("\"([^>]+)\"", text) {
        Some(path) => {
            let ghost before = paths@;
            paths.push(path);
            proof {
                lemma_deep_push(before, path);
                assert(deep(before).push(path@) =~= system + seq![path@]);
            }
        },
        None => {
            proof {
                assert(system + Seq::<Seq<char>>::empty() =~= system);
            }
        },
    }
    paths
}

} // verus!
