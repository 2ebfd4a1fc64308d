//! Small operations on text that the preprocessor is built from.

use crate::symbol::deep;
use vstd::prelude::*;
use vstd::string::*;

verus! {

/// The width of a text in columns: the number of bytes that it takes.
pub open spec fn text_width(text: Seq<char>) -> usize {
    vstd::utf8::encode_utf8(text).len() as usize
}

/// Whether two texts hold the same characters.
pub fn text_eq(a: &str, b: &str) -> (same: bool)
    ensures
        same == (a@ == b@),
{
    let left = String::from_str(a);
    let right = String::from_str(b);
    left == right
}

/// Whether a character is white space: one of the characters with the
/// Unicode property `White_Space`.
pub open spec fn is_space(c: char) -> bool {
    let code = c as u32;
    (0x09 <= code <= 0x0D) || code == 0x20 || code == 0x85 || code == 0xA0 || code == 0x1680 || (
    0x2000 <= code <= 0x200A) || code == 0x2028 || code == 0x2029 || code == 0x202F || code
        == 0x205F || code == 0x3000
}

/// The first place at or after `from` that holds no white space; the
/// length of the text where there is none.
pub open spec fn solid_start(text: Seq<char>, from: int) -> int
    decreases text.len() - from,
{
    if from < 0 || from >= text.len() {
        text.len() as int
    } else if !is_space(text[from]) {
        from
    } else {
        solid_start(text, from + 1)
    }
}

/// The place behind the last character before `to` that is no white
/// space; 0 where there is none.
pub open spec fn solid_end(text: Seq<char>, to: int) -> int
    decreases to,
{
    if to <= 0 || to > text.len() {
        0
    } else if !is_space(text[to - 1]) {
        to
    } else {
        solid_end(text, to - 1)
    }
}

/// The text without the white space at its start and at its end.
pub open spec fn trimmed(text: Seq<char>) -> Seq<char> {
    if solid_start(text, 0) < solid_end(text, text.len() as int) {
        text.subrange(solid_start(text, 0), solid_end(text, text.len() as int))
    } else {
        Seq::empty()
    }
}

/// `str::trim`: the text without the white space, as Unicode has it,
/// at its start and at its end.
#[verifier::external_body]
pub(crate) fn trim(text: &str) -> (result: String)
    ensures
        result@ == trimmed(text@),
{
    text.trim().to_string()
}

/// Whether a text holds a character.
pub fn contains_char(text: &str, wanted: char) -> (found: bool)
    ensures
        found == text@.contains(wanted),
{
    let count = text.unicode_len();
    let mut i: usize = 0;
    while i < count
        invariant
            i <= count,
            count == text@.len(),
            forall|j: int| 0 <= j < i ==> text@[j] != wanted,
        decreases count - i,
    {
        if text.get_char(i) == wanted {
            return true;
        }
        i += 1;
    }
    false
}

/// A run of `count` spaces.
pub open spec fn spaces(count: nat) -> Seq<char> {
    Seq::new(count, |i: int| ' ')
}

/// The text of a line break.
pub open spec fn line_break() -> Seq<char> {
    seq!['\n']
}

/// The lines put together, with a line break between one line and the
/// next.
pub open spec fn joined(lines: Seq<Seq<char>>) -> Seq<char>
    decreases lines.len(),
{
    if lines.len() == 0 {
        Seq::empty()
    } else if lines.len() == 1 {
        lines[0]
    } else {
        joined(lines.drop_last()) + line_break() + lines.last()
    }
}

/// How many line breaks a text holds.
pub open spec fn count_newlines(text: Seq<char>) -> nat
    decreases text.len(),
{
    if text.len() == 0 {
        0
    } else {
        count_newlines(text.drop_last()) + if text.last() == '\n' {
            1nat
        } else {
            0nat
        }
    }
}

/// Appends `count` spaces to a line.
pub fn push_spaces(line: &mut String, count: usize)
    ensures
        final(line)@ == old(line)@ + spaces(count as nat),
{
    let mut done: usize = 0;
    proof {
        assert(line@ + spaces(0) =~= line@);
    }
    while done < count
        invariant
            done <= count,
            line@ == old(line)@ + spaces(done as nat),
        decreases count - done,
    {
        let ghost before = line@;
        line.append(" ");
        proof {
            reveal_strlit(" ");
            assert(" "@ =~= seq![' ']);
            assert(before + seq![' '] =~= old(line)@ + spaces((done + 1) as nat));
        }
        done += 1;
    }
}

/// Puts lines together, with a line break between one line and the
/// next.
pub fn join_lines(lines: &Vec<String>) -> (text: String)
    ensures
        text@ == joined(deep(lines@)),
{
    let mut text = String::new();
    let mut i: usize = 0;
    while i < lines.len()
        invariant
            i <= lines.len(),
            text@ == joined(deep(lines@).take(i as int)),
        decreases lines.len() - i,
    {
        let ghost before = text@;
        if i > 0 {
            text.append("\n");
        }
        text.append(lines[i].as_str());
        proof {
            reveal_strlit("\n");
            assert("\n"@ =~= line_break());
            let upto = deep(lines@).take(i + 1);
            assert(upto.drop_last() =~= deep(lines@).take(i as int));
            assert(upto.last() == lines@[i as int]@);
            if i == 0 {
                assert(before + lines@[i as int]@ =~= lines@[i as int]@);
            }
        }
        i += 1;
    }
    proof {
        assert(deep(lines@).take(lines@.len() as int) =~= deep(lines@));
    }
    text
}

/// The line breaks of a concatenation add up.
pub proof fn lemma_count_newlines_add(left: Seq<char>, right: Seq<char>)
    ensures
        count_newlines(left + right) == count_newlines(left) + count_newlines(right),
    decreases right.len(),
{
    if right.len() == 0 {
        assert(left + right =~= left);
    } else {
        assert((left + right).drop_last() =~= left + right.drop_last());
        lemma_count_newlines_add(left, right.drop_last());
    }
}

/// How many line breaks a text holds. The text is read character by
/// character from its start each time, which is slow on a long text.
pub fn count_line_breaks(text: &str) -> (count: usize)
    ensures
        count == count_newlines(text@),
{
    let length = text.unicode_len();
    let mut count: usize = 0;
    let mut i: usize = 0;
    proof {
        assert(text@.take(0) =~= Seq::<char>::empty());
    }
    while i < length
        invariant
            i <= length,
            length == text@.len(),
            count <= i,
            count == count_newlines(text@.take(i as int)),
        decreases length - i,
    {
        proof {
            assert(text@.take(i + 1).drop_last() =~= text@.take(i as int));
            assert(text@.take(i + 1).last() == text@[i as int]);
        }
        if text.get_char(i) == '\n' {
            count += 1;
        }
        i += 1;
    }
    proof {
        assert(text@.take(length as int) =~= text@);
    }
    count
}

} // verus!
