//! Operations on text that the rest of the library is stated over.

use vstd::prelude::*;
use vstd::string::StrSliceExecFns;
use vstd::string::StringExecFns;

verus! {

/// The lower-case form of a text, as the standard library's Unicode tables
/// give it.
pub uninterp spec fn lowercase(text: Seq<char>) -> Seq<char>;

/// Calls `str::to_lowercase` of the standard library: the result is the
/// lower-case form of `text`, which depends on `text` alone.
#[verifier::external_body]
pub(crate) fn to_lowercase(text: &str) -> (lowered: String)
    ensures
        lowered@ == lowercase(text@),
{
    text.to_lowercase()
}

/// `part` stands in `text` from position `at` on.
pub open spec fn occurs_at(text: Seq<char>, part: Seq<char>, at: int) -> bool {
    &&& 0 <= at
    &&& at + part.len() <= text.len()
    &&& text.subrange(at, at + part.len()) == part
}

/// `part` stands somewhere in `text`.
pub open spec fn has_part(text: Seq<char>, part: Seq<char>) -> bool {
    exists|at: int| occurs_at(text, part, at)
}

/// The characters of `text`, one by one.
pub fn chars_of(text: &str) -> (chars: Vec<char>)
    ensures
        chars@ == text@,
{
    let mut chars: Vec<char> = Vec::new();
    for c in it: text.chars()
        invariant
            chars@ == it.seq().take(it.index() as int),
            it.seq() == text@,
    {
        chars.push(c);
    }
    chars
}

/// Whether `part` stands in `text` from position `at` on.
pub fn matches_at(text: &Vec<char>, part: &Vec<char>, at: usize) -> (found: bool)
    ensures
        found == occurs_at(text@, part@, at as int),
{
    if at > text.len() || part.len() > text.len() - at {
        return false;
    }
    let mut k: usize = 0;
    while k < part.len()
        invariant
            k <= part.len(),
            at + part.len() <= text.len(),
            forall|j: int| 0 <= j < k ==> text[at + j] == part[j],
        decreases part.len() - k,
    {
        if text[at + k] != part[k] {
            proof {
                let window = text@.subrange(at as int, at + part.len());
                assert(window[k as int] == text[at + k]);
            }
            return false;
        }
        k += 1;
    }
    assert(text@.subrange(at as int, at + part.len()) =~= part@);
    true
}

/// Whether `part` stands somewhere in `text`.
pub fn contains_chars(text: &Vec<char>, part: &Vec<char>) -> (found: bool)
    ensures
        found == has_part(text@, part@),
{
    if part.len() > text.len() {
        return false;
    }
    let last = text.len() - part.len();
    let mut at: usize = 0;
    loop
        invariant
            at <= last,
            last == text.len() - part.len(),
            forall|j: int| 0 <= j < at ==> !occurs_at(text@, part@, j),
        decreases last - at,
    {
        if matches_at(text, part, at) {
            return true;
        }
        if at == last {
            return false;
        }
        at += 1;
    }
}

/// Whether `part` stands somewhere in `text`.
pub fn contains_text(text: &str, part: &str) -> (found: bool)
    ensures
        found == has_part(text@, part@),
{
    let text_chars = chars_of(text);
    let part_chars = chars_of(part);
    contains_chars(&text_chars, &part_chars)
}

/// `text` with each occurrence of `from` replaced by `to`, the occurrences
/// taken from the left and none overlapping another. An empty `from`
/// occurs nowhere.
pub open spec fn replaced(text: Seq<char>, from: Seq<char>, to: Seq<char>) -> Seq<char>
    decreases text.len(),
{
    if from.len() == 0 || text.len() < from.len() {
        text
    } else if text.subrange(0, from.len() as int) == from {
        to + replaced(text.skip(from.len() as int), from, to)
    } else {
        seq![text[0]] + replaced(text.skip(1), from, to)
    }
}

/// Replaces each occurrence of `from` in `text` by `to`.
pub fn replace_text(text: &str, from: &str, to: &str) -> (out: String)
    ensures
        out@ == replaced(text@, from@, to@),
{
    let chars = chars_of(text);
    let pattern = chars_of(from);
    if pattern.len() == 0 || chars.len() < pattern.len() {
        return String::from_str(text);
    }
    let last = chars.len() - pattern.len();
    let mut out = String::new();
    let mut copied: usize = 0;
    let mut at: usize = 0;
    proof {
        assert(text@.skip(0) =~= text@);
        assert(out@ + text@.subrange(0, 0) + replaced(text@, from@, to@) =~= replaced(
            text@,
            from@,
            to@,
        ));
    }
    while at <= last
        invariant
            chars@ == text@,
            pattern@ == from@,
            pattern.len() > 0,
            last == chars.len() - pattern.len(),
            copied <= at <= chars.len(),
            replaced(text@, from@, to@) == out@ + text@.subrange(copied as int, at as int)
                + replaced(text@.skip(at as int), from@, to@),
        decreases chars.len() - at,
    {
        let ghost rest = text@.skip(at as int);
        let found = matches_at(&chars, &pattern, at);
        proof {
            assert(rest.subrange(0, from@.len() as int) =~= text@.subrange(
                at as int,
                at + from@.len(),
            ));
        }
        if found {
            out.append(text.substring_char(copied, at));
            out.append(to);
            at += pattern.len();
            copied = at;
            proof {
                assert(rest.skip(from@.len() as int) =~= text@.skip(at as int));
                assert(text@.subrange(copied as int, at as int) =~= Seq::<char>::empty());
            }
        } else {
            proof {
                assert(rest.skip(1) =~= text@.skip(at + 1));
                assert(text@.subrange(copied as int, at as int) + seq![rest[0]]
                    =~= text@.subrange(copied as int, at + 1));
            }
            at += 1;
        }
    }
    proof {
        assert(text@.subrange(copied as int, at as int) + text@.skip(at as int)
            =~= text@.subrange(copied as int, text@.len() as int));
    }
    out.append(text.substring_char(copied, chars.len()));
    out
}

} // verus!
