//! The version grammar `MAJOR.MINOR[.TEENY[-pPATCH]]`.
//!
//! Each of the four components is a run of decimal digits, as long as the text allows.
//! A version has to start at the position it is looked for at; what follows it in the
//! text is of no account.

use crate::version::{Captures, VersionCaptures};
use vstd::prelude::*;
use vstd::string::*;

verus! {

/// Whether `c` is one of the ten decimal digits `0` to `9`.
pub open spec fn is_digit(c: char) -> bool {
    '0' <= c && c <= '9'
}

/// Whether `s` is made of decimal digits, and of at least one.
pub open spec fn is_number(s: Seq<char>) -> bool {
    &&& s.len() > 0
    &&& forall|k: int| 0 <= k < s.len() ==> is_digit(#[trigger] s[k])
}

/// How many digits stand in `s` from position `from` on, before the first other character.
pub open spec fn digit_run(s: Seq<char>, from: int) -> nat
    decreases s.len() - from,
{
    if 0 <= from < s.len() && is_digit(s[from]) {
        1 + digit_run(s, from + 1)
    } else {
        0
    }
}

/// The teeny component that starts at position `at` of `s`: a dot and at least one digit.
pub open spec fn teeny_at(s: Seq<char>, at: int) -> Option<Seq<char>> {
    let end = at + 1 + digit_run(s, at + 1);
    if 0 <= at < s.len() && s[at] == '.' && at + 1 < end {
        Some(s.subrange(at + 1, end))
    } else {
        None
    }
}

/// The patch component that starts at position `at` of `s`: `-p` and at least one digit.
pub open spec fn patch_at(s: Seq<char>, at: int) -> Option<Seq<char>> {
    let end = at + 2 + digit_run(s, at + 2);
    if 0 <= at && at + 1 < s.len() && s[at] == '-' && s[at + 1] == 'p' && at + 2 < end {
        Some(s.subrange(at + 2, end))
    } else {
        None
    }
}

/// The version that starts at position `from` of `s`, if one does: digits, a dot and
/// digits, then a teeny if one follows, then a patch if there is a teeny and one follows.
pub open spec fn version_at(s: Seq<char>, from: int) -> Option<Captures> {
    let major_end = from + digit_run(s, from);
    let minor_end = major_end + 1 + digit_run(s, major_end + 1);
    if 0 <= from < major_end && major_end < s.len() && s[major_end] == '.' && major_end + 1
        < minor_end {
        let teeny = teeny_at(s, minor_end);
        Some(
            Captures {
                major: s.subrange(from, major_end),
                minor: s.subrange(major_end + 1, minor_end),
                teeny,
                patch: match teeny {
                    Some(t) => patch_at(s, minor_end + 1 + t.len()),
                    None => None,
                },
            },
        )
    } else {
        None
    }
}

/// Components as the grammar yields them: each one that is there is a number, and a
/// patch comes only with a teeny.
pub open spec fn well_formed(c: Captures) -> bool {
    &&& is_number(c.major)
    &&& is_number(c.minor)
    &&& c.teeny matches Some(teeny) ==> is_number(teeny)
    &&& c.patch matches Some(patch) ==> is_number(patch) && c.teeny is Some
}

/// A run of digits ends inside the text, holds digits only, and is followed by the end
/// of the text or by a character that is no digit.
pub proof fn lemma_digit_run_bounds(s: Seq<char>, from: int)
    requires
        0 <= from <= s.len(),
    ensures
        from + digit_run(s, from) <= s.len(),
        forall|k: int| from <= k < from + digit_run(s, from) ==> is_digit(#[trigger] s[k]),
        from + digit_run(s, from) < s.len() ==> !is_digit(s[from + digit_run(s, from)]),
    decreases s.len() - from,
{
    if from < s.len() && is_digit(s[from]) {
        lemma_digit_run_bounds(s, from + 1);
    }
}

/// `n` digits from `from` on that the end of the text or another character follows
/// make a run of exactly `n`.
pub proof fn lemma_digit_run_exact(s: Seq<char>, from: int, n: nat)
    requires
        0 <= from,
        from + n <= s.len(),
        forall|k: int| from <= k < from + n ==> is_digit(#[trigger] s[k]),
        from + n < s.len() ==> !is_digit(s[from + n]),
    ensures
        digit_run(s, from) == n,
    decreases n,
{
    if n > 0 {
        assert(is_digit(s[from]));
        lemma_digit_run_exact(s, from + 1, (n - 1) as nat);
    }
}

/// Whatever the grammar captures is well formed, and the text from `from` on begins
/// with the display form of what was captured.
pub proof fn law_captures_are_well_formed(s: Seq<char>, from: int)
    ensures
        version_at(s, from) matches Some(c) ==> {
            &&& well_formed(c)
            &&& from + c.display().len() <= s.len()
            &&& s.subrange(from, from + c.display().len()) == c.display()
        },
{
    if let Some(c) = version_at(s, from) {
        let major_end = from + digit_run(s, from);
        let minor_end = major_end + 1 + digit_run(s, major_end + 1);
        lemma_digit_run_bounds(s, from);
        lemma_digit_run_bounds(s, major_end + 1);
        let head = c.major + seq!['.'] + c.minor;
        assert(s.subrange(from, minor_end) =~= head);
        match c.teeny {
            None => {},
            Some(teeny) => {
                let teeny_end = minor_end + 1 + teeny.len();
                lemma_digit_run_bounds(s, minor_end + 1);
                assert(s.subrange(from, teeny_end) =~= head + seq!['.'] + teeny);
                match c.patch {
                    None => {},
                    Some(patch) => {
                        lemma_digit_run_bounds(s, teeny_end + 2);
                        assert(s.subrange(from, teeny_end + 2 + patch.len()) =~= head + seq!['.']
                            + teeny + seq!['-', 'p'] + patch);
                    },
                }
            },
        }
    }
}

/// The display form of well-formed components reads back as those components.
pub proof fn law_display_round_trip(c: Captures)
    requires
        well_formed(c),
    ensures
        version_at(c.display(), 0) == Some(c),
{
    let s = c.display();
    let major_end = c.major.len() as int;
    let minor_end = major_end + 1 + c.minor.len();
    let head = c.major + seq!['.'] + c.minor;
    assert(forall|k: int| 0 <= k < major_end ==> s[k] == c.major[k]);
    assert(s[major_end] == '.');
    assert(forall|k: int| major_end + 1 <= k < minor_end ==> s[k] == c.minor[k - major_end - 1]);
    lemma_digit_run_exact(s, 0, c.major.len());
    match c.teeny {
        None => {
            lemma_digit_run_exact(s, major_end + 1, c.minor.len());
            assert(s.subrange(0, major_end) =~= c.major);
            assert(s.subrange(major_end + 1, minor_end) =~= c.minor);
        },
        Some(teeny) => {
            let teeny_end = minor_end + 1 + teeny.len();
            assert(s[minor_end] == '.');
            assert(forall|k: int| minor_end + 1 <= k < teeny_end ==> s[k] == teeny[k - minor_end
                - 1]);
            lemma_digit_run_exact(s, major_end + 1, c.minor.len());
            match c.patch {
                None => {
                    lemma_digit_run_exact(s, minor_end + 1, teeny.len());
                },
                Some(patch) => {
                    let patch_end = teeny_end + 2 + patch.len();
                    assert(s[teeny_end] == '-');
                    assert(s[teeny_end + 1] == 'p');
                    assert(forall|k: int| teeny_end + 2 <= k < patch_end ==> s[k] == patch[k
                        - teeny_end - 2]);
                    lemma_digit_run_exact(s, minor_end + 1, teeny.len());
                    lemma_digit_run_exact(s, teeny_end + 2, patch.len());
                    assert(s.subrange(teeny_end + 2, patch_end) =~= patch);
                },
            }
            assert(s.subrange(0, major_end) =~= c.major);
            assert(s.subrange(major_end + 1, minor_end) =~= c.minor);
            assert(s.subrange(minor_end + 1, teeny_end) =~= teeny);
        },
    }
}

/// What the grammar captured reads back from its own display form: reading, showing
/// and reading again gives what the first reading gave.
pub proof fn law_captured_version_reads_back(s: Seq<char>, from: int)
    ensures
        version_at(s, from) matches Some(c) ==> version_at(c.display(), 0) == Some(c),
{
    if let Some(c) = version_at(s, from) {
        law_captures_are_well_formed(s, from);
        law_display_round_trip(c);
    }
}

/// Whether `c` is a decimal digit.
pub fn is_digit_char(c: char) -> (digit: bool)
    ensures
        digit == is_digit(c),
{
    '0' <= c && c <= '9'
}

/// The characters of `text`, one by one.
pub fn chars_of(text: &str) -> (chars: Vec<char>)
    ensures
        chars@ == text@,
        text@.len() <= usize::MAX,
{
    let mut chars: Vec<char> = Vec::new();
    for c in it: text.chars()
        invariant
            chars@ == it.seq().take(it.index() as int),
    {
        chars.push(c);
    }
    assert(chars@.len() == chars.len());
    chars
}

/// The position just behind the digits that stand in `chars` from `from` on.
fn skip_digits(chars: &[char], from: usize) -> (end: usize)
    requires
        from <= chars@.len(),
    ensures
        end == from + digit_run(chars@, from as int),
        from <= end <= chars@.len(),
{
    let mut end: usize = from;
    while end < chars.len() && is_digit_char(chars[end])
        invariant
            from <= end <= chars@.len(),
            digit_run(chars@, from as int) == (end - from) + digit_run(chars@, end as int),
        decreases chars@.len() - end,
    {
        end = end + 1;
    }
    end
}

/// The characters of `text` from position `from` up to position `to`, as a string.
fn copy_span(text: &str, from: usize, to: usize) -> (span: String)
    requires
        from <= to <= text@.len(),
    ensures
        span@ == text@.subrange(from as int, to as int),
{
    String::from_str(text.substring_char(from, to))
}

/// Looks for a version at position `from` of `chars` and copies what the grammar
/// captures.
///
/// `chars` holds the characters of `text` from position `base` on, all of them or the
/// first ones: the captured strings are cut from `text`.
pub(crate) fn capture_version(text: &str, chars: &[char], base: usize, from: usize) -> (captures:
    Option<
    VersionCaptures,
>)
    requires
        from <= chars@.len(),
        base + chars@.len() <= text@.len() <= usize::MAX,
        chars@ == text@.subrange(base as int, base + chars@.len()),
    ensures
        captures.deep_view() == version_at(chars@, from as int),
{
    let len = chars.len();
    let major_end = skip_digits(chars, from);
    if major_end == from || major_end >= len || chars[major_end] != '.' {
        return None;
    }
    let minor_end = skip_digits(chars, major_end + 1);
    if minor_end == major_end + 1 {
        return None;
    }
    let major = copy_span(text, base + from, base + major_end);
    let minor = copy_span(text, base + major_end + 1, base + minor_end);
    assert(major@ =~= chars@.subrange(from as int, major_end as int));
    assert(minor@ =~= chars@.subrange(major_end + 1, minor_end as int));
    let mut teeny: Option<String> = None;
    let mut patch: Option<String> = None;
    if minor_end < len && chars[minor_end] == '.' {
        let teeny_end = skip_digits(chars, minor_end + 1);
        if teeny_end > minor_end + 1 {
            let teeny_text = copy_span(text, base + minor_end + 1, base + teeny_end);
            assert(teeny_text@ =~= chars@.subrange(minor_end + 1, teeny_end as int));
            teeny = Some(teeny_text);
            if teeny_end < len && chars[teeny_end] == '-' && teeny_end + 1 < len && chars[teeny_end
                + 1] == 'p' {
                let patch_end = skip_digits(chars, teeny_end + 2);
                if patch_end > teeny_end + 2 {
                    let patch_text = copy_span(text, base + teeny_end + 2, base + patch_end);
                    assert(patch_text@ =~= chars@.subrange(teeny_end + 2, patch_end as int));
                    patch = Some(patch_text);
                }
            }
        }
    }
    Some(VersionCaptures { major, minor, teeny, patch })
}

} // verus!
