//! Rewriting the line of one setting in the text of the settings file.
//!
//! The text is a run of lines separated by `'\n'`. A setting's line is the
//! first line that begins with the setting's name and a colon, character for
//! character; rewriting puts a fresh `key: value` line in its place and copies
//! every other character.

use crate::error::ConfigError;
use crate::text::{chars_of, string_of};
use vstd::prelude::*;
use vstd::string::*;

verus! {

/// The line that gives a setting its value.
pub open spec fn setting_line(key: Seq<char>, value: Seq<char>) -> Seq<char> {
    key + ": "@ + value
}

/// `text[start..end]` is a whole line: it is bounded by the ends of the text
/// or by line feeds, and holds no line feed.
pub open spec fn is_line(text: Seq<char>, start: int, end: int) -> bool {
    &&& 0 <= start <= end <= text.len()
    &&& start == 0 || text[start - 1] == '\n'
    &&& end == text.len() || text[end] == '\n'
    &&& forall|i: int| start <= i < end ==> text[i] != '\n'
}

/// `text[start..end]` begins with the characters of `key` and a colon.
pub open spec fn is_headed_by(text: Seq<char>, key: Seq<char>, start: int, end: int) -> bool {
    &&& 0 <= start
    &&& start + key.len() < end <= text.len()
    &&& forall|i: int| 0 <= i < key.len() ==> text[start + i] == key[i]
    &&& text[start + key.len()] == ':'
}

/// `text[start..end]` is a line of the setting `key`.
pub open spec fn is_setting_line(text: Seq<char>, key: Seq<char>, start: int, end: int) -> bool {
    &&& is_line(text, start, end)
    &&& is_headed_by(text, key, start, end)
}

/// Some line of the text is a line of the setting.
pub open spec fn has_setting_line(text: Seq<char>, key: Seq<char>) -> bool {
    exists|start: int, end: int| is_setting_line(text, key, start, end)
}

/// The setting has one line in the text, and no more.
pub open spec fn has_one_setting_line(text: Seq<char>, key: Seq<char>) -> bool {
    &&& has_setting_line(text, key)
    &&& forall|s1: int, e1: int, s2: int, e2: int|
        #[trigger] is_setting_line(text, key, s1, e1) && #[trigger] is_setting_line(
            text,
            key,
            s2,
            e2,
        ) ==> s1 == s2 && e1 == e2
}

/// `text[start..end]` is the line of the setting that comes first in the text.
pub open spec fn is_first_setting_line(
    text: Seq<char>,
    key: Seq<char>,
    start: int,
    end: int,
) -> bool {
    &&& is_setting_line(text, key, start, end)
    &&& forall|s: int, e: int| #[trigger] is_setting_line(text, key, s, e) ==> start <= s
}

/// The bounds of the setting's first line, where it has one.
pub open spec fn first_setting_line(text: Seq<char>, key: Seq<char>) -> (int, int) {
    choose|span: (int, int)| is_first_setting_line(text, key, span.0, span.1)
}

/// The text with `line` in place of `text[start..end]`.
pub open spec fn splice(text: Seq<char>, start: int, end: int, line: Seq<char>) -> Seq<char> {
    text.subrange(0, start) + line + text.subrange(end, text.len() as int)
}

/// The text with the setting's line rewritten to hold `value`.
pub open spec fn rewritten(text: Seq<char>, key: Seq<char>, value: Seq<char>) -> Seq<char> {
    let span = first_setting_line(text, key);
    splice(text, span.0, span.1, setting_line(key, value))
}

/// By how much the lines behind the setting's line move when it is rewritten.
pub open spec fn shift(text: Seq<char>, key: Seq<char>, value: Seq<char>) -> int {
    let span = first_setting_line(text, key);
    setting_line(key, value).len() - (span.1 - span.0)
}

/// A line is determined by where it starts.
pub proof fn lemma_line_end_is_unique(text: Seq<char>, start: int, end1: int, end2: int)
    requires
        is_line(text, start, end1),
        is_line(text, start, end2),
    ensures
        end1 == end2,
{
    // the shorter of two candidates would end on a line feed inside the longer
}

/// Two lines of a text are the same line, or one ends before the other starts.
pub proof fn lemma_lines_are_disjoint(text: Seq<char>, s1: int, e1: int, s2: int, e2: int)
    requires
        is_line(text, s1, e1),
        is_line(text, s2, e2),
    ensures
        (s1 == s2 && e1 == e2) || e1 < s2 || e2 < s1,
{
    if s1 == s2 {
        lemma_line_end_is_unique(text, s1, e1, e2);
    }
    // a later line starts behind a line feed, and the earlier line holds none
}

/// There is at most one first line of a setting, and `first_setting_line`
/// names it.
pub proof fn lemma_first_setting_line(text: Seq<char>, key: Seq<char>, start: int, end: int)
    requires
        is_first_setting_line(text, key, start, end),
    ensures
        first_setting_line(text, key) == (start, end),
        has_setting_line(text, key),
{
    let found = (start, end);
    assert(is_first_setting_line(text, key, found.0, found.1));
    lemma_line_end_is_unique(text, start, end, first_setting_line(text, key).1);
}

/// Of all lines of a setting, one comes first.
proof fn lemma_some_line_is_first(text: Seq<char>, key: Seq<char>, start: int, end: int)
    requires
        is_setting_line(text, key, start, end),
    ensures
        exists|s: int, e: int| is_first_setting_line(text, key, s, e),
    decreases start,
{
    if exists|s: int, e: int| is_setting_line(text, key, s, e) && s < start {
        let (s, e) = choose|s: int, e: int| is_setting_line(text, key, s, e) && s < start;
        lemma_some_line_is_first(text, key, s, e);
    } else {
        assert(is_first_setting_line(text, key, start, end));
    }
}

/// Where the setting has a line, `first_setting_line` is the first of them.
pub proof fn lemma_first_setting_line_exists(text: Seq<char>, key: Seq<char>)
    requires
        has_setting_line(text, key),
    ensures
        is_first_setting_line(
            text,
            key,
            first_setting_line(text, key).0,
            first_setting_line(text, key).1,
        ),
{
    let (start, end) = choose|start: int, end: int| is_setting_line(text, key, start, end);
    lemma_some_line_is_first(text, key, start, end);
    let (s, e) = choose|s: int, e: int| is_first_setting_line(text, key, s, e);
    let found = (s, e);
    assert(is_first_setting_line(text, key, found.0, found.1));
}

/// A name that heads a line holds no line feed.
pub proof fn lemma_key_of_a_line_has_no_line_feed(
    text: Seq<char>,
    key: Seq<char>,
    start: int,
    end: int,
)
    requires
        is_setting_line(text, key, start, end),
    ensures
        !key.contains('\n'),
{
    // a line feed in the name would stand inside the line
}

/// Rewriting a setting puts `key: value` where the setting's first line
/// began. Unless the value holds a line feed, that is a whole line of the new
/// text, and a line of the setting.
pub proof fn lemma_rewrite_writes_the_line(text: Seq<char>, key: Seq<char>, value: Seq<char>)
    requires
        has_setting_line(text, key),
    ensures
        ({
            let span = first_setting_line(text, key);
            let line = setting_line(key, value);
            let new_text = rewritten(text, key, value);
            &&& new_text.len() == text.len() + shift(text, key, value)
            &&& new_text.subrange(span.0, span.0 + line.len()) == line
            &&& !value.contains('\n') ==> is_setting_line(
                new_text,
                key,
                span.0,
                span.0 + line.len(),
            )
        }),
{
    lemma_first_setting_line_exists(text, key);
    let span = first_setting_line(text, key);
    lemma_key_of_a_line_has_no_line_feed(text, key, span.0, span.1);
    reveal_strlit(": ");
    let line = setting_line(key, value);
    let new_text = rewritten(text, key, value);
    assert forall|i: int| 0 <= i < line.len() implies new_text[span.0 + i] == line[i] by {}
    assert forall|i: int| 0 <= i < key.len() implies #[trigger] line[i] == key[i] by {}
    if !value.contains('\n') {
        assert forall|i: int| span.0 <= i < span.0 + line.len() implies new_text[i] != '\n' by {
            // the character is one of the name, of `": "`, or of the value
            let j = i - span.0;
        }
        assert forall|i: int| 0 <= i < key.len() implies new_text[span.0 + i] == key[i] by {}
    }
}

/// Rewriting a setting changes no other line: a line before the setting's
/// stays where it is, a line after it moves by the change in length, and both
/// read as they did.
pub proof fn lemma_rewrite_keeps_other_lines(
    text: Seq<char>,
    key: Seq<char>,
    value: Seq<char>,
    start: int,
    end: int,
)
    requires
        has_setting_line(text, key),
        is_line(text, start, end),
        (start, end) != first_setting_line(text, key),
    ensures
        ({
            let span = first_setting_line(text, key);
            let shift = shift(text, key, value);
            let new_text = rewritten(text, key, value);
            if end < span.0 {
                &&& is_line(new_text, start, end)
                &&& new_text.subrange(start, end) == text.subrange(start, end)
            } else {
                &&& span.1 < start
                &&& is_line(new_text, start + shift, end + shift)
                &&& new_text.subrange(start + shift, end + shift) == text.subrange(start, end)
            }
        }),
{
    lemma_first_setting_line_exists(text, key);
    let span = first_setting_line(text, key);
    let shift = shift(text, key, value);
    let new_text = rewritten(text, key, value);
    lemma_lines_are_disjoint(text, start, end, span.0, span.1);
    if span.1 < start {
        assert forall|i: int| span.1 <= i < text.len() implies new_text[i + shift] == text[i] by {}
    }
}

/// Rewriting a setting to a value without a line feed adds no line: every
/// line of the new text but the rewritten one is a line of the old text, at
/// its place before the setting's line or moved back by the change in length
/// behind it, and reads as it did there.
pub proof fn lemma_rewrite_adds_no_line(
    text: Seq<char>,
    key: Seq<char>,
    value: Seq<char>,
    start: int,
    end: int,
)
    requires
        has_setting_line(text, key),
        !value.contains('\n'),
        is_line(rewritten(text, key, value), start, end),
        start != first_setting_line(text, key).0,
    ensures
        ({
            let span = first_setting_line(text, key);
            let shift = shift(text, key, value);
            let new_text = rewritten(text, key, value);
            if end < span.0 {
                &&& is_line(text, start, end)
                &&& text.subrange(start, end) == new_text.subrange(start, end)
            } else {
                &&& span.1 < start - shift
                &&& is_line(text, start - shift, end - shift)
                &&& text.subrange(start - shift, end - shift) == new_text.subrange(start, end)
            }
        }),
{
    lemma_first_setting_line_exists(text, key);
    lemma_rewrite_writes_the_line(text, key, value);
    let span = first_setting_line(text, key);
    let line = setting_line(key, value);
    let shift = shift(text, key, value);
    let new_text = rewritten(text, key, value);
    lemma_lines_are_disjoint(new_text, start, end, span.0, span.0 + line.len());
    assert forall|i: int| 0 <= i < span.0 implies new_text[i] == text[i] by {}
    assert forall|i: int| span.1 <= i < text.len() implies new_text[i + shift] == text[i] by {}
    if span.0 <= end {
        assert forall|i: int| start - shift <= i < end - shift implies text[i] != '\n' by {}
    }
}

/// Other lines of the text keep their heads when a setting is rewritten: a
/// line of the new text that is not the rewritten one is headed by a name
/// only if the line it came from was.
proof fn lemma_heads_are_kept(
    text: Seq<char>,
    key: Seq<char>,
    value: Seq<char>,
    start: int,
    end: int,
)
    requires
        has_setting_line(text, key),
        !value.contains('\n'),
        is_setting_line(rewritten(text, key, value), key, start, end),
        start != first_setting_line(text, key).0,
    ensures
        ({
            let span = first_setting_line(text, key);
            let shift = shift(text, key, value);
            if end < span.0 {
                is_setting_line(text, key, start, end)
            } else {
                is_setting_line(text, key, start - shift, end - shift)
            }
        }),
{
    lemma_rewrite_adds_no_line(text, key, value, start, end);
    lemma_first_setting_line_exists(text, key);
    let span = first_setting_line(text, key);
    let shift = shift(text, key, value);
    let new_text = rewritten(text, key, value);
    assert forall|i: int| 0 <= i < span.0 implies new_text[i] == text[i] by {}
    assert forall|i: int| span.1 <= i < text.len() implies new_text[i + shift] == text[i] by {}
    if end < span.0 {
        assert forall|i: int| 0 <= i < key.len() implies text[start + i] == key[i] by {}
    } else {
        assert forall|i: int| 0 <= i < key.len() implies text[start - shift + i] == key[i] by {}
    }
}

/// A setting that has one line keeps one line: after it is rewritten to a
/// value without a line feed, the line `key: value` is its only line in the
/// new text.
pub proof fn lemma_rewrite_keeps_one_line(text: Seq<char>, key: Seq<char>, value: Seq<char>)
    requires
        has_one_setting_line(text, key),
        !value.contains('\n'),
    ensures
        has_one_setting_line(rewritten(text, key, value), key),
        ({
            let start = first_setting_line(text, key).0;
            let end = start + setting_line(key, value).len();
            &&& first_setting_line(rewritten(text, key, value), key) == (start, end)
            &&& rewritten(text, key, value).subrange(start, end) == setting_line(key, value)
        }),
{
    lemma_first_setting_line_exists(text, key);
    lemma_rewrite_writes_the_line(text, key, value);
    let span = first_setting_line(text, key);
    let new_text = rewritten(text, key, value);
    let start = span.0;
    let end = start + setting_line(key, value).len();
    assert forall|s: int, e: int| #[trigger] is_setting_line(new_text, key, s, e) implies s
        == start && e == end by {
        if s != start {
            // the line came from another line of the setting, and there is none
            lemma_heads_are_kept(text, key, value, s, e);
            lemma_rewrite_adds_no_line(text, key, value, s, e);
        } else {
            lemma_line_end_is_unique(new_text, start, end, e);
        }
    }
    lemma_first_setting_line(new_text, key, start, end);
}

/// Whether `chars[start..end]` begins with the characters of `key` and a
/// colon.
fn heads(chars: &Vec<char>, key: &Vec<char>, start: usize, end: usize) -> (found: bool)
    requires
        start <= end <= chars.len(),
    ensures
        found == is_headed_by(chars@, key@, start as int, end as int),
{
    let n = key.len();
    if end - start <= n {
        return false;
    }
    let mut i: usize = 0;
    while i < n
        invariant
            n == key.len(),
            start + n < end <= chars.len(),
            i <= n,
            forall|j: int| 0 <= j < i ==> chars@[start + j] == key@[j],
        decreases n - i,
    {
        if chars[start + i] != key[i] {
            return false;
        }
        i += 1;
    }
    chars[start + n] == ':'
}

/// Whether a line belongs to a setting: whether it begins with the setting's
/// name and a colon.
pub fn line_belongs_to(key: &str, line: &str) -> (found: bool)
    ensures
        found == is_headed_by(line@, key@, 0, line@.len() as int),
{
    let chars = chars_of(line);
    let name = chars_of(key);
    heads(&chars, &name, 0, chars.len())
}

/// Rewrites the first line of the setting `key` so that it reads
/// `key: value`, and returns the new text of the file. Every other line is
/// copied as it is.
///
/// Fails with `MissingLine` where no line of the text begins with the name
/// and a colon.
pub fn rewrite_setting(contents: &str, key: &str, value: &str) -> (result: Result<
    String,
    ConfigError,
>)
    ensures
        match result {
            Ok(text) => {
                &&& has_setting_line(contents@, key@)
                &&& text@ == rewritten(contents@, key@, value@)
            },
            Err(error) => {
                &&& error == ConfigError::MissingLine
                &&& !has_setting_line(contents@, key@)
            },
        },
{
    let chars = chars_of(contents);
    let name = chars_of(key);
    let n = chars.len();
    let ghost text = contents@;
    let mut start: usize = 0;
    loop
        invariant
            chars@ == text,
            text == contents@,
            name@ == key@,
            n == chars.len(),
            start <= n,
            start == 0 || text[start - 1] == '\n',
            forall|s: int, e: int| #[trigger] is_setting_line(text, key@, s, e) ==> start <= s,
        decreases n - start,
    {
        let mut end: usize = start;
        while end < n && chars[end] != '\n'
            invariant
                chars@ == text,
                n == chars.len(),
                start <= end <= n,
                forall|i: int| start <= i < end ==> text[i] != '\n',
            decreases n - end,
        {
            end += 1;
        }
        if heads(&chars, &name, start, end) {
            let mut out = string_of(&chars, 0, start);
            out.append(key);
            out.append(": ");
            out.append(value);
            let rest = string_of(&chars, end, n);
            out.append(rest.as_str());
            proof {
                lemma_first_setting_line(text, key@, start as int, end as int);
            }
            return Ok(out);
        }
        proof {
            assert forall|s: int, e: int| #[trigger] is_setting_line(text, key@, s, e) implies end
                < s by {
                lemma_lines_are_disjoint(text, start as int, end as int, s, e);
            }
        }
        if end == n {
            return Err(ConfigError::MissingLine);
        }
        start = end + 1;
    }
}

} // verus!
