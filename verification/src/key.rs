//! Setting names as they are shown to a person.

use vstd::prelude::*;
use vstd::string::*;

verus! {

/// The most opening brackets that a name may hold and still be put in title
/// case. Title-casing goes one call deeper for every opening bracket at the
/// head of a word, so a name with more of them is shown as it is spelled.
pub const MAX_BRACKETS: usize = 128;

/// What `titlecase::titlecase` returns for a text.
pub uninterp spec fn title_cased(text: Seq<char>) -> Seq<char>;

/// A setting name with a space in place of every underscore.
pub open spec fn spaced(key: Seq<char>) -> Seq<char> {
    key.map_values(|c: char| if c == '_' { ' ' } else { c })
}

/// How many opening brackets a text holds.
pub open spec fn brackets(text: Seq<char>) -> nat
    decreases text.len(),
{
    if text.len() == 0 {
        0
    } else {
        brackets(text.drop_last()) + if text.last() == '(' { 1nat } else { 0nat }
    }
}

/// The display form of a setting name: underscores become spaces, and the
/// words are put in title case.
pub open spec fn formatted_key(key: Seq<char>) -> Seq<char> {
    title_cased(spaced(key))
}

/// A setting name as the commands show it: in its display form, or with no
/// more than spaces for underscores where it holds too many brackets for that.
pub open spec fn displayed_key(key: Seq<char>) -> Seq<char> {
    if brackets(key) <= MAX_BRACKETS {
        formatted_key(key)
    } else {
        spaced(key)
    }
}

/// A text holds at least as many brackets as any of its beginnings.
pub proof fn lemma_brackets_grow(text: Seq<char>, n: int)
    requires
        0 <= n <= text.len(),
    ensures
        brackets(text.take(n)) <= brackets(text),
    decreases text.len(),
{
    if n < text.len() {
        assert(text.drop_last().take(n) == text.take(n));
        lemma_brackets_grow(text.drop_last(), n);
    } else {
        assert(text.take(n) == text);
    }
}

/// Putting spaces for underscores leaves the brackets as they are.
pub proof fn lemma_spacing_keeps_brackets(key: Seq<char>)
    ensures
        brackets(spaced(key)) == brackets(key),
    decreases key.len(),
{
    if key.len() > 0 {
        assert(spaced(key).drop_last() == spaced(key.drop_last()));
        lemma_spacing_keeps_brackets(key.drop_last());
    }
}

/// `titlecase::titlecase`: the text in title case. The result is a function of
/// the text alone; the contract gives it a name and says no more of it. The
/// function calls itself once for every opening bracket at the head of a word,
/// so the text may hold only a few.
#[verifier::external_body]
fn title_case(text: &str) -> (cased: String)
    requires
        brackets(text@) <= MAX_BRACKETS,
    ensures
        cased@ == title_cased(text@),
{
    titlecase::titlecase(text)
}

/// Replaces every underscore of a setting name by a space.
pub fn underscores_to_spaces(key: &str) -> (words: String)
    ensures
        words@ == spaced(key@),
{
    let mut words = String::new();
    for c in it: key.chars()
        invariant
            it.seq() == key@,
            words@ == spaced(it.seq().take(it.index() as int)),
    {
        if c == '_' {
            words.push(' ');
        } else {
            words.push(c);
        }
    }
    words
}

/// Whether a text holds few enough opening brackets to be put in title case.
pub fn has_few_brackets(text: &str) -> (few: bool)
    ensures
        few == (brackets(text@) <= MAX_BRACKETS),
{
    let mut count: usize = 0;
    for c in it: text.chars()
        invariant
            it.seq() == text@,
            count == brackets(it.seq().take(it.index() as int)),
            count <= MAX_BRACKETS,
    {
        proof {
            let next = it.seq().take(it.index() + 1);
            assert(next.drop_last() == it.seq().take(it.index() as int));
            lemma_brackets_grow(text@, it.index() + 1);
        }
        if c == '(' {
            if count == MAX_BRACKETS {
                return false;
            }
            count += 1;
        }
    }
    assert(text@.take(text@.len() as int) == text@);
    true
}

/// The display form of a setting name that holds no more than `MAX_BRACKETS`
/// opening brackets.
pub fn format_key(key: String) -> (shown: String)
    requires
        brackets(key@) <= MAX_BRACKETS,
    ensures
        shown@ == formatted_key(key@),
{
    proof {
        lemma_spacing_keeps_brackets(key@);
    }
    let words = underscores_to_spaces(key.as_str());
    title_case(words.as_str())
}

/// A setting name as the commands show it: its display form where it holds no
/// more than `MAX_BRACKETS` opening brackets, and else the name with spaces
/// for underscores.
pub fn display_key(key: &str) -> (shown: String)
    ensures
        shown@ == displayed_key(key@),
{
    if has_few_brackets(key) {
        format_key(String::from_str(key))
    } else {
        underscores_to_spaces(key)
    }
}

} // verus!
