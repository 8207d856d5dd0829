//! Operations on text that the catalog and the generator share: comparing,
//! cutting a string into symbols, and joining symbols into a string.

use vstd::prelude::*;

verus! {

/// Whether `c` separates words: the characters that Unicode classes as
/// white space.
pub open spec fn is_space(c: char) -> bool {
    ||| '\u{9}' <= c <= '\u{d}'
    ||| c == ' '
    ||| c == '\u{85}'
    ||| c == '\u{a0}'
    ||| c == '\u{1680}'
    ||| '\u{2000}' <= c <= '\u{200a}'
    ||| c == '\u{2028}'
    ||| c == '\u{2029}'
    ||| c == '\u{202f}'
    ||| c == '\u{205f}'
    ||| c == '\u{3000}'
}

/// The symbols of a text read character by character: one symbol of length
/// one for each character, in the order of the text.
pub open spec fn singles(text: Seq<char>) -> Seq<Seq<char>> {
    Seq::new(text.len(), |i: int| seq![text[i]])
}

/// The first position at or after `from` that holds a space, or the length
/// of the text where no space follows.
pub open spec fn word_end(text: Seq<char>, from: int) -> int
    decreases text.len() - from,
{
    if from < 0 || from >= text.len() || is_space(text[from]) {
        from
    } else {
        word_end(text, from + 1)
    }
}

/// The words of `text` that begin at or after `from`: the longest runs of
/// characters without a space, in the order of the text.
pub open spec fn words_from(text: Seq<char>, from: int) -> Seq<Seq<char>>
    decreases text.len() - from,
{
    if from < 0 || from >= text.len() {
        Seq::empty()
    } else if is_space(text[from]) {
        words_from(text, from + 1)
    } else {
        proof {
            word_end_bounds(text, from + 1);
        }
        seq![text.subrange(from, word_end(text, from + 1))] + words_from(
            text,
            word_end(text, from + 1),
        )
    }
}

/// The words of `text`.
pub open spec fn words_of(text: Seq<char>) -> Seq<Seq<char>> {
    words_from(text, 0)
}

/// `parts` written one after the other with `separator` between each two
/// neighbours, and nothing before the first or after the last.
pub open spec fn joined(parts: Seq<Seq<char>>, separator: Seq<char>) -> Seq<char>
    decreases parts.len(),
{
    if parts.len() == 0 {
        Seq::empty()
    } else if parts.len() == 1 {
        parts[0]
    } else {
        joined(parts.drop_last(), separator) + separator + parts.last()
    }
}

/// A word ends no earlier than it is looked for, and inside the text.
pub proof fn word_end_bounds(text: Seq<char>, from: int)
    requires
        0 <= from <= text.len(),
    ensures
        from <= word_end(text, from) <= text.len(),
    decreases text.len() - from,
{
    if from < text.len() && !is_space(text[from]) {
        word_end_bounds(text, from + 1);
    }
}

/// Whether `c` separates words.
pub fn separates(c: char) -> (space: bool)
    ensures
        space == is_space(c),
{
    ('\u{9}' <= c && c <= '\u{d}') || c == ' ' || c == '\u{85}' || c == '\u{a0}' || c == '\u{1680}'
        || ('\u{2000}' <= c && c <= '\u{200a}') || c == '\u{2028}' || c == '\u{2029}' || c
        == '\u{202f}' || c == '\u{205f}' || c == '\u{3000}'
}

/// Whether two strings hold the same characters.
pub fn same_text(left: &str, right: &str) -> (same: bool)
    ensures
        same == (left@ == right@),
{
    let n: usize = left.unicode_len();
    if n != right.unicode_len() {
        return false;
    }
    let mut i: usize = 0;
    while i < n
        invariant
            i <= n,
            n == left@.len(),
            n == right@.len(),
            forall|j: int| 0 <= j < i ==> left@[j] == right@[j],
        decreases n - i,
    {
        if left.get_char(i) != right.get_char(i) {
            return false;
        }
        i += 1;
    }
    assert(left@ =~= right@);
    true
}

/// Cuts `text` into its characters, each one a symbol of its own.
pub fn chars(text: &str) -> (list: Vec<String>)
    ensures
        list.deep_view() == singles(text@),
{
    let n: usize = text.unicode_len();
    let mut list: Vec<String> = Vec::new();
    let mut i: usize = 0;
    while i < n
        invariant
            i <= n,
            n == text@.len(),
            list@.len() == i,
            forall|j: int| 0 <= j < i ==> list@[j]@ == seq![text@[j]],
        decreases n - i,
    {
        let one: &str = text.substring_char(i, i + 1);
        assert(one@ =~= seq![text@[i as int]]);
        list.push(String::from_str(one));
        i += 1;
    }
    assert(list.deep_view() =~= singles(text@));
    list
}

/// Cuts `text` into its words, dropping the spaces between them.
pub fn split_words(text: &str) -> (list: Vec<String>)
    ensures
        list.deep_view() == words_of(text@),
{
    let n: usize = text.unicode_len();
    let mut list: Vec<String> = Vec::new();
    let mut i: usize = 0;
    while i < n
        invariant
            i <= n,
            n == text@.len(),
            list.deep_view() + words_from(text@, i as int) == words_of(text@),
        decreases n - i,
    {
        if separates(text.get_char(i)) {
            i += 1;
        } else {
            let start: usize = i;
            i += 1;
            while i < n && !separates(text.get_char(i))
                invariant
                    start < i <= n,
                    n == text@.len(),
                    word_end(text@, i as int) == word_end(text@, start + 1),
                decreases n - i,
            {
                i += 1;
            }
            let word: String = String::from_str(text.substring_char(start, i));
            let ghost before = list.deep_view();
            list.push(word);
            assert(list.deep_view() =~= before + seq![text@.subrange(start as int, i as int)]);
            assert(before + seq![text@.subrange(start as int, i as int)] + words_from(text@, i as int)
                =~= before + (seq![text@.subrange(start as int, i as int)] + words_from(
                text@,
                i as int,
            )));
        }
    }
    assert(list.deep_view() + Seq::<Seq<char>>::empty() =~= list.deep_view());
    list
}

/// Writes `parts` one after the other with `separator` between each two
/// neighbours.
pub fn join(parts: &Vec<String>, separator: &str) -> (text: String)
    ensures
        text@ == joined(parts.deep_view(), separator@),
{
    let mut text: String = String::new();
    let mut i: usize = 0;
    while i < parts.len()
        invariant
            i <= parts.len(),
            text@ == joined(parts.deep_view().take(i as int), separator@),
        decreases parts.len() - i,
    {
        let ghost before = parts.deep_view().take(i as int);
        let ghost after = parts.deep_view().take(i + 1);
        assert(after.drop_last() =~= before);
        assert(after.last() == parts@[i as int]@);
        if i > 0 {
            text.append(separator);
        }
        text.append(parts[i].as_str());
        assert(text@ =~= joined(after, separator@));
        i += 1;
    }
    assert(parts.deep_view().take(i as int) =~= parts.deep_view());
    text
}

} // verus!
