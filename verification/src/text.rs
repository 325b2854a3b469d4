//! Work on text, character by character: what is assumed of the standard
//! library's string functions where they are called, and trimming and
//! searching built here and proved.

use vstd::prelude::*;

verus! {

/// Assumed of `String::push`, not proved: the string afterwards is the
/// string before with `c` added as its last character.
pub assume_specification[ String::push ](s: &mut String, c: char)
    ensures
        final(s)@ == old(s)@.push(c),
;

/// The lower-case form of `text`: what `str::to_lowercase` returns for it.
/// The mapping itself is the standard library's and is not spelled out here.
pub uninterp spec fn lowercase_of(text: Seq<char>) -> Seq<char>;

/// Assumed of `str::to_lowercase`, not proved: what it returns depends on
/// the characters of the text alone.
pub assume_specification[ str::to_lowercase ](s: &str) -> (lower: String)
    ensures
        lower@ == lowercase_of(s@),
;

/// Whether `c` is white space, in the sense of Unicode's `White_Space`
/// property: the controls from tab to carriage return, the space, the
/// next-line control, the no-break space, and the spaces and separators
/// further up that carry the property.
pub open spec fn white_space(c: char) -> bool {
    ||| '\u{9}' <= c <= '\u{d}'
    ||| c == ' '
    ||| c == '\u{85}'
    ||| c == '\u{a0}'
    ||| c == '\u{1680}'
    ||| '\u{2000}' <= c <= '\u{200a}'
    ||| c == '\u{2028}'
    ||| c == '\u{2029}'
    ||| c == '\u{202f}'
    ||| c == '\u{205f}'
    ||| c == '\u{3000}'
}

/// Whether `c` is white space.
pub fn is_white_space(c: char) -> (blank: bool)
    ensures
        blank == white_space(c),
{
    ('\u{9}' <= c && c <= '\u{d}') || c == ' ' || c == '\u{85}' || c == '\u{a0}' || c
        == '\u{1680}' || ('\u{2000}' <= c && c <= '\u{200a}') || c == '\u{2028}' || c
        == '\u{2029}' || c == '\u{202f}' || c == '\u{205f}' || c == '\u{3000}'
}

/// `text` without the white space it starts with.
pub open spec fn trim_start(text: Seq<char>) -> Seq<char>
    decreases text.len(),
{
    if text.len() > 0 && white_space(text.first()) {
        trim_start(text.drop_first())
    } else {
        text
    }
}

/// `text` without the white space it ends with.
pub open spec fn trim_end(text: Seq<char>) -> Seq<char>
    decreases text.len(),
{
    if text.len() > 0 && white_space(text.last()) {
        trim_end(text.drop_last())
    } else {
        text
    }
}

/// `text` without the white space around it.
pub open spec fn trimmed(text: Seq<char>) -> Seq<char> {
    trim_end(trim_start(text))
}

/// Whether `word` occurs in `text` as a run of neighbouring characters.
pub open spec fn has_infix(text: Seq<char>, word: Seq<char>) -> bool {
    exists|at: int| occurs_at(text, word, at)
}

/// Whether `word` stands in `text` starting at position `at`.
pub open spec fn occurs_at(text: Seq<char>, word: Seq<char>, at: int) -> bool {
    &&& 0 <= at
    &&& at + word.len() <= text.len()
    &&& text.subrange(at, at + word.len()) == word
}

/// The characters of `text`, one by one.
pub fn chars_of(text: &str) -> (chars: Vec<char>)
    ensures
        chars@ == text@,
{
    let mut chars: Vec<char> = Vec::new();
    for c in it: text.chars()
        invariant
            it.seq() == text@,
            chars@ == text@.subrange(0, it.index()),
    {
        chars.push(c);
        assert(chars@ =~= text@.subrange(0, it.index() + 1));
    }
    assert(chars@ =~= text@);
    chars
}

/// Removes the white space around `text`.
pub fn trim(text: &str) -> (out: String)
    ensures
        out@ == trimmed(text@),
{
    let chars = chars_of(text);
    let mut start: usize = 0;
    assert(chars@.subrange(0, chars@.len() as int) =~= chars@);
    while start < chars.len() && is_white_space(chars[start])
        invariant
            start <= chars.len(),
            trim_start(chars@) == trim_start(chars@.subrange(start as int, chars@.len() as int)),
        decreases chars.len() - start,
    {
        assert(chars@.subrange(start as int, chars@.len() as int).drop_first()
            =~= chars@.subrange(start + 1, chars@.len() as int));
        start = start + 1;
    }
    let ghost front = chars@.subrange(start as int, chars@.len() as int);
    assert(trim_start(chars@) == front);
    let mut end: usize = chars.len();
    assert(front.subrange(0, end - start) =~= front);
    while end > start && is_white_space(chars[end - 1])
        invariant
            start <= end <= chars.len(),
            front == chars@.subrange(start as int, chars@.len() as int),
            trim_end(front) == trim_end(front.subrange(0, end - start)),
        decreases end,
    {
        assert(front.subrange(0, end - start).drop_last() =~= front.subrange(0, end - start - 1));
        end = end - 1;
    }
    let ghost kept = front.subrange(0, end - start);
    assert(trim_end(front) == kept);
    let mut out = String::new();
    let mut at: usize = start;
    while at < end
        invariant
            start <= at <= end <= chars.len(),
            out@ == chars@.subrange(start as int, at as int),
        decreases end - at,
    {
        out.push(chars[at]);
        at = at + 1;
        assert(out@ =~= chars@.subrange(start as int, at as int));
    }
    assert(out@ =~= kept);
    out
}

/// Whether `word` stands in `text` at position `at`.
fn stands_at(text: &Vec<char>, word: &Vec<char>, at: usize) -> (found: bool)
    requires
        at + word.len() <= text.len(),
    ensures
        found == occurs_at(text@, word@, at as int),
{
    let mut matched: usize = 0;
    while matched < word.len()
        invariant
            matched <= word.len(),
            at + word.len() <= text.len(),
            forall|k: int| 0 <= k < matched ==> text@[at + k] == word@[k],
        decreases word.len() - matched,
    {
        if text[at + matched] != word[matched] {
            assert(text@.subrange(at as int, at + word.len())[matched as int] != word@[matched as int]);
            return false;
        }
        matched = matched + 1;
    }
    assert(text@.subrange(at as int, at + word.len()) =~= word@);
    true
}

/// Whether `word` occurs somewhere in `text`.
pub fn contains_word(text: &str, word: &str) -> (found: bool)
    ensures
        found == has_infix(text@, word@),
{
    let hay = chars_of(text);
    let needle = chars_of(word);
    if needle.len() > hay.len() {
        return false;
    }
    let last: usize = hay.len() - needle.len();
    let mut at: usize = 0;
    loop
        invariant
            hay@ == text@,
            needle@ == word@,
            last == hay.len() - needle.len(),
            at <= last,
            forall|k: int| 0 <= k < at ==> !occurs_at(hay@, needle@, k),
        decreases last - at,
    {
        if stands_at(&hay, &needle, at) {
            return true;
        }
        if at == last {
            return false;
        }
        at = at + 1;
    }
}

} // verus!
