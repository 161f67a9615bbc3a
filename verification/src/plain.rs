//! Plain templates: the templates that the engine is handed.
//!
//! A template engine offers far more than a slide's page needs, and some of
//! it can run without end or stop the program. A plain template uses none of
//! that. Outside its tags it may hold any text. Inside a tag, which opens
//! with `{{` or `{%` and closes with `}}` or `%}`, it holds only blanks, the
//! signs of sums and comparisons, whole numbers, the three variables of a
//! slide and the words of a condition. So a tag can print a variable or a
//! sum and can open, turn and close a condition, and nothing else: no text
//! in quotes, no filter, no call, no loop, no macro and no other template.
//!
//! The rule is read off the text alone, and it errs on the safe side: what a
//! tag is, is judged more widely than the engine would judge it.

use vstd::prelude::*;
use crate::text::chars_of;

verus! {

/// The most characters that the tags of a plain template hold together. The
/// engine works a sum or a condition out by calling itself for each of its
/// parts, and a condition within a condition likewise: the bound keeps that
/// shallow.
pub const MAX_CODE: usize = 256;

/// What is known of a template after a part of it has been read.
pub struct Scan {
    /// Whether the part ends within a tag.
    pub inside: bool,
    /// The last character read.
    pub last: Option<char>,
    /// Whether the last character was a `%` within a tag.
    pub percent: bool,
    /// The word that the part ends in, where it ends within a tag.
    pub word: Seq<char>,
    /// How many characters were read within tags.
    pub code: nat,
    /// Whether every tag so far holds only what a plain template may hold.
    pub plain: bool,
}

/// A letter, a digit or `_`.
pub open spec fn is_word_char(c: char) -> bool {
    ('a' <= c && c <= 'z') || ('A' <= c && c <= 'Z') || ('0' <= c && c <= '9') || c == '_'
}

/// A blank between two words of a tag.
pub open spec fn is_blank(c: char) -> bool {
    c == ' ' || c == '\t' || c == '\r' || c == '\n'
}

/// A sign that a tag may hold: those of its brackets, of sums and of
/// comparisons.
pub open spec fn is_sign(c: char) -> bool {
    c == '{' || c == '}' || c == '%' || c == '+' || c == '-' || c == '<' || c == '>' || c == '='
        || c == '!'
}

/// A whole number: digits only.
pub open spec fn is_number(word: Seq<char>) -> bool {
    forall|i: int| 0 <= i < word.len() ==> '0' <= #[trigger] word[i] && word[i] <= '9'
}

/// A word that a tag may hold: a variable of a slide, a word of a condition
/// or a whole number.
pub open spec fn is_known_word(word: Seq<char>) -> bool {
    ||| word == "index"@
    ||| word == "content"@
    ||| word == "num_of_slides"@
    ||| word == "if"@
    ||| word == "elif"@
    ||| word == "else"@
    ||| word == "endif"@
    ||| word == "and"@
    ||| word == "or"@
    ||| word == "not"@
    ||| word == "true"@
    ||| word == "false"@
    ||| is_number(word)
}

/// What is known before anything has been read.
pub open spec fn scan_start() -> Scan {
    Scan { inside: false, last: None, percent: false, word: Seq::empty(), code: 0, plain: true }
}

/// What is known once `c` has been read after a part of which `before` is
/// known.
///
/// Outside a tag, `{{` and `{%` open one. Inside a tag, `}}` and `%}` close
/// it; every character must be a letter, a digit, `_`, a blank or a sign; a
/// `%` must be the one that closes the tag; and every word that ends must be
/// a known word.
pub open spec fn scan_step(before: Scan, c: char) -> Scan {
    if !before.inside {
        Scan {
            inside: before.last == Some('{') && (c == '{' || c == '%'),
            last: Some(c),
            percent: false,
            word: Seq::empty(),
            code: before.code,
            plain: before.plain,
        }
    } else {
        Scan {
            inside: !(c == '}' && (before.last == Some('}') || before.percent)),
            last: Some(c),
            percent: c == '%',
            word: if is_word_char(c) {
                before.word.push(c)
            } else {
                Seq::empty()
            },
            code: before.code + 1,
            plain: {
                &&& before.plain
                &&& is_word_char(c) || is_blank(c) || is_sign(c)
                &&& before.percent ==> c == '}'
                &&& !is_word_char(c) && before.word.len() > 0 ==> is_known_word(before.word)
            },
        }
    }
}

/// What is known of `text` once all of it has been read.
pub open spec fn scan(text: Seq<char>) -> Scan
    decreases text.len(),
{
    if text.len() == 0 {
        scan_start()
    } else {
        scan_step(scan(text.drop_last()), text.last())
    }
}

/// A plain template: every tag is closed, the tags hold only what a plain
/// template may hold, and together no more than `MAX_CODE` characters.
pub open spec fn is_plain(template: Seq<char>) -> bool {
    let end = scan(template);
    end.plain && !end.inside && end.code <= MAX_CODE
}

fn word_char(c: char) -> (yes: bool)
    ensures
        yes == is_word_char(c),
{
    ('a' <= c && c <= 'z') || ('A' <= c && c <= 'Z') || ('0' <= c && c <= '9') || c == '_'
}

fn blank(c: char) -> (yes: bool)
    ensures
        yes == is_blank(c),
{
    c == ' ' || c == '\t' || c == '\r' || c == '\n'
}

fn sign(c: char) -> (yes: bool)
    ensures
        yes == is_sign(c),
{
    c == '{' || c == '}' || c == '%' || c == '+' || c == '-' || c == '<' || c == '>' || c == '='
        || c == '!'
}

fn number(word: &Vec<char>) -> (yes: bool)
    ensures
        yes == is_number(word@),
{
    let mut i: usize = 0;
    while i < word.len()
        invariant
            i <= word.len(),
            forall|k: int| 0 <= k < i ==> '0' <= #[trigger] word@[k] && word@[k] <= '9',
        decreases word.len() - i,
    {
        if !('0' <= word[i] && word[i] <= '9') {
            return false;
        }
        i = i + 1;
    }
    true
}

fn word_is(word: &Vec<char>, name: &str) -> (yes: bool)
    ensures
        yes == (word@ == name@),
{
    let letters = chars_of(name);
    if word.len() != letters.len() {
        return false;
    }
    let mut i: usize = 0;
    while i < word.len()
        invariant
            i <= word.len(),
            word.len() == letters.len(),
            letters@ == name@,
            forall|k: int| 0 <= k < i ==> word@[k] == letters@[k],
        decreases word.len() - i,
    {
        if word[i] != letters[i] {
            return false;
        }
        i = i + 1;
    }
    assert(word@ =~= name@);
    true
}

/// Whether a tag may hold `word`.
pub fn known_word(word: &Vec<char>) -> (yes: bool)
    ensures
        yes == is_known_word(word@),
{
    word_is(word, "index") || word_is(word, "content") || word_is(word, "num_of_slides")
        || word_is(word, "if") || word_is(word, "elif") || word_is(word, "else") || word_is(
        word,
        "endif",
    ) || word_is(word, "and") || word_is(word, "or") || word_is(word, "not") || word_is(
        word,
        "true",
    ) || word_is(word, "false") || number(word)
}

/// Whether `template` is a plain template.
pub fn plain(template: &str) -> (yes: bool)
    ensures
        yes == is_plain(template@),
{
    let chars = chars_of(template);
    let mut inside = false;
    let mut last: Option<char> = None;
    let mut percent = false;
    let mut word: Vec<char> = Vec::new();
    let mut code: usize = 0;
    let mut ok = true;
    let mut i: usize = 0;
    assert(template@.take(0).len() == 0);
    while i < chars.len()
        invariant
            chars@ == template@,
            i <= chars.len(),
            code <= i,
            scan(template@.take(i as int)).inside == inside,
            scan(template@.take(i as int)).last == last,
            scan(template@.take(i as int)).percent == percent,
            scan(template@.take(i as int)).word == word@,
            scan(template@.take(i as int)).code == code,
            scan(template@.take(i as int)).plain == ok,
        decreases chars.len() - i,
    {
        let c = chars[i];
        proof {
            assert(template@.take(i + 1).drop_last() =~= template@.take(i as int));
            assert(template@.take(i + 1).last() == c);
        }
        let ghost before = scan(template@.take(i as int));
        if !inside {
            inside = match last {
                Some(previous) => previous == '{' && (c == '{' || c == '%'),
                None => false,
            };
            percent = false;
            word = Vec::new();
        } else {
            let letter = word_char(c);
            if !(letter || blank(c) || sign(c)) {
                ok = false;
            }
            if percent && c != '}' {
                ok = false;
            }
            if !letter && word.len() > 0 && !known_word(&word) {
                ok = false;
            }
            let closes = c == '}' && (percent || match last {
                Some(previous) => previous == '}',
                None => false,
            });
            inside = !closes;
            percent = c == '%';
            if letter {
                word.push(c);
            } else {
                word = Vec::new();
            }
            code = code + 1;
        }
        last = Some(c);
        assert(word@ =~= scan_step(before, c).word);
        i = i + 1;
    }
    assert(template@.take(i as int) =~= template@);
    ok && !inside && code <= MAX_CODE
}

} // verus!
