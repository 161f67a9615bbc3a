//! Reading Markdown into tokens and writing tokens out as HTML.

use vstd::prelude::*;
use pulldown_cmark::Event;
use crate::partition::{
    decides, lemma_adjacent_separators_empty_slide, lemma_slide_count, partition, separator_count,
    slice_views, slides_of,
};
use crate::segments::views;

verus! {

/// One token of a parsed document, as `pulldown_cmark` hands it out.
#[verifier::external_type_specification]
#[verifier::external_body]
pub struct ExEvent<'a>(Event<'a>);

/// The tokens that the parser reads from a document.
pub uninterp spec fn markdown_tokens(text: Seq<char>) -> Seq<Event<'static>>;

/// Whether a token is a thematic break, which separates two slides.
pub uninterp spec fn is_rule(token: Event<'static>) -> bool;

/// The HTML that the renderer writes for a run of tokens that is not empty.
pub uninterp spec fn tokens_html(tokens: Seq<Event<'static>>) -> Seq<char>;

/// The HTML of a run of tokens: nothing for no tokens, and what the renderer
/// writes otherwise.
pub open spec fn html_of(tokens: Seq<Event<'static>>) -> Seq<char> {
    if tokens.len() == 0 {
        Seq::empty()
    } else {
        tokens_html(tokens)
    }
}

/// Runs `pulldown_cmark::Parser::new` over `text` to its end. The tokens are
/// a function of the text alone.
#[verifier::external_body]
pub(crate) fn tokenize<'a>(text: &'a str) -> (tokens: Vec<Event<'a>>)
    ensures
        tokens@ == markdown_tokens(text@),
{
    pulldown_cmark::Parser::new(text).collect()
}

/// Tells `Event::Rule` from the other variants.
#[verifier::external_body]
pub(crate) fn is_separator<'a>(token: &Event<'a>) -> (rule: bool)
    ensures
        rule == is_rule(*token),
{
    matches!(token, Event::Rule)
}

/// Calls `pulldown_cmark::html::push_html` on a fresh string with the tokens
/// of `tokens` in order. The writer writes token by token, so without a
/// token the string stays empty.
#[verifier::external_body]
pub(crate) fn render_html<'a>(tokens: &[Event<'a>]) -> (html: String)
    ensures
        tokens@.len() > 0 ==> html@ == tokens_html(tokens@),
        tokens@.len() == 0 ==> html@.len() == 0,
{
    let mut html = String::new();
    pulldown_cmark::html::push_html(&mut html, tokens.iter().cloned());
    html
}

/// For each token of a document, whether it separates two slides.
pub open spec fn rule_flags(text: Seq<char>) -> Seq<bool> {
    markdown_tokens(text).map_values(|token: Event<'static>| is_rule(token))
}

/// The slides of a document: its tokens, split at every thematic break.
pub open spec fn markdown_slides(text: Seq<char>) -> Seq<Seq<Event<'static>>> {
    slides_of(markdown_tokens(text), rule_flags(text))
}

/// The HTML of each slide of a document, in order.
pub open spec fn slide_html(text: Seq<char>) -> Seq<Seq<char>> {
    markdown_slides(text).map_values(|slide: Seq<Event<'static>>| html_of(slide))
}

/// Empty slides. Where two thematic breaks follow each other as tokens `i`
/// and `i + 1`, the slide between them has no content: its HTML is empty,
/// and it is a slide like any other.
pub proof fn lemma_adjacent_breaks_empty_content(text: Seq<char>, i: int)
    requires
        0 <= i,
        i + 1 < markdown_tokens(text).len(),
        is_rule(markdown_tokens(text)[i]),
        is_rule(markdown_tokens(text)[i + 1]),
    ensures
        separator_count(rule_flags(text).take(i + 1)) < slide_html(text).len(),
        slide_html(text)[separator_count(rule_flags(text).take(i + 1)) as int].len() == 0,
{
    lemma_adjacent_separators_empty_slide(markdown_tokens(text), rule_flags(text), i);
}

/// Reads `text` as Markdown, splits its tokens into slides at every thematic
/// break and renders each slide to HTML on its own. A document with `k`
/// breaks gives `k + 1` slides; an empty slide is rendered like any other.
pub fn slide_contents(text: &str) -> (contents: Vec<String>)
    ensures
        views(contents@) == slide_html(text@),
        contents@.len() == separator_count(rule_flags(text@)) + 1,
{
    let tokens = tokenize(text);
    let separates = |token: &Event| -> (rule: bool)
        ensures
            rule == is_rule(*token),
        { is_separator(token) };
    assert(decides(separates, |token: Event<'static>| is_rule(token)));
    let slides = partition(tokens.as_slice(), separates);
    proof {
        lemma_slide_count(markdown_tokens(text@), rule_flags(text@));
    }
    let mut contents: Vec<String> = Vec::new();
    let mut i: usize = 0;
    while i < slides.len()
        invariant
            i <= slides.len(),
            slice_views(slides@) == markdown_slides(text@),
            views(contents@) == slide_html(text@).take(i as int),
        decreases slides.len() - i,
    {
        let ghost before = views(contents@);
        let html = render_html(slides[i]);
        assert(slides@[i as int]@ == slice_views(slides@)[i as int]);
        assert(html@ =~= html_of(slides@[i as int]@));
        contents.push(html);
        assert(views(contents@) =~= before.push(html@));
        assert(slide_html(text@).take(i + 1) =~= before.push(html@));
        i = i + 1;
    }
    assert(slide_html(text@).take(i as int) =~= slide_html(text@));
    contents
}

} // verus!
