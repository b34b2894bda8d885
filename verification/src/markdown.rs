//! Markdown to HTML, by the `pulldown-cmark` crate with every extension it
//! knows switched on.

use vstd::prelude::*;
use pulldown_cmark::Options;
use pulldown_cmark::Parser;

verus! {

/// The HTML that the renderer writes for a Markdown text, with all
/// extensions on.
pub uninterp spec fn markdown_html(source: Seq<char>) -> Seq<char>;

/// Parses the text with `Parser::new_ext` under `Options::all()` and writes
/// the events out with `pulldown_cmark::html::push_html`. The parser takes
/// any text: what is not well-formed Markdown is rendered as it can be.
#[verifier::external_body]
fn push_html(source: &str) -> (html: String)
    ensures
        html@ == markdown_html(source@),
{
    let mut html = String::new();
    pulldown_cmark::html::push_html(&mut html, Parser::new_ext(source, Options::all()));
    html
}

/// Renders a Markdown text as HTML. There is nothing to configure and
/// nothing to fail.
pub fn render_markdown(source: &str) -> (html: String)
    ensures
        html@ == markdown_html(source@),
{
    push_html(source)
}

} // verus!
