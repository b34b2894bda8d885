//! The pass over the rendered body that turns fenced code into highlighted
//! code. The `lol_html` crate reads the HTML and finds the elements; what is
//! done to an element or a piece of text once it is found is decided here.

use vstd::prelude::*;
use vstd::utf8::decode_utf8;
use vstd::utf8::valid_utf8;
use std::borrow::Cow;
use lol_html::errors::RewritingError;
use lol_html::html_content::ContentType;
use lol_html::html_content::Element;
use lol_html::html_content::TextChunk;
use lol_html::ElementContentHandlers;
use lol_html::HtmlRewriter;
use lol_html::Selector;
use lol_html::Settings;
use crate::entities::decoded;
use crate::error::BuildError;
use crate::highlight::class_prefix_spec;
use crate::highlight::Highlighter;
use crate::language::Language;

verus! {

/// An element that the rewriter has found, open to changes.
#[verifier::external_type_specification]
#[verifier::external_body]
pub struct ExElement<'r, 't>(lol_html::html_content::Element<'r, 't>);

/// A piece of the text inside an element that the rewriter has found.
#[verifier::external_type_specification]
#[verifier::external_body]
pub struct ExTextChunk<'i>(lol_html::html_content::TextChunk<'i>);

/// What a rewriter is set up with.
#[verifier::external_type_specification]
#[verifier::external_body]
pub struct ExSettings<'h, 's>(lol_html::Settings<'h, 's>);

/// What is done to an element that a selector has matched.
#[derive(Clone, Copy, Debug, PartialEq, Eq, Structural)]
pub enum ElementRule {
    /// The element is marked as a container of highlighted code.
    MarkBlock,
    /// The element loses its class and its tags; what is inside it stays.
    Unwrap,
}

/// Why the rewriter stopped before the end of the body.
#[derive(Clone, Copy, Debug, PartialEq, Eq, Structural)]
pub enum RewriteFailure {
    /// The rewriter ran out of the memory it is allowed.
    OutOfMemory,
    /// The markup can be read in two ways, and the rewriter will not guess.
    Ambiguous,
    /// A rule reported a failure.
    Handler,
}

/// A selector together with what is done to what it matches.
pub enum Rule {
    Element { selector: Seq<char>, rule: ElementRule },
    Highlight { selector: Seq<char>, highlighter: Highlighter, language: Language },
}

/// The attributes of an element in the order in which they stand, each with
/// its name in lower case and its value.
pub uninterp spec fn attributes(element: Element<'_, '_>) -> Seq<(Seq<char>, Seq<char>)>;

/// Whether the tags of an element are to be left out of the output.
pub uninterp spec fn tags_removed(element: Element<'_, '_>) -> bool;

/// The text of a chunk as it stands in the input, character references
/// included.
pub uninterp spec fn chunk_text(chunk: TextChunk<'_>) -> Seq<char>;

/// The HTML that is written in place of a chunk, if the chunk is replaced.
pub uninterp spec fn chunk_replacement(chunk: TextChunk<'_>) -> Option<Seq<char>>;

/// The rules that settings hold, in the order in which they were added.
pub uninterp spec fn rules(settings: Settings<'_, '_>) -> Seq<Rule>;

/// Whether the rewriter understands a selector.
pub uninterp spec fn selector_accepted(selector: Seq<char>) -> bool;

/// What a rewriter with the given rules makes of a body: the bytes it
/// writes, or why it stopped.
pub uninterp spec fn rewritten(rules: Seq<Rule>, body: Seq<char>) -> Result<Seq<u8>, RewriteFailure>;

/// Whether a name is made of lower-case ASCII letters and hyphens alone.
pub open spec fn plain_name(name: Seq<char>) -> bool {
    &&& name.len() > 0
    &&& forall|i: int| 0 <= i < name.len() ==> ('a' <= #[trigger] name[i] <= 'z' || name[i] == '-')
}

/// `attributes` with the first attribute of the given name set to `value`,
/// or with a new attribute at the end when there is none of that name.
pub open spec fn with_attribute(
    attributes: Seq<(Seq<char>, Seq<char>)>,
    name: Seq<char>,
    value: Seq<char>,
) -> Seq<(Seq<char>, Seq<char>)>
    decreases attributes.len(),
{
    if attributes.len() == 0 {
        seq![(name, value)]
    } else if attributes[0].0 == name {
        seq![(name, value)] + attributes.skip(1)
    } else {
        seq![attributes[0]] + with_attribute(attributes.skip(1), name, value)
    }
}

/// `attributes` without the first attribute of the given name.
pub open spec fn without_attribute(attributes: Seq<(Seq<char>, Seq<char>)>, name: Seq<char>) -> Seq<
    (Seq<char>, Seq<char>),
>
    decreases attributes.len(),
{
    if attributes.len() == 0 {
        attributes
    } else if attributes[0].0 == name {
        attributes.skip(1)
    } else {
        seq![attributes[0]] + without_attribute(attributes.skip(1), name)
    }
}

/// Calls `Element::set_attribute`. With a plain name the call cannot fail:
/// the first attribute of that name gets the value, and where there is none
/// an attribute is added at the end.
#[verifier::external_body]
fn set_attribute(element: &mut Element<'_, '_>, name: &str, value: &str)
    requires
        plain_name(name@),
    ensures
        attributes(*final(element)) == with_attribute(attributes(*old(element)), name@, value@),
        tags_removed(*final(element)) == tags_removed(*old(element)),
{
    let _ = element.set_attribute(name, value);
}

/// Calls `Element::remove_attribute`, which takes out the first attribute
/// of the given name, if there is one.
#[verifier::external_body]
fn remove_attribute(element: &mut Element<'_, '_>, name: &str)
    requires
        plain_name(name@),
    ensures
        attributes(*final(element)) == without_attribute(attributes(*old(element)), name@),
        tags_removed(*final(element)) == tags_removed(*old(element)),
{
    element.remove_attribute(name);
}

/// Calls `Element::remove_and_keep_content`, which leaves the start tag and
/// the end tag of the element out of the output and keeps what is between.
#[verifier::external_body]
fn remove_and_keep_content(element: &mut Element<'_, '_>)
    ensures
        attributes(*final(element)) == attributes(*old(element)),
        tags_removed(*final(element)),
{
    element.remove_and_keep_content();
}

/// Calls `TextChunk::as_str`: the text of the chunk.
#[verifier::external_body]
fn text_of<'a>(chunk: &'a TextChunk<'_>) -> (text: &'a str)
    ensures
        text@ == chunk_text(*chunk),
{
    chunk.as_str()
}

/// Calls `TextChunk::replace` with HTML content: `html` is written as it
/// stands in place of the chunk, and takes the place of an earlier
/// replacement.
#[verifier::external_body]
fn replace_with_html(chunk: &mut TextChunk<'_>, html: &str)
    ensures
        chunk_text(*final(chunk)) == chunk_text(*old(chunk)),
        chunk_replacement(*final(chunk)) == Some(html@),
{
    chunk.replace(html, ContentType::Html);
}

/// Calls `Settings::default`: settings without a rule.
#[verifier::external_body]
fn new_settings<'h, 's>() -> (settings: Settings<'h, 's>)
    ensures
        rules(settings) == Seq::<Rule>::empty(),
{
    Settings::default()
}

/// Parses the selector and, where the rewriter understands it, adds to the
/// settings' `element_content_handlers` a handler that applies `rule` to
/// every element the selector matches.
#[verifier::external_body]
fn add_element_rule(settings: &mut Settings<'_, '_>, selector: &str, rule: ElementRule) -> (added:
    bool)
    ensures
        added == selector_accepted(selector@),
        rules(*final(settings)) == if added {
            rules(*old(settings)).push(Rule::Element { selector: selector@, rule })
        } else {
            rules(*old(settings))
        },
{
    let Ok(parsed) = selector.parse::<Selector>() else { return false; };
    let handlers = ElementContentHandlers::default().element(
        move |element: &mut Element| {
            apply_element_rule(rule, element);
            Ok(())
        },
    );
    settings.element_content_handlers.push((Cow::Owned(parsed), handlers));
    true
}

/// Parses the selector and, where the rewriter understands it, adds to the
/// settings' `element_content_handlers` a handler that highlights every
/// chunk of text inside the elements the selector matches.
#[verifier::external_body]
fn add_highlight_rule<'h>(
    settings: &mut Settings<'h, '_>,
    selector: &str,
    highlighter: &'h Highlighter,
    language: Language,
) -> (added: bool)
    ensures
        added == selector_accepted(selector@),
        rules(*final(settings)) == if added {
            rules(*old(settings)).push(
                Rule::Highlight { selector: selector@, highlighter: *highlighter, language },
            )
        } else {
            rules(*old(settings))
        },
{
    let Ok(parsed) = selector.parse::<Selector>() else { return false; };
    let handlers = ElementContentHandlers::default().text(
        move |chunk: &mut TextChunk| {
            highlight_chunk(highlighter, language, chunk).map_err(|error| error.message().into())
        },
    );
    settings.element_content_handlers.push((Cow::Owned(parsed), handlers));
    true
}

/// Makes an `HtmlRewriter` of the settings, writes the body to it with
/// `HtmlRewriter::write` and ends it with `HtmlRewriter::end`. What the
/// rewriter writes, or why it stopped, depends on nothing but the rules and
/// the body.
#[verifier::external_body]
fn run(settings: Settings<'_, '_>, body: &str) -> (out: Result<Vec<u8>, RewriteFailure>)
    ensures
        match out {
            Ok(bytes) => rewritten(rules(settings), body@) == Ok::<Seq<u8>, RewriteFailure>(bytes@),
            Err(failure) => rewritten(rules(settings), body@) == Err::<Seq<u8>, RewriteFailure>(
                failure,
            ),
        },
{
    let mut output = Vec::new();
    let mut rewriter = HtmlRewriter::new(settings, |bytes: &[u8]| output.extend_from_slice(bytes));
    let done = rewriter.write(body.as_bytes()).and_then(|()| rewriter.end());
    match done {
        Ok(()) => Ok(output),
        Err(RewritingError::MemoryLimitExceeded(_)) => Err(RewriteFailure::OutOfMemory),
        Err(RewritingError::ParsingAmbiguity(_)) => Err(RewriteFailure::Ambiguous),
        Err(RewritingError::ContentHandlerError(_)) => Err(RewriteFailure::Handler),
    }
}

/// Calls `String::from_utf8`, which gives the string that the bytes encode
/// where they are UTF-8, and refuses them where they are not.
#[verifier::external_body]
fn utf8_string(bytes: Vec<u8>) -> (out: Option<String>)
    ensures
        match out {
            Some(text) => valid_utf8(bytes@) && text@ == decode_utf8(bytes@),
            None => !valid_utf8(bytes@),
        },
{
    String::from_utf8(bytes).ok()
}

/// The class that marks an element as a container of highlighted code. The
/// stylesheet of the theme gives this class the colours of the block.
pub open spec fn block_class_spec() -> Seq<char> {
    "syntectcode"@
}

/// The class of a block is the highlighter's prefix and `code`: the one
/// class that the stylesheet of a theme gives the colours of the whole
/// block.
pub proof fn lemma_block_class_is_prefixed()
    ensures
        block_class_spec() == class_prefix_spec() + "code"@,
{
    reveal_strlit("syntectcode");
    reveal_strlit("syntect");
    reveal_strlit("code");
    assert(block_class_spec() =~= class_prefix_spec() + "code"@);
}

/// The name of the class attribute is a plain name.
proof fn lemma_class_is_plain()
    ensures
        plain_name("class"@),
{
    reveal_strlit("class");
    let name = "class"@;
    assert(name.len() == 5);
    assert(name[0] == 'c' && name[1] == 'l' && name[2] == 'a' && name[3] == 's' && name[4] == 's');
}

/// Marks an element as a container of highlighted code.
pub fn mark_block(element: &mut Element<'_, '_>)
    ensures
        attributes(*final(element)) == with_attribute(
            attributes(*old(element)),
            "class"@,
            block_class_spec(),
        ),
        tags_removed(*final(element)) == tags_removed(*old(element)),
{
    proof {
        lemma_class_is_plain();
    }
    set_attribute(element, "class", "syntectcode");
}

/// Takes the class and the tags from an element and keeps what is inside.
pub fn unwrap_code(element: &mut Element<'_, '_>)
    ensures
        attributes(*final(element)) == without_attribute(attributes(*old(element)), "class"@),
        tags_removed(*final(element)),
{
    proof {
        lemma_class_is_plain();
    }
    remove_attribute(element, "class");
    remove_and_keep_content(element);
}

/// Does to an element what `rule` says.
pub fn apply_element_rule(rule: ElementRule, element: &mut Element<'_, '_>)
    ensures
        match rule {
            ElementRule::MarkBlock => {
                &&& attributes(*final(element)) == with_attribute(
                    attributes(*old(element)),
                    "class"@,
                    block_class_spec(),
                )
                &&& tags_removed(*final(element)) == tags_removed(*old(element))
            },
            ElementRule::Unwrap => {
                &&& attributes(*final(element)) == without_attribute(
                    attributes(*old(element)),
                    "class"@,
                )
                &&& tags_removed(*final(element))
            },
        },
{
    match rule {
        ElementRule::MarkBlock => mark_block(element),
        ElementRule::Unwrap => unwrap_code(element),
    }
}

/// Puts the highlighted form of a chunk of source text in its place. The
/// chunk holds the text as it stands in HTML, so the character references
/// in it are read back before the text is highlighted. Where the tokenizer
/// gives up, the chunk is left as it was.
pub fn highlight_chunk(highlighter: &Highlighter, language: Language, chunk: &mut TextChunk<'_>) -> (out:
    Result<(), BuildError>)
    ensures
        chunk_text(*final(chunk)) == chunk_text(*old(chunk)),
        match out {
            Ok(()) => highlighter.highlighted(language, decoded(chunk_text(*old(chunk))))
                == chunk_replacement(*final(chunk)),
            Err(error) => {
                &&& error == BuildError::Highlight
                &&& highlighter.highlighted(language, decoded(chunk_text(*old(chunk)))) is None
                &&& chunk_replacement(*final(chunk)) == chunk_replacement(*old(chunk))
            },
        },
{
    match highlighter.highlight_escaped(language, text_of(chunk)) {
        Ok(html) => {
            replace_with_html(chunk, html.as_str());
            Ok(())
        },
        Err(error) => Err(error),
    }
}

/// The selector that matches the code elements that are tagged with no
/// language.
pub open spec fn untagged_selector_spec() -> Seq<char> {
    "code:not(.language-rust):not(.language-python):not(.language-toml):not(.language-bash)"@
}

/// The selector that matches the code elements that are tagged with no
/// language.
pub fn untagged_selector() -> (out: &'static str)
    ensures
        out@ == untagged_selector_spec(),
{
    "code:not(.language-rust):not(.language-python):not(.language-toml):not(.language-bash)"
}

/// The rules of the pass, in the order in which they are applied: every
/// `pre` element is marked; the text of every code element that is tagged
/// with a language is highlighted, and the element stays round it; every
/// other code element is unwrapped, and its text stays as it is.
pub open spec fn standard_rules(highlighter: Highlighter) -> Seq<Rule> {
    seq![
        Rule::Element { selector: "pre"@, rule: ElementRule::MarkBlock },
        Rule::Highlight {
            selector: Language::Rust.selector_spec(),
            highlighter,
            language: Language::Rust,
        },
        Rule::Highlight {
            selector: Language::Python.selector_spec(),
            highlighter,
            language: Language::Python,
        },
        Rule::Highlight {
            selector: Language::Toml.selector_spec(),
            highlighter,
            language: Language::Toml,
        },
        Rule::Highlight {
            selector: Language::Bash.selector_spec(),
            highlighter,
            language: Language::Bash,
        },
        Rule::Element { selector: untagged_selector_spec(), rule: ElementRule::Unwrap },
    ]
}

/// Whether the rewriter understands every selector of the pass.
pub open spec fn selectors_accepted() -> bool {
    &&& selector_accepted("pre"@)
    &&& forall|language: Language| #[trigger] selector_accepted(language.selector_spec())
    &&& selector_accepted(untagged_selector_spec())
}

/// What becomes of what the rewriter hands back: bytes that are UTF-8 are
/// the rewritten body; a failure of a rule is a failure to highlight, since
/// no other rule can fail; anything else is a failure of the rewriter.
pub open spec fn body_of(outcome: Result<Seq<u8>, RewriteFailure>) -> Result<Seq<char>, BuildError> {
    match outcome {
        Ok(bytes) => if valid_utf8(bytes) {
            Ok(decode_utf8(bytes))
        } else {
            Err(BuildError::Encoding)
        },
        Err(RewriteFailure::Handler) => Err(BuildError::Highlight),
        Err(_) => Err(BuildError::Rewrite),
    }
}

/// The rewritten form of a rendered body.
pub open spec fn rewritten_body(highlighter: Highlighter, body: Seq<char>) -> Result<
    Seq<char>,
    BuildError,
> {
    if selectors_accepted() {
        body_of(rewritten(standard_rules(highlighter), body))
    } else {
        Err(BuildError::Rewrite)
    }
}

/// Whether a result holds the text, or the error, that is expected of it.
pub open spec fn same_result(out: Result<String, BuildError>, expected: Result<Seq<char>, BuildError>) -> bool {
    match out {
        Ok(text) => expected == Ok::<Seq<char>, BuildError>(text@),
        Err(error) => expected == Err::<Seq<char>, BuildError>(error),
    }
}

/// Turns what the rewriter handed back into the rewritten body or the
/// error that ends the build.
pub fn finish_rewrite(outcome: Result<Vec<u8>, RewriteFailure>) -> (out: Result<String, BuildError>)
    ensures
        same_result(
            out,
            body_of(
                match outcome {
                    Ok(bytes) => Ok(bytes@),
                    Err(failure) => Err(failure),
                },
            ),
        ),
{
    match outcome {
        Ok(bytes) => match utf8_string(bytes) {
            Some(text) => Ok(text),
            None => Err(BuildError::Encoding),
        },
        Err(RewriteFailure::Handler) => Err(BuildError::Highlight),
        Err(_) => Err(BuildError::Rewrite),
    }
}

/// Rewrites a rendered body: code that is tagged with a language comes out
/// highlighted, code that is not comes out as plain text, and everything
/// else comes out as the rewriter passes it on.
pub fn rewrite_body(highlighter: &Highlighter, body: &str) -> (out: Result<String, BuildError>)
    ensures
        same_result(out, rewritten_body(*highlighter, body@)),
{
    let mut settings = new_settings();
    if !add_element_rule(&mut settings, "pre", ElementRule::MarkBlock) {
        return Err(BuildError::Rewrite);
    }
    let languages = Language::all();
    let mut i: usize = 0;
    while i < languages.len()
        invariant
            i <= languages@.len(),
            languages@ == Language::all_spec(),
            rules(settings) == standard_rules(*highlighter).take(i + 1),
            selector_accepted("pre"@),
            forall|j: int|
                0 <= j < i ==> selector_accepted(#[trigger] languages@[j].selector_spec()),
        decreases languages@.len() - i,
    {
        let language = languages[i];
        if !add_highlight_rule(&mut settings, language.selector(), highlighter, language) {
            return Err(BuildError::Rewrite);
        }
        assert(standard_rules(*highlighter)[i + 1] == Rule::Highlight {
            selector: language.selector_spec(),
            highlighter: *highlighter,
            language,
        });
        assert(standard_rules(*highlighter).take(i + 1).push(standard_rules(*highlighter)[i + 1])
            =~= standard_rules(*highlighter).take(i + 2));
        i += 1;
    }
    if !add_element_rule(&mut settings, untagged_selector(), ElementRule::Unwrap) {
        return Err(BuildError::Rewrite);
    }
    assert(standard_rules(*highlighter).take(5).push(standard_rules(*highlighter)[5])
        =~= standard_rules(*highlighter));
    assert forall|language: Language| #[trigger]
        selector_accepted(language.selector_spec()) by {
        match language {
            Language::Rust => assert(languages@[0] == language),
            Language::Python => assert(languages@[1] == language),
            Language::Toml => assert(languages@[2] == language),
            Language::Bash => assert(languages@[3] == language),
        }
    }
    finish_rewrite(run(settings, body))
}

} // verus!
