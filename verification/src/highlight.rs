//! Syntax highlighting: source text in, HTML out in which every token sits
//! in a `span` whose classes name its syntax category. The tokenizing is
//! the work of the `syntect` crate; what is fed to it, in which order, and
//! what becomes of a failure is decided here.

use vstd::prelude::*;
use syntect::highlighting::ThemeSet;
use syntect::html::ClassStyle;
use syntect::html::ClassedHTMLGenerator;
use syntect::parsing::SyntaxReference;
use syntect::parsing::SyntaxSet;
use crate::entities::decode_entities;
use crate::entities::decoded;
use crate::error::BuildError;
use crate::language::Language;
use crate::text::lines_with_endings;
use crate::text::split_lines;
use crate::text::to_chars;
use crate::text::views;

verus! {

/// A set of grammars, as `syntect` holds it.
#[verifier::external_type_specification]
#[verifier::external_body]
pub struct ExSyntaxSet(syntect::parsing::SyntaxSet);

/// One grammar of a set.
#[verifier::external_type_specification]
#[verifier::external_body]
pub struct ExSyntaxReference(syntect::parsing::SyntaxReference);

/// A set of colour themes.
#[verifier::external_type_specification]
#[verifier::external_body]
pub struct ExThemeSet(syntect::highlighting::ThemeSet);

/// The tokenizer at work on one piece of source text.
#[verifier::external_type_specification]
#[verifier::external_body]
pub struct ExClassedHTMLGenerator<'a>(syntect::html::ClassedHTMLGenerator<'a>);

/// What `syntect` reports when it fails.
#[verifier::external_type_specification]
#[verifier::external_body]
pub struct ExSyntectError(syntect::Error);

/// What a generator was made with and has been fed since: the grammar set,
/// the grammar, the class prefix, and the lines so far.
pub uninterp spec fn generator_input(generator: ClassedHTMLGenerator<'_>) -> (
    SyntaxSet,
    SyntaxReference,
    Seq<char>,
    Seq<Seq<char>>,
);

/// The grammar that a set gives for a name, if it has one of that name.
pub uninterp spec fn grammar_named(set: SyntaxSet, name: Seq<char>) -> Option<SyntaxReference>;

/// Whether a generator with the given input takes one more line.
pub uninterp spec fn line_accepted(
    input: (SyntaxSet, SyntaxReference, Seq<char>, Seq<Seq<char>>),
    line: Seq<char>,
) -> bool;

/// The HTML that a generator with the given input hands over when it is
/// finished.
pub uninterp spec fn finished_markup(
    input: (SyntaxSet, SyntaxReference, Seq<char>, Seq<Seq<char>>),
) -> Seq<char>;

/// The stylesheet made from the theme of the given name, with the prefix
/// before every class; `None` when the set has no such theme or no
/// stylesheet could be made.
pub uninterp spec fn theme_stylesheet(themes: ThemeSet, theme: Seq<char>, prefix: Seq<char>) -> Option<
    Seq<char>,
>;

/// Calls `SyntaxSet::load_defaults_newlines`: the grammars that come with
/// `syntect`, in the form that expects lines to end in a line feed.
#[verifier::external_body]
fn default_grammars() -> SyntaxSet {
    SyntaxSet::load_defaults_newlines()
}

/// Calls `ThemeSet::load_defaults`: the themes that come with `syntect`.
#[verifier::external_body]
fn default_themes() -> ThemeSet {
    ThemeSet::load_defaults()
}

/// Calls `SyntaxSet::find_syntax_by_name`, which returns the grammar of the
/// set that bears the name, or `None` when the set has none.
#[verifier::external_body]
fn find_grammar<'a>(set: &'a SyntaxSet, name: &str) -> (found: Option<&'a SyntaxReference>)
    ensures
        match found {
            Some(grammar) => grammar_named(*set, name@) == Some(*grammar),
            None => grammar_named(*set, name@) is None,
        },
{
    set.find_syntax_by_name(name)
}

/// Calls `ClassedHTMLGenerator::new_with_class_style` with the style that
/// puts `prefix` before every class. The generator starts with no line fed.
#[verifier::external_body]
fn new_generator<'a>(
    grammar: &'a SyntaxReference,
    set: &'a SyntaxSet,
    prefix: &'static str,
) -> (generator: ClassedHTMLGenerator<'a>)
    ensures
        generator_input(generator) == (*set, *grammar, prefix@, Seq::<Seq<char>>::empty()),
{
    ClassedHTMLGenerator::new_with_class_style(grammar, set, ClassStyle::SpacedPrefixed { prefix })
}

/// Calls `ClassedHTMLGenerator::parse_html_for_line_which_includes_newline`.
/// Whether the line is taken depends on nothing but what the generator was
/// made with and has been fed; a line that is taken counts as fed.
#[verifier::external_body]
fn feed_line(generator: &mut ClassedHTMLGenerator<'_>, line: &str) -> (fed: Result<
    (),
    syntect::Error,
>)
    ensures
        fed is Ok == line_accepted(generator_input(*old(generator)), line@),
        fed is Ok ==> generator_input(*final(generator)) == (
            generator_input(*old(generator)).0,
            generator_input(*old(generator)).1,
            generator_input(*old(generator)).2,
            generator_input(*old(generator)).3.push(line@),
        ),
{
    generator.parse_html_for_line_which_includes_newline(line)
}

/// Calls `ClassedHTMLGenerator::finalize`, which closes the spans that are
/// still open and hands over the HTML.
#[verifier::external_body]
fn finish(generator: ClassedHTMLGenerator<'_>) -> (html: String)
    ensures
        html@ == finished_markup(generator_input(generator)),
{
    generator.finalize()
}

/// Looks the theme up in the set and calls
/// `syntect::html::css_for_theme_with_class_style` on it, with the style
/// that puts `prefix` before every class.
#[verifier::external_body]
fn stylesheet_for(themes: &ThemeSet, theme: &str, prefix: &'static str) -> (css: Option<String>)
    ensures
        match css {
            Some(css) => theme_stylesheet(*themes, theme@, prefix@) == Some(css@),
            None => theme_stylesheet(*themes, theme@, prefix@) is None,
        },
{
    let theme = themes.themes.get(theme)?;
    syntect::html::css_for_theme_with_class_style(theme, ClassStyle::SpacedPrefixed { prefix }).ok()
}

/// The prefix before every class that the highlighter writes, which keeps
/// its classes apart from those of the page.
pub open spec fn class_prefix_spec() -> Seq<char> {
    "syntect"@
}

/// The name of the theme that the stylesheet is made from.
pub open spec fn theme_name_spec() -> Seq<char> {
    "base16-ocean.dark"@
}

/// The prefix before every class that the highlighter writes.
pub fn class_prefix() -> (out: &'static str)
    ensures
        out@ == class_prefix_spec(),
{
    "syntect"
}

/// The name of the theme that the stylesheet is made from.
pub fn theme_name() -> (out: &'static str)
    ensures
        out@ == theme_name_spec(),
{
    "base16-ocean.dark"
}

/// Whether a set has a grammar for every language.
pub open spec fn complete(set: SyntaxSet) -> bool {
    forall|language: Language| #[trigger]
        grammar_named(set, language.grammar_spec()) is Some
}

/// Whether a generator that starts from nothing takes each of `lines` in
/// turn.
pub open spec fn all_accepted(
    set: SyntaxSet,
    grammar: SyntaxReference,
    lines: Seq<Seq<char>>,
) -> bool {
    forall|i: int|
        0 <= i < lines.len() ==> #[trigger] line_accepted(
            (set, grammar, class_prefix_spec(), lines.take(i)),
            lines[i],
        )
}

/// The highlighted form of `source` under a grammar: the source is fed line
/// by line, each line with the line feed that ends it. `None` when the
/// tokenizer gives up on a line.
pub open spec fn markup(set: SyntaxSet, grammar: SyntaxReference, source: Seq<char>) -> Option<
    Seq<char>,
> {
    if all_accepted(set, grammar, lines_with_endings(source)) {
        Some(finished_markup((set, grammar, class_prefix_spec(), lines_with_endings(source))))
    } else {
        None
    }
}

/// Grammars and themes, loaded once and used for every page.
pub struct Highlighter {
    syntaxes: SyntaxSet,
    themes: ThemeSet,
}

impl Highlighter {
    #[verifier::type_invariant]
    spec fn well_formed(&self) -> bool {
        complete(self.syntaxes)
    }

    /// The grammars in use.
    pub closed spec fn grammars(&self) -> SyntaxSet {
        self.syntaxes
    }

    /// The themes in use.
    pub closed spec fn theme_set(&self) -> ThemeSet {
        self.themes
    }

    /// The highlighted form of `source`; `None` when the tokenizer gives up.
    pub open spec fn highlighted(&self, language: Language, source: Seq<char>) -> Option<
        Seq<char>,
    > {
        match grammar_named(self.grammars(), language.grammar_spec()) {
            Some(grammar) => markup(self.grammars(), grammar, source),
            None => None,
        }
    }

    /// Makes a highlighter of the given sets. It is refused when a language
    /// has no grammar in `syntaxes`: a code block in that language could
    /// then not be highlighted.
    pub fn with_sets(syntaxes: SyntaxSet, themes: ThemeSet) -> (out: Result<Highlighter, BuildError>)
        ensures
            match out {
                Ok(highlighter) => {
                    &&& complete(syntaxes)
                    &&& highlighter.grammars() == syntaxes
                    &&& highlighter.theme_set() == themes
                },
                Err(error) => error == BuildError::UnsupportedLanguage && !complete(syntaxes),
            },
    {
        let languages = Language::all();
        let mut i: usize = 0;
        while i < languages.len()
            invariant
                i <= languages@.len(),
                languages@ == Language::all_spec(),
                forall|j: int|
                    0 <= j < i ==> grammar_named(syntaxes, #[trigger] languages@[j].grammar_spec())
                        is Some,
            decreases languages@.len() - i,
        {
            if find_grammar(&syntaxes, languages[i].grammar()).is_none() {
                return Err(BuildError::UnsupportedLanguage);
            }
            i += 1;
        }
        assert forall|language: Language| #[trigger]
            grammar_named(syntaxes, language.grammar_spec()) is Some by {
            match language {
                Language::Rust => assert(languages@[0] == language),
                Language::Python => assert(languages@[1] == language),
                Language::Toml => assert(languages@[2] == language),
                Language::Bash => assert(languages@[3] == language),
            }
        }
        Ok(Highlighter { syntaxes, themes })
    }

    /// Makes a highlighter of the grammars and themes that come with the
    /// tokenizer.
    pub fn load() -> (out: Result<Highlighter, BuildError>)
        ensures
            out matches Ok(highlighter) ==> complete(highlighter.grammars()),
            out matches Err(error) ==> error == BuildError::UnsupportedLanguage,
    {
        Highlighter::with_sets(default_grammars(), default_themes())
    }

    /// Highlights literal source text.
    pub fn highlight_source(&self, language: Language, source: &str) -> (out: Result<
        String,
        BuildError,
    >)
        ensures
            match out {
                Ok(html) => self.highlighted(language, source@) == Some(html@),
                Err(error) => error == BuildError::Highlight && self.highlighted(
                    language,
                    source@,
                ) is None,
            },
    {
        proof {
            use_type_invariant(self);
        }
        let grammar = match find_grammar(&self.syntaxes, language.grammar()) {
            Some(grammar) => grammar,
            None => { return Err(BuildError::UnsupportedLanguage); },
        };
        let chars = to_chars(source);
        let lines = split_lines(chars.as_slice());
        let mut generator = new_generator(grammar, &self.syntaxes, class_prefix());
        let ghost fed = views(lines@);
        let mut i: usize = 0;
        assert(fed.take(0) =~= Seq::<Seq<char>>::empty());
        while i < lines.len()
            invariant
                i <= lines@.len(),
                fed == views(lines@),
                fed == lines_with_endings(source@),
                grammar_named(self.syntaxes, language.grammar_spec()) == Some(*grammar),
                generator_input(generator) == (
                    self.syntaxes,
                    *grammar,
                    class_prefix_spec(),
                    fed.take(i as int),
                ),
                forall|j: int|
                    0 <= j < i ==> #[trigger] line_accepted(
                        (self.syntaxes, *grammar, class_prefix_spec(), fed.take(j)),
                        fed[j],
                    ),
            decreases lines@.len() - i,
        {
            match feed_line(&mut generator, lines[i].as_str()) {
                Ok(()) => {},
                Err(_) => {
                    assert(!line_accepted(
                        (self.syntaxes, *grammar, class_prefix_spec(), fed.take(i as int)),
                        fed[i as int],
                    ));
                    return Err(BuildError::Highlight);
                },
            }
            assert(fed.take(i as int).push(fed[i as int]) =~= fed.take(i + 1));
            i += 1;
        }
        assert(fed.take(i as int) =~= fed);
        Ok(finish(generator))
    }

    /// Highlights source text as it stands in rendered HTML, where markup
    /// characters are written as character references: the references are
    /// read back first, and the literal text is highlighted.
    pub fn highlight_escaped(&self, language: Language, text: &str) -> (out: Result<
        String,
        BuildError,
    >)
        ensures
            match out {
                Ok(html) => self.highlighted(language, decoded(text@)) == Some(html@),
                Err(error) => error == BuildError::Highlight && self.highlighted(
                    language,
                    decoded(text@),
                ) is None,
            },
    {
        let source = decode_entities(text);
        self.highlight_source(language, source.as_str())
    }

    /// Highlights source text in the language that `tag` names. A tag that
    /// names no language is an error: the set of languages is fixed, and a
    /// block with another tag has to be changed, not passed over.
    pub fn highlight_tagged(&self, tag: &str, source: &str) -> (out: Result<String, BuildError>)
        ensures
            match out {
                Ok(html) => Language::from_tag_spec(tag@) matches Some(language)
                    && self.highlighted(language, source@) == Some(html@),
                Err(error) => match Language::from_tag_spec(tag@) {
                    Some(language) => error == BuildError::Highlight && self.highlighted(
                        language,
                        source@,
                    ) is None,
                    None => error == BuildError::UnsupportedLanguage,
                },
            },
    {
        match Language::from_tag(tag) {
            Some(language) => self.highlight_source(language, source),
            None => Err(BuildError::UnsupportedLanguage),
        }
    }

    /// The stylesheet that gives the highlighter's classes their colours.
    pub fn stylesheet(&self) -> (out: Result<String, BuildError>)
        ensures
            match out {
                Ok(css) => theme_stylesheet(
                    self.theme_set(),
                    theme_name_spec(),
                    class_prefix_spec(),
                ) == Some(css@),
                Err(error) => error == BuildError::Theme && theme_stylesheet(
                    self.theme_set(),
                    theme_name_spec(),
                    class_prefix_spec(),
                ) is None,
            },
    {
        match stylesheet_for(&self.themes, theme_name(), class_prefix()) {
            Some(css) => Ok(css),
            None => Err(BuildError::Theme),
        }
    }
}

} // verus!
