use pagesmith::error::BuildError;
use pagesmith::highlight::class_prefix;
use pagesmith::highlight::theme_name;
use pagesmith::highlight::Highlighter;
use pagesmith::language::Language;
use syntect::highlighting::ThemeSet;
use syntect::parsing::SyntaxSet;

fn loaded() -> Highlighter {
    match Highlighter::load() {
        Ok(highlighter) => highlighter,
        Err(error) => panic!("{}", error.message()),
    }
}

#[test]
fn names_of_prefix_and_theme() {
    assert_eq!(class_prefix(), "syntect");
    assert_eq!(theme_name(), "base16-ocean.dark");
}

#[test]
fn load_finds_every_grammar() {
    assert!(Highlighter::load().is_ok());
}

#[test]
fn a_set_without_grammars_is_refused() {
    let out = Highlighter::with_sets(SyntaxSet::new(), ThemeSet::load_defaults());
    assert_eq!(out.err(), Some(BuildError::UnsupportedLanguage));
}

#[test]
fn the_default_sets_are_taken() {
    let out = Highlighter::with_sets(SyntaxSet::load_defaults_newlines(), ThemeSet::new());
    assert!(out.is_ok());
}

#[test]
fn a_set_without_the_theme_gives_no_stylesheet() {
    let highlighter = Highlighter::with_sets(SyntaxSet::load_defaults_newlines(), ThemeSet::new());
    assert_eq!(highlighter.unwrap().stylesheet(), Err(BuildError::Theme));
}

#[test]
fn source_is_wrapped_in_prefixed_spans() {
    let html = loaded().highlight_source(Language::Rust, "fn main() {}\n").unwrap();
    assert!(html.starts_with("<span class=\"syntectsource syntectrust\">"));
    assert!(html.contains("<span class=\"syntectstorage syntecttype syntectfunction syntectrust\">fn</span>"));
    assert!(html.contains("<span class=\"syntectentity syntectname syntectfunction syntectrust\">main</span>"));
    assert!(html.ends_with("</span>"));
    assert_eq!(html.matches("<span").count(), html.matches("</span>").count());
}

#[test]
fn markup_characters_of_the_source_are_escaped_once() {
    let html = loaded().highlight_source(Language::Rust, "let a = 1 < 2 && b > c;\n").unwrap();
    assert!(html.contains("&lt;"));
    assert!(html.contains("&gt;"));
    assert_eq!(html.matches("&amp;").count(), 2);
    assert!(!html.contains("&amp;lt;"));
    assert!(!html.contains("&amp;amp;"));
}

#[test]
fn escaped_source_is_decoded_before_it_is_highlighted() {
    let highlighter = loaded();
    let literal = highlighter.highlight_source(Language::Python, "print(\"a\" if b < c else d)\n");
    let escaped = highlighter.highlight_escaped(Language::Python, "print(&quot;a&quot; if b &lt; c else d)\n");
    assert!(literal.is_ok());
    assert_eq!(literal, escaped);
}

#[test]
fn every_line_is_fed_with_its_ending() {
    let highlighter = loaded();
    let html = highlighter.highlight_source(Language::Bash, "echo one\necho two\n").unwrap();
    assert_eq!(html.matches('\n').count(), 2);
    let last_unended = highlighter.highlight_source(Language::Bash, "echo one\necho two").unwrap();
    assert_eq!(last_unended.matches('\n').count(), 1);
}

#[test]
fn empty_source_gives_empty_markup() {
    assert_eq!(loaded().highlight_source(Language::Rust, ""), Ok(String::new()));
}

#[test]
fn toml_is_highlighted_as_rust() {
    let highlighter = loaded();
    let source = "name = \"x\"\n";
    assert_eq!(
        highlighter.highlight_source(Language::Toml, source),
        highlighter.highlight_source(Language::Rust, source)
    );
}

#[test]
fn highlighting_is_repeatable() {
    let highlighter = loaded();
    let source = "def f(x):\n    return x + 1\n";
    assert_eq!(
        highlighter.highlight_source(Language::Python, source),
        highlighter.highlight_source(Language::Python, source)
    );
    assert_eq!(loaded().highlight_source(Language::Python, source), highlighter.highlight_source(Language::Python, source));
}

#[test]
fn a_tag_names_the_language() {
    let highlighter = loaded();
    assert_eq!(
        highlighter.highlight_tagged("bash", "ls -l\n"),
        highlighter.highlight_source(Language::Bash, "ls -l\n")
    );
}

#[test]
fn a_tag_without_a_grammar_is_an_error() {
    assert_eq!(loaded().highlight_tagged("cobol", "DISPLAY 'x'."), Err(BuildError::UnsupportedLanguage));
    assert_eq!(loaded().highlight_tagged("", "x"), Err(BuildError::UnsupportedLanguage));
}

#[test]
fn the_stylesheet_styles_the_block_class_and_prefixed_classes() {
    let css = loaded().stylesheet().unwrap();
    assert!(css.starts_with("/*\n * theme \"Base16 Ocean Dark\" generated by syntect\n */\n\n.syntectcode {\n"));
    assert!(css.contains(".syntectcomment"));
    assert!(css.contains(".syntectstring"));
    assert!(css.contains(" color: #"));
}
