use flate2::read::GzDecoder;
use pagesmith::document::build_artifact;
use pagesmith::document::document_title;
use pagesmith::document::plan_entry;
use pagesmith::document::render_page;
use pagesmith::document::slug;
use pagesmith::document::EntryPlan;
use pagesmith::error::BuildError;
use pagesmith::highlight::Highlighter;
use std::io::Read;

fn highlighter() -> Highlighter {
    match Highlighter::load() {
        Ok(highlighter) => highlighter,
        Err(error) => panic!("{}", error.message()),
    }
}

fn decompress(bytes: &[u8]) -> String {
    let mut out = String::new();
    GzDecoder::new(bytes).read_to_string(&mut out).unwrap();
    out
}

#[test]
fn the_title_follows_the_marker() {
    assert_eq!(document_title("# Hello\n\nSome *text*."), Ok("Hello".to_string()));
    assert_eq!(document_title("# Only a title"), Ok("Only a title".to_string()));
    assert_eq!(document_title("# With\r\nwindows endings\r\n"), Ok("With".to_string()));
    assert_eq!(document_title("#  two spaces "), Ok(" two spaces ".to_string()));
    assert_eq!(document_title("# caf\u{e9} \u{2615}\n"), Ok("caf\u{e9} \u{2615}".to_string()));
}

#[test]
fn a_carriage_return_alone_stays_in_the_title() {
    assert_eq!(document_title("# a\r"), Ok("a\r".to_string()));
}

#[test]
fn a_document_without_a_title_is_an_error() {
    assert_eq!(document_title(""), Err(BuildError::MissingTitle));
    assert_eq!(document_title("# "), Err(BuildError::MissingTitle));
    assert_eq!(document_title("# \nbody"), Err(BuildError::MissingTitle));
    assert_eq!(document_title("#\n"), Err(BuildError::MissingTitle));
    assert_eq!(document_title("\n# Late"), Err(BuildError::MissingTitle));
    assert_eq!(document_title("Hello\n"), Err(BuildError::MissingTitle));
    assert_eq!(document_title("## Hello\n"), Err(BuildError::MissingTitle));
    assert_eq!(document_title("# \r\n"), Err(BuildError::MissingTitle));
}

#[test]
fn the_slug_is_the_name_without_its_extension() {
    assert_eq!(slug("the-edge.md"), Ok("the-edge".to_string()));
    assert_eq!(slug("a.md"), Ok("a".to_string()));
    assert_eq!(slug("archive.tar.md"), Ok("archive.tar".to_string()));
    assert_eq!(slug("caf\u{e9}.md"), Ok("caf\u{e9}".to_string()));
}

#[test]
fn other_names_have_no_slug() {
    assert_eq!(slug("diagram.svg"), Err(BuildError::NotMarkdown));
    assert_eq!(slug(".md"), Err(BuildError::NotMarkdown));
    assert_eq!(slug("md"), Err(BuildError::NotMarkdown));
    assert_eq!(slug(""), Err(BuildError::NotMarkdown));
    assert_eq!(slug("post.MD"), Err(BuildError::NotMarkdown));
    assert_eq!(slug("post.md.bak"), Err(BuildError::NotMarkdown));
    assert_eq!(slug("postmd"), Err(BuildError::NotMarkdown));
}

#[test]
fn documents_are_rendered_and_the_rest_is_copied() {
    assert!(matches!(plan_entry("post.md", false), EntryPlan::Render { slug } if slug == "post"));
    assert!(matches!(plan_entry("diagram.svg", false), EntryPlan::Copy));
    assert!(matches!(plan_entry("images", true), EntryPlan::Copy));
    assert!(matches!(plan_entry("odd.md", true), EntryPlan::Copy));
    assert!(matches!(plan_entry("notes.txt", false), EntryPlan::Copy));
}

#[test]
fn a_document_becomes_a_page() {
    let page = render_page(&highlighter(), "# Hello\n\nSome *text*.", "body{margin:0}").unwrap();
    assert!(page.starts_with("<!DOCTYPE html>"));
    assert!(page.contains("<meta name=\"description\" content=\"Hello\">"));
    assert_eq!(page.matches("<title>").count(), 1);
    assert!(page.contains("<title>Hello</title>"));
    assert!(page.contains("<style>body{margin:0}/*\n * theme \"Base16 Ocean Dark\" generated by syntect\n */"));
    assert!(page.contains("<header class=\"navbar\">"));
    assert!(page.contains("<main><h1>Hello</h1>\n<p>Some <em>text</em>.</p>\n</main>"));
    assert!(page.ends_with("</main></body><footer>Made with \u{2615} by Michael Gattozzi</footer>"));
}

#[test]
fn a_page_with_code_is_highlighted_inside_main() {
    let source = "# Code\n\n```rust\nfn main() {}\n```\n\nand `inline`.\n";
    let page = render_page(&highlighter(), source, "").unwrap();
    let main = &page[page.find("<main>").unwrap()..page.find("</main>").unwrap()];
    assert!(main.contains(
        "<pre class=\"syntectcode\"><code class=\"language-rust\"><span class=\"syntectsource syntectrust\">"
    ));
    assert!(main.contains(">fn</span>"));
    assert!(main.contains(">main</span>"));
    assert!(main.contains("<p>and inline.</p>"));
    assert_eq!(main.matches("<code").count(), 1);
}

#[test]
fn a_document_without_title_is_not_rendered() {
    assert_eq!(render_page(&highlighter(), "no title\n", ""), Err(BuildError::MissingTitle));
    assert_eq!(render_page(&highlighter(), "", ""), Err(BuildError::MissingTitle));
}

#[test]
fn an_artifact_decompresses_to_its_page() {
    let highlighter = highlighter();
    let source = "# Round trip\n\n```python\nprint(1 < 2)\n```\n";
    let artifact = build_artifact(&highlighter, "round-trip.md", source, "p{}").unwrap();
    assert_eq!(artifact.slug, "round-trip");
    assert_eq!(&artifact.bytes[..2], &[0x1f, 0x8b]);
    let page = render_page(&highlighter, source, "p{}").unwrap();
    assert_eq!(decompress(&artifact.bytes), page);
    assert_eq!(page.matches("<title>").count(), 1);
    assert!(page.contains("<title>Round trip</title>"));
}

#[test]
fn building_twice_gives_the_same_bytes() {
    let source = "# Same\n\ntext with `code` and\n\n```bash\necho \"hi\" > out\n```\n";
    let first = build_artifact(&highlighter(), "same.md", source, "a{}").unwrap();
    let second = build_artifact(&highlighter(), "same.md", source, "a{}").unwrap();
    assert_eq!(first.slug, second.slug);
    assert_eq!(first.bytes, second.bytes);
}

#[test]
fn what_is_not_a_document_is_not_built() {
    let out = build_artifact(&highlighter(), "diagram.svg", "# Title\n", "");
    assert_eq!(out.err(), Some(BuildError::NotMarkdown));
}

#[test]
fn a_document_without_title_is_not_built() {
    let out = build_artifact(&highlighter(), "post.md", "Title\n", "");
    assert_eq!(out.err(), Some(BuildError::MissingTitle));
}

#[test]
fn ambiguous_markup_in_a_document_ends_its_build() {
    let source = "# T\n\n<select><xmp><script>\"use strict\";</script></select>\n";
    let out = build_artifact(&highlighter(), "post.md", source, "");
    assert_eq!(out.err(), Some(BuildError::Rewrite));
}
