use pagesmith::error::BuildError;
use pagesmith::highlight::Highlighter;
use pagesmith::language::Language;
use pagesmith::markdown::render_markdown;
use pagesmith::rewrite::finish_rewrite;
use pagesmith::rewrite::rewrite_body;
use pagesmith::rewrite::RewriteFailure;

fn highlighter() -> Highlighter {
    match Highlighter::load() {
        Ok(highlighter) => highlighter,
        Err(error) => panic!("{}", error.message()),
    }
}

#[test]
fn pre_elements_are_marked() {
    let out = rewrite_body(&highlighter(), "<pre>x</pre>");
    assert_eq!(out, Ok("<pre class=\"syntectcode\">x</pre>".to_string()));
}

#[test]
fn a_class_of_a_pre_element_is_replaced() {
    let out = rewrite_body(&highlighter(), "<pre id=\"a\" class=\"old\">x</pre>");
    assert_eq!(out, Ok("<pre id=\"a\" class=\"syntectcode\">x</pre>".to_string()));
}

#[test]
fn what_no_rule_matches_passes_unchanged() {
    let body = "<h1 id=x>Title</h1>\n<p>a &amp; b <em>c</em><br/><!-- note --></p>\n<img src='a.svg'>";
    assert_eq!(rewrite_body(&highlighter(), body), Ok(body.to_string()));
    assert_eq!(rewrite_body(&highlighter(), ""), Ok(String::new()));
}

#[test]
fn untagged_code_is_unwrapped() {
    let out = rewrite_body(&highlighter(), "<p>see <code class=\"note\">a &lt; b</code></p>");
    assert_eq!(out, Ok("<p>see a &lt; b</p>".to_string()));
}

#[test]
fn code_with_an_unsupported_tag_is_left_as_literal_text() {
    let rendered = render_markdown("```cobol\nDISPLAY 'x'.\n```\n\n```\nplain <text>\n```\n");
    let out = rewrite_body(&highlighter(), &rendered).unwrap();
    assert_eq!(
        out,
        "<pre class=\"syntectcode\">DISPLAY 'x'.\n</pre>\n<pre class=\"syntectcode\">plain &lt;text&gt;\n</pre>\n"
    );
    assert!(!out.contains("<span"));
    assert!(!out.contains("language-"));
}

#[test]
fn tagged_code_is_highlighted() {
    let body = "<pre><code class=\"language-rust\">fn main() {}\n</code></pre>";
    let out = rewrite_body(&highlighter(), body).unwrap();
    assert!(out.starts_with(
        "<pre class=\"syntectcode\"><code class=\"language-rust\"><span class=\"syntectsource syntectrust\">"
    ));
    assert!(out.contains("<span class=\"syntectstorage syntecttype syntectfunction syntectrust\">fn</span>"));
    assert!(out.contains("<span class=\"syntectentity syntectname syntectfunction syntectrust\">main</span>"));
    assert!(out.ends_with("</span></code></pre>"));
    assert_eq!(out.matches("<code").count(), 1);
}

#[test]
fn a_fenced_rust_block_has_no_misrendered_entities() {
    let rendered = render_markdown("```rust\nfn main() { let v: Vec<u8> = vec![]; if 1 < 2 && true {} }\n```\n");
    let out = rewrite_body(&highlighter(), &rendered).unwrap();
    assert!(out.contains("syntectkeyword") || out.contains("syntectstorage"));
    assert!(out.contains("&lt;"));
    assert!(!out.contains("&amp;lt;"));
    assert!(!out.contains("&amp;gt;"));
    assert!(!out.contains("&amp;amp;"));
}

#[test]
fn highlight_source_matches_the_rewriter() {
    let highlighter = highlighter();
    let direct = highlighter.highlight_source(Language::Rust, "let a = 1 < 2;\n").unwrap();
    let body = "<code class=\"language-rust\">let a = 1 &lt; 2;\n</code>";
    let expected = format!("<code class=\"language-rust\">{}</code>", direct);
    assert_eq!(rewrite_body(&highlighter, body), Ok(expected));
}

#[test]
fn each_language_has_its_rule() {
    let highlighter = highlighter();
    for language in Language::all() {
        let source = "x = 1\n";
        let body = format!("<code class=\"language-{}\">{}</code>", language.tag(), source);
        let direct = highlighter.highlight_source(language, source).unwrap();
        let expected = format!("<code class=\"language-{}\">{}</code>", language.tag(), direct);
        assert_eq!(rewrite_body(&highlighter, &body), Ok(expected));
    }
}

#[test]
fn a_language_class_among_others_tags_the_element() {
    let highlighter = highlighter();
    let direct = highlighter.highlight_source(Language::Bash, "ls\n").unwrap();
    let body = "<code id=\"c\" class=\"wide language-bash\">ls\n</code>";
    let expected = format!("<code id=\"c\" class=\"wide language-bash\">{}</code>", direct);
    assert_eq!(rewrite_body(&highlighter, body), Ok(expected));
}

#[test]
fn untagged_code_inside_a_block_is_unwrapped_too() {
    let out = rewrite_body(&highlighter(), "<pre><code>a &amp; b\n</code></pre>");
    assert_eq!(out, Ok("<pre class=\"syntectcode\">a &amp; b\n</pre>".to_string()));
}

#[test]
fn blocks_are_rewritten_in_document_order() {
    let rendered = render_markdown("```python\na\n```\n\ntext `inline`\n\n```bash\nb\n```\n");
    let out = rewrite_body(&highlighter(), &rendered).unwrap();
    let python = out.find("syntectpython").unwrap();
    let inline = out.find("text inline").unwrap();
    let shell = out.find("syntectshell").unwrap();
    assert!(python < inline && inline < shell);
}

#[test]
fn rewriting_is_repeatable() {
    let rendered = render_markdown("# T\n\n```rust\nfn f() {}\n```\n");
    assert_eq!(rewrite_body(&highlighter(), &rendered), rewrite_body(&highlighter(), &rendered));
}

#[test]
fn ambiguous_markup_ends_the_build() {
    let body = "<select><xmp><script>\"use strict\";</script></select>";
    assert_eq!(rewrite_body(&highlighter(), body), Err(BuildError::Rewrite));
}

#[test]
fn bytes_that_are_utf8_become_the_body() {
    assert_eq!(finish_rewrite(Ok("caf\u{e9}".as_bytes().to_vec())), Ok("caf\u{e9}".to_string()));
    assert_eq!(finish_rewrite(Ok(Vec::new())), Ok(String::new()));
}

#[test]
fn bytes_that_are_not_utf8_are_an_encoding_error() {
    assert_eq!(finish_rewrite(Ok(vec![b'a', 0xff, b'b'])), Err(BuildError::Encoding));
    assert_eq!(finish_rewrite(Ok(vec![0xc3])), Err(BuildError::Encoding));
}

#[test]
fn failures_of_the_rewriter_are_told_apart() {
    assert_eq!(finish_rewrite(Err(RewriteFailure::Handler)), Err(BuildError::Highlight));
    assert_eq!(finish_rewrite(Err(RewriteFailure::Ambiguous)), Err(BuildError::Rewrite));
    assert_eq!(finish_rewrite(Err(RewriteFailure::OutOfMemory)), Err(BuildError::Rewrite));
}
