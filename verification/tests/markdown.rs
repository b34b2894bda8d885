use pagesmith::markdown::render_markdown;

#[test]
fn emphasis_and_headings() {
    assert_eq!(render_markdown("# Hello\n\nSome *text*."), "<h1>Hello</h1>\n<p>Some <em>text</em>.</p>\n");
}

#[test]
fn fenced_code_carries_its_language_and_is_escaped() {
    assert_eq!(
        render_markdown("```rust\nlet a = 1 < 2;\n```\n"),
        "<pre><code class=\"language-rust\">let a = 1 &lt; 2;\n</code></pre>\n"
    );
}

#[test]
fn extensions_are_on() {
    assert_eq!(render_markdown("~~gone~~"), "<p><del>gone</del></p>\n");
    assert!(render_markdown("| a | b |\n|---|---|\n| 1 | 2 |\n").starts_with("<table>"));
    assert!(render_markdown("- [x] done\n").contains("type=\"checkbox\""));
}

#[test]
fn malformed_markdown_is_still_rendered() {
    assert_eq!(render_markdown("**unclosed"), "<p>**unclosed</p>\n");
    assert_eq!(render_markdown(""), "");
}
