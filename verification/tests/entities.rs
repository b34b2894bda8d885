use pagesmith::entities::decode_entities;
use pagesmith::entities::escape_text;

#[test]
fn decode_reads_the_four_references() {
    assert_eq!(decode_entities("&quot;a&quot; &lt; &gt; &amp;"), "\"a\" < > &");
}

#[test]
fn decode_leaves_other_text_alone() {
    assert_eq!(decode_entities("plain text"), "plain text");
    assert_eq!(decode_entities("&apos;&#39;&nbsp;"), "&apos;&#39;&nbsp;");
    assert_eq!(decode_entities("&lt"), "&lt");
    assert_eq!(decode_entities(""), "");
}

#[test]
fn decode_reads_the_ampersand_last() {
    assert_eq!(decode_entities("&amp;lt;"), "&lt;");
    assert_eq!(decode_entities("&amp;amp;"), "&amp;");
    assert_eq!(decode_entities("&amp;quot;"), "&quot;");
}

#[test]
fn escape_writes_the_four_references() {
    assert_eq!(escape_text("<a href=\"x\">Tom & Jerry</a>"), "&lt;a href=&quot;x&quot;&gt;Tom &amp; Jerry&lt;/a&gt;");
    assert_eq!(escape_text("it's"), "it's");
    assert_eq!(escape_text(""), "");
    assert_eq!(escape_text("caf\u{e9} \u{2615}"), "caf\u{e9} \u{2615}");
}

#[test]
fn decode_reads_escaped_text_back() {
    for text in ["a < b && c > \"d\"", "&lt;", "&amp;lt;", "&&&", "<<>>", "&quot", "plain", ""] {
        assert_eq!(decode_entities(&escape_text(text)), text);
    }
}

#[test]
fn escaped_text_holds_no_markup() {
    let out = escape_text("</title><script>alert(\"x\")</script>");
    assert!(!out.contains('<'));
    assert!(!out.contains('>'));
    assert!(!out.contains('"'));
}
