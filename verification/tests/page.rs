use pagesmith::page::assemble_page;

const HEAD: &str = "<!DOCTYPE html><meta charset=\"utf-8\"><meta name=\"theme-color\" content=\"#ffffff\"><meta name=\"viewport\" content=\"width=device-width, initial-scale=1.0\">";
const HEADER: &str = "<body><header class=\"navbar\"><p>RATSM</p><nav class=\"contents\" aria-label=\"Site Sections\"><ul role=\"list\"><li><a href=\"/\">Home</a></li><li><a href=\"/about\">About</a></li><li><a href=\"/contact\">Contact</a></li></ul></nav></header>";
const FOOTER: &str = "</body><footer>Made with \u{2615} by Michael Gattozzi</footer>";

#[test]
fn a_page_is_the_shell_round_its_parts() {
    let page = assemble_page("Hello", "<p>body</p>", "p{margin:0}", ".syntectcode{color:red}");
    let expected = format!(
        "{}<meta name=\"description\" content=\"Hello\"><title>Hello</title><style>p{{margin:0}}.syntectcode{{color:red}}</style>{}<main><p>body</p></main>{}",
        HEAD, HEADER, FOOTER
    );
    assert_eq!(page, expected);
}

#[test]
fn the_title_is_escaped_in_both_places() {
    let page = assemble_page("a \"<b>\" & c", "", "", "");
    assert!(page.contains("content=\"a &quot;&lt;b&gt;&quot; &amp; c\">"));
    assert!(page.contains("<title>a &quot;&lt;b&gt;&quot; &amp; c</title>"));
}

#[test]
fn stylesheets_and_body_go_in_as_they_stand() {
    let page = assemble_page("t", "<em>a & b</em>", "a>b{content:\"<\"}", "c{}");
    assert!(page.contains("<style>a>b{content:\"<\"}c{}</style>"));
    assert!(page.contains("<main><em>a & b</em></main>"));
}

#[test]
fn a_title_cannot_close_its_element() {
    let page = assemble_page("</title><script>x</script>", "", "", "");
    assert_eq!(page.matches("<title>").count(), 1);
    assert_eq!(page.matches("</title>").count(), 1);
    assert!(!page.contains("<script>"));
}

#[test]
fn every_page_has_the_same_shell() {
    let one = assemble_page("One", "1", "", "");
    let two = assemble_page("Two", "2", "", "");
    for page in [&one, &two] {
        assert!(page.starts_with(HEAD));
        assert!(page.contains(HEADER));
        assert!(page.ends_with(FOOTER));
    }
}
