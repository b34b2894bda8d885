//! The page: one fixed shell round a title, two stylesheets and a body.

use vstd::prelude::*;
use vstd::string::StringExecFns;
use crate::entities::escape_text;
use crate::entities::escaped;

use crate::entities::decoded;
use crate::entities::lemma_decoded_escaped;
use crate::entities::lemma_escaped_holds_no_markup;
use crate::text::occurs_at;
verus! {

/// The start of every page, up to the description that repeats the title.
pub open spec fn shell_head() -> Seq<char> {
    "<!DOCTYPE html><meta charset=\"utf-8\"><meta name=\"theme-color\" content=\"#ffffff\"><meta name=\"viewport\" content=\"width=device-width, initial-scale=1.0\"><meta name=\"description\" content=\""@
}

/// What stands between the description and the title.
pub open spec fn shell_title_open() -> Seq<char> {
    "\"><title>"@
}

/// What stands between the title and the stylesheets.
pub open spec fn shell_style_open() -> Seq<char> {
    "</title><style>"@
}

/// What stands between the stylesheets and the body: the header with the
/// links to the sections of the site.
pub open spec fn shell_main_open() -> Seq<char> {
    "</style><body><header class=\"navbar\"><p>RATSM</p><nav class=\"contents\" aria-label=\"Site Sections\"><ul role=\"list\"><li><a href=\"/\">Home</a></li><li><a href=\"/about\">About</a></li><li><a href=\"/contact\">Contact</a></li></ul></nav></header><main>"@
}

/// The end of every page, with the footer.
pub open spec fn shell_tail() -> Seq<char> {
    "</main></body><footer>Made with \u{2615} by Michael Gattozzi</footer>"@
}

/// The page for a title, a body and two stylesheets. The title is escaped,
/// both where it describes the page and where it names it. The stylesheets
/// and the body go in as they stand: they are HTML and CSS already, made
/// at build time from what the site's author wrote.
pub open spec fn page(
    title: Seq<char>,
    body: Seq<char>,
    base_css: Seq<char>,
    theme_css: Seq<char>,
) -> Seq<char> {
    shell_head() + escaped(title) + shell_title_open() + escaped(title) + shell_style_open()
        + base_css + theme_css + shell_main_open() + body + shell_tail()
}

/// Puts a page together.
pub fn assemble_page(title: &str, body: &str, base_css: &str, theme_css: &str) -> (out: String)
    ensures
        out@ == page(title@, body@, base_css@, theme_css@),
{
    let name = escape_text(title);
    let mut out = String::new();
    out.append(
        "<!DOCTYPE html><meta charset=\"utf-8\"><meta name=\"theme-color\" content=\"#ffffff\"><meta name=\"viewport\" content=\"width=device-width, initial-scale=1.0\"><meta name=\"description\" content=\"",
    );
    out.append(name.as_str());
    out.append("\"><title>");
    out.append(name.as_str());
    out.append("</title><style>");
    out.append(base_css);
    out.append(theme_css);
    out.append(
        "</style><body><header class=\"navbar\"><p>RATSM</p><nav class=\"contents\" aria-label=\"Site Sections\"><ul role=\"list\"><li><a href=\"/\">Home</a></li><li><a href=\"/about\">About</a></li><li><a href=\"/contact\">Contact</a></li></ul></nav></header><main>",
    );
    out.append(body);
    out.append("</main></body><footer>Made with \u{2615} by Michael Gattozzi</footer>");
    assert(out@ =~= page(title@, body@, base_css@, theme_css@));
    out
}

/// No title element opens in the part of the shell that stands before the
/// title.
proof fn lemma_head_opens_no_title()
    ensures
        shell_head().len() > 0,
        shell_head().last() != '<',
        forall|j: int|
            0 <= j < shell_head().len() - 1 ==> !(#[trigger] shell_head()[j] == '<'
                && shell_head()[j + 1] == 't'),
{
    reveal_strlit(
        "<!DOCTYPE html><meta charset=\"utf-8\"><meta name=\"theme-color\" content=\"#ffffff\"><meta name=\"viewport\" content=\"width=device-width, initial-scale=1.0\"><meta name=\"description\" content=\"",
    );
}

/// Every page names its title, once, before anything that came from
/// outside: the first title element of the page stands at a fixed place
/// behind the description, it is closed right behind its text, its text
/// holds no markup, and a reader who decodes that text reads the title.
pub proof fn lemma_title_element(
    title: Seq<char>,
    body: Seq<char>,
    base_css: Seq<char>,
    theme_css: Seq<char>,
)
    ensures
        ({
            let whole = page(title, body, base_css, theme_css);
            let name = escaped(title);
            let open = shell_head().len() + name.len() + 2int;
            &&& occurs_at(whole, "<title>"@, open)
            &&& forall|j: int| 0 <= j < open ==> !occurs_at(whole, "<title>"@, j)
            &&& whole.subrange(open + 7, open + 7 + name.len()) == name
            &&& occurs_at(whole, "</title>"@, open + 7 + name.len())
            &&& forall|i: int| 0 <= i < name.len() ==> name[i] != '<'
            &&& decoded(name) == title
        }),
{
    reveal_strlit("\"><title>");
    reveal_strlit("</title><style>");
    reveal_strlit("<title>");
    reveal_strlit("</title>");
    lemma_head_opens_no_title();
    lemma_escaped_holds_no_markup(title);
    lemma_decoded_escaped(title);
    let whole = page(title, body, base_css, theme_css);
    let name = escaped(title);
    let head = shell_head();
    let open = head.len() + name.len() + 2int;
    let rest = base_css + theme_css + shell_main_open() + body + shell_tail();
    assert(whole =~= head + name + shell_title_open() + name + shell_style_open() + rest);
    assert forall|j: int| 0 <= j < open implies !occurs_at(whole, "<title>"@, j) by {
        if occurs_at(whole, "<title>"@, j) {
            let found = whole.subrange(j, j + 7);
            assert(found[0] == whole[j] && found[1] == whole[j + 1]);
            if j < head.len() {
                assert(whole[j] == head[j]);
                if j + 1 < head.len() {
                    assert(whole[j + 1] == head[j + 1]);
                }
            } else if j < head.len() + name.len() {
                assert(whole[j] == name[j - head.len()]);
            } else {
                assert(whole[j] == shell_title_open()[j - head.len() - name.len()]);
            }
        }
    }
    assert(whole.subrange(open, open + 7) =~= "<title>"@);
    assert(whole.subrange(open + 7, open + 7 + name.len()) =~= name);
    assert(whole.subrange(open + 7 + name.len(), open + 7 + name.len() + 8) =~= "</title>"@);
}

} // verus!
