//! A source document on its way to an artifact: its title, its slug, and
//! the stages it goes through.

use vstd::prelude::*;
use vstd::string::StringSliceAdditionalSpecFns;
use vstd::utf8::encode_utf8;
use crate::compress::compress;
use crate::compress::gzip;
use crate::error::BuildError;
use crate::highlight::class_prefix_spec;
use crate::highlight::theme_name_spec;
use crate::highlight::theme_stylesheet;
use crate::highlight::Highlighter;
use crate::markdown::markdown_html;
use crate::markdown::render_markdown;
use crate::page::assemble_page;
use crate::page::page;
use crate::rewrite::rewrite_body;
use crate::rewrite::rewritten_body;
use crate::rewrite::same_result;
use crate::text::first_line_len;
use crate::text::lemma_first_line_bounds;
use crate::text::line_end;
use crate::text::slice_string;
use crate::text::to_chars;

use crate::entities::decoded;
use crate::entities::escaped;
use crate::page::lemma_title_element;
use crate::page::shell_head;
use crate::text::occurs_at;
verus! {

/// The first line of a document, without the line feed that ends it and
/// without a carriage return before that line feed.
pub open spec fn title_line(source: Seq<char>) -> Seq<char> {
    let line = source.take(first_line_len(source));
    if line.len() > 0 && line.last() == '\n' {
        if line.len() > 1 && line[line.len() - 2] == '\r' {
            line.take(line.len() - 2)
        } else {
            line.take(line.len() - 1)
        }
    } else {
        line
    }
}

/// The title of a document: what follows the marker `# ` on its first
/// line. A document has no title when its first line does not open with
/// the marker, or holds nothing behind it.
pub open spec fn title_of(source: Seq<char>) -> Option<Seq<char>> {
    let line = title_line(source);
    if line.len() > 2 && line[0] == '#' && line[1] == ' ' {
        Some(line.skip(2))
    } else {
        None
    }
}

/// Reads the title of a document.
pub fn document_title(source: &str) -> (out: Result<String, BuildError>)
    ensures
        match out {
            Ok(title) => title_of(source@) == Some(title@),
            Err(error) => error == BuildError::MissingTitle && title_of(source@) is None,
        },
{
    let chars = to_chars(source);
    proof {
        assert(chars@.skip(0) =~= chars@);
        lemma_first_line_bounds(chars@);
    }
    let mut end = line_end(chars.as_slice(), 0);
    let ghost line = chars@.take(end as int);
    if end > 0 && chars[end - 1] == '\n' {
        if end > 1 && chars[end - 2] == '\r' {
            end = end - 2;
        } else {
            end = end - 1;
        }
    }
    assert(title_line(source@) =~= chars@.take(end as int));
    if end > 2 && chars[0] == '#' && chars[1] == ' ' {
        let title = slice_string(chars.as_slice(), 2, end);
        assert(title@ =~= title_line(source@).skip(2));
        Ok(title)
    } else {
        Err(BuildError::MissingTitle)
    }
}

/// Whether a file name is that of a Markdown document: a name with
/// something before the extension `.md`.
pub open spec fn is_markdown_name(file_name: Seq<char>) -> bool {
    &&& file_name.len() > 3
    &&& file_name[file_name.len() - 3] == '.'
    &&& file_name[file_name.len() - 2] == 'm'
    &&& file_name[file_name.len() - 1] == 'd'
}

/// The slug of a document: its file name without the extension.
pub open spec fn slug_of(file_name: Seq<char>) -> Option<Seq<char>> {
    if is_markdown_name(file_name) {
        Some(file_name.take(file_name.len() - 3))
    } else {
        None
    }
}

/// Derives the slug under which a document is written and served.
pub fn slug(file_name: &str) -> (out: Result<String, BuildError>)
    ensures
        match out {
            Ok(slug) => slug_of(file_name@) == Some(slug@),
            Err(error) => error == BuildError::NotMarkdown && slug_of(file_name@) is None,
        },
{
    let chars = to_chars(file_name);
    let len = chars.len();
    if len > 3 && chars[len - 3] == '.' && chars[len - 2] == 'm' && chars[len - 1] == 'd' {
        let slug = slice_string(chars.as_slice(), 0, len - 3);
        assert(slug@ =~= file_name@.take(len - 3));
        Ok(slug)
    } else {
        Err(BuildError::NotMarkdown)
    }
}

/// What is to be done with an entry of the source directory.
#[derive(Debug)]
pub enum EntryPlan {
    /// The entry goes to the output as it is.
    Copy,
    /// The entry is a document: it is rendered and written under `slug`.
    Render { slug: String },
}

/// Decides what is done with an entry of the source directory. Directories
/// and files that are not Markdown documents pass through unchanged.
pub fn plan_entry(file_name: &str, is_directory: bool) -> (out: EntryPlan)
    ensures
        match out {
            EntryPlan::Copy => is_directory || slug_of(file_name@) is None,
            EntryPlan::Render { slug } => !is_directory && slug_of(file_name@) == Some(slug@),
        },
{
    if is_directory {
        return EntryPlan::Copy;
    }
    match slug(file_name) {
        Ok(slug) => EntryPlan::Render { slug },
        Err(_) => EntryPlan::Copy,
    }
}

/// The page that a document becomes, or the error that ends the build.
/// The whole document is rendered, its title line with it, so the title
/// stands in the head and as the first heading of the body.
pub open spec fn page_of(highlighter: Highlighter, source: Seq<char>, base_css: Seq<char>) -> Result<
    Seq<char>,
    BuildError,
> {
    match title_of(source) {
        None => Err(BuildError::MissingTitle),
        Some(title) => match rewritten_body(highlighter, markdown_html(source)) {
            Err(error) => Err(error),
            Ok(body) => match theme_stylesheet(
                highlighter.theme_set(),
                theme_name_spec(),
                class_prefix_spec(),
            ) {
                None => Err(BuildError::Theme),
                Some(theme_css) => Ok(page(title, body, base_css, theme_css)),
            },
        },
    }
}

/// Renders a document as a complete page.
pub fn render_page(highlighter: &Highlighter, source: &str, base_css: &str) -> (out: Result<
    String,
    BuildError,
>)
    ensures
        same_result(out, page_of(*highlighter, source@, base_css@)),
{
    let title = match document_title(source) {
        Ok(title) => title,
        Err(error) => { return Err(error); },
    };
    let rendered = render_markdown(source);
    let body = match rewrite_body(highlighter, rendered.as_str()) {
        Ok(body) => body,
        Err(error) => { return Err(error); },
    };
    let theme_css = match highlighter.stylesheet() {
        Ok(css) => css,
        Err(error) => { return Err(error); },
    };
    Ok(assemble_page(title.as_str(), body.as_str(), base_css, theme_css.as_str()))
}

/// A compressed page, ready to be sent as it is, and the slug it goes by.
#[derive(Debug)]
pub struct Artifact {
    pub slug: String,
    pub bytes: Vec<u8>,
}

/// The slug and the bytes of the artifact that a file becomes, or the
/// error that ends the build.
pub open spec fn artifact_of(
    highlighter: Highlighter,
    file_name: Seq<char>,
    source: Seq<char>,
    base_css: Seq<char>,
) -> Result<(Seq<char>, Seq<u8>), BuildError> {
    match slug_of(file_name) {
        None => Err(BuildError::NotMarkdown),
        Some(slug) => match page_of(highlighter, source, base_css) {
            Err(error) => Err(error),
            Ok(page) => match gzip(encode_utf8(page)) {
                None => Err(BuildError::Compress),
                Some(bytes) => Ok((slug, bytes)),
            },
        },
    }
}

/// Whether `out` is what building the file gives.
pub open spec fn built(
    out: Result<Artifact, BuildError>,
    highlighter: Highlighter,
    file_name: Seq<char>,
    source: Seq<char>,
    base_css: Seq<char>,
) -> bool {
    match out {
        Ok(artifact) => artifact_of(highlighter, file_name, source, base_css) == Ok::<
            (Seq<char>, Seq<u8>),
            BuildError,
        >((artifact.slug@, artifact.bytes@)),
        Err(error) => artifact_of(highlighter, file_name, source, base_css) == Err::<
            (Seq<char>, Seq<u8>),
            BuildError,
        >(error),
    }
}

/// Builds the artifact of one document: the document is rendered, its code
/// highlighted, the page put together and compressed.
pub fn build_artifact(
    highlighter: &Highlighter,
    file_name: &str,
    source: &str,
    base_css: &str,
) -> (out: Result<Artifact, BuildError>)
    ensures
        built(out, *highlighter, file_name@, source@, base_css@),
{
    let slug = match slug(file_name) {
        Ok(slug) => slug,
        Err(error) => { return Err(error); },
    };
    let page = match render_page(highlighter, source, base_css) {
        Ok(page) => page,
        Err(error) => { return Err(error); },
    };
    match compress(page.as_str().as_bytes()) {
        Ok(bytes) => Ok(Artifact { slug, bytes }),
        Err(error) => Err(error),
    }
}

/// Building is repeatable: two builds of the same file with the same
/// stylesheet and the same highlighter end in the same way, and where they
/// succeed they give the same slug and the same bytes.
pub proof fn lemma_build_is_repeatable(
    first: Result<Artifact, BuildError>,
    second: Result<Artifact, BuildError>,
    highlighter: Highlighter,
    file_name: Seq<char>,
    source: Seq<char>,
    base_css: Seq<char>,
)
    requires
        built(first, highlighter, file_name, source, base_css),
        built(second, highlighter, file_name, source, base_css),
    ensures
        first is Ok <==> second is Ok,
        first is Ok ==> first->Ok_0.slug@ == second->Ok_0.slug@ && first->Ok_0.bytes@
            == second->Ok_0.bytes@,
        first is Err ==> first->Err_0 == second->Err_0,
{
}

/// A page that is built carries the title of its document: the document
/// has a title, and the first title element of the page holds it, escaped,
/// so that a reader of the page reads the title as it was written.
pub proof fn lemma_page_carries_title(
    highlighter: Highlighter,
    source: Seq<char>,
    base_css: Seq<char>,
)
    requires
        page_of(highlighter, source, base_css) is Ok,
    ensures
        title_of(source) is Some,
        ({
            let whole = page_of(highlighter, source, base_css)->Ok_0;
            let name = escaped(title_of(source)->0);
            let open = shell_head().len() + name.len() + 2int;
            &&& occurs_at(whole, "<title>"@, open)
            &&& forall|j: int| 0 <= j < open ==> !occurs_at(whole, "<title>"@, j)
            &&& whole.subrange(open + 7, open + 7 + name.len()) == name
            &&& occurs_at(whole, "</title>"@, open + 7 + name.len())
            &&& decoded(name) == title_of(source)->0
        }),
{
    let title = title_of(source)->0;
    let body = rewritten_body(highlighter, markdown_html(source))->Ok_0;
    let theme_css = theme_stylesheet(
        highlighter.theme_set(),
        theme_name_spec(),
        class_prefix_spec(),
    )->0;
    lemma_title_element(title, body, base_css, theme_css);
}

/// The slug is the file name without its extension: the slug and `.md`
/// make the name again, so two documents never share a slug.
pub proof fn lemma_slug_names_file(file_name: Seq<char>)
    requires
        slug_of(file_name) is Some,
    ensures
        slug_of(file_name)->0 + ".md"@ == file_name,
        slug_of(file_name)->0.len() > 0,
{
    reveal_strlit(".md");
    assert(slug_of(file_name)->0 + ".md"@ =~= file_name);
}

/// What is not a document is passed through: a directory, and a file whose
/// name does not end in the Markdown extension, is never rendered.
pub proof fn lemma_only_markdown_is_rendered(file_name: Seq<char>)
    requires
        file_name.len() < 3 || file_name.subrange(file_name.len() - 3, file_name.len() as int)
            != ".md"@,
    ensures
        slug_of(file_name) is None,
{
    reveal_strlit(".md");
    if slug_of(file_name) is Some {
        assert(file_name.subrange(file_name.len() - 3, file_name.len() as int) =~= ".md"@);
    }
}

} // verus!
