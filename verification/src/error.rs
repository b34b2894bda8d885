//! The ways in which building a page can fail.

use vstd::prelude::*;

verus! {

/// Why a page could not be built. Every one of them ends the build.
#[derive(Clone, Copy, Debug, PartialEq, Eq, Structural)]
pub enum BuildError {
    /// The document does not open with a title line, or the title is empty.
    MissingTitle,
    /// A language was asked for that has no grammar.
    UnsupportedLanguage,
    /// The tokenizer gave up on a line of source text.
    Highlight,
    /// The HTML rewriter gave up on the rendered body.
    Rewrite,
    /// The rewritten body is not UTF-8.
    Encoding,
    /// The theme is not there, or no stylesheet could be made from it.
    Theme,
    /// The file is not a Markdown document.
    NotMarkdown,
    /// The page could not be compressed.
    Compress,
}

impl BuildError {
    /// The sentence that `message` gives for the error.
    pub open spec fn message_spec(self) -> Seq<char> {
        match self {
            BuildError::MissingTitle => "the document has no title"@,
            BuildError::UnsupportedLanguage => "no grammar for the language"@,
            BuildError::Highlight => "the source text could not be tokenized"@,
            BuildError::Rewrite => "the rendered body could not be rewritten"@,
            BuildError::Encoding => "the rewritten body is not UTF-8"@,
            BuildError::Theme => "no stylesheet for the theme"@,
            BuildError::NotMarkdown => "the file is not a Markdown document"@,
            BuildError::Compress => "the page could not be compressed"@,
        }
    }

    /// A sentence that says what went wrong.
    pub fn message(self) -> (out: &'static str)
        ensures
            out@ == self.message_spec(),
    {
        match self {
            BuildError::MissingTitle => "the document has no title",
            BuildError::UnsupportedLanguage => "no grammar for the language",
            BuildError::Highlight => "the source text could not be tokenized",
            BuildError::Rewrite => "the rendered body could not be rewritten",
            BuildError::Encoding => "the rewritten body is not UTF-8",
            BuildError::Theme => "no stylesheet for the theme",
            BuildError::NotMarkdown => "the file is not a Markdown document",
            BuildError::Compress => "the page could not be compressed",
        }
    }
}

} // verus!
