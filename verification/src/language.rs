//! The languages whose code blocks are highlighted.

use vstd::prelude::*;
use crate::text::same_text;

verus! {

/// A language that a fenced code block can be tagged with.
#[derive(Clone, Copy, Debug, PartialEq, Eq, Structural)]
pub enum Language {
    Rust,
    Python,
    Toml,
    Bash,
}

impl Language {
    /// The tag that marks a block as written in the language.
    pub open spec fn tag_spec(self) -> Seq<char> {
        match self {
            Language::Rust => "rust"@,
            Language::Python => "python"@,
            Language::Toml => "toml"@,
            Language::Bash => "bash"@,
        }
    }

    /// The name of the grammar that tokenizes the language. TOML has no
    /// grammar of its own and borrows that of Rust.
    pub open spec fn grammar_spec(self) -> Seq<char> {
        match self {
            Language::Rust => "Rust"@,
            Language::Python => "Python"@,
            Language::Toml => "Rust"@,
            Language::Bash => "Shell-Unix-Generic"@,
        }
    }

    /// The selector that matches the code elements of the language.
    pub open spec fn selector_spec(self) -> Seq<char> {
        match self {
            Language::Rust => "code.language-rust"@,
            Language::Python => "code.language-python"@,
            Language::Toml => "code.language-toml"@,
            Language::Bash => "code.language-bash"@,
        }
    }

    /// The language that a tag names, if it names one.
    pub open spec fn from_tag_spec(tag: Seq<char>) -> Option<Language> {
        if tag == "rust"@ {
            Some(Language::Rust)
        } else if tag == "python"@ {
            Some(Language::Python)
        } else if tag == "toml"@ {
            Some(Language::Toml)
        } else if tag == "bash"@ {
            Some(Language::Bash)
        } else {
            None
        }
    }

    /// The languages, in the order in which their rules are applied.
    pub open spec fn all_spec() -> Seq<Language> {
        seq![Language::Rust, Language::Python, Language::Toml, Language::Bash]
    }

    /// The tag that marks a block as written in the language.
    pub fn tag(self) -> (out: &'static str)
        ensures
            out@ == self.tag_spec(),
    {
        match self {
            Language::Rust => "rust",
            Language::Python => "python",
            Language::Toml => "toml",
            Language::Bash => "bash",
        }
    }

    /// The name of the grammar that tokenizes the language.
    pub fn grammar(self) -> (out: &'static str)
        ensures
            out@ == self.grammar_spec(),
    {
        match self {
            Language::Rust => "Rust",
            Language::Python => "Python",
            Language::Toml => "Rust",
            Language::Bash => "Shell-Unix-Generic",
        }
    }

    /// The selector that matches the code elements of the language.
    pub fn selector(self) -> (out: &'static str)
        ensures
            out@ == self.selector_spec(),
    {
        match self {
            Language::Rust => "code.language-rust",
            Language::Python => "code.language-python",
            Language::Toml => "code.language-toml",
            Language::Bash => "code.language-bash",
        }
    }

    /// Finds the language that `tag` names. Tags are compared as they stand:
    /// no case is folded and no space is trimmed.
    pub fn from_tag(tag: &str) -> (out: Option<Language>)
        ensures
            out == Language::from_tag_spec(tag@),
    {
        if same_text(tag, "rust") {
            Some(Language::Rust)
        } else if same_text(tag, "python") {
            Some(Language::Python)
        } else if same_text(tag, "toml") {
            Some(Language::Toml)
        } else if same_text(tag, "bash") {
            Some(Language::Bash)
        } else {
            None
        }
    }

    /// The languages, in the order in which their rules are applied.
    pub fn all() -> (out: Vec<Language>)
        ensures
            out@ == Language::all_spec(),
    {
        let mut out: Vec<Language> = Vec::new();
        out.push(Language::Rust);
        out.push(Language::Python);
        out.push(Language::Toml);
        out.push(Language::Bash);
        assert(out@ =~= Language::all_spec());
        out
    }
}

/// Every language is found again by its own tag.
pub proof fn lemma_tag_names_language(language: Language)
    ensures
        Language::from_tag_spec(language.tag_spec()) == Some(language),
{
    reveal_strlit("rust");
    reveal_strlit("python");
    reveal_strlit("toml");
    reveal_strlit("bash");
    assert("rust"@.len() == 4 && "python"@.len() == 6 && "toml"@.len() == 4 && "bash"@.len() == 4);
    assert("rust"@[0] == 'r' && "toml"@[0] == 't' && "bash"@[0] == 'b');
}

} // verus!
