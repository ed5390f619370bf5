//! The programming languages that a project can be set up for.

use vstd::prelude::*;

verus! {

/// A programming language of a project.
#[derive(Debug, Clone, Copy, PartialEq, Eq, Structural)]
pub enum Language {
    Rust,
    Typescript,
}

impl Language {
    /// The name as it is shown.
    pub open spec fn shown(self) -> Seq<char> {
        match self {
            Language::Rust => "Rust"@,
            Language::Typescript => "TypeScript"@,
        }
    }

    /// The extension of its source files.
    pub open spec fn extension(self) -> Seq<char> {
        match self {
            Language::Rust => "rs"@,
            Language::Typescript => "ts"@,
        }
    }

    pub fn display_name(&self) -> (r: &'static str)
        ensures
            r@ == self.shown(),
    {
        match self {
            Language::Rust => "Rust",
            Language::Typescript => "TypeScript",
        }
    }

    pub fn file_extension(&self) -> (r: &'static str)
        ensures
            r@ == self.extension(),
    {
        match self {
            Language::Rust => "rs",
            Language::Typescript => "ts",
        }
    }

    /// All languages.
    pub fn all() -> (r: Vec<Language>)
        ensures
            r@ == seq![Language::Rust, Language::Typescript],
    {
        let mut r: Vec<Language> = Vec::new();
        r.push(Language::Rust);
        r.push(Language::Typescript);
        assert(r@ =~= seq![Language::Rust, Language::Typescript]);
        r
    }
}

impl Default for Language {
    fn default() -> (r: Self)
        ensures
            r == Language::Rust,
    {
        Language::Rust
    }
}

} // verus!
