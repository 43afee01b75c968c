//! The display languages the scanner knows about.

use vstd::prelude::*;

verus! {

/// A display language of the game client and of the user-facing text.
#[derive(Debug, Copy, Clone, PartialEq, Eq, Structural)]
pub enum Language {
    ChineseSimplified,
    English,
}

impl Language {
    /// The name of the language, written in that language.
    pub fn display_name(&self) -> (r: &'static str)
        ensures
            *self == Language::ChineseSimplified ==> r@ == "简体中文"@,
            *self == Language::English ==> r@ == "English"@,
    {
        match self {
            Language::ChineseSimplified => "简体中文",
            Language::English => "English",
        }
    }
}

/// Every supported language, in a fixed order.
pub fn all_languages() -> (r: Vec<Language>)
    ensures
        r@ == seq![Language::ChineseSimplified, Language::English],
{
    let mut v: Vec<Language> = Vec::new();
    v.push(Language::ChineseSimplified);
    v.push(Language::English);
    proof {
        assert(v@ =~= seq![Language::ChineseSimplified, Language::English]);
    }
    v
}

} // verus!
