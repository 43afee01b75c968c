//! The scanner's configuration: the display language.  Loading and
//! saving the configuration file is done outside the library; only the
//! value and the existence check live here.

use vstd::prelude::*;

use crate::language::Language;

verus! {

/// The scanner's configuration.
#[derive(Debug, Copy, Clone, PartialEq, Eq, Structural)]
pub struct Config {
    /// The language of the game client and of the user-facing text.
    pub language: Language,
}

impl Config {
    /// Sets the display language.
    pub fn set_language(&mut self, language: Language)
        ensures
            final(self).language == language,
    {
        self.language = language;
    }

    /// Relies on std: `Path::exists` asks the disk whether the
    /// configuration file is present — an answer that depends on the
    /// disk, so nothing is assumed of it.
    #[verifier::external_body]
    pub fn is_config_file_exists() -> bool {
        std::path::Path::new("config.json").exists()
    }
}

impl Default for Config {
    /// The configuration before the user has chosen anything.
    fn default() -> (c: Self)
        ensures
            c.language == Language::ChineseSimplified,
    {
        Config { language: Language::ChineseSimplified }
    }
}

} // verus!
