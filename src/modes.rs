use vstd::prelude::*;
use vstd::string::*;

use crate::text::same_text;

verus! {

/// How strings are generated, and how the auxiliary parameter is read.
#[derive(Clone, Copy, Debug, PartialEq, Eq, Structural)]
pub enum Modes {
    /// Letters of a language's alphabet; the parameter names the language.
    RandomLetters,
    /// Letters of an alphabet given literally as the parameter.
    RandomLettersFromCustomAlphabet,
    /// Letters of an alphabet read from the file the parameter names.
    RandomLettersFromAlphabetFile,
    /// A word of the default noun list; the parameter names the language.
    RandomWord,
    /// A word of the list file the parameter names.
    RandomWordFromListFile,
    /// An adjective and a noun; the parameter names the language.
    CoupledWordsNouns,
    /// An adjective and a name; the parameter names the language.
    CoupledWordsNames,
    /// An adjective and a second word from the two files `adjectives:second`.
    CoupledWordsListFiles,
}

/// The mode that an unknown identifier stands for.
pub const FALLBACK_MODE: Modes = Modes::RandomLetters;

/// The mode named by an identifier, matched exactly.
pub open spec fn mode_of(id: Seq<char>) -> Modes {
    if id == "letters"@ {
        Modes::RandomLetters
    } else if id == "alphabet"@ {
        Modes::RandomLettersFromCustomAlphabet
    } else if id == "alphabet-file"@ {
        Modes::RandomLettersFromAlphabetFile
    } else if id == "word"@ {
        Modes::RandomWord
    } else if id == "word-file"@ {
        Modes::RandomWordFromListFile
    } else if id == "coupled-nouns"@ {
        Modes::CoupledWordsNouns
    } else if id == "coupled-names"@ {
        Modes::CoupledWordsNames
    } else if id == "coupled-files"@ {
        Modes::CoupledWordsListFiles
    } else {
        FALLBACK_MODE
    }
}

impl Modes {
    /// Looks up a mode by its identifier; any other text gives `FALLBACK_MODE`.
    pub fn from_id(id: &str) -> (m: Modes)
        ensures
            m == mode_of(id@),
    {
        if same_text(id, "letters") {
            Modes::RandomLetters
        } else if same_text(id, "alphabet") {
            Modes::RandomLettersFromCustomAlphabet
        } else if same_text(id, "alphabet-file") {
            Modes::RandomLettersFromAlphabetFile
        } else if same_text(id, "word") {
            Modes::RandomWord
        } else if same_text(id, "word-file") {
            Modes::RandomWordFromListFile
        } else if same_text(id, "coupled-nouns") {
            Modes::CoupledWordsNouns
        } else if same_text(id, "coupled-names") {
            Modes::CoupledWordsNames
        } else if same_text(id, "coupled-files") {
            Modes::CoupledWordsListFiles
        } else {
            FALLBACK_MODE
        }
    }
}

} // verus!
