use vstd::prelude::*;
use vstd::string::*;

use crate::text::same_text;

verus! {

/// The languages that the generators know, each with its alphabet, its short
/// code and whether it is German.
#[derive(Clone, Copy, Debug, PartialEq, Eq, Structural)]
pub enum Languages {
    English,
    German,
}

/// The language that an unknown identifier stands for.
pub const FALLBACK_LANGUAGE: Languages = Languages::English;

/// The language named by an identifier: its short code, matched exactly.
pub open spec fn language_of(id: Seq<char>) -> Languages {
    if id == "de"@ {
        Languages::German
    } else if id == "en"@ {
        Languages::English
    } else {
        FALLBACK_LANGUAGE
    }
}

impl Languages {
    pub open spec fn alphabet_spec(self) -> Seq<char> {
        match self {
            Languages::English => "abcdefghijklmnopqrstuvwxyz"@,
            Languages::German => "abcdefghijklmnopqrstuvwxyzäöüß"@,
        }
    }

    pub open spec fn abbr_spec(self) -> Seq<char> {
        match self {
            Languages::English => "en"@,
            Languages::German => "de"@,
        }
    }

    pub open spec fn is_german_spec(self) -> bool {
        self is German
    }

    /// Looks up a language by its short code; any other text gives
    /// `FALLBACK_LANGUAGE`.
    pub fn from_id(id: &str) -> (l: Languages)
        ensures
            l == language_of(id@),
    {
        if same_text(id, "de") {
            Languages::German
        } else if same_text(id, "en") {
            Languages::English
        } else {
            FALLBACK_LANGUAGE
        }
    }

    pub fn get_alphabet(&self) -> (r: String)
        ensures
            r@ == self.alphabet_spec(),
            r@.len() > 0,
    {
        proof {
            reveal_strlit("abcdefghijklmnopqrstuvwxyz");
            reveal_strlit("abcdefghijklmnopqrstuvwxyzäöüß");
        }
        match self {
            Languages::English => String::from_str("abcdefghijklmnopqrstuvwxyz"),
            Languages::German => String::from_str("abcdefghijklmnopqrstuvwxyzäöüß"),
        }
    }

    pub fn abbr(&self) -> (r: String)
        ensures
            r@ == self.abbr_spec(),
    {
        match self {
            Languages::English => String::from_str("en"),
            Languages::German => String::from_str("de"),
        }
    }

    pub fn is_german(&self) -> (r: bool)
        ensures
            r == self.is_german_spec(),
    {
        matches!(self, Languages::German)
    }
}

/// Every alphabet of the registry has at least one letter.
pub proof fn lemma_alphabet_not_empty(l: Languages)
    ensures
        l.alphabet_spec().len() > 0,
{
    reveal_strlit("abcdefghijklmnopqrstuvwxyz");
    reveal_strlit("abcdefghijklmnopqrstuvwxyzäöüß");
}

} // verus!
