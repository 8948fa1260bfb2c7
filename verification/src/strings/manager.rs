//! The table of texts together with the language that is spoken.

use crate::strings::structured::{MultiString, Strings};
use crate::text::is_text;
use vstd::prelude::*;

verus! {

/// The texts of the program, and the language in which they are given.
#[derive(Debug)]
pub struct StringsManager {
    pub deserialized: Strings,
    pub speak_lang: String,
}

/// Whether `lang` names a language that the program speaks.
pub open spec fn is_language(lang: Seq<char>) -> bool {
    lang == "en"@ || lang == "fr"@ || lang == "de"@
}

/// The text of `text` in the language `lang`: the English one where the
/// language has none.
pub open spec fn spoken(text: MultiString, lang: Seq<char>) -> String {
    if lang == "fr"@ && text.fr is Some {
        text.fr->Some_0
    } else if lang == "de"@ && text.de is Some {
        text.de->Some_0
    } else {
        text.en
    }
}

impl StringsManager {
    /// A manager of `deserialized` that speaks English.
    pub fn new(deserialized: Strings) -> (manager: StringsManager)
        ensures
            manager.deserialized == deserialized,
            manager.speak_lang@ == "en"@,
    {
        StringsManager { deserialized, speak_lang: String::from_str("en") }
    }

    /// Changes the language.
    pub fn set_speak_language(&mut self, speak_lang: String)
        ensures
            final(self).speak_lang == speak_lang,
            final(self).deserialized == old(self).deserialized,
    {
        self.speak_lang = speak_lang;
    }

    pub fn get(&self) -> (strings: &Strings)
        ensures
            *strings == self.deserialized,
    {
        &self.deserialized
    }

    pub fn speak_lang(&self) -> (lang: &String)
        ensures
            *lang == self.speak_lang,
    {
        &self.speak_lang
    }

    /// Whether the manager speaks a language that the program knows.
    pub fn speaks_known_language(&self) -> (known: bool)
        ensures
            known == is_language(self.speak_lang@),
    {
        is_text(&self.speak_lang, "en") || is_text(&self.speak_lang, "fr") || is_text(
            &self.speak_lang,
            "de",
        )
    }
}

impl MultiString {
    /// The text in the language that `sm` speaks, in English where that
    /// language has none.
    pub fn get(&self, sm: &StringsManager) -> (text: String)
        requires
            is_language(sm.speak_lang@),
        ensures
            text == spoken(*self, sm.speak_lang@),
    {
        proof {
            reveal_strlit("fr");
            reveal_strlit("de");
            assert("fr"@[0] == 'f' && "de"@[0] == 'd');
        }
        if is_text(sm.speak_lang(), "fr") {
            match &self.fr {
                Some(text) => text.clone(),
                None => self.en.clone(),
            }
        } else if is_text(sm.speak_lang(), "de") {
            match &self.de {
                Some(text) => text.clone(),
                None => self.en.clone(),
            }
        } else {
            self.en.clone()
        }
    }
}

} // verus!
