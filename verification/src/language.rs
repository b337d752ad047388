//! The languages that the game ships text in.

use vstd::prelude::*;

verus! {

/// One of the ten supported languages.
#[derive(Clone, Copy, Debug, PartialEq, Eq, Structural)]
pub enum Language {
    Bp,
    Cs,
    Ct,
    En,
    Es,
    Fr,
    Ge,
    It,
    Jp,
    Ko,
}

/// Every language, in the order in which a run goes through them.
pub open spec fn all_languages() -> Seq<Language> {
    seq![
        Language::Bp,
        Language::Cs,
        Language::Ct,
        Language::En,
        Language::Es,
        Language::Fr,
        Language::Ge,
        Language::It,
        Language::Jp,
        Language::Ko,
    ]
}

impl Language {
    /// The two-letter code that names the language in file paths.
    pub open spec fn code_of(self) -> Seq<char> {
        match self {
            Language::Bp => "bp"@,
            Language::Cs => "cs"@,
            Language::Ct => "ct"@,
            Language::En => "en"@,
            Language::Es => "es"@,
            Language::Fr => "fr"@,
            Language::Ge => "ge"@,
            Language::It => "it"@,
            Language::Jp => "jp"@,
            Language::Ko => "ko"@,
        }
    }

    /// The two-letter code that names the language in file paths.
    pub fn code(&self) -> (code: &'static str)
        ensures
            code@ == self.code_of(),
    {
        match self {
            Language::Bp => "bp",
            Language::Cs => "cs",
            Language::Ct => "ct",
            Language::En => "en",
            Language::Es => "es",
            Language::Fr => "fr",
            Language::Ge => "ge",
            Language::It => "it",
            Language::Jp => "jp",
            Language::Ko => "ko",
        }
    }

    /// Every language, in the order in which a run goes through them.
    pub fn all() -> (languages: Vec<Language>)
        ensures
            languages@ == all_languages(),
    {
        let mut languages: Vec<Language> = Vec::new();
        languages.push(Language::Bp);
        languages.push(Language::Cs);
        languages.push(Language::Ct);
        languages.push(Language::En);
        languages.push(Language::Es);
        languages.push(Language::Fr);
        languages.push(Language::Ge);
        languages.push(Language::It);
        languages.push(Language::Jp);
        languages.push(Language::Ko);
        assert(languages@ =~= all_languages());
        languages
    }

    /// The language with the given code, if it is one of the ten.
    pub fn from_code(code: &str) -> (language: Option<Language>)
        ensures
            language matches Some(l) ==> l.code_of() == code@,
            language is None ==> forall|l: Language| l.code_of() != code@,
    {
        let all = Language::all();
        let mut i: usize = 0;
        while i < all.len()
            invariant
                all@ == all_languages(),
                i <= all.len(),
                forall|j: int| 0 <= j < i ==> all_languages()[j].code_of() != code@,
            decreases all.len() - i,
        {
            if crate::text::same_text(all[i].code(), code) {
                return Some(all[i]);
            }
            i = i + 1;
        }
        proof {
            assert forall|l: Language| l.code_of() != code@ by {
                lemma_every_language_is_listed(l);
            }
        }
        None
    }
}

/// The list of languages leaves none out.
pub proof fn lemma_every_language_is_listed(l: Language)
    ensures
        exists|i: int| 0 <= i < all_languages().len() && all_languages()[i] == l,
{
    match l {
        Language::Bp => assert(all_languages()[0] == l),
        Language::Cs => assert(all_languages()[1] == l),
        Language::Ct => assert(all_languages()[2] == l),
        Language::En => assert(all_languages()[3] == l),
        Language::Es => assert(all_languages()[4] == l),
        Language::Fr => assert(all_languages()[5] == l),
        Language::Ge => assert(all_languages()[6] == l),
        Language::It => assert(all_languages()[7] == l),
        Language::Jp => assert(all_languages()[8] == l),
        Language::Ko => assert(all_languages()[9] == l),
    }
}

} // verus!
