//! Languages a correction can be made in or translated into.

use vstd::prelude::*;
use crate::text::eq_str;

verus! {

broadcast use vstd::string::group_string_axioms;

/// A language offered to the user.
#[derive(Debug)]
pub struct Language {
    pub tag: String,
    pub label: String,
    pub builtin: bool,
}

impl Clone for Language {
    fn clone(&self) -> (r: Self)
        ensures
            r == *self,
    {
        Language { tag: self.tag.clone(), label: self.label.clone(), builtin: self.builtin }
    }
}

/// The tag that stands for "detect the language automatically".
pub const AUTO_TAG: &'static str = "auto";

/// The built-in languages, in the order they are offered: tag and label.
pub open spec fn builtin_language_table() -> Seq<(Seq<char>, Seq<char>)> {
    seq![
        (AUTO_TAG@, "Detect automatically"@),
        ("en"@, "English"@),
        ("de"@, "German"@),
        ("fr"@, "French"@),
        ("es"@, "Spanish"@),
        ("it"@, "Italian"@),
        ("pt"@, "Portuguese"@),
        ("nl"@, "Dutch"@),
        ("pl"@, "Polish"@),
        ("ru"@, "Russian"@),
        ("tr"@, "Turkish"@),
        ("ja"@, "Japanese"@),
        ("ko"@, "Korean"@),
        ("zh"@, "Chinese (Simplified)"@),
    ]
}

/// `l` is the built-in language with this tag and label.
pub open spec fn is_builtin_entry(l: Language, entry: (Seq<char>, Seq<char>)) -> bool {
    l.tag@ == entry.0 && l.label@ == entry.1 && l.builtin
}

/// A language as tag, label and built-in flag.
pub type LanguageView = (Seq<char>, Seq<char>, bool);

pub open spec fn language_view(l: Language) -> LanguageView {
    (l.tag@, l.label@, l.builtin)
}

pub open spec fn languages_view(v: Seq<Language>) -> Seq<LanguageView> {
    v.map_values(|l: Language| language_view(l))
}

/// The built-in languages, in the order they are offered.
pub open spec fn builtin_languages_view() -> Seq<LanguageView> {
    builtin_language_table().map_values(|e: (Seq<char>, Seq<char>)| (e.0, e.1, true))
}

impl Language {
    fn builtin(tag: &str, label: &str) -> (r: Self)
        ensures
            r.tag@ == tag@,
            r.label@ == label@,
            r.builtin,
    {
        Language { tag: tag.to_owned(), label: label.to_owned(), builtin: true }
    }

    /// Whether this is the automatic-detection entry.
    pub open spec fn spec_is_auto(&self) -> bool {
        self.tag@ == AUTO_TAG@
    }

    /// Whether this is the automatic-detection entry.
    pub fn is_auto(&self) -> (b: bool)
        ensures
            b == self.spec_is_auto(),
    {
        eq_str(self.tag.as_str(), AUTO_TAG)
    }
}

/// The automatic-detection entry.
pub fn auto_language() -> (r: Language)
    ensures
        is_builtin_entry(r, builtin_language_table()[0]),
        r.spec_is_auto(),
{
    Language::builtin(AUTO_TAG, "Detect automatically")
}

/// Every built-in language, automatic detection first.
pub fn builtin_languages() -> (r: Vec<Language>)
    ensures
        r@.len() == builtin_language_table().len(),
        forall|i: int| 0 <= i < r@.len() ==> is_builtin_entry(#[trigger] r@[i], builtin_language_table()[i]),
        languages_view(r@) == builtin_languages_view(),
{
    let v = vec![
        auto_language(),
        Language::builtin("en", "English"),
        Language::builtin("de", "German"),
        Language::builtin("fr", "French"),
        Language::builtin("es", "Spanish"),
        Language::builtin("it", "Italian"),
        Language::builtin("pt", "Portuguese"),
        Language::builtin("nl", "Dutch"),
        Language::builtin("pl", "Polish"),
        Language::builtin("ru", "Russian"),
        Language::builtin("tr", "Turkish"),
        Language::builtin("ja", "Japanese"),
        Language::builtin("ko", "Korean"),
        Language::builtin("zh", "Chinese (Simplified)"),
    ];
    assert forall|i: int| 0 <= i < v@.len() implies is_builtin_entry(#[trigger] v@[i], builtin_language_table()[i]) by {
    }
    assert(languages_view(v@) =~= builtin_languages_view());
    v
}

/// Automatic detection is offered first and only once, and no two built-in
/// languages share a tag.
pub proof fn lemma_builtin_tags_are_unique()
    ensures
        builtin_language_table()[0].0 == AUTO_TAG@,
        forall|i: int, j: int|
            0 <= i < j < builtin_language_table().len() ==> builtin_language_table()[i].0
                != builtin_language_table()[j].0,
{
    reveal_strlit("auto");
    reveal_strlit("en");
    reveal_strlit("de");
    reveal_strlit("fr");
    reveal_strlit("es");
    reveal_strlit("it");
    reveal_strlit("pt");
    reveal_strlit("nl");
    reveal_strlit("pl");
    reveal_strlit("ru");
    reveal_strlit("tr");
    reveal_strlit("ja");
    reveal_strlit("ko");
    reveal_strlit("zh");
    let t = builtin_language_table();
    assert forall|i: int, j: int| 0 <= i < j < t.len() implies t[i].0 != t[j].0 by {
        assert(t[i].0[0] != t[j].0[0] || t[i].0[1] != t[j].0[1] || t[i].0.len() != t[j].0.len());
    }
}

} // verus!
