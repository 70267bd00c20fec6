//! The two languages of the program.
use vstd::prelude::*;

verus! {

/// A language of the program.
#[derive(Debug, Clone, Copy, PartialEq, Eq, Structural)]
pub enum Lang {
    Zh,
    En,
}

/// The text of a pair that a language shows.
pub open spec fn chosen(lang: Lang, pair: (Seq<char>, Seq<char>)) -> Seq<char> {
    match lang {
        Lang::Zh => pair.0,
        Lang::En => pair.1,
    }
}

/// The text in the language.
pub fn text(lang: Lang, zh: &'static str, en: &'static str) -> (r: &'static str)
    ensures
        r@ == chosen(lang, (zh@, en@)),
{
    match lang {
        Lang::Zh => zh,
        Lang::En => en,
    }
}

/// The first text where `zh` is set, or else the second.
pub fn local(zh: bool, zh_text: &'static str, en_text: &'static str) -> (r: &'static str)
    ensures
        r@ == chosen(if zh {
            Lang::Zh
        } else {
            Lang::En
        }, (zh_text@, en_text@)),
{
    if zh {
        zh_text
    } else {
        en_text
    }
}

/// Law: of a pair of texts the first is the Chinese one and the second the English one.
pub proof fn law_pair_names_both_languages(zh: Seq<char>, en: Seq<char>)
    ensures
        chosen(Lang::Zh, (zh, en)) == zh,
        chosen(Lang::En, (zh, en)) == en,
{
}

} // verus!
