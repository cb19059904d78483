//! OCR-side decisions: language codes for the engines, which pages need
//! OCR, and the cleanup that turns a recognised word into page text.

use vstd::prelude::*;

use crate::text::{append_str, chars_eq_str, chars_of, copy_range, is_whitespace, is_ws,
    string_of, trim, trim_vec};
use crate::error::SpdfError;
use crate::text_utils::{clean_ocr_spec, clean_ocr_table_artifacts};

verus! {

/// Unicode `Alphabetic` or `Numeric` (`char::is_alphanumeric`).
pub uninterp spec fn char_is_alphanumeric(c: char) -> bool;

/// `char::is_alphanumeric`.
#[verifier::external_body]
pub(crate) fn is_alphanumeric(c: char) -> (r: bool)
    ensures
        r == char_is_alphanumeric(c),
{
    c.is_alphanumeric()
}

/// OCR invocation options.
#[derive(Clone, Debug)]
pub struct OcrOptions {
    /// Language code(s): ISO 639-1 (`"en"`) for HTTP servers, ISO 639-3
    /// (`"eng"`) for Tesseract.
    pub languages: Vec<String>,
    pub correct_rotation: bool,
}

impl Default for OcrOptions {
    fn default() -> (r: Self)
        ensures
            r.languages@.len() == 1,
            r.languages@[0]@ == "en"@,
            !r.correct_rotation,
    {
        OcrOptions { languages: vec!["en".to_owned()], correct_rotation: false }
    }
}

/// The language an HTTP OCR server is asked for: the first code, or
/// `"en"` when there is none.
pub fn primary_language(languages: &Vec<String>) -> (r: String)
    ensures
        languages@.len() > 0 ==> r@ == languages@[0]@,
        languages@.len() == 0 ==> r@ == "en"@,
{
    if languages.len() > 0 {
        languages[0].as_str().to_owned()
    } else {
        "en".to_owned()
    }
}

/// ASCII lower-casing of one character (`char::to_ascii_lowercase`).
pub open spec fn ascii_lower_char(c: char) -> char {
    if 'A' <= c && c <= 'Z' {
        ((c as u32) + 32) as char
    } else {
        c
    }
}

/// ASCII lower-casing of a string (`str::to_ascii_lowercase`).
pub open spec fn ascii_lower(s: Seq<char>) -> Seq<char> {
    s.map_values(|c: char| ascii_lower_char(c))
}

fn lower_char(c: char) -> (r: char)
    ensures
        r == ascii_lower_char(c),
{
    if 'A' <= c && c <= 'Z' {
        let b = (c as u32 + 32) as u8;
        b as char
    } else {
        c
    }
}

pub(crate) fn ascii_lowercase(v: &Vec<char>) -> (r: Vec<char>)
    ensures
        r@ == ascii_lower(v@),
{
    let mut r: Vec<char> = Vec::new();
    let mut i: usize = 0;
    while i < v.len()
        invariant
            i <= v.len(),
            r@ == ascii_lower(v@.take(i as int)),
        decreases v.len() - i,
    {
        r.push(lower_char(v[i]));
        i += 1;
        assert(r@ =~= ascii_lower(v@.take(i as int)));
    }
    assert(v@.take(v.len() as int) =~= v@);
    r
}

/// Language-code aliases and their Tesseract (ISO 639-3) names.
pub open spec fn language_aliases() -> Seq<(Seq<char>, Seq<char>)> {
    seq![
        ("en"@, "eng"@),
        ("en-us"@, "eng"@),
        ("en-gb"@, "eng"@),
        ("fr"@, "fra"@),
        ("de"@, "deu"@),
        ("es"@, "spa"@),
        ("it"@, "ita"@),
        ("pt"@, "por"@),
        ("ru"@, "rus"@),
        ("nl"@, "nld"@),
        ("pl"@, "pol"@),
        ("tr"@, "tur"@),
        ("vi"@, "vie"@),
        ("zh"@, "chi_sim"@),
        ("zh-cn"@, "chi_sim"@),
        ("zh-tw"@, "chi_tra"@),
        ("ja"@, "jpn"@),
        ("ko"@, "kor"@),
        ("ar"@, "ara"@),
    ]
}

/// Looks `key` up in `table[from..]`.
pub open spec fn lookup_alias(table: Seq<(Seq<char>, Seq<char>)>, key: Seq<char>, from: int) -> Option<
    Seq<char>,
>
    decreases table.len() - from,
{
    if from < 0 || from >= table.len() {
        None
    } else if table[from].0 == key {
        Some(table[from].1)
    } else {
        lookup_alias(table, key, from + 1)
    }
}

/// Tesseract's name for a language code: the alias of its ASCII
/// lower-cased form, or the code unchanged (already ISO 639-3, or
/// anything exotic).
pub open spec fn normalize_language_spec(code: Seq<char>) -> Seq<char> {
    match lookup_alias(language_aliases(), ascii_lower(code), 0) {
        Some(t) => t,
        None => code,
    }
}

/// Each ISO 639-1 language code (and the regional variants listed) maps
/// to Tesseract's ISO 639-3 name for the same language, whatever the case
/// of its letters: English `eng`, French `fra`, German `deu`, Spanish
/// `spa`, Italian `ita`, Portuguese `por`, Russian `rus`, Dutch `nld`,
/// Polish `pol`, Turkish `tur`, Vietnamese `vie`, simplified Chinese
/// `chi_sim`, traditional Chinese `chi_tra`, Japanese `jpn`, Korean `kor`
/// and Arabic `ara`.
pub proof fn language_codes_map_to_iso_639_3(code: Seq<char>)
    ensures
        ascii_lower(code) == "en"@ ==> normalize_language_spec(code) == "eng"@,
        ascii_lower(code) == "en-us"@ ==> normalize_language_spec(code) == "eng"@,
        ascii_lower(code) == "en-gb"@ ==> normalize_language_spec(code) == "eng"@,
        ascii_lower(code) == "fr"@ ==> normalize_language_spec(code) == "fra"@,
        ascii_lower(code) == "de"@ ==> normalize_language_spec(code) == "deu"@,
        ascii_lower(code) == "es"@ ==> normalize_language_spec(code) == "spa"@,
        ascii_lower(code) == "it"@ ==> normalize_language_spec(code) == "ita"@,
        ascii_lower(code) == "pt"@ ==> normalize_language_spec(code) == "por"@,
        ascii_lower(code) == "ru"@ ==> normalize_language_spec(code) == "rus"@,
        ascii_lower(code) == "nl"@ ==> normalize_language_spec(code) == "nld"@,
        ascii_lower(code) == "pl"@ ==> normalize_language_spec(code) == "pol"@,
        ascii_lower(code) == "tr"@ ==> normalize_language_spec(code) == "tur"@,
        ascii_lower(code) == "vi"@ ==> normalize_language_spec(code) == "vie"@,
        ascii_lower(code) == "zh"@ ==> normalize_language_spec(code) == "chi_sim"@,
        ascii_lower(code) == "zh-cn"@ ==> normalize_language_spec(code) == "chi_sim"@,
        ascii_lower(code) == "zh-tw"@ ==> normalize_language_spec(code) == "chi_tra"@,
        ascii_lower(code) == "ja"@ ==> normalize_language_spec(code) == "jpn"@,
        ascii_lower(code) == "ko"@ ==> normalize_language_spec(code) == "kor"@,
        ascii_lower(code) == "ar"@ ==> normalize_language_spec(code) == "ara"@,
{
    reveal_with_fuel(lookup_alias, 20);
    let t = language_aliases();
    assert(lookup_alias(t, "en"@, 0) == Some("eng"@)) by {
        reveal_strlit("en");
        reveal_strlit("eng");
        assert(t[0] == ("en"@, "eng"@));
    }
    assert(lookup_alias(t, "en-us"@, 0) == Some("eng"@)) by {
        reveal_strlit("en-us");
        reveal_strlit("eng");
        reveal_strlit("en");
        assert("en"@.len() != "en-us"@.len());
        assert(t[0].0 != "en-us"@);
        assert(t[1] == ("en-us"@, "eng"@));
    }
    assert(lookup_alias(t, "en-gb"@, 0) == Some("eng"@)) by {
        reveal_strlit("en-gb");
        reveal_strlit("eng");
        reveal_strlit("en");
        assert("en"@.len() != "en-gb"@.len());
        assert(t[0].0 != "en-gb"@);
        reveal_strlit("en-us");
        assert("en-us"@[3] != "en-gb"@[3]);
        assert(t[1].0 != "en-gb"@);
        assert(t[2] == ("en-gb"@, "eng"@));
    }
    assert(lookup_alias(t, "fr"@, 0) == Some("fra"@)) by {
        reveal_strlit("fr");
        reveal_strlit("fra");
        reveal_strlit("en");
        assert("en"@[0] != "fr"@[0]);
        assert(t[0].0 != "fr"@);
        reveal_strlit("en-us");
        assert("en-us"@.len() != "fr"@.len());
        assert(t[1].0 != "fr"@);
        reveal_strlit("en-gb");
        assert("en-gb"@.len() != "fr"@.len());
        assert(t[2].0 != "fr"@);
        assert(t[3] == ("fr"@, "fra"@));
    }
    assert(lookup_alias(t, "de"@, 0) == Some("deu"@)) by {
        reveal_strlit("de");
        reveal_strlit("deu");
        reveal_strlit("en");
        assert("en"@[0] != "de"@[0]);
        assert(t[0].0 != "de"@);
        reveal_strlit("en-us");
        assert("en-us"@.len() != "de"@.len());
        assert(t[1].0 != "de"@);
        reveal_strlit("en-gb");
        assert("en-gb"@.len() != "de"@.len());
        assert(t[2].0 != "de"@);
        reveal_strlit("fr");
        assert("fr"@[0] != "de"@[0]);
        assert(t[3].0 != "de"@);
        assert(t[4] == ("de"@, "deu"@));
    }
    assert(lookup_alias(t, "es"@, 0) == Some("spa"@)) by {
        reveal_strlit("es");
        reveal_strlit("spa");
        reveal_strlit("en");
        assert("en"@[1] != "es"@[1]);
        assert(t[0].0 != "es"@);
        reveal_strlit("en-us");
        assert("en-us"@.len() != "es"@.len());
        assert(t[1].0 != "es"@);
        reveal_strlit("en-gb");
        assert("en-gb"@.len() != "es"@.len());
        assert(t[2].0 != "es"@);
        reveal_strlit("fr");
        assert("fr"@[0] != "es"@[0]);
        assert(t[3].0 != "es"@);
        reveal_strlit("de");
        assert("de"@[0] != "es"@[0]);
        assert(t[4].0 != "es"@);
        assert(t[5] == ("es"@, "spa"@));
    }
    assert(lookup_alias(t, "it"@, 0) == Some("ita"@)) by {
        reveal_strlit("it");
        reveal_strlit("ita");
        reveal_strlit("en");
        assert("en"@[0] != "it"@[0]);
        assert(t[0].0 != "it"@);
        reveal_strlit("en-us");
        assert("en-us"@.len() != "it"@.len());
        assert(t[1].0 != "it"@);
        reveal_strlit("en-gb");
        assert("en-gb"@.len() != "it"@.len());
        assert(t[2].0 != "it"@);
        reveal_strlit("fr");
        assert("fr"@[0] != "it"@[0]);
        assert(t[3].0 != "it"@);
        reveal_strlit("de");
        assert("de"@[0] != "it"@[0]);
        assert(t[4].0 != "it"@);
        reveal_strlit("es");
        assert("es"@[0] != "it"@[0]);
        assert(t[5].0 != "it"@);
        assert(t[6] == ("it"@, "ita"@));
    }
    assert(lookup_alias(t, "pt"@, 0) == Some("por"@)) by {
        reveal_strlit("pt");
        reveal_strlit("por");
        reveal_strlit("en");
        assert("en"@[0] != "pt"@[0]);
        assert(t[0].0 != "pt"@);
        reveal_strlit("en-us");
        assert("en-us"@.len() != "pt"@.len());
        assert(t[1].0 != "pt"@);
        reveal_strlit("en-gb");
        assert("en-gb"@.len() != "pt"@.len());
        assert(t[2].0 != "pt"@);
        reveal_strlit("fr");
        assert("fr"@[0] != "pt"@[0]);
        assert(t[3].0 != "pt"@);
        reveal_strlit("de");
        assert("de"@[0] != "pt"@[0]);
        assert(t[4].0 != "pt"@);
        reveal_strlit("es");
        assert("es"@[0] != "pt"@[0]);
        assert(t[5].0 != "pt"@);
        reveal_strlit("it");
        assert("it"@[0] != "pt"@[0]);
        assert(t[6].0 != "pt"@);
        assert(t[7] == ("pt"@, "por"@));
    }
    assert(lookup_alias(t, "ru"@, 0) == Some("rus"@)) by {
        reveal_strlit("ru");
        reveal_strlit("rus");
        reveal_strlit("en");
        assert("en"@[0] != "ru"@[0]);
        assert(t[0].0 != "ru"@);
        reveal_strlit("en-us");
        assert("en-us"@.len() != "ru"@.len());
        assert(t[1].0 != "ru"@);
        reveal_strlit("en-gb");
        assert("en-gb"@.len() != "ru"@.len());
        assert(t[2].0 != "ru"@);
        reveal_strlit("fr");
        assert("fr"@[0] != "ru"@[0]);
        assert(t[3].0 != "ru"@);
        reveal_strlit("de");
        assert("de"@[0] != "ru"@[0]);
        assert(t[4].0 != "ru"@);
        reveal_strlit("es");
        assert("es"@[0] != "ru"@[0]);
        assert(t[5].0 != "ru"@);
        reveal_strlit("it");
        assert("it"@[0] != "ru"@[0]);
        assert(t[6].0 != "ru"@);
        reveal_strlit("pt");
        assert("pt"@[0] != "ru"@[0]);
        assert(t[7].0 != "ru"@);
        assert(t[8] == ("ru"@, "rus"@));
    }
    assert(lookup_alias(t, "nl"@, 0) == Some("nld"@)) by {
        reveal_strlit("nl");
        reveal_strlit("nld");
        reveal_strlit("en");
        assert("en"@[0] != "nl"@[0]);
        assert(t[0].0 != "nl"@);
        reveal_strlit("en-us");
        assert("en-us"@.len() != "nl"@.len());
        assert(t[1].0 != "nl"@);
        reveal_strlit("en-gb");
        assert("en-gb"@.len() != "nl"@.len());
        assert(t[2].0 != "nl"@);
        reveal_strlit("fr");
        assert("fr"@[0] != "nl"@[0]);
        assert(t[3].0 != "nl"@);
        reveal_strlit("de");
        assert("de"@[0] != "nl"@[0]);
        assert(t[4].0 != "nl"@);
        reveal_strlit("es");
        assert("es"@[0] != "nl"@[0]);
        assert(t[5].0 != "nl"@);
        reveal_strlit("it");
        assert("it"@[0] != "nl"@[0]);
        assert(t[6].0 != "nl"@);
        reveal_strlit("pt");
        assert("pt"@[0] != "nl"@[0]);
        assert(t[7].0 != "nl"@);
        reveal_strlit("ru");
        assert("ru"@[0] != "nl"@[0]);
        assert(t[8].0 != "nl"@);
        assert(t[9] == ("nl"@, "nld"@));
    }
    assert(lookup_alias(t, "pl"@, 0) == Some("pol"@)) by {
        reveal_strlit("pl");
        reveal_strlit("pol");
        reveal_strlit("en");
        assert("en"@[0] != "pl"@[0]);
        assert(t[0].0 != "pl"@);
        reveal_strlit("en-us");
        assert("en-us"@.len() != "pl"@.len());
        assert(t[1].0 != "pl"@);
        reveal_strlit("en-gb");
        assert("en-gb"@.len() != "pl"@.len());
        assert(t[2].0 != "pl"@);
        reveal_strlit("fr");
        assert("fr"@[0] != "pl"@[0]);
        assert(t[3].0 != "pl"@);
        reveal_strlit("de");
        assert("de"@[0] != "pl"@[0]);
        assert(t[4].0 != "pl"@);
        reveal_strlit("es");
        assert("es"@[0] != "pl"@[0]);
        assert(t[5].0 != "pl"@);
        reveal_strlit("it");
        assert("it"@[0] != "pl"@[0]);
        assert(t[6].0 != "pl"@);
        reveal_strlit("pt");
        assert("pt"@[1] != "pl"@[1]);
        assert(t[7].0 != "pl"@);
        reveal_strlit("ru");
        assert("ru"@[0] != "pl"@[0]);
        assert(t[8].0 != "pl"@);
        reveal_strlit("nl");
        assert("nl"@[0] != "pl"@[0]);
        assert(t[9].0 != "pl"@);
        assert(t[10] == ("pl"@, "pol"@));
    }
    assert(lookup_alias(t, "tr"@, 0) == Some("tur"@)) by {
        reveal_strlit("tr");
        reveal_strlit("tur");
        reveal_strlit("en");
        assert("en"@[0] != "tr"@[0]);
        assert(t[0].0 != "tr"@);
        reveal_strlit("en-us");
        assert("en-us"@.len() != "tr"@.len());
        assert(t[1].0 != "tr"@);
        reveal_strlit("en-gb");
        assert("en-gb"@.len() != "tr"@.len());
        assert(t[2].0 != "tr"@);
        reveal_strlit("fr");
        assert("fr"@[0] != "tr"@[0]);
        assert(t[3].0 != "tr"@);
        reveal_strlit("de");
        assert("de"@[0] != "tr"@[0]);
        assert(t[4].0 != "tr"@);
        reveal_strlit("es");
        assert("es"@[0] != "tr"@[0]);
        assert(t[5].0 != "tr"@);
        reveal_strlit("it");
        assert("it"@[0] != "tr"@[0]);
        assert(t[6].0 != "tr"@);
        reveal_strlit("pt");
        assert("pt"@[0] != "tr"@[0]);
        assert(t[7].0 != "tr"@);
        reveal_strlit("ru");
        assert("ru"@[0] != "tr"@[0]);
        assert(t[8].0 != "tr"@);
        reveal_strlit("nl");
        assert("nl"@[0] != "tr"@[0]);
        assert(t[9].0 != "tr"@);
        reveal_strlit("pl");
        assert("pl"@[0] != "tr"@[0]);
        assert(t[10].0 != "tr"@);
        assert(t[11] == ("tr"@, "tur"@));
    }
    assert(lookup_alias(t, "vi"@, 0) == Some("vie"@)) by {
        reveal_strlit("vi");
        reveal_strlit("vie");
        reveal_strlit("en");
        assert("en"@[0] != "vi"@[0]);
        assert(t[0].0 != "vi"@);
        reveal_strlit("en-us");
        assert("en-us"@.len() != "vi"@.len());
        assert(t[1].0 != "vi"@);
        reveal_strlit("en-gb");
        assert("en-gb"@.len() != "vi"@.len());
        assert(t[2].0 != "vi"@);
        reveal_strlit("fr");
        assert("fr"@[0] != "vi"@[0]);
        assert(t[3].0 != "vi"@);
        reveal_strlit("de");
        assert("de"@[0] != "vi"@[0]);
        assert(t[4].0 != "vi"@);
        reveal_strlit("es");
        assert("es"@[0] != "vi"@[0]);
        assert(t[5].0 != "vi"@);
        reveal_strlit("it");
        assert("it"@[0] != "vi"@[0]);
        assert(t[6].0 != "vi"@);
        reveal_strlit("pt");
        assert("pt"@[0] != "vi"@[0]);
        assert(t[7].0 != "vi"@);
        reveal_strlit("ru");
        assert("ru"@[0] != "vi"@[0]);
        assert(t[8].0 != "vi"@);
        reveal_strlit("nl");
        assert("nl"@[0] != "vi"@[0]);
        assert(t[9].0 != "vi"@);
        reveal_strlit("pl");
        assert("pl"@[0] != "vi"@[0]);
        assert(t[10].0 != "vi"@);
        reveal_strlit("tr");
        assert("tr"@[0] != "vi"@[0]);
        assert(t[11].0 != "vi"@);
        assert(t[12] == ("vi"@, "vie"@));
    }
    assert(lookup_alias(t, "zh"@, 0) == Some("chi_sim"@)) by {
        reveal_strlit("zh");
        reveal_strlit("chi_sim");
        reveal_strlit("en");
        assert("en"@[0] != "zh"@[0]);
        assert(t[0].0 != "zh"@);
        reveal_strlit("en-us");
        assert("en-us"@.len() != "zh"@.len());
        assert(t[1].0 != "zh"@);
        reveal_strlit("en-gb");
        assert("en-gb"@.len() != "zh"@.len());
        assert(t[2].0 != "zh"@);
        reveal_strlit("fr");
        assert("fr"@[0] != "zh"@[0]);
        assert(t[3].0 != "zh"@);
        reveal_strlit("de");
        assert("de"@[0] != "zh"@[0]);
        assert(t[4].0 != "zh"@);
        reveal_strlit("es");
        assert("es"@[0] != "zh"@[0]);
        assert(t[5].0 != "zh"@);
        reveal_strlit("it");
        assert("it"@[0] != "zh"@[0]);
        assert(t[6].0 != "zh"@);
        reveal_strlit("pt");
        assert("pt"@[0] != "zh"@[0]);
        assert(t[7].0 != "zh"@);
        reveal_strlit("ru");
        assert("ru"@[0] != "zh"@[0]);
        assert(t[8].0 != "zh"@);
        reveal_strlit("nl");
        assert("nl"@[0] != "zh"@[0]);
        assert(t[9].0 != "zh"@);
        reveal_strlit("pl");
        assert("pl"@[0] != "zh"@[0]);
        assert(t[10].0 != "zh"@);
        reveal_strlit("tr");
        assert("tr"@[0] != "zh"@[0]);
        assert(t[11].0 != "zh"@);
        reveal_strlit("vi");
        assert("vi"@[0] != "zh"@[0]);
        assert(t[12].0 != "zh"@);
        assert(t[13] == ("zh"@, "chi_sim"@));
    }
    assert(lookup_alias(t, "zh-cn"@, 0) == Some("chi_sim"@)) by {
        reveal_strlit("zh-cn");
        reveal_strlit("chi_sim");
        reveal_strlit("en");
        assert("en"@.len() != "zh-cn"@.len());
        assert(t[0].0 != "zh-cn"@);
        reveal_strlit("en-us");
        assert("en-us"@[0] != "zh-cn"@[0]);
        assert(t[1].0 != "zh-cn"@);
        reveal_strlit("en-gb");
        assert("en-gb"@[0] != "zh-cn"@[0]);
        assert(t[2].0 != "zh-cn"@);
        reveal_strlit("fr");
        assert("fr"@.len() != "zh-cn"@.len());
        assert(t[3].0 != "zh-cn"@);
        reveal_strlit("de");
        assert("de"@.len() != "zh-cn"@.len());
        assert(t[4].0 != "zh-cn"@);
        reveal_strlit("es");
        assert("es"@.len() != "zh-cn"@.len());
        assert(t[5].0 != "zh-cn"@);
        reveal_strlit("it");
        assert("it"@.len() != "zh-cn"@.len());
        assert(t[6].0 != "zh-cn"@);
        reveal_strlit("pt");
        assert("pt"@.len() != "zh-cn"@.len());
        assert(t[7].0 != "zh-cn"@);
        reveal_strlit("ru");
        assert("ru"@.len() != "zh-cn"@.len());
        assert(t[8].0 != "zh-cn"@);
        reveal_strlit("nl");
        assert("nl"@.len() != "zh-cn"@.len());
        assert(t[9].0 != "zh-cn"@);
        reveal_strlit("pl");
        assert("pl"@.len() != "zh-cn"@.len());
        assert(t[10].0 != "zh-cn"@);
        reveal_strlit("tr");
        assert("tr"@.len() != "zh-cn"@.len());
        assert(t[11].0 != "zh-cn"@);
        reveal_strlit("vi");
        assert("vi"@.len() != "zh-cn"@.len());
        assert(t[12].0 != "zh-cn"@);
        reveal_strlit("zh");
        assert("zh"@.len() != "zh-cn"@.len());
        assert(t[13].0 != "zh-cn"@);
        assert(t[14] == ("zh-cn"@, "chi_sim"@));
    }
    assert(lookup_alias(t, "zh-tw"@, 0) == Some("chi_tra"@)) by {
        reveal_strlit("zh-tw");
        reveal_strlit("chi_tra");
        reveal_strlit("en");
        assert("en"@.len() != "zh-tw"@.len());
        assert(t[0].0 != "zh-tw"@);
        reveal_strlit("en-us");
        assert("en-us"@[0] != "zh-tw"@[0]);
        assert(t[1].0 != "zh-tw"@);
        reveal_strlit("en-gb");
        assert("en-gb"@[0] != "zh-tw"@[0]);
        assert(t[2].0 != "zh-tw"@);
        reveal_strlit("fr");
        assert("fr"@.len() != "zh-tw"@.len());
        assert(t[3].0 != "zh-tw"@);
        reveal_strlit("de");
        assert("de"@.len() != "zh-tw"@.len());
        assert(t[4].0 != "zh-tw"@);
        reveal_strlit("es");
        assert("es"@.len() != "zh-tw"@.len());
        assert(t[5].0 != "zh-tw"@);
        reveal_strlit("it");
        assert("it"@.len() != "zh-tw"@.len());
        assert(t[6].0 != "zh-tw"@);
        reveal_strlit("pt");
        assert("pt"@.len() != "zh-tw"@.len());
        assert(t[7].0 != "zh-tw"@);
        reveal_strlit("ru");
        assert("ru"@.len() != "zh-tw"@.len());
        assert(t[8].0 != "zh-tw"@);
        reveal_strlit("nl");
        assert("nl"@.len() != "zh-tw"@.len());
        assert(t[9].0 != "zh-tw"@);
        reveal_strlit("pl");
        assert("pl"@.len() != "zh-tw"@.len());
        assert(t[10].0 != "zh-tw"@);
        reveal_strlit("tr");
        assert("tr"@.len() != "zh-tw"@.len());
        assert(t[11].0 != "zh-tw"@);
        reveal_strlit("vi");
        assert("vi"@.len() != "zh-tw"@.len());
        assert(t[12].0 != "zh-tw"@);
        reveal_strlit("zh");
        assert("zh"@.len() != "zh-tw"@.len());
        assert(t[13].0 != "zh-tw"@);
        reveal_strlit("zh-cn");
        assert("zh-cn"@[3] != "zh-tw"@[3]);
        assert(t[14].0 != "zh-tw"@);
        assert(t[15] == ("zh-tw"@, "chi_tra"@));
    }
    assert(lookup_alias(t, "ja"@, 0) == Some("jpn"@)) by {
        reveal_strlit("ja");
        reveal_strlit("jpn");
        reveal_strlit("en");
        assert("en"@[0] != "ja"@[0]);
        assert(t[0].0 != "ja"@);
        reveal_strlit("en-us");
        assert("en-us"@.len() != "ja"@.len());
        assert(t[1].0 != "ja"@);
        reveal_strlit("en-gb");
        assert("en-gb"@.len() != "ja"@.len());
        assert(t[2].0 != "ja"@);
        reveal_strlit("fr");
        assert("fr"@[0] != "ja"@[0]);
        assert(t[3].0 != "ja"@);
        reveal_strlit("de");
        assert("de"@[0] != "ja"@[0]);
        assert(t[4].0 != "ja"@);
        reveal_strlit("es");
        assert("es"@[0] != "ja"@[0]);
        assert(t[5].0 != "ja"@);
        reveal_strlit("it");
        assert("it"@[0] != "ja"@[0]);
        assert(t[6].0 != "ja"@);
        reveal_strlit("pt");
        assert("pt"@[0] != "ja"@[0]);
        assert(t[7].0 != "ja"@);
        reveal_strlit("ru");
        assert("ru"@[0] != "ja"@[0]);
        assert(t[8].0 != "ja"@);
        reveal_strlit("nl");
        assert("nl"@[0] != "ja"@[0]);
        assert(t[9].0 != "ja"@);
        reveal_strlit("pl");
        assert("pl"@[0] != "ja"@[0]);
        assert(t[10].0 != "ja"@);
        reveal_strlit("tr");
        assert("tr"@[0] != "ja"@[0]);
        assert(t[11].0 != "ja"@);
        reveal_strlit("vi");
        assert("vi"@[0] != "ja"@[0]);
        assert(t[12].0 != "ja"@);
        reveal_strlit("zh");
        assert("zh"@[0] != "ja"@[0]);
        assert(t[13].0 != "ja"@);
        reveal_strlit("zh-cn");
        assert("zh-cn"@.len() != "ja"@.len());
        assert(t[14].0 != "ja"@);
        reveal_strlit("zh-tw");
        assert("zh-tw"@.len() != "ja"@.len());
        assert(t[15].0 != "ja"@);
        assert(t[16] == ("ja"@, "jpn"@));
    }
    assert(lookup_alias(t, "ko"@, 0) == Some("kor"@)) by {
        reveal_strlit("ko");
        reveal_strlit("kor");
        reveal_strlit("en");
        assert("en"@[0] != "ko"@[0]);
        assert(t[0].0 != "ko"@);
        reveal_strlit("en-us");
        assert("en-us"@.len() != "ko"@.len());
        assert(t[1].0 != "ko"@);
        reveal_strlit("en-gb");
        assert("en-gb"@.len() != "ko"@.len());
        assert(t[2].0 != "ko"@);
        reveal_strlit("fr");
        assert("fr"@[0] != "ko"@[0]);
        assert(t[3].0 != "ko"@);
        reveal_strlit("de");
        assert("de"@[0] != "ko"@[0]);
        assert(t[4].0 != "ko"@);
        reveal_strlit("es");
        assert("es"@[0] != "ko"@[0]);
        assert(t[5].0 != "ko"@);
        reveal_strlit("it");
        assert("it"@[0] != "ko"@[0]);
        assert(t[6].0 != "ko"@);
        reveal_strlit("pt");
        assert("pt"@[0] != "ko"@[0]);
        assert(t[7].0 != "ko"@);
        reveal_strlit("ru");
        assert("ru"@[0] != "ko"@[0]);
        assert(t[8].0 != "ko"@);
        reveal_strlit("nl");
        assert("nl"@[0] != "ko"@[0]);
        assert(t[9].0 != "ko"@);
        reveal_strlit("pl");
        assert("pl"@[0] != "ko"@[0]);
        assert(t[10].0 != "ko"@);
        reveal_strlit("tr");
        assert("tr"@[0] != "ko"@[0]);
        assert(t[11].0 != "ko"@);
        reveal_strlit("vi");
        assert("vi"@[0] != "ko"@[0]);
        assert(t[12].0 != "ko"@);
        reveal_strlit("zh");
        assert("zh"@[0] != "ko"@[0]);
        assert(t[13].0 != "ko"@);
        reveal_strlit("zh-cn");
        assert("zh-cn"@.len() != "ko"@.len());
        assert(t[14].0 != "ko"@);
        reveal_strlit("zh-tw");
        assert("zh-tw"@.len() != "ko"@.len());
        assert(t[15].0 != "ko"@);
        reveal_strlit("ja");
        assert("ja"@[0] != "ko"@[0]);
        assert(t[16].0 != "ko"@);
        assert(t[17] == ("ko"@, "kor"@));
    }
    assert(lookup_alias(t, "ar"@, 0) == Some("ara"@)) by {
        reveal_strlit("ar");
        reveal_strlit("ara");
        reveal_strlit("en");
        assert("en"@[0] != "ar"@[0]);
        assert(t[0].0 != "ar"@);
        reveal_strlit("en-us");
        assert("en-us"@.len() != "ar"@.len());
        assert(t[1].0 != "ar"@);
        reveal_strlit("en-gb");
        assert("en-gb"@.len() != "ar"@.len());
        assert(t[2].0 != "ar"@);
        reveal_strlit("fr");
        assert("fr"@[0] != "ar"@[0]);
        assert(t[3].0 != "ar"@);
        reveal_strlit("de");
        assert("de"@[0] != "ar"@[0]);
        assert(t[4].0 != "ar"@);
        reveal_strlit("es");
        assert("es"@[0] != "ar"@[0]);
        assert(t[5].0 != "ar"@);
        reveal_strlit("it");
        assert("it"@[0] != "ar"@[0]);
        assert(t[6].0 != "ar"@);
        reveal_strlit("pt");
        assert("pt"@[0] != "ar"@[0]);
        assert(t[7].0 != "ar"@);
        reveal_strlit("ru");
        assert("ru"@[0] != "ar"@[0]);
        assert(t[8].0 != "ar"@);
        reveal_strlit("nl");
        assert("nl"@[0] != "ar"@[0]);
        assert(t[9].0 != "ar"@);
        reveal_strlit("pl");
        assert("pl"@[0] != "ar"@[0]);
        assert(t[10].0 != "ar"@);
        reveal_strlit("tr");
        assert("tr"@[0] != "ar"@[0]);
        assert(t[11].0 != "ar"@);
        reveal_strlit("vi");
        assert("vi"@[0] != "ar"@[0]);
        assert(t[12].0 != "ar"@);
        reveal_strlit("zh");
        assert("zh"@[0] != "ar"@[0]);
        assert(t[13].0 != "ar"@);
        reveal_strlit("zh-cn");
        assert("zh-cn"@.len() != "ar"@.len());
        assert(t[14].0 != "ar"@);
        reveal_strlit("zh-tw");
        assert("zh-tw"@.len() != "ar"@.len());
        assert(t[15].0 != "ar"@);
        reveal_strlit("ja");
        assert("ja"@[0] != "ar"@[0]);
        assert(t[16].0 != "ar"@);
        reveal_strlit("ko");
        assert("ko"@[0] != "ar"@[0]);
        assert(t[17].0 != "ar"@);
        assert(t[18] == ("ar"@, "ara"@));
    }
}

/// Nothing is found for a key that no entry from `from` on carries.
proof fn lemma_lookup_absent(table: Seq<(Seq<char>, Seq<char>)>, key: Seq<char>, from: int)
    requires
        0 <= from,
        forall|j: int| from <= j < table.len() ==> (#[trigger] table[j]).0 != key,
    ensures
        lookup_alias(table, key, from) is None,
    decreases table.len() - from,
{
    if from < table.len() {
        lemma_lookup_absent(table, key, from + 1);
    }
}

/// A code that is none of the known language codes (in any case) is
/// handed to Tesseract unchanged.
pub proof fn other_language_codes_pass_through(code: Seq<char>)
    requires
        !seq!["en"@, "en-us"@, "en-gb"@, "fr"@, "de"@, "es"@, "it"@, "pt"@, "ru"@, "nl"@, "pl"@, "tr"@, "vi"@, "zh"@, "zh-cn"@, "zh-tw"@, "ja"@, "ko"@, "ar"@].contains(ascii_lower(code)),
    ensures
        normalize_language_spec(code) == code,
{
    let t = language_aliases();
    let keys = seq!["en"@, "en-us"@, "en-gb"@, "fr"@, "de"@, "es"@, "it"@, "pt"@, "ru"@, "nl"@, "pl"@, "tr"@, "vi"@, "zh"@, "zh-cn"@, "zh-tw"@, "ja"@, "ko"@, "ar"@];
    assert forall|j: int| 0 <= j < t.len() implies (#[trigger] t[j]).0 != ascii_lower(code) by {
        assert(t[j].0 == keys[j]);
    }
    lemma_lookup_absent(t, ascii_lower(code), 0);
}

fn alias_table() -> (t: Vec<(&'static str, &'static str)>)
    ensures
        t@.map_values(|p: (&'static str, &'static str)| (p.0@, p.1@)) == language_aliases(),
{
    let t = vec![
        ("en", "eng"),
        ("en-us", "eng"),
        ("en-gb", "eng"),
        ("fr", "fra"),
        ("de", "deu"),
        ("es", "spa"),
        ("it", "ita"),
        ("pt", "por"),
        ("ru", "rus"),
        ("nl", "nld"),
        ("pl", "pol"),
        ("tr", "tur"),
        ("vi", "vie"),
        ("zh", "chi_sim"),
        ("zh-cn", "chi_sim"),
        ("zh-tw", "chi_tra"),
        ("ja", "jpn"),
        ("ko", "kor"),
        ("ar", "ara"),
    ];
    assert(t@.map_values(|p: (&'static str, &'static str)| (p.0@, p.1@)) =~= language_aliases());
    t
}

/// The error message for a recognition without language codes.
pub open spec fn no_language_message() -> Seq<char> {
    "tesseract: no language codes provided"@
}

/// The Tesseract-backed OCR engine's configuration.
#[derive(Clone, Debug)]
pub struct TesseractEngine {
    /// Directory of `*.traineddata` files; `None` lets libtesseract use
    /// `$TESSDATA_PREFIX` or its built-in default.
    pub datapath: Option<String>,
}

impl TesseractEngine {
    /// An engine reading language data from `datapath`.
    pub fn new(datapath: Option<String>) -> (r: Self)
        ensures
            r.datapath == datapath,
    {
        TesseractEngine { datapath }
    }

    /// Normalise a language code to Tesseract's ISO 639-3 form.
    pub fn normalize_language(code: &str) -> (r: String)
        ensures
            r@ == normalize_language_spec(code@),
    {
        let lower = ascii_lowercase(&chars_of(code));
        let table = alias_table();
        let ghost tv = table@.map_values(|p: (&'static str, &'static str)| (p.0@, p.1@));
        let mut i: usize = 0;
        while i < table.len()
            invariant
                i <= table.len(),
                tv == language_aliases(),
                tv == table@.map_values(|p: (&'static str, &'static str)| (p.0@, p.1@)),
                lower@ == ascii_lower(code@),
                lookup_alias(tv, lower@, 0) == lookup_alias(tv, lower@, i as int),
            decreases table.len() - i,
        {
            let (k, v) = table[i];
            assert(tv[i as int] == (k@, v@));
            if chars_eq_str(&lower, k) {
                return v.to_owned();
            }
            i += 1;
        }
        code.to_owned()
    }

    /// The `+`-joined Tesseract language string for a list of codes.
    pub fn joined_language(langs: &Vec<String>) -> (r: String)
        ensures
            r@ == join_with(
                langs@.map_values(|s: String| normalize_language_spec(s@)),
                '+',
            ),
    {
        let mut out: Vec<char> = Vec::new();
        let mut i: usize = 0;
        let ghost ns = langs@.map_values(|s: String| normalize_language_spec(s@));
        while i < langs.len()
            invariant
                i <= langs.len(),
                ns == langs@.map_values(|s: String| normalize_language_spec(s@)),
                out@ == join_with(ns.take(i as int), '+'),
            decreases langs.len() - i,
        {
            let n = Self::normalize_language(langs[i].as_str());
            let ghost before = out@;
            if i > 0 {
                out.push('+');
            }
            let nc = chars_of(n.as_str());
            crate::text::append_chars(&mut out, &nc);
            proof {
                assert(ns.take(i + 1).drop_last() =~= ns.take(i as int));
                assert(ns.take(i + 1).last() == n@);
            }
            i += 1;
        }
        assert(ns.take(langs.len() as int) =~= ns);
        string_of(&out)
    }

    /// The language string a recognition runs with; a call without any
    /// language code is refused.
    pub fn recognition_language(languages: &Vec<String>) -> (r: Result<String, SpdfError>)
        ensures
            languages@.len() == 0 ==> (r matches Err(SpdfError::Ocr(m)) && m@
                == no_language_message()),
            languages@.len() > 0 ==> (r matches Ok(l) && l@ == join_with(
                languages@.map_values(|s: String| normalize_language_spec(s@)),
                '+',
            )),
    {
        if languages.len() == 0 {
            return Err(SpdfError::Ocr("tesseract: no language codes provided".to_owned()));
        }
        Ok(Self::joined_language(languages))
    }
}

/// The pieces of `parts` joined by `sep`.
pub open spec fn join_with(parts: Seq<Seq<char>>, sep: char) -> Seq<char>
    decreases parts.len(),
{
    if parts.len() == 0 {
        Seq::empty()
    } else if parts.len() == 1 {
        parts[0]
    } else {
        join_with(parts.drop_last(), sep).push(sep) + parts.last()
    }
}

/// Bytes in the UTF-8 encoding of `c`.
pub open spec fn char_utf8_width(c: char) -> nat {
    let v = c as u32;
    if v < 0x80 {
        1
    } else if v < 0x800 {
        2
    } else if v < 0x10000 {
        3
    } else {
        4
    }
}

/// UTF-8 length of a character sequence (what `str::len` reports).
pub open spec fn utf8_len(s: Seq<char>) -> nat
    decreases s.len(),
{
    if s.len() == 0 {
        0
    } else {
        utf8_len(s.drop_last()) + char_utf8_width(s.last())
    }
}

fn utf8_width(c: char) -> (w: usize)
    ensures
        w as nat == char_utf8_width(c),
{
    let v = c as u32;
    if v < 0x80 {
        1
    } else if v < 0x800 {
        2
    } else if v < 0x10000 {
        3
    } else {
        4
    }
}

proof fn lemma_utf8_len_monotone(s: Seq<char>, k: int)
    requires
        0 <= k <= s.len(),
    ensures
        utf8_len(s.take(k)) <= utf8_len(s),
    decreases s.len() - k,
{
    if k < s.len() {
        lemma_utf8_len_monotone(s, k + 1);
        assert(s.take(k + 1).drop_last() =~= s.take(k));
    } else {
        assert(s.take(k) =~= s);
    }
}

/// `min(utf8_len(s), bound)`, computed without overflow.
pub fn utf8_len_capped(s: &str, bound: usize) -> (n: usize)
    requires
        bound > 0,
    ensures
        n as nat == if utf8_len(s@) < bound {
            utf8_len(s@)
        } else {
            bound as nat
        },
{
    let cs = chars_of(s);
    let mut n: usize = 0;
    let mut i: usize = 0;
    while i < cs.len()
        invariant
            i <= cs.len(),
            cs@ == s@,
            n as nat == utf8_len(cs@.take(i as int)),
            n < bound,
        decreases cs.len() - i,
    {
        let w = utf8_width(cs[i]);
        proof {
            assert(cs@.take(i + 1).drop_last() =~= cs@.take(i as int));
        }
        if w >= bound - n {
            proof {
                lemma_utf8_len_monotone(cs@, i + 1);
            }
            return bound;
        }
        n = n + w;
        i += 1;
    }
    assert(cs@.take(cs.len() as int) =~= cs@);
    n
}

/// Sum of the UTF-8 lengths of `items`.
pub open spec fn total_utf8_len(items: Seq<Seq<char>>) -> nat
    decreases items.len(),
{
    if items.len() == 0 {
        0
    } else {
        total_utf8_len(items.drop_last()) + utf8_len(items.last())
    }
}

/// A page is OCR'd when its native text is shorter than 100 bytes or it
/// embeds images.
pub open spec fn needs_ocr_spec(items: Seq<Seq<char>>, image_count: nat) -> bool {
    total_utf8_len(items) < 100 || image_count > 0
}

proof fn lemma_total_len_monotone(items: Seq<Seq<char>>, k: int)
    requires
        0 <= k <= items.len(),
    ensures
        total_utf8_len(items.take(k)) <= total_utf8_len(items),
    decreases items.len() - k,
{
    if k < items.len() {
        lemma_total_len_monotone(items, k + 1);
        assert(items.take(k + 1).drop_last() =~= items.take(k));
    } else {
        assert(items.take(k) =~= items);
    }
}

/// Whether a page needs full-page OCR, given the strings of its native
/// text items and the number of embedded images.
pub fn page_needs_ocr(item_texts: &Vec<String>, image_count: usize) -> (r: bool)
    ensures
        r == needs_ocr_spec(item_texts@.map_values(|s: String| s@), image_count as nat),
{
    let ghost items = item_texts@.map_values(|s: String| s@);
    if image_count > 0 {
        return true;
    }
    let mut total: usize = 0;
    let mut i: usize = 0;
    while i < item_texts.len()
        invariant
            i <= item_texts.len(),
            items == item_texts@.map_values(|s: String| s@),
            total as nat == total_utf8_len(items.take(i as int)),
            total < 100,
            image_count == 0,
        decreases item_texts.len() - i,
    {
        let n = utf8_len_capped(item_texts[i].as_str(), 100);
        proof {
            assert(items.take(i + 1).drop_last() =~= items.take(i as int));
            assert(items.take(i + 1).last() == item_texts@[i as int]@);
        }
        if n >= 100 - total {
            proof {
                assert(total_utf8_len(items.take(i + 1)) == total + utf8_len(item_texts@[i as int]@));
                assert(total_utf8_len(items.take(i + 1)) >= 100);
                lemma_total_len_monotone(items, i + 1);
            }
            return false;
        }
        total = total + n;
        i += 1;
    }
    assert(items.take(item_texts.len() as int) =~= items);
    true
}

/// A recognised word that is only punctuation (no alphanumeric character
/// after trimming), which Tesseract hallucinates at the edges of text.
pub open spec fn is_punctuation_noise_spec(s: Seq<char>) -> bool {
    let t = trim(s);
    t.len() == 0 || !(exists|k: int| 0 <= k < t.len() && char_is_alphanumeric(#[trigger] t[k]))
}

/// Whether an OCR word is pure punctuation noise.
pub fn is_ocr_punctuation_noise(text: &str) -> (r: bool)
    ensures
        r == is_punctuation_noise_spec(text@),
{
    let t = trim_vec(&chars_of(text));
    if t.len() == 0 {
        return true;
    }
    let mut k: usize = 0;
    while k < t.len()
        invariant
            k <= t.len(),
            t@ == trim(text@),
            forall|j: int| 0 <= j < k ==> !char_is_alphanumeric(#[trigger] t@[j]),
        decreases t.len() - k,
    {
        if is_alphanumeric(t[k]) {
            return false;
        }
        k += 1;
    }
    true
}

/// `s` with leading and trailing `'|'` removed.
pub open spec fn strip_pipes(s: Seq<char>) -> Seq<char>
    decreases s.len(),
{
    if s.len() > 0 && s[0] == '|' {
        strip_pipes(s.drop_first())
    } else if s.len() > 0 && s.last() == '|' {
        strip_pipes(s.drop_last())
    } else {
        s
    }
}

/// Leading/trailing pipes that Tesseract reads from vertical strokes are
/// removed, with surrounding whitespace.
pub open spec fn strip_ocr_pipes_spec(s: Seq<char>) -> Seq<char> {
    trim(strip_pipes(trim(s)))
}

/// Strip leading/trailing pipe characters (and the whitespace around
/// them) from an OCR word; other punctuation is kept.
pub fn strip_ocr_pipe_artifacts(text: &str) -> (r: String)
    ensures
        r@ == strip_ocr_pipes_spec(text@),
{
    let t = trim_vec(&chars_of(text));
    let mut lo: usize = 0;
    let mut hi: usize = t.len();
    assert(t@.subrange(0, t@.len() as int) =~= t@);
    while lo < hi && (t[lo] == '|' || t[hi - 1] == '|')
        invariant
            lo <= hi <= t.len(),
            strip_pipes(t@) == strip_pipes(t@.subrange(lo as int, hi as int)),
        decreases hi - lo,
    {
        let ghost w = t@.subrange(lo as int, hi as int);
        if t[lo] == '|' {
            assert(w.drop_first() =~= t@.subrange(lo + 1, hi as int));
            lo += 1;
        } else {
            assert(w.drop_last() =~= t@.subrange(lo as int, hi - 1));
            hi -= 1;
        }
    }
    proof {
        assert(t@.subrange(0, t@.len() as int) =~= t@);
    }
    let mid = copy_range(&t, lo, hi);
    let r = trim_vec(&mid);
    string_of(&r)
}

/// What becomes of a recognised word: table-artifact cleanup, then pipe
/// stripping; dropped when empty or pure punctuation.
pub open spec fn clean_ocr_word_spec(s: Seq<char>) -> Option<Seq<char>> {
    let c = strip_ocr_pipes_spec(clean_ocr_spec(s));
    if c.len() == 0 || is_punctuation_noise_spec(c) {
        None
    } else {
        Some(c)
    }
}

/// Cleans one recognised word before it joins the page's text items.
pub fn clean_ocr_word(text: &str) -> (r: Option<String>)
    ensures
        r matches Some(s) ==> clean_ocr_word_spec(text@) == Some(s@),
        r is None ==> clean_ocr_word_spec(text@) is None,
{
    let cleaned = clean_ocr_table_artifacts(text);
    let cleaned = strip_ocr_pipe_artifacts(cleaned.as_str());
    if cleaned.as_str().is_empty() || is_ocr_punctuation_noise(cleaned.as_str()) {
        None
    } else {
        Some(cleaned)
    }
}

} // verus!
