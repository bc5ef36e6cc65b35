//! The BCP-47 tags MiniMax transcribes, and the check of a requested
//! language against them.
use vstd::prelude::*;

use crate::asr::AsrError;
use crate::text::{ascii_lower, cat3, chars_of, debug_quote, debug_quoted, eq_chars, lower_chars, trim, trim_str};

verus! {

/// The twenty tags, in the order of the upstream documentation.
pub open spec fn bcp47_tags() -> Seq<Seq<char>> {
    seq![
        "zh"@, "yue"@, "en"@, "ja"@, "ko"@, "th"@, "vi"@, "id"@, "ms"@, "fil"@, "ar"@, "tr"@,
        "fr"@, "de"@, "es"@, "it"@, "pt"@, "pl"@, "ru"@, "uk"@,
    ]
}

/// The tag list as `Debug` renders it, quoted one by one.
pub open spec fn bcp47_tags_rendered() -> Seq<char> {
    "[\"zh\", \"yue\", \"en\", \"ja\", \"ko\", \"th\", \"vi\", \"id\", \"ms\", \"fil\", \"ar\", \"tr\", \"fr\", \"de\", \"es\", \"it\", \"pt\", \"pl\", \"ru\", \"uk\"]"@
}

/// The twenty BCP-47 tags are pairwise distinct.
pub proof fn lemma_bcp47_tags_distinct()
    ensures
        bcp47_tags().no_duplicates(),
{
    reveal_strlit("zh");
    reveal_strlit("yue");
    reveal_strlit("en");
    reveal_strlit("ja");
    reveal_strlit("ko");
    reveal_strlit("th");
    reveal_strlit("vi");
    reveal_strlit("id");
    reveal_strlit("ms");
    reveal_strlit("fil");
    reveal_strlit("ar");
    reveal_strlit("tr");
    reveal_strlit("fr");
    reveal_strlit("de");
    reveal_strlit("es");
    reveal_strlit("it");
    reveal_strlit("pt");
    reveal_strlit("pl");
    reveal_strlit("ru");
    reveal_strlit("uk");
    let s = bcp47_tags();
    assert forall|i: int, j: int| 0 <= i < s.len() && 0 <= j < s.len() && i != j implies s[i] != s[j] by {
        assert(s[i].len() != s[j].len() || s[i][0] != s[j][0] || s[i][1] != s[j][1]);
    }
}

/// The tags MiniMax accepts.
pub fn known_languages_bcp47() -> (r: &'static [&'static str])
    ensures
        r@.map_values(|s: &str| s@) == bcp47_tags(),
        r@.map_values(|s: &str| s@).no_duplicates(),
{
    proof {
        lemma_bcp47_tags_distinct();
    }
    let r: &'static [&'static str] = &[
        "zh", "yue", "en", "ja", "ko", "th", "vi", "id", "ms", "fil", "ar", "tr", "fr", "de", "es",
        "it", "pt", "pl", "ru", "uk",
    ];
    assert(r@.map_values(|s: &str| s@) =~= bcp47_tags());
    r
}

/// The outcome of checking a requested language: no language, or one
/// that is only whitespace, means mixed-language recognition; else the
/// trimmed, ASCII-lowercased tag must be one of the twenty.
pub open spec fn bcp47_check(lang: Option<Seq<char>>) -> Result<(), Seq<char>> {
    match lang {
        None => Ok(()),
        Some(raw) => if trim(raw).len() == 0 || bcp47_tags().contains(ascii_lower(trim(raw))) {
            Ok(())
        } else {
            Err("unknown MiniMax language: "@ + debug_quoted(raw) + " (expected one of "@
                + bcp47_tags_rendered() + ")"@)
        },
    }
}

/// Whether `v` is one of `tags`.
fn among(v: &Vec<char>, tags: &[&str]) -> (r: bool)
    ensures
        r == tags@.map_values(|s: &str| s@).contains(v@),
{
    let ghost all = tags@.map_values(|s: &str| s@);
    let mut i: usize = 0;
    while i < tags.len()
        invariant
            i <= tags.len(),
            all == tags@.map_values(|s: &str| s@),
            forall|k: int| 0 <= k < i ==> all[k] != v@,
        decreases tags.len() - i,
    {
        if eq_chars(v, &chars_of(tags[i])) {
            assert(all[i as int] == v@);
            return true;
        }
        i = i + 1;
    }
    false
}

/// Check a requested language (see [`bcp47_check`]); a refusal is
/// `InvalidInput`.
pub fn validate_lang_bcp47(lang: Option<&str>) -> (r: Result<(), AsrError>)
    ensures
        match bcp47_check(match lang { Some(s) => Some(s@), None => None }) {
            Ok(()) => r is Ok,
            Err(msg) => r matches Err(AsrError::InvalidInput(m)) && m@ == msg,
        },
{
    match lang {
        None => Ok(()),
        Some(raw) => {
            let t = trim_str(raw);
            if t.len() == 0 {
                return Ok(());
            }
            let l = lower_chars(&t);
            if among(&l, known_languages_bcp47()) {
                Ok(())
            } else {
                let m = cat3(
                    "unknown MiniMax language: ",
                    debug_quote(raw).as_str(),
                    " (expected one of [\"zh\", \"yue\", \"en\", \"ja\", \"ko\", \"th\", \"vi\", \"id\", \"ms\", \"fil\", \"ar\", \"tr\", \"fr\", \"de\", \"es\", \"it\", \"pt\", \"pl\", \"ru\", \"uk\"])",
                );
                proof {
                    assert(m@ =~= "unknown MiniMax language: "@ + debug_quoted(raw@) + " (expected one of "@
                        + bcp47_tags_rendered() + ")"@) by {
                        reveal_strlit(" (expected one of [\"zh\", \"yue\", \"en\", \"ja\", \"ko\", \"th\", \"vi\", \"id\", \"ms\", \"fil\", \"ar\", \"tr\", \"fr\", \"de\", \"es\", \"it\", \"pt\", \"pl\", \"ru\", \"uk\"])");
                        reveal_strlit(" (expected one of ");
                        reveal_strlit("[\"zh\", \"yue\", \"en\", \"ja\", \"ko\", \"th\", \"vi\", \"id\", \"ms\", \"fil\", \"ar\", \"tr\", \"fr\", \"de\", \"es\", \"it\", \"pt\", \"pl\", \"ru\", \"uk\"]");
                        reveal_strlit(")");
                    }
                }
                Err(AsrError::InvalidInput(m))
            }
        },
    }
}

/// Only lowercase ASCII letters.
pub open spec fn lower_letters(x: Seq<char>) -> bool {
    forall|j: int| 0 <= j < x.len() ==> 'a' <= #[trigger] x[j] && x[j] <= 'z'
}

/// Each of the twenty tags is accepted whatever the ASCII case it is
/// written in.
pub proof fn lemma_known_tag_any_case(s: Seq<char>)
    requires
        bcp47_tags().contains(ascii_lower(s)),
    ensures
        bcp47_check(Some(s)) == Ok::<(), Seq<char>>(()),
{
    reveal_strlit("zh");
    reveal_strlit("yue");
    reveal_strlit("en");
    reveal_strlit("ja");
    reveal_strlit("ko");
    reveal_strlit("th");
    reveal_strlit("vi");
    reveal_strlit("id");
    reveal_strlit("ms");
    reveal_strlit("fil");
    reveal_strlit("ar");
    reveal_strlit("tr");
    reveal_strlit("fr");
    reveal_strlit("de");
    reveal_strlit("es");
    reveal_strlit("it");
    reveal_strlit("pt");
    reveal_strlit("pl");
    reveal_strlit("ru");
    reveal_strlit("uk");
    let t = ascii_lower(s);
    let k = choose|k: int| 0 <= k < bcp47_tags().len() && bcp47_tags()[k] == t;
    assert(lower_letters(bcp47_tags()[k]) && bcp47_tags()[k].len() > 0);
    assert forall|i: int| 0 <= i < s.len() implies !crate::text::is_ws(#[trigger] s[i]) by {
        assert(t[i] == crate::text::lower_char(s[i]));
        assert('a' <= t[i] && t[i] <= 'z');
    }
    assert(crate::text::first_non_ws_from(s, 0) == 0);
    assert(crate::text::last_non_ws_before(s, s.len() as int) == s.len());
    assert(trim(s) =~= s);
}

} // verus!
