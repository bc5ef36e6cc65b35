//! The language names Qwen3-ASR accepts.
use vstd::prelude::*;

use crate::asr::AsrError;
use crate::hf::known_models::{lemma_qwen3_names_distinct, qwen3_names};
use crate::text::{ascii_lower, cat3, chars_of, debug_quote, debug_quoted, eq_chars, lower_str};

verus! {

/// The name list as `Debug` renders it.
pub open spec fn qwen_names_rendered() -> Seq<char> {
    "[\"chinese\", \"english\", \"cantonese\", \"arabic\", \"german\", \"french\", \"spanish\", \"portuguese\", \"indonesian\", \"italian\", \"korean\", \"russian\", \"thai\", \"vietnamese\", \"japanese\", \"turkish\", \"hindi\", \"malay\", \"dutch\", \"swedish\"]"@
}

/// The twenty lowercase English language names Qwen3-ASR accepts.
pub fn known_languages() -> (r: &'static [&'static str])
    ensures
        r@.map_values(|s: &str| s@) == qwen3_names(),
        r@.map_values(|s: &str| s@).no_duplicates(),
{
    proof {
        lemma_qwen3_names_distinct();
    }
    let r: &'static [&'static str] = &[
        "chinese", "english", "cantonese", "arabic", "german", "french", "spanish", "portuguese",
        "indonesian", "italian", "korean", "russian", "thai", "vietnamese", "japanese", "turkish",
        "hindi", "malay", "dutch", "swedish",
    ];
    assert(r@.map_values(|s: &str| s@) =~= qwen3_names());
    r
}

/// The outcome of checking a language name: its ASCII-lowercased form
/// must be one of the twenty.
pub open spec fn qwen_lang_check(name: Seq<char>) -> Result<(), Seq<char>> {
    if qwen3_names().contains(ascii_lower(name)) {
        Ok(())
    } else {
        Err("unknown qwen3-asr language: "@ + debug_quoted(name) + " (expected one of "@
            + qwen_names_rendered() + ")"@)
    }
}

/// Check a language name (see [`qwen_lang_check`]); a refusal is
/// `InvalidInput`.
pub fn validate_lang(name: &str) -> (r: Result<(), AsrError>)
    ensures
        match qwen_lang_check(name@) {
            Ok(()) => r is Ok,
            Err(msg) => r matches Err(AsrError::InvalidInput(m)) && m@ == msg,
        },
{
    let l = lower_str(name);
    let names = known_languages();
    let ghost all = names@.map_values(|s: &str| s@);
    let mut i: usize = 0;
    while i < names.len()
        invariant
            i <= names.len(),
            all == names@.map_values(|s: &str| s@),
            all == qwen3_names(),
            l@ == ascii_lower(name@),
            forall|k: int| 0 <= k < i ==> all[k] != l@,
        decreases names.len() - i,
    {
        if eq_chars(&l, &chars_of(names[i])) {
            assert(all[i as int] == l@);
            assert(qwen3_names()[i as int] == ascii_lower(name@));
            assert(qwen3_names().contains(ascii_lower(name@)));
            return Ok(());
        }
        i = i + 1;
    }
    let m = cat3(
        "unknown qwen3-asr language: ",
        debug_quote(name).as_str(),
        " (expected one of [\"chinese\", \"english\", \"cantonese\", \"arabic\", \"german\", \"french\", \"spanish\", \"portuguese\", \"indonesian\", \"italian\", \"korean\", \"russian\", \"thai\", \"vietnamese\", \"japanese\", \"turkish\", \"hindi\", \"malay\", \"dutch\", \"swedish\"])",
    );
    proof {
        assert(m@ =~= "unknown qwen3-asr language: "@ + debug_quoted(name@) + " (expected one of "@
            + qwen_names_rendered() + ")"@) by {
            reveal_strlit(" (expected one of [\"chinese\", \"english\", \"cantonese\", \"arabic\", \"german\", \"french\", \"spanish\", \"portuguese\", \"indonesian\", \"italian\", \"korean\", \"russian\", \"thai\", \"vietnamese\", \"japanese\", \"turkish\", \"hindi\", \"malay\", \"dutch\", \"swedish\"])");
            reveal_strlit(" (expected one of ");
            reveal_strlit("[\"chinese\", \"english\", \"cantonese\", \"arabic\", \"german\", \"french\", \"spanish\", \"portuguese\", \"indonesian\", \"italian\", \"korean\", \"russian\", \"thai\", \"vietnamese\", \"japanese\", \"turkish\", \"hindi\", \"malay\", \"dutch\", \"swedish\"]");
            reveal_strlit(")");
        }
    }
    Err(AsrError::InvalidInput(m))
}

/// The check ignores ASCII case: a name and its lowercase form are
/// accepted or refused together, and each of the twenty names is
/// accepted as written.
pub proof fn lemma_qwen_lang_case_insensitive(name: Seq<char>)
    ensures
        (qwen_lang_check(name) is Ok) == (qwen_lang_check(ascii_lower(name)) is Ok),
        forall|k: int| 0 <= k < qwen3_names().len() ==> qwen_lang_check(#[trigger] qwen3_names()[k]) is Ok,
{
    crate::text::lemma_lower_idempotent(name);
    assert forall|k: int| 0 <= k < qwen3_names().len() implies qwen_lang_check(#[trigger] qwen3_names()[k]) is Ok by {
        reveal_strlit("chinese");
        reveal_strlit("english");
        reveal_strlit("cantonese");
        reveal_strlit("arabic");
        reveal_strlit("german");
        reveal_strlit("french");
        reveal_strlit("spanish");
        reveal_strlit("portuguese");
        reveal_strlit("indonesian");
        reveal_strlit("italian");
        reveal_strlit("korean");
        reveal_strlit("russian");
        reveal_strlit("thai");
        reveal_strlit("vietnamese");
        reveal_strlit("japanese");
        reveal_strlit("turkish");
        reveal_strlit("hindi");
        reveal_strlit("malay");
        reveal_strlit("dutch");
        reveal_strlit("swedish");
        let n = qwen3_names()[k];
        assert(forall|j: int| 0 <= j < n.len() ==> 'a' <= #[trigger] n[j] && n[j] <= 'z');
        crate::text::lemma_lower_no_caps(n);
        assert(qwen3_names()[k] == ascii_lower(n));
    }
}

} // verus!
