//! The curated list of model identifiers the Hub source offers.
use vstd::prelude::*;

use crate::asr::{ModelCapabilities, ModelDescriptor, strings_of, texts};
use crate::text::{contains, ends_with, owned, starts_with};

verus! {

/// The Qwen3-ASR language names (kept in sync with the upstream
/// `support_languages`).
pub open spec fn qwen3_names() -> Seq<Seq<char>> {
    seq![
        "chinese"@, "english"@, "cantonese"@, "arabic"@, "german"@, "french"@, "spanish"@,
        "portuguese"@, "indonesian"@, "italian"@, "korean"@, "russian"@, "thai"@, "vietnamese"@,
        "japanese"@, "turkish"@, "hindi"@, "malay"@, "dutch"@, "swedish"@,
    ]
}

/// The twenty Qwen3-ASR language names are pairwise distinct.
pub proof fn lemma_qwen3_names_distinct()
    ensures
        qwen3_names().no_duplicates(),
{
    reveal_strlit("chinese");
    reveal_strlit("english");
    reveal_strlit("cantonese");
    reveal_strlit("arabic");
    reveal_strlit("german");
    reveal_strlit("french");
    reveal_strlit("spanish");
    reveal_strlit("portuguese");
    reveal_strlit("indonesian");
    reveal_strlit("italian");
    reveal_strlit("korean");
    reveal_strlit("russian");
    reveal_strlit("thai");
    reveal_strlit("vietnamese");
    reveal_strlit("japanese");
    reveal_strlit("turkish");
    reveal_strlit("hindi");
    reveal_strlit("malay");
    reveal_strlit("dutch");
    reveal_strlit("swedish");
    let s = qwen3_names();
    assert forall|i: int, j: int| 0 <= i < s.len() && 0 <= j < s.len() && i != j implies s[i] != s[j] by {
        assert(s[i].len() != s[j].len() || s[i][0] != s[j][0] || s[i][1] != s[j][1]);
    }
}

/// The Qwen3-ASR language names.
pub fn qwen3_languages() -> (r: Vec<String>)
    ensures
        texts(r@) == qwen3_names(),
        texts(r@).no_duplicates(),
{
    proof {
        lemma_qwen3_names_distinct();
    }
    let names: &[&str] = &[
        "chinese", "english", "cantonese", "arabic", "german", "french", "spanish",
        "portuguese", "indonesian", "italian", "korean", "russian", "thai", "vietnamese",
        "japanese", "turkish", "hindi", "malay", "dutch", "swedish",
    ];
    let r = strings_of(names);
    assert(names@.map_values(|s: &str| s@) =~= qwen3_names());
    r
}

/// The ids of the curated list, in order.
pub open spec fn curated_ids() -> Seq<Seq<char>> {
    seq!["Qwen/Qwen3-ASR-0.6B"@, "Qwen/Qwen3-ASR-1.7B"@, "openai/whisper-tiny"@, "ggerganov/whisper.cpp"@]
}

/// `d` has display name `name` and capabilities with the given flags
/// and languages.
pub open spec fn described(
    d: ModelDescriptor,
    name: Seq<char>,
    multilingual: bool,
    word_timestamps: bool,
    languages: Seq<Seq<char>>,
) -> bool {
    &&& d.display_name matches Some(n) && n@ == name
    &&& d.capabilities matches Some(c) && c.multilingual == multilingual && c.word_timestamps
        == word_timestamps && !c.streaming && texts(c.languages@) == languages
}

/// The models known to work today.
pub fn curated() -> (r: Vec<ModelDescriptor>)
    ensures
        r@.map_values(|d: ModelDescriptor| d.id@) == curated_ids(),
        described(r@[0], "Qwen3-ASR 0.6B"@, true, false, qwen3_names()),
        described(r@[1], "Qwen3-ASR 1.7B"@, true, false, qwen3_names()),
        described(
            r@[2],
            "Whisper tiny (multilingual)"@,
            true,
            true,
            seq!["en"@, "es"@, "fr"@, "de"@, "zh"@, "ja"@, "ko"@, "pt"@, "ru"@, "it"@],
        ),
        described(r@[3], "whisper.cpp GGUF models"@, true, true, seq!["en"@]),
{
    let mut r: Vec<ModelDescriptor> = Vec::new();
    r.push(ModelDescriptor::with_details(
        "Qwen/Qwen3-ASR-0.6B",
        Some(owned("Qwen3-ASR 0.6B")),
        Some(ModelCapabilities::new(true, false, false, qwen3_languages())),
    ));
    r.push(ModelDescriptor::with_details(
        "Qwen/Qwen3-ASR-1.7B",
        Some(owned("Qwen3-ASR 1.7B")),
        Some(ModelCapabilities::new(true, false, false, qwen3_languages())),
    ));
    let whisper: &[&str] = &["en", "es", "fr", "de", "zh", "ja", "ko", "pt", "ru", "it"];
    let wl = strings_of(whisper);
    assert(whisper@.map_values(|s: &str| s@) =~= seq!["en"@, "es"@, "fr"@, "de"@, "zh"@, "ja"@, "ko"@, "pt"@, "ru"@, "it"@]);
    r.push(ModelDescriptor::with_details(
        "openai/whisper-tiny",
        Some(owned("Whisper tiny (multilingual)")),
        Some(ModelCapabilities::new(true, true, false, wl)),
    ));
    let en: &[&str] = &["en"];
    let el = strings_of(en);
    assert(en@.map_values(|s: &str| s@) =~= seq!["en"@]);
    r.push(ModelDescriptor::with_details(
        "ggerganov/whisper.cpp",
        Some(owned("whisper.cpp GGUF models")),
        Some(ModelCapabilities::new(true, true, false, el)),
    ));
    assert(r@.map_values(|d: ModelDescriptor| d.id@) =~= curated_ids());
    r
}

/// The curated ids are unique, and each is in `org/name` form: it holds
/// a `/` and neither starts nor ends with one.
pub proof fn lemma_curated_ids_well_formed()
    ensures
        forall|i: int, j: int| 0 <= i < j < 4 ==> curated_ids()[i] != curated_ids()[j],
        forall|i: int|
            0 <= i < 4 ==> contains(#[trigger] curated_ids()[i], "/"@) && !starts_with(
                curated_ids()[i],
                "/"@,
            ) && !ends_with(curated_ids()[i], "/"@),
{
    reveal_strlit("Qwen/Qwen3-ASR-0.6B");
    reveal_strlit("Qwen/Qwen3-ASR-1.7B");
    reveal_strlit("openai/whisper-tiny");
    reveal_strlit("ggerganov/whisper.cpp");
    reveal_strlit("/");
    let ids = curated_ids();
    assert(ids[0].subrange(4, 5) =~= "/"@);
    assert(ids[1].subrange(4, 5) =~= "/"@);
    assert(ids[2].subrange(6, 7) =~= "/"@);
    assert(ids[3].subrange(9, 10) =~= "/"@);
    assert(crate::text::occurs_at(ids[0], "/"@, 4));
    assert(crate::text::occurs_at(ids[1], "/"@, 4));
    assert(crate::text::occurs_at(ids[2], "/"@, 6));
    assert(crate::text::occurs_at(ids[3], "/"@, 9));
    assert(ids[0][17] != ids[1][17]);
    assert(ids[0][0] != ids[2][0]);
    assert forall|i: int| 0 <= i < 4 implies !starts_with(ids[i], "/"@) && !ends_with(
        ids[i],
        "/"@,
    ) by {
        let n = ids[i].len();
        assert(ids[i].subrange(0, 1)[0] == ids[i][0]);
        assert(ids[i].subrange(n - 1, n as int)[0] == ids[i][n - 1]);
    }
    assert(ids[0].len() != ids[3].len());
    assert(ids[1][0] != ids[2][0]);
    assert(ids[1].len() != ids[3].len());
    assert(ids[2].len() != ids[3].len());
}

} // verus!
