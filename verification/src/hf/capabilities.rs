//! Heuristic mapping from `config.json` to [`ModelCapabilities`]:
//! pattern-match on `architectures[0]` and `model_type`; anything not
//! recognised yields the "unknown" record.
use vstd::prelude::*;

use crate::asr::{ModelCapabilities, clone_opt, clone_strings, opt_text, strings_of, texts};
use crate::text::{
    ascii_lower, contains, contains_str, eq_chars, eq_str, lower_chars, lower_str, string_of,
};

verus! {

/// The subset of `config.json` the heuristics read.
#[derive(Debug)]
pub struct RawConfig {
    /// `architectures`.
    pub architectures: Vec<String>,
    /// `model_type`.
    pub model_type: Option<String>,
    /// Whisper: number of training languages.
    pub num_languages: Option<u32>,
    /// Whisper: legacy spelling of `num_languages`.
    pub n_languages: Option<u32>,
    /// Qwen3-ASR: human-readable language names.
    pub support_languages: Vec<String>,
    /// Qwen3-ASR: nested thinker config.
    pub thinker_config: Option<Box<RawConfig>>,
}

/// First architecture, searching nested thinker configs.
pub open spec fn arch_of(c: RawConfig) -> Option<Seq<char>>
    decreases c,
{
    if c.architectures@.len() > 0 {
        Some(c.architectures@[0]@)
    } else {
        match c.thinker_config {
            Some(t) => arch_of(*t),
            None => None,
        }
    }
}

/// First `model_type`, searching nested thinker configs.
pub open spec fn model_type_of(c: RawConfig) -> Option<Seq<char>>
    decreases c,
{
    match c.model_type {
        Some(m) => Some(m@),
        None => match c.thinker_config {
            Some(t) => model_type_of(*t),
            None => None,
        },
    }
}

/// First non-empty `support_languages`, searching nested thinker
/// configs.
pub open spec fn languages_of(c: RawConfig) -> Seq<Seq<char>>
    decreases c,
{
    if c.support_languages@.len() > 0 {
        texts(c.support_languages@)
    } else {
        match c.thinker_config {
            Some(t) => languages_of(*t),
            None => Seq::empty(),
        }
    }
}

impl RawConfig {
    /// The most informative `architectures[0]`.
    pub fn primary_arch(&self) -> (r: Option<String>)
        ensures
            opt_text(r) == arch_of(*self),
        decreases *self,
    {
        if self.architectures.len() > 0 {
            Some(self.architectures[0].clone())
        } else {
            match &self.thinker_config {
                Some(t) => t.primary_arch(),
                None => None,
            }
        }
    }

    /// The deepest `model_type` found.
    pub fn primary_model_type(&self) -> (r: Option<String>)
        ensures
            opt_text(r) == model_type_of(*self),
        decreases *self,
    {
        match &self.model_type {
            Some(m) => Some(m.clone()),
            None => match &self.thinker_config {
                Some(t) => t.primary_model_type(),
                None => None,
            },
        }
    }

    /// The first non-empty `support_languages` list.
    pub fn primary_languages(&self) -> (r: Vec<String>)
        ensures
            texts(r@) == languages_of(*self),
        decreases *self,
    {
        if self.support_languages.len() > 0 {
            clone_strings(&self.support_languages)
        } else {
            match &self.thinker_config {
                Some(t) => t.primary_languages(),
                None => Vec::new(),
            }
        }
    }
}

/// Which family of architectures a config belongs to.
#[derive(Debug, Clone, Copy, PartialEq, Eq)]
pub enum ArchKey {
    /// Whisper.
    Whisper,
    /// Qwen3-ASR.
    Qwen3Asr,
    /// Not recognised.
    Unknown,
}

/// The family an architecture name and model type belong to.
pub open spec fn arch_key_of(arch: Seq<char>, model_type: Seq<char>) -> ArchKey {
    let a = ascii_lower(arch);
    let t = ascii_lower(model_type);
    if contains(a, "whisper"@) || t == "whisper"@ {
        ArchKey::Whisper
    } else if contains(a, "qwen3asr"@) || t == "qwen3_asr"@ {
        ArchKey::Qwen3Asr
    } else {
        ArchKey::Unknown
    }
}

/// Classify an architecture name and model type (ASCII case ignored).
pub fn arch_key(arch: &str, model_type: &str) -> (k: ArchKey)
    ensures
        k == arch_key_of(arch@, model_type@),
{
    let a = lower_str(arch);
    let t = lower_str(model_type);
    if contains_str(&a, "whisper") || eq_str(&t, "whisper") {
        ArchKey::Whisper
    } else if contains_str(&a, "qwen3asr") || eq_str(&t, "qwen3_asr") {
        ArchKey::Qwen3Asr
    } else {
        ArchKey::Unknown
    }
}

/// Lowercased names, empty ones and repeats dropped, first
/// occurrence kept.
pub open spec fn normalised(names: Seq<Seq<char>>) -> Seq<Seq<char>>
    decreases names.len(),
{
    if names.len() == 0 {
        Seq::empty()
    } else {
        let prev = normalised(names.drop_last());
        let lc = ascii_lower(names.last());
        if lc.len() > 0 && !prev.contains(lc) {
            prev.push(lc)
        } else {
            prev
        }
    }
}

/// Whether `v` holds a string with the text `s`.
fn holds(v: &Vec<String>, s: &Vec<char>) -> (r: bool)
    ensures
        r == texts(v@).contains(s@),
{
    let mut i: usize = 0;
    while i < v.len()
        invariant
            i <= v.len(),
            forall|k: int| 0 <= k < i ==> v@[k]@ != s@,
        decreases v.len() - i,
    {
        let c = crate::text::chars_of(v[i].as_str());
        if eq_chars(&c, s) {
            assert(texts(v@)[i as int] == s@);
            return true;
        }
        i = i + 1;
    }
    assert(!texts(v@).contains(s@)) by {
        if texts(v@).contains(s@) {
            let k = choose|k: int| 0 <= k < texts(v@).len() && texts(v@)[k] == s@;
            assert(v@[k]@ == s@);
        }
    }
    false
}

/// Lowercase the names, drop empty ones and repeats (first one kept).
pub fn normalise_languages(names: &Vec<String>) -> (r: Vec<String>)
    ensures
        texts(r@) == normalised(texts(names@)),
{
    let mut out: Vec<String> = Vec::new();
    let mut i: usize = 0;
    while i < names.len()
        invariant
            i <= names.len(),
            texts(out@) == normalised(texts(names@.take(i as int))),
        decreases names.len() - i,
    {
        let lc = lower_str(names[i].as_str());
        let ghost prefix = texts(names@.take(i + 1));
        assert(prefix.drop_last() =~= texts(names@.take(i as int)));
        assert(prefix.last() == names@[i as int]@);
        if lc.len() > 0 && !holds(&out, &lc) {
            let s = string_of(&lc);
            out.push(s);
            assert(texts(out@) =~= texts(out@.drop_last()).push(lc@));
        }
        i = i + 1;
    }
    assert(names@.take(names.len() as int) =~= names@);
    out
}

/// The ISO 639-1 codes Whisper was trained on.
pub open spec fn whisper_codes() -> Seq<&'static str> {
    seq![
        "en", "zh", "de", "es", "ru", "ko", "fr", "ja", "pt", "tr", "pl", "ca", "nl", "ar", "sv",
        "it", "id", "hi", "fi", "vi", "he", "uk", "el", "ms", "cs", "ro", "da", "hu", "ta", "no",
        "th", "ur", "hr", "bg", "lt", "la", "mi", "ml", "cy", "sk", "te", "fa", "lv", "bn", "sr",
        "az", "sl", "kn", "et", "mk", "br", "eu", "is", "hy", "ne", "mn", "bs", "kk", "sq", "sw",
        "gl", "mr", "pa", "si", "km", "sn", "yo", "so", "af", "oc", "ka", "be", "tg", "sd", "gu",
        "am", "yi", "lo", "uz", "fo", "ht", "ps", "tk", "nn", "mt", "sa", "lb", "my", "bo", "tl",
        "mg", "as", "tt", "haw", "ln", "ha", "ba", "jw", "su",
    ]
}

/// Whisper's language list. The language count fields of the config
/// do not change it.
pub fn whisper_languages(raw: &RawConfig) -> (r: Vec<String>)
    ensures
        texts(r@) == whisper_codes().map_values(|s: &str| s@),
        texts(r@) == whisper_language_table().map_values(|p: (Seq<char>, Seq<char>)| p.0),
{
    proof {
        lemma_whisper_codes_follow_the_table();
    }
    let codes: &[&str] = &[
        "en", "zh", "de", "es", "ru", "ko", "fr", "ja", "pt", "tr", "pl", "ca", "nl", "ar", "sv",
        "it", "id", "hi", "fi", "vi", "he", "uk", "el", "ms", "cs", "ro", "da", "hu", "ta", "no",
        "th", "ur", "hr", "bg", "lt", "la", "mi", "ml", "cy", "sk", "te", "fa", "lv", "bn", "sr",
        "az", "sl", "kn", "et", "mk", "br", "eu", "is", "hy", "ne", "mn", "bs", "kk", "sq", "sw",
        "gl", "mr", "pa", "si", "km", "sn", "yo", "so", "af", "oc", "ka", "be", "tg", "sd", "gu",
        "am", "yi", "lo", "uz", "fo", "ht", "ps", "tk", "nn", "mt", "sa", "lb", "my", "bo", "tl",
        "mg", "as", "tt", "haw", "ln", "ha", "ba", "jw", "su",
    ];
    assert(codes@ =~= whisper_codes());
    strings_of(codes)
}

/// Whisper's training languages as its tokenizer lists them: each
/// language's code with its English name.
pub open spec fn whisper_language_table() -> Seq<(Seq<char>, Seq<char>)> {
    seq![
        ("en"@, "english"@),
        ("zh"@, "chinese"@),
        ("de"@, "german"@),
        ("es"@, "spanish"@),
        ("ru"@, "russian"@),
        ("ko"@, "korean"@),
        ("fr"@, "french"@),
        ("ja"@, "japanese"@),
        ("pt"@, "portuguese"@),
        ("tr"@, "turkish"@),
        ("pl"@, "polish"@),
        ("ca"@, "catalan"@),
        ("nl"@, "dutch"@),
        ("ar"@, "arabic"@),
        ("sv"@, "swedish"@),
        ("it"@, "italian"@),
        ("id"@, "indonesian"@),
        ("hi"@, "hindi"@),
        ("fi"@, "finnish"@),
        ("vi"@, "vietnamese"@),
        ("he"@, "hebrew"@),
        ("uk"@, "ukrainian"@),
        ("el"@, "greek"@),
        ("ms"@, "malay"@),
        ("cs"@, "czech"@),
        ("ro"@, "romanian"@),
        ("da"@, "danish"@),
        ("hu"@, "hungarian"@),
        ("ta"@, "tamil"@),
        ("no"@, "norwegian"@),
        ("th"@, "thai"@),
        ("ur"@, "urdu"@),
        ("hr"@, "croatian"@),
        ("bg"@, "bulgarian"@),
        ("lt"@, "lithuanian"@),
        ("la"@, "latin"@),
        ("mi"@, "maori"@),
        ("ml"@, "malayalam"@),
        ("cy"@, "welsh"@),
        ("sk"@, "slovak"@),
        ("te"@, "telugu"@),
        ("fa"@, "persian"@),
        ("lv"@, "latvian"@),
        ("bn"@, "bengali"@),
        ("sr"@, "serbian"@),
        ("az"@, "azerbaijani"@),
        ("sl"@, "slovenian"@),
        ("kn"@, "kannada"@),
        ("et"@, "estonian"@),
        ("mk"@, "macedonian"@),
        ("br"@, "breton"@),
        ("eu"@, "basque"@),
        ("is"@, "icelandic"@),
        ("hy"@, "armenian"@),
        ("ne"@, "nepali"@),
        ("mn"@, "mongolian"@),
        ("bs"@, "bosnian"@),
        ("kk"@, "kazakh"@),
        ("sq"@, "albanian"@),
        ("sw"@, "swahili"@),
        ("gl"@, "galician"@),
        ("mr"@, "marathi"@),
        ("pa"@, "punjabi"@),
        ("si"@, "sinhala"@),
        ("km"@, "khmer"@),
        ("sn"@, "shona"@),
        ("yo"@, "yoruba"@),
        ("so"@, "somali"@),
        ("af"@, "afrikaans"@),
        ("oc"@, "occitan"@),
        ("ka"@, "georgian"@),
        ("be"@, "belarusian"@),
        ("tg"@, "tajik"@),
        ("sd"@, "sindhi"@),
        ("gu"@, "gujarati"@),
        ("am"@, "amharic"@),
        ("yi"@, "yiddish"@),
        ("lo"@, "lao"@),
        ("uz"@, "uzbek"@),
        ("fo"@, "faroese"@),
        ("ht"@, "haitian creole"@),
        ("ps"@, "pashto"@),
        ("tk"@, "turkmen"@),
        ("nn"@, "nynorsk"@),
        ("mt"@, "maltese"@),
        ("sa"@, "sanskrit"@),
        ("lb"@, "luxembourgish"@),
        ("my"@, "myanmar"@),
        ("bo"@, "tibetan"@),
        ("tl"@, "tagalog"@),
        ("mg"@, "malagasy"@),
        ("as"@, "assamese"@),
        ("tt"@, "tatar"@),
        ("haw"@, "hawaiian"@),
        ("ln"@, "lingala"@),
        ("ha"@, "hausa"@),
        ("ba"@, "bashkir"@),
        ("jw"@, "javanese"@),
        ("su"@, "sundanese"@),
    ]
}

/// For a Whisper config, the capability record lists exactly the codes
/// of Whisper's training languages, in the order of its table: German
/// is `de`, English `en`, Chinese `zh`, and there are 99 of them.
pub proof fn lemma_whisper_languages_follow_the_table(raw: RawConfig, c: ModelCapabilities)
    requires
        caps_from(raw, c),
        arch_key_of(
            match arch_of(raw) { Some(a) => a, None => Seq::empty() },
            match model_type_of(raw) { Some(m) => m, None => Seq::empty() },
        ) == ArchKey::Whisper,
    ensures
        texts(c.languages@) == whisper_language_table().map_values(|p: (Seq<char>, Seq<char>)| p.0),
        texts(c.languages@).len() == 99,
        texts(c.languages@).contains("de"@),
        texts(c.languages@).contains("en"@),
        texts(c.languages@).contains("zh"@),
{
    lemma_whisper_codes_follow_the_table();
    let t = texts(c.languages@);
    assert(t[0] == "en"@);
    assert(t[1] == "zh"@);
    assert(t[2] == "de"@);
}

/// The Whisper code list is the code column of Whisper's language table.
pub proof fn lemma_whisper_codes_follow_the_table()
    ensures
        whisper_codes().map_values(|s: &str| s@) == whisper_language_table().map_values(
            |p: (Seq<char>, Seq<char>)| p.0,
        ),
{
    assert(whisper_codes().map_values(|s: &str| s@) =~= whisper_language_table().map_values(
        |p: (Seq<char>, Seq<char>)| p.0,
    ));
}

/// The capability record `from_config` derives for `raw`.
pub open spec fn caps_from(raw: RawConfig, c: ModelCapabilities) -> bool {
    let arch = match arch_of(raw) { Some(a) => a, None => Seq::empty() };
    let mt = match model_type_of(raw) { Some(m) => m, None => Seq::empty() };
    match arch_key_of(arch, mt) {
        ArchKey::Whisper => c.multilingual && c.word_timestamps && !c.streaming && texts(
            c.languages@,
        ) == whisper_codes().map_values(|s: &str| s@),
        ArchKey::Qwen3Asr => c.multilingual && !c.word_timestamps && !c.streaming && texts(
            c.languages@,
        ) == normalised(languages_of(raw)),
        ArchKey::Unknown => c.is_unknown(),
    }
}

/// Build a [`ModelCapabilities`] from a `config.json` payload.
pub fn from_config(raw: &RawConfig) -> (c: ModelCapabilities)
    ensures
        caps_from(*raw, c),
{
    let arch = match raw.primary_arch() {
        Some(a) => a,
        None => String::new(),
    };
    let mt = match raw.primary_model_type() {
        Some(m) => m,
        None => String::new(),
    };
    let mut caps = ModelCapabilities::unknown();
    match arch_key(arch.as_str(), mt.as_str()) {
        ArchKey::Whisper => {
            caps.multilingual = true;
            caps.word_timestamps = true;
            caps.languages = whisper_languages(raw);
        },
        ArchKey::Qwen3Asr => {
            caps.multilingual = true;
            caps.word_timestamps = false;
            caps.streaming = false;
            let l = raw.primary_languages();
            caps.languages = normalise_languages(&l);
        },
        ArchKey::Unknown => {},
    }
    caps
}

/// The fields of a cached `.capabilities.json` as read by `serde_json`
/// into a map from names to JSON values: each flag when it is a JSON
/// boolean, and the `languages` array with each element as text when it
/// is a string. `None` when the bytes are no JSON object.
pub struct CachedCapsFields {
    /// `multilingual`, when a boolean.
    pub multilingual: Option<bool>,
    /// `word_timestamps`, when a boolean.
    pub word_timestamps: Option<bool>,
    /// `streaming`, when a boolean.
    pub streaming: Option<bool>,
    /// `languages`, when an array: each element as text when a string.
    pub languages: Option<Vec<Option<String>>>,
}

/// The fields `serde_json` reads from a cached capability file.
pub uninterp spec fn cached_caps_of(bytes: Seq<u8>) -> Option<(Option<bool>, Option<bool>, Option<bool>, Option<Seq<Option<Seq<char>>>>)>;

/// The view of read fields.
pub open spec fn fields_view(f: Option<CachedCapsFields>) -> Option<(Option<bool>, Option<bool>, Option<bool>, Option<Seq<Option<Seq<char>>>>)> {
    match f {
        Some(c) => Some((c.multilingual, c.word_timestamps, c.streaming, match c.languages {
            Some(v) => Some(v@.map_values(|o: Option<String>| opt_text(o))),
            None => None,
        })),
        None => None,
    }
}

/// `serde_json::from_slice::<HashMap<String, serde_json::Value>>`, then
/// `as_bool` of each flag and `as_array` / `as_str` of the languages.
/// The result is named by [`cached_caps_of`]; nothing else is stated.
#[verifier::external_body]
fn read_cached_fields(bytes: &[u8]) -> (f: Option<CachedCapsFields>)
    ensures
        fields_view(f) == cached_caps_of(bytes@),
{
    let raw: std::collections::HashMap<String, serde_json::Value> = serde_json::from_slice(bytes).ok()?;
    let flag = |k: &str| raw.get(k).and_then(|v| v.as_bool());
    Some(CachedCapsFields {
        multilingual: flag("multilingual"),
        word_timestamps: flag("word_timestamps"),
        streaming: flag("streaming"),
        languages: raw.get("languages").and_then(|v| v.as_array()).map(
            |a| a.iter().map(|x| x.as_str().map(|t| t.to_string())).collect(),
        ),
    })
}

/// The string elements of a languages array, in order.
pub open spec fn string_items(v: Seq<Option<Seq<char>>>) -> Seq<Seq<char>>
    decreases v.len(),
{
    if v.len() == 0 {
        Seq::empty()
    } else {
        let prev = string_items(v.drop_last());
        match v.last() {
            Some(t) => prev.push(t),
            None => prev,
        }
    }
}

/// The capability record of read cache fields: absent or non-boolean
/// flags are off; the languages are the string elements of the array,
/// none without one.
pub open spec fn caps_of_fields(f: (Option<bool>, Option<bool>, Option<bool>, Option<Seq<Option<Seq<char>>>>), c: ModelCapabilities) -> bool {
    &&& c.multilingual == (f.0 == Some(true))
    &&& c.word_timestamps == (f.1 == Some(true))
    &&& c.streaming == (f.2 == Some(true))
    &&& texts(c.languages@) == match f.3 {
        Some(v) => string_items(v),
        None => Seq::empty(),
    }
}

/// The capability record of read cache fields (see [`caps_of_fields`]).
pub fn caps_from_cached_fields(f: CachedCapsFields) -> (c: ModelCapabilities)
    ensures
        caps_of_fields(fields_view(Some(f))->0, c),
{
    let mut languages: Vec<String> = Vec::new();
    let ghost items = match &f.languages {
        Some(v) => v@.map_values(|o: Option<String>| opt_text(o)),
        None => Seq::empty(),
    };
    match &f.languages {
        Some(v) => {
            let mut i: usize = 0;
            while i < v.len()
                invariant
                    i <= v@.len(),
                    items == v@.map_values(|o: Option<String>| opt_text(o)),
                    texts(languages@) == string_items(items.take(i as int)),
                decreases v@.len() - i,
            {
                proof {
                    assert(items.take(i + 1).drop_last() =~= items.take(i as int));
                }
                if let Some(t) = &v[i] {
                    languages.push(t.clone());
                    proof {
                        assert(texts(languages@) =~= string_items(items.take(i as int)).push(t@));
                    }
                }
                i = i + 1;
            }
            proof {
                assert(items.take(v@.len() as int) =~= items);
            }
        },
        None => {
            assert(texts(languages@) =~= Seq::<Seq<char>>::empty());
        },
    }
    ModelCapabilities::new(
        f.multilingual == Some(true),
        f.word_timestamps == Some(true),
        f.streaming == Some(true),
        languages,
    )
}

/// The capability record cached in a `.capabilities.json` payload;
/// `None` when the bytes are no JSON object.
pub fn read_cached(bytes: &[u8]) -> (r: Option<ModelCapabilities>)
    ensures
        match cached_caps_of(bytes@) {
            None => r is None,
            Some(f) => r matches Some(c) && caps_of_fields(f, c),
        },
{
    match read_cached_fields(bytes) {
        None => None,
        Some(f) => Some(caps_from_cached_fields(f)),
    }
}

} // verus!

verus! {

impl RawConfig {
    /// A config with every field absent.
    pub fn empty() -> (c: Self)
        ensures
            c.architectures@.len() == 0,
            c.model_type is None,
            c.num_languages is None,
            c.n_languages is None,
            c.support_languages@.len() == 0,
            c.thinker_config is None,
    {
        RawConfig {
            architectures: Vec::new(),
            model_type: None,
            num_languages: None,
            n_languages: None,
            support_languages: Vec::new(),
            thinker_config: None,
        }
    }
}

/// Normalised language lists hold no repeats and no empty names; each
/// entry is the lowercase form of some input name, and each non-empty
/// lowercased input name is present.
pub proof fn lemma_normalised_is_clean_set(names: Seq<Seq<char>>)
    ensures
        ({
            let r = normalised(names);
            &&& forall|i: int, j: int| 0 <= i < j < r.len() ==> r[i] != r[j]
            &&& forall|i: int| 0 <= i < r.len() ==> (#[trigger] r[i]).len() > 0
            &&& forall|i: int| 0 <= i < r.len() ==> ascii_lower(#[trigger] r[i]) == r[i]
            &&& forall|i: int|
                0 <= i < r.len() ==> exists|k: int|
                    0 <= k < names.len() && ascii_lower(#[trigger] names[k]) == #[trigger] r[i]
            &&& forall|k: int|
                0 <= k < names.len() && ascii_lower(#[trigger] names[k]).len() > 0 ==> r.contains(
                    ascii_lower(names[k]),
                )
        }),
    decreases names.len(),
{
    if names.len() > 0 {
        let init = names.drop_last();
        lemma_normalised_is_clean_set(init);
        let prev = normalised(init);
        let lc = ascii_lower(names.last());
        crate::text::lemma_lower_idempotent(names.last());
        let r = normalised(names);
        assert forall|i: int| 0 <= i < r.len() implies exists|k: int|
            0 <= k < names.len() && ascii_lower(#[trigger] names[k]) == #[trigger] r[i] by {
            if i < prev.len() {
                let k = choose|k: int| 0 <= k < init.len() && ascii_lower(#[trigger] init[k]) == prev[i];
                assert(names[k] == init[k]);
            } else {
                assert(names[names.len() - 1] == names.last());
            }
        }
        assert forall|k: int|
            0 <= k < names.len() && ascii_lower(#[trigger] names[k]).len() > 0 implies r.contains(
            ascii_lower(names[k]),
        ) by {
            if k < init.len() {
                assert(names[k] == init[k]);
                let j = choose|j: int| 0 <= j < prev.len() && prev[j] == ascii_lower(init[k]);
                assert(r[j] == prev[j]);
            } else {
                assert(names[k] == names.last());
                if !prev.contains(lc) {
                    assert(r[r.len() - 1] == lc);
                } else {
                    let j = choose|j: int| 0 <= j < prev.len() && prev[j] == lc;
                    assert(r[j] == prev[j]);
                }
            }
        }
    }
}

} // verus!
