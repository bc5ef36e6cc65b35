//! The Hub model source's configuration and the decisions of a
//! resolve that do not touch the network or the disk.
use vstd::prelude::*;

use crate::asr::{Quantization, opt_text};
use crate::hf::capabilities::{RawConfig, arch_of, model_type_of};
use crate::hf::client::{HfClientBuilder, HfClientSettings, default_base_url, default_user_agent, trim_slashes};
use crate::hf::quantization::{dtype_quantization, from_gguf_filename, from_torch_dtype, gguf_quantization};
use crate::text::{ascii_lower, chars_of, contains, contains_str, ends_with, ends_with_chars, lower_str, owned};

verus! {

/// Fluent builder of the Hub source configuration.
#[derive(Debug, Clone)]
pub struct HuggingFaceSourceBuilder {
    client: HfClientBuilder,
    cache_root: Option<String>,
    default_revision: String,
    explicit_token: Option<String>,
}

/// Everything the Hub source is built from.
#[derive(Debug, Clone, PartialEq, Eq)]
pub struct HfSourceSettings {
    /// HTTP client settings.
    pub client: HfClientSettings,
    /// Cache root directory.
    pub cache_root: String,
    /// Revision used when a resolve names none.
    pub default_revision: String,
}

/// The token a source sends: an explicit non-empty one; none for an
/// explicit empty one (anonymous requests); else what the environment
/// offers.
pub open spec fn resolved_token(explicit: Option<Seq<char>>, env_token: Option<Seq<char>>) -> Option<Seq<char>> {
    match explicit {
        Some(t) => if t.len() == 0 {
            None
        } else {
            Some(t)
        },
        None => env_token,
    }
}

impl HuggingFaceSourceBuilder {
    /// The client builder inside.
    pub closed spec fn client_spec(&self) -> HfClientBuilder {
        self.client
    }

    /// The configured cache root, if any.
    pub closed spec fn cache_root_spec(&self) -> Option<Seq<char>> {
        opt_text(self.cache_root)
    }

    /// The configured default revision.
    pub closed spec fn default_revision_spec(&self) -> Seq<char> {
        self.default_revision@
    }

    /// The explicitly set token: `None` defers to the environment, an
    /// empty one asks for anonymous requests.
    pub closed spec fn explicit_token_spec(&self) -> Option<Seq<char>> {
        opt_text(self.explicit_token)
    }

    /// Defaults: the public Hub, default cache root, revision `main`,
    /// token from the environment.
    pub fn new() -> (b: Self)
        ensures
            b.client_spec().base_url_spec() == default_base_url(),
            b.client_spec().token_spec() is None,
            b.client_spec().timeout_spec() == 600,
            b.client_spec().user_agent_spec() == default_user_agent(),
            b.cache_root_spec() is None,
            b.default_revision_spec() == "main"@,
            b.explicit_token_spec() is None,
    {
        HuggingFaceSourceBuilder {
            client: HfClientBuilder::new(),
            cache_root: None,
            default_revision: owned("main"),
            explicit_token: None,
        }
    }

    /// Override the cache root directory.
    pub fn cache_dir(self, path: &str) -> (b: Self)
        ensures
            b.client_spec() == self.client_spec(),
            b.cache_root_spec() == Some(path@),
            b.default_revision_spec() == self.default_revision_spec(),
            b.explicit_token_spec() == self.explicit_token_spec(),
    {
        let mut b = self;
        b.cache_root = Some(owned(path));
        b
    }

    /// Override the base URL.
    pub fn base_url(self, url: &str) -> (b: Self)
        ensures
            b.client_spec().base_url_spec() == url@,
            b.client_spec().token_spec() == self.client_spec().token_spec(),
            b.client_spec().timeout_spec() == self.client_spec().timeout_spec(),
            b.client_spec().user_agent_spec() == self.client_spec().user_agent_spec(),
            b.cache_root_spec() == self.cache_root_spec(),
            b.default_revision_spec() == self.default_revision_spec(),
            b.explicit_token_spec() == self.explicit_token_spec(),
    {
        let mut b = self;
        b.client = b.client.base_url(url);
        b
    }

    /// Set the bearer token: `Some("hf_…")` sends that token,
    /// `Some("")` forces anonymous requests, `None` (the default) reads
    /// the environment when the source is built.
    pub fn token(self, token: Option<String>) -> (b: Self)
        ensures
            b.client_spec() == self.client_spec(),
            b.cache_root_spec() == self.cache_root_spec(),
            b.default_revision_spec() == self.default_revision_spec(),
            b.explicit_token_spec() == opt_text(token),
    {
        let mut b = self;
        b.explicit_token = token;
        b
    }

    /// Override the `User-Agent` header.
    pub fn user_agent(self, ua: &str) -> (b: Self)
        ensures
            b.client_spec().base_url_spec() == self.client_spec().base_url_spec(),
            b.client_spec().token_spec() == self.client_spec().token_spec(),
            b.client_spec().timeout_spec() == self.client_spec().timeout_spec(),
            b.client_spec().user_agent_spec() == ua@,
            b.cache_root_spec() == self.cache_root_spec(),
            b.default_revision_spec() == self.default_revision_spec(),
            b.explicit_token_spec() == self.explicit_token_spec(),
    {
        let mut b = self;
        b.client = b.client.user_agent(ua);
        b
    }

    /// Per-request timeout in seconds.
    pub fn timeout(self, secs: u64) -> (b: Self)
        ensures
            b.client_spec().base_url_spec() == self.client_spec().base_url_spec(),
            b.client_spec().token_spec() == self.client_spec().token_spec(),
            b.client_spec().timeout_spec() == secs,
            b.client_spec().user_agent_spec() == self.client_spec().user_agent_spec(),
            b.cache_root_spec() == self.cache_root_spec(),
            b.default_revision_spec() == self.default_revision_spec(),
            b.explicit_token_spec() == self.explicit_token_spec(),
    {
        let mut b = self;
        b.client = b.client.timeout(secs);
        b
    }

    /// Override the revision used when a resolve names none.
    pub fn default_revision(self, rev: &str) -> (b: Self)
        ensures
            b.client_spec() == self.client_spec(),
            b.cache_root_spec() == self.cache_root_spec(),
            b.default_revision_spec() == rev@,
            b.explicit_token_spec() == self.explicit_token_spec(),
    {
        let mut b = self;
        b.default_revision = owned(rev);
        b
    }

    /// The settings the source is built from. The token is the explicit
    /// one when set, else `env_token` (what the environment offers);
    /// the cache root is the configured one, else `default_root`.
    pub fn settings(self, env_token: Option<String>, default_root: String) -> (s: HfSourceSettings)
        ensures
            s.client.base_url@ == trim_slashes(self.client_spec().base_url_spec()),
            opt_text(s.client.token) == resolved_token(self.explicit_token_spec(), opt_text(env_token)),
            s.client.timeout_secs == self.client_spec().timeout_spec(),
            s.client.user_agent@ == self.client_spec().user_agent_spec(),
            s.cache_root@ == match self.cache_root_spec() {
                Some(r) => r,
                None => default_root@,
            },
            s.default_revision@ == self.default_revision_spec(),
    {
        let token = match self.explicit_token {
            Some(t) => if t.as_str().unicode_len() == 0 {
                None
            } else {
                Some(t)
            },
            None => env_token,
        };
        let client = self.client.token(token).settings();
        let cache_root = match self.cache_root {
            Some(r) => r,
            None => default_root,
        };
        HfSourceSettings { client, cache_root, default_revision: self.default_revision }
    }
}

/// The first non-empty of `HF_TOKEN` and `HUGGING_FACE_HUB_TOKEN`.
pub open spec fn env_token_of(hf_token: Option<Seq<char>>, hub_token: Option<Seq<char>>) -> Option<Seq<char>> {
    match hf_token {
        Some(t) if t.len() > 0 => Some(t),
        _ => match hub_token {
            Some(t) if t.len() > 0 => Some(t),
            _ => None,
        },
    }
}

/// Pick the token the environment offers: `HF_TOKEN` first, then the
/// legacy `HUGGING_FACE_HUB_TOKEN`; empty values do not count.
pub fn pick_env_token(hf_token: Option<String>, hub_token: Option<String>) -> (r: Option<String>)
    ensures
        opt_text(r) == env_token_of(opt_text(hf_token), opt_text(hub_token)),
{
    if let Some(t) = hf_token {
        if t.as_str().unicode_len() > 0 {
            return Some(t);
        }
    }
    if let Some(t) = hub_token {
        if t.as_str().unicode_len() > 0 {
            return Some(t);
        }
    }
    None
}

/// The token of one resolve: the request's own token when it is
/// non-empty, else the token the source was built with (the builder's,
/// else the environment's).
pub open spec fn request_token(request: Option<Seq<char>>, source: Option<Seq<char>>) -> Option<Seq<char>> {
    match request {
        Some(t) if t.len() > 0 => Some(t),
        _ => source,
    }
}

/// Pick the bearer token of one resolve (see [`request_token`]).
pub fn pick_request_token(request: Option<String>, source: Option<String>) -> (r: Option<String>)
    ensures
        opt_text(r) == request_token(opt_text(request), opt_text(source)),
{
    if let Some(t) = request {
        if t.as_str().unicode_len() > 0 {
            return Some(t);
        }
    }
    source
}

/// The revision a resolve uses: the requested one, else the default.
pub fn pick_revision(requested: Option<String>, default_revision: &str) -> (r: String)
    ensures
        r@ == match opt_text(requested) {
            Some(q) => q,
            None => default_revision@,
        },
{
    match requested {
        Some(q) => q,
        None => owned(default_revision),
    }
}

/// A weight file name: `.safetensors`, `.gguf` or `.bin`.
pub open spec fn is_weight_name(n: Seq<char>) -> bool {
    ends_with(n, ".safetensors"@) || ends_with(n, ".gguf"@) || ends_with(n, ".bin"@)
}

/// Quantization named by the first weight file of a listing, else F16.
pub open spec fn listing_quantization(names: Seq<Seq<char>>) -> Quantization
    decreases names.len(),
{
    if names.len() == 0 {
        Quantization::F16
    } else if is_weight_name(names[0]) {
        gguf_quantization(names[0])
    } else {
        listing_quantization(names.drop_first())
    }
}

/// A weight file of a model directory: its name ends in `.safetensors`,
/// `.gguf` or `.bin`.
pub open spec fn weight_suffix(n: Seq<char>) -> bool {
    ||| ends_with(n, ".gguf"@)
    ||| ends_with(n, ".safetensors"@)
    ||| ends_with(n, ".bin"@)
}

/// Without a parsed config, the file names decide: when `names[k]` is
/// the first name that ends in `.safetensors`, `.gguf` or `.bin`, the
/// quantization is the one that file's name carries; with no such name
/// it is F16.
pub proof fn lemma_first_weight_file_decides(dtype: Option<Seq<char>>, names: Seq<Seq<char>>, k: int)
    requires
        0 <= k < names.len(),
        weight_suffix(names[k]),
        forall|j: int| 0 <= j < k ==> !weight_suffix(#[trigger] names[j]),
    ensures
        cache_quantization(None, dtype, names) == gguf_quantization(names[k]),
        listing_quantization(names) == gguf_quantization(names[k]),
    decreases k,
{
    if k > 0 {
        assert(!weight_suffix(names[0]));
        let rest = names.drop_first();
        assert forall|j: int| 0 <= j < k - 1 implies !weight_suffix(#[trigger] rest[j]) by {
            assert(rest[j] == names[j + 1]);
        }
        assert(rest[k - 1] == names[k]);
        lemma_first_weight_file_decides(dtype, rest, k - 1);
    }
}

/// Without a parsed config, a listing with no name ending in
/// `.safetensors`, `.gguf` or `.bin` reads as F16.
pub proof fn lemma_no_weight_file_is_f16(dtype: Option<Seq<char>>, names: Seq<Seq<char>>)
    requires
        forall|j: int| 0 <= j < names.len() ==> !weight_suffix(#[trigger] names[j]),
    ensures
        cache_quantization(None, dtype, names) == Quantization::F16,
        listing_quantization(names) == Quantization::F16,
    decreases names.len(),
{
    if names.len() > 0 {
        assert(!weight_suffix(names[0]));
        let rest = names.drop_first();
        assert forall|j: int| 0 <= j < rest.len() implies !weight_suffix(#[trigger] rest[j]) by {
            assert(rest[j] == names[j + 1]);
        }
        lemma_no_weight_file_is_f16(dtype, rest);
    }
}

/// The `torch_dtype` string of a JSON document, as read by `serde_json`
/// (`None` when the bytes are not JSON or the key is absent or not a
/// string).
pub uninterp spec fn json_torch_dtype(config_bytes: Seq<u8>) -> Option<Seq<char>>;

/// `serde_json::from_slice::<serde_json::Value>` on the bytes, then the
/// `torch_dtype` member read as a string. The result is named by
/// [`json_torch_dtype`]; nothing else is stated of the parser.
#[verifier::external_body]
fn torch_dtype_of(config_bytes: &[u8]) -> (d: Option<String>)
    ensures
        opt_text(d) == json_torch_dtype(config_bytes@),
{
    let value = serde_json::from_slice::<serde_json::Value>(config_bytes).ok()?;
    value.get("torch_dtype").and_then(|v| v.as_str()).map(|t| t.to_string())
}

/// Quantization of a cached model: Qwen3-ASR checkpoints are BF16; else
/// the config's `torch_dtype`; else the first weight file's name; else
/// F16. `config` is the parsed `config.json` (when it parsed), `dtype`
/// its `torch_dtype` string, `names` the directory listing in order.
pub open spec fn cache_quantization(config: Option<RawConfig>, dtype: Option<Seq<char>>, names: Seq<Seq<char>>) -> Quantization {
    match config {
        Some(raw) => {
            let s = match model_type_of(raw) {
                Some(m) => Some(m),
                None => arch_of(raw),
            };
            if s matches Some(t) && (contains(ascii_lower(t), "qwen3asr"@) || contains(
                ascii_lower(t),
                "qwen3_asr"@,
            )) {
                Quantization::Bf16
            } else {
                match dtype {
                    Some(d) => dtype_quantization(d),
                    None => listing_quantization(names),
                }
            }
        },
        None => listing_quantization(names),
    }
}

/// Whether the file names of a cached model decide its quantization:
/// without a parsed config, or when the config names no Qwen3-ASR model
/// and carries no `torch_dtype`.
pub open spec fn listing_decides(config: Option<RawConfig>, dtype: Option<Seq<char>>) -> bool {
    match config {
        Some(raw) => {
            let s = match model_type_of(raw) {
                Some(m) => Some(m),
                None => arch_of(raw),
            };
            !(s matches Some(t) && (contains(ascii_lower(t), "qwen3asr"@) || contains(
                ascii_lower(t),
                "qwen3_asr"@,
            ))) && dtype is None
        },
        None => true,
    }
}

/// When the file names do not decide, any listing gives the same
/// quantization: the directory need not be read.
pub proof fn lemma_listing_unused(config: Option<RawConfig>, dtype: Option<Seq<char>>, a: Seq<Seq<char>>, b: Seq<Seq<char>>)
    requires
        !listing_decides(config, dtype),
    ensures
        cache_quantization(config, dtype, a) == cache_quantization(config, dtype, b),
{
}

/// Whether the directory listing is needed to decide the quantization
/// (see [`listing_decides`]).
pub fn needs_listing(config: Option<&RawConfig>, config_bytes: &[u8]) -> (r: bool)
    ensures
        r == listing_decides(match config { Some(c) => Some(*c), None => None }, json_torch_dtype(config_bytes@)),
{
    match config {
        None => true,
        Some(raw) => {
            let s = match raw.primary_model_type() {
                Some(m) => Some(m),
                None => raw.primary_arch(),
            };
            if let Some(t) = s {
                let l = lower_str(t.as_str());
                if contains_str(&l, "qwen3asr") || contains_str(&l, "qwen3_asr") {
                    return false;
                }
            }
            torch_dtype_of(config_bytes).is_none()
        },
    }
}

/// Decide the quantization of a cached model (see [`cache_quantization`]):
/// `config` is the parsed `config.json` when it was read and parsed,
/// `config_bytes` its raw bytes, `names` the directory listing in order.
pub fn detect_quantization(config: Option<&RawConfig>, config_bytes: &[u8], names: &Vec<String>) -> (q: Quantization)
    ensures
        q == cache_quantization(
            match config { Some(c) => Some(*c), None => None },
            json_torch_dtype(config_bytes@),
            names@.map_values(|s: String| s@),
        ),
{
    if let Some(raw) = config {
        let s = match raw.primary_model_type() {
            Some(m) => Some(m),
            None => raw.primary_arch(),
        };
        if let Some(t) = s {
            let l = lower_str(t.as_str());
            if contains_str(&l, "qwen3asr") || contains_str(&l, "qwen3_asr") {
                return Quantization::Bf16;
            }
        }
        if let Some(d) = torch_dtype_of(config_bytes) {
            return from_torch_dtype(d.as_str());
        }
    }
    let ghost all = names@.map_values(|s: String| s@);
    let mut i: usize = 0;
    assert(all.skip(0) =~= all);
    while i < names.len()
        invariant
            i <= names.len(),
            all == names@.map_values(|s: String| s@),
            cache_quantization(
                match config { Some(c) => Some(*c), None => None },
                json_torch_dtype(config_bytes@),
                all,
            ) == listing_quantization(all),
            listing_quantization(all) == listing_quantization(all.skip(i as int)),
        decreases names.len() - i,
    {
        let n = chars_of(names[i].as_str());
        assert(all.skip(i as int)[0] == n@);
        assert(all.skip(i as int).drop_first() =~= all.skip(i + 1));
        if ends_with_chars(&n, &chars_of(".safetensors")) || ends_with_chars(&n, &chars_of(".gguf"))
            || ends_with_chars(&n, &chars_of(".bin")) {
            assert(is_weight_name(all.skip(i as int)[0]));
            return from_gguf_filename(names[i].as_str());
        }
        i = i + 1;
    }
    Quantization::F16
}

} // verus!
