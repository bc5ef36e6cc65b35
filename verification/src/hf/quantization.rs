//! Mappings from `config.json` `torch_dtype` strings and GGUF file
//! names to [`Quantization`].
use vstd::prelude::*;

use crate::asr::Quantization;
use crate::text::{ascii_lower, contains, contains_str, eq_str, lower_chars, lower_str, trim, trim_str};

verus! {

/// The quantization a `torch_dtype` value names (surrounding
/// whitespace and ASCII case ignored; unknown values read as F16).
pub open spec fn dtype_quantization(value: Seq<char>) -> Quantization {
    let v = ascii_lower(trim(value));
    if v == "bfloat16"@ || v == "bf16"@ {
        Quantization::Bf16
    } else if v == "float16"@ || v == "half"@ || v == "fp16"@ || v == "f16"@ {
        Quantization::F16
    } else if v == "float32"@ || v == "float"@ || v == "fp32"@ || v == "f32"@ {
        Quantization::F32
    } else {
        Quantization::F16
    }
}

/// The quantization a GGUF-style file name carries (ASCII case
/// ignored; Q5_K and Q6_K collapse to Q4K; anything else reads as F16).
pub open spec fn gguf_quantization(name: Seq<char>) -> Quantization {
    let l = ascii_lower(name);
    if contains(l, "q4_k"@) {
        Quantization::Q4K
    } else if contains(l, "q8_0"@) || contains(l, "q8.0"@) {
        Quantization::Q8_0
    } else if contains(l, "q5_k"@) || contains(l, "q6_k"@) {
        Quantization::Q4K
    } else {
        Quantization::F16
    }
}

/// Map a `torch_dtype` value to a [`Quantization`].
pub fn from_torch_dtype(value: &str) -> (q: Quantization)
    ensures
        q == dtype_quantization(value@),
        dtype_spelling(value@, seq!["bfloat16"@, "bf16"@]) ==> q == Quantization::Bf16,
        dtype_spelling(value@, seq!["float16"@, "half"@, "fp16"@, "f16"@]) ==> q == Quantization::F16,
        dtype_spelling(value@, seq!["float32"@, "float"@, "fp32"@, "f32"@]) ==> q == Quantization::F32,
{
    proof {
        lemma_dtype_spellings(value@);
    }
    let t = trim_str(value);
    let v = lower_chars(&t);
    if eq_str(&v, "bfloat16") || eq_str(&v, "bf16") {
        Quantization::Bf16
    } else if eq_str(&v, "float16") || eq_str(&v, "half") || eq_str(&v, "fp16") || eq_str(&v, "f16") {
        Quantization::F16
    } else if eq_str(&v, "float32") || eq_str(&v, "float") || eq_str(&v, "fp32") || eq_str(&v, "f32") {
        Quantization::F32
    } else {
        Quantization::F16
    }
}

/// Map a GGUF-style file name to a [`Quantization`].
pub fn from_gguf_filename(name: &str) -> (q: Quantization)
    ensures
        q == gguf_quantization(name@),
        contains(ascii_lower(name@), "q4_k"@) ==> q == Quantization::Q4K,
{
    let l = lower_str(name);
    if contains_str(&l, "q4_k") {
        Quantization::Q4K
    } else if contains_str(&l, "q8_0") || contains_str(&l, "q8.0") {
        Quantization::Q8_0
    } else if contains_str(&l, "q5_k") || contains_str(&l, "q6_k") {
        Quantization::Q4K
    } else {
        Quantization::F16
    }
}

/// `value`, without surrounding whitespace and in ASCII lowercase, is
/// one of `spellings`.
pub open spec fn dtype_spelling(value: Seq<char>, spellings: Seq<Seq<char>>) -> bool {
    spellings.contains(ascii_lower(trim(value)))
}

/// Every documented spelling of a `torch_dtype`, in any ASCII case and
/// with surrounding whitespace, names its type: `bfloat16`/`bf16` are
/// BF16; `float16`/`half`/`fp16`/`f16` are F16; `float32`/`float`/
/// `fp32`/`f32` are F32.
pub proof fn lemma_dtype_spellings(value: Seq<char>)
    ensures
        dtype_spelling(value, seq!["bfloat16"@, "bf16"@]) ==> dtype_quantization(value) == Quantization::Bf16,
        dtype_spelling(value, seq!["float16"@, "half"@, "fp16"@, "f16"@]) ==> dtype_quantization(value)
            == Quantization::F16,
        dtype_spelling(value, seq!["float32"@, "float"@, "fp32"@, "f32"@]) ==> dtype_quantization(value)
            == Quantization::F32,
{
    let v = ascii_lower(trim(value));
    let b = seq!["bfloat16"@, "bf16"@];
    let h = seq!["float16"@, "half"@, "fp16"@, "f16"@];
    let f = seq!["float32"@, "float"@, "fp32"@, "f32"@];
    reveal_strlit("bfloat16");
    reveal_strlit("bf16");
    reveal_strlit("float16");
    reveal_strlit("half");
    reveal_strlit("fp16");
    reveal_strlit("f16");
    reveal_strlit("float32");
    reveal_strlit("float");
    reveal_strlit("fp32");
    reveal_strlit("f32");
    if h.contains(v) {
        let k = choose|k: int| 0 <= k < h.len() && h[k] == v;
        assert(h[k] == v);
        assert(v[0] != 'b');
        assert(v != "bfloat16"@ && v != "bf16"@);
    }
    if f.contains(v) {
        let k = choose|k: int| 0 <= k < f.len() && f[k] == v;
        assert(f[k] == v);
        assert(v[0] != 'b');
        assert(v != "bfloat16"@ && v != "bf16"@);
        assert(v.len() == 7 ==> v[5] == '3');
        assert(v.len() == 4 ==> v[2] == '3');
        assert(v.len() == 3 ==> v[1] == '3');
        assert(v != "float16"@ && v != "half"@ && v != "fp16"@ && v != "f16"@);
    }
}

/// A GGUF file name that carries `q4_k` (any ASCII case) is Q4K; one
/// that carries `q8_0` or `q8.0` and no `q4_k` is Q8_0; one with none
/// of the quantization tags is F16.
pub proof fn lemma_gguf_tags(name: Seq<char>)
    ensures
        contains(ascii_lower(name), "q4_k"@) ==> gguf_quantization(name) == Quantization::Q4K,
        !contains(ascii_lower(name), "q4_k"@) && (contains(ascii_lower(name), "q8_0"@) || contains(
            ascii_lower(name),
            "q8.0"@,
        )) ==> gguf_quantization(name) == Quantization::Q8_0,
        !contains(ascii_lower(name), "q4_k"@) && !contains(ascii_lower(name), "q8_0"@) && !contains(
            ascii_lower(name),
            "q8.0"@,
        ) && !contains(ascii_lower(name), "q5_k"@) && !contains(ascii_lower(name), "q6_k"@)
            ==> gguf_quantization(name) == Quantization::F16,
{
}

} // verus!
