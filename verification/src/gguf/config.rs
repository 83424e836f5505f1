//! The model configuration that a GGUF header gives.
use vstd::arithmetic::div_mod::lemma_fundamental_div_mod;
use vstd::prelude::*;

use crate::gguf::constants::GEMMA4_GGUF_HEAD_DIM;
use crate::gguf::open::{meta_u32, metadata_u32};
use crate::gguf::parser::meta;
use crate::gguf::reader::data_of;
use crate::gguf::types::{
    datum_float, datum_text, datum_u32, Datum, FloatBits, GgufFile, GgufValue,
};
use crate::text::{concat3, same};

verus! {

/// A model configuration, under the names that `config.json` files use.
pub struct GgufConfig {
    pub model_type: String,
    pub hidden_size: u32,
    pub num_hidden_layers: u32,
    pub intermediate_size: u32,
    pub num_attention_heads: u32,
    pub num_key_value_heads: u32,
    pub head_dim: u32,
    pub rope_theta: Option<FloatBits>,
    pub vocab_size: Option<u32>,
    pub q_lora_rank: Option<u32>,
    pub kv_lora_rank: Option<u32>,
    pub qk_rope_head_dim: Option<u32>,
    pub qk_nope_head_dim: Option<u32>,
    pub v_head_dim: Option<u32>,
}

/// What a [`GgufConfig`] says, as plain values.
pub struct ConfigView {
    pub model_type: Seq<char>,
    pub hidden_size: int,
    pub num_hidden_layers: int,
    pub intermediate_size: int,
    pub num_attention_heads: int,
    pub num_key_value_heads: int,
    pub head_dim: int,
    pub rope_theta: Option<FloatBits>,
    pub vocab_size: Option<int>,
    pub q_lora_rank: Option<int>,
    pub kv_lora_rank: Option<int>,
    pub qk_rope_head_dim: Option<int>,
    pub qk_nope_head_dim: Option<int>,
    pub v_head_dim: Option<int>,
}

/// An optional 32-bit number as a mathematical one.
pub open spec fn opt_int(n: Option<u32>) -> Option<int> {
    match n {
        Some(v) => Some(v as int),
        None => None,
    }
}

impl View for GgufConfig {
    type V = ConfigView;

    open spec fn view(&self) -> ConfigView {
        ConfigView {
            model_type: self.model_type@,
            hidden_size: self.hidden_size as int,
            num_hidden_layers: self.num_hidden_layers as int,
            intermediate_size: self.intermediate_size as int,
            num_attention_heads: self.num_attention_heads as int,
            num_key_value_heads: self.num_key_value_heads as int,
            head_dim: self.head_dim as int,
            rope_theta: self.rope_theta,
            vocab_size: opt_int(self.vocab_size),
            q_lora_rank: opt_int(self.q_lora_rank),
            kv_lora_rank: opt_int(self.kv_lora_rank),
            qk_rope_head_dim: opt_int(self.qk_rope_head_dim),
            qk_nope_head_dim: opt_int(self.qk_nope_head_dim),
            v_head_dim: opt_int(self.v_head_dim),
        }
    }
}

/// The architecture that the metadata names; the empty text if it names none.
pub open spec fn architecture(m: Map<Seq<char>, Datum>) -> Seq<char> {
    let key = "general.architecture"@;
    if m.dom().contains(key) && datum_text(m[key]) is Some {
        datum_text(m[key])->Some_0
    } else {
        Seq::empty()
    }
}

/// The model type of an architecture.  Several architectures share one; an
/// unknown architecture is its own.
pub open spec fn model_type_of(arch: Seq<char>) -> Seq<char> {
    if arch == "qwen"@ || arch == "qwen2"@ {
        "qwen2"@
    } else if arch == "phi"@ || arch == "phi2"@ || arch == "phi3"@ {
        "phi"@
    } else if arch == "deepseek"@ || arch == "deepseek2"@ {
        "deepseek_v2"@
    } else if arch == "deepseek_v4"@ || arch == "deepseekv4"@ {
        "deepseek_v4"@
    } else {
        arch
    }
}

/// The key `suffix` of the architecture `arch`.
pub open spec fn arch_key(arch: Seq<char>, suffix: Seq<char>) -> Seq<char> {
    arch + "."@ + suffix
}

/// The greatest 32-bit number among `s`; 0 if there is none.
pub open spec fn greatest(s: Seq<Datum>) -> int
    decreases s.len(),
{
    if s.len() == 0 {
        0
    } else {
        let before = greatest(s.drop_last());
        match datum_u32(s.last()) {
            Some(n) => if n > before {
                n
            } else {
                before
            },
            None => before,
        }
    }
}

/// The number under a key of the architecture: a single number, or the
/// greatest of an array.  0 where there is neither.
pub open spec fn arch_u32(m: Map<Seq<char>, Datum>, suffix: Seq<char>) -> int {
    let key = arch_key(architecture(m), suffix);
    if !m.dom().contains(key) {
        0
    } else {
        match datum_u32(m[key]) {
            Some(n) => n,
            None => match m[key] {
                Datum::Array(s) => greatest(s),
                _ => 0,
            },
        }
    }
}

/// The single positive number under a key of the architecture.
pub open spec fn arch_positive(m: Map<Seq<char>, Datum>, suffix: Seq<char>) -> Option<int> {
    match meta_u32(m, arch_key(architecture(m), suffix)) {
        Some(n) => if n > 0 {
            Some(n)
        } else {
            None
        },
        None => None,
    }
}

/// The floating-point number under a key of the architecture.
pub open spec fn arch_float(m: Map<Seq<char>, Datum>, suffix: Seq<char>) -> Option<FloatBits> {
    let key = arch_key(architecture(m), suffix);
    if m.dom().contains(key) {
        datum_float(m[key])
    } else {
        None
    }
}

/// The first of two optional numbers that is there.
pub open spec fn either(a: Option<int>, b: Option<int>) -> Option<int> {
    if a is Some {
        a
    } else {
        b
    }
}

/// The width of an attention head: fixed for `gemma4` models that have heads,
/// else the key length, else the hidden size divided among the heads.
pub open spec fn head_dim_of(m: Map<Seq<char>, Datum>) -> int {
    let heads = arch_u32(m, "attention.head_count"@);
    let key_length = arch_u32(m, "attention.key_length"@);
    if architecture(m) == "gemma4"@ && heads > 0 {
        GEMMA4_GGUF_HEAD_DIM as int
    } else if key_length > 0 {
        key_length
    } else if heads > 0 {
        arch_u32(m, "embedding_length"@) / heads
    } else {
        0
    }
}

/// The part of a key's width that is not rotated: what the rotated part
/// leaves of the whole, if it leaves anything.
pub open spec fn nope_head_dim(m: Map<Seq<char>, Datum>) -> Option<int> {
    let whole = either(
        arch_positive(m, "attention.key_length_mla"@),
        arch_positive(m, "attention.key_length"@),
    );
    match (whole, arch_positive(m, "rope.dimension_count"@)) {
        (Some(w), Some(r)) => if w > r {
            Some(w - r)
        } else {
            None
        },
        _ => None,
    }
}

/// The configuration that the metadata gives.
pub open spec fn config_of(m: Map<Seq<char>, Datum>) -> ConfigView {
    let heads = arch_u32(m, "attention.head_count"@);
    let kv_heads = arch_u32(m, "attention.head_count_kv"@);
    let feed_forward = arch_u32(m, "feed_forward_length"@);
    ConfigView {
        model_type: model_type_of(architecture(m)),
        hidden_size: arch_u32(m, "embedding_length"@),
        num_hidden_layers: arch_u32(m, "block_count"@),
        intermediate_size: if feed_forward > 0 {
            feed_forward
        } else {
            arch_u32(m, "expert_feed_forward_length"@)
        },
        num_attention_heads: heads,
        num_key_value_heads: if kv_heads > 0 {
            kv_heads
        } else {
            heads
        },
        head_dim: head_dim_of(m),
        rope_theta: arch_float(m, "rope.freq_base"@),
        vocab_size: arch_positive(m, "vocab_size"@),
        q_lora_rank: arch_positive(m, "attention.q_lora_rank"@),
        kv_lora_rank: arch_positive(m, "attention.kv_lora_rank"@),
        qk_rope_head_dim: arch_positive(m, "rope.dimension_count"@),
        qk_nope_head_dim: nope_head_dim(m),
        v_head_dim: either(
            arch_positive(m, "attention.value_length_mla"@),
            arch_positive(m, "attention.value_length"@),
        ),
    }
}

/// The metadata names the architecture `arch`.
pub open spec fn names_arch(m: Map<Seq<char>, Datum>, arch: Seq<char>) -> bool {
    m.dom().contains("general.architecture"@) && m["general.architecture"@] == Datum::Text(arch)
}

/// The metadata holds the 32-bit number `v` under `key`.
pub open spec fn holds_u32(m: Map<Seq<char>, Datum>, key: Seq<char>, v: u32) -> bool {
    m.dom().contains(key) && m[key] == Datum::U32(v)
}

/// The metadata has nothing under `key`, or a 32-bit zero.
pub open spec fn lacks(m: Map<Seq<char>, Datum>, key: Seq<char>) -> bool {
    !m.dom().contains(key) || m[key] == Datum::U32(0)
}

/// The keys of an architecture, written with their dots.
proof fn keys_written(arch: Seq<char>)
    ensures
        arch_key(arch, "embedding_length"@) == arch + ".embedding_length"@,
        arch_key(arch, "block_count"@) == arch + ".block_count"@,
        arch_key(arch, "attention.head_count"@) == arch + ".attention.head_count"@,
        arch_key(arch, "attention.head_count_kv"@) == arch + ".attention.head_count_kv"@,
        arch_key(arch, "attention.key_length"@) == arch + ".attention.key_length"@,
        arch_key(arch, "feed_forward_length"@) == arch + ".feed_forward_length"@,
        arch_key(arch, "expert_feed_forward_length"@) == arch + ".expert_feed_forward_length"@,
        arch_key(arch, "vocab_size"@) == arch + ".vocab_size"@,
        arch_key(arch, "attention.q_lora_rank"@) == arch + ".attention.q_lora_rank"@,
        arch_key(arch, "attention.kv_lora_rank"@) == arch + ".attention.kv_lora_rank"@,
        arch_key(arch, "rope.dimension_count"@) == arch + ".rope.dimension_count"@,
        arch_key(arch, "attention.key_length_mla"@) == arch + ".attention.key_length_mla"@,
        arch_key(arch, "attention.value_length_mla"@) == arch + ".attention.value_length_mla"@,
        arch_key(arch, "attention.value_length"@) == arch + ".attention.value_length"@,
        arch_key(arch, "rope.freq_base"@) == arch + ".rope.freq_base"@,
{
    reveal_strlit(".");
    reveal_strlit("embedding_length");
    reveal_strlit(".embedding_length");
    assert(arch + "."@ + "embedding_length"@ =~= arch + ".embedding_length"@);
    reveal_strlit("block_count");
    reveal_strlit(".block_count");
    assert(arch + "."@ + "block_count"@ =~= arch + ".block_count"@);
    reveal_strlit("attention.head_count");
    reveal_strlit(".attention.head_count");
    assert(arch + "."@ + "attention.head_count"@ =~= arch + ".attention.head_count"@);
    reveal_strlit("attention.head_count_kv");
    reveal_strlit(".attention.head_count_kv");
    assert(arch + "."@ + "attention.head_count_kv"@ =~= arch + ".attention.head_count_kv"@);
    reveal_strlit("attention.key_length");
    reveal_strlit(".attention.key_length");
    assert(arch + "."@ + "attention.key_length"@ =~= arch + ".attention.key_length"@);
    reveal_strlit("feed_forward_length");
    reveal_strlit(".feed_forward_length");
    assert(arch + "."@ + "feed_forward_length"@ =~= arch + ".feed_forward_length"@);
    reveal_strlit("expert_feed_forward_length");
    reveal_strlit(".expert_feed_forward_length");
    assert(arch + "."@ + "expert_feed_forward_length"@ =~= arch + ".expert_feed_forward_length"@);
    reveal_strlit("vocab_size");
    reveal_strlit(".vocab_size");
    assert(arch + "."@ + "vocab_size"@ =~= arch + ".vocab_size"@);
    reveal_strlit("attention.q_lora_rank");
    reveal_strlit(".attention.q_lora_rank");
    assert(arch + "."@ + "attention.q_lora_rank"@ =~= arch + ".attention.q_lora_rank"@);
    reveal_strlit("attention.kv_lora_rank");
    reveal_strlit(".attention.kv_lora_rank");
    assert(arch + "."@ + "attention.kv_lora_rank"@ =~= arch + ".attention.kv_lora_rank"@);
    reveal_strlit("rope.dimension_count");
    reveal_strlit(".rope.dimension_count");
    assert(arch + "."@ + "rope.dimension_count"@ =~= arch + ".rope.dimension_count"@);
    reveal_strlit("attention.key_length_mla");
    reveal_strlit(".attention.key_length_mla");
    assert(arch + "."@ + "attention.key_length_mla"@ =~= arch + ".attention.key_length_mla"@);
    reveal_strlit("attention.value_length_mla");
    reveal_strlit(".attention.value_length_mla");
    assert(arch + "."@ + "attention.value_length_mla"@ =~= arch + ".attention.value_length_mla"@);
    reveal_strlit("attention.value_length");
    reveal_strlit(".attention.value_length");
    assert(arch + "."@ + "attention.value_length"@ =~= arch + ".attention.value_length"@);
    reveal_strlit("rope.freq_base");
    reveal_strlit(".rope.freq_base");
    assert(arch + "."@ + "rope.freq_base"@ =~= arch + ".rope.freq_base"@);
}

/// Each number of the configuration is the one under the architecture's key of
/// that meaning.
pub proof fn numbers_come_from_metadata(m: Map<Seq<char>, Datum>, arch: Seq<char>, v: u32)
    requires
        names_arch(m, arch),
    ensures
        holds_u32(m, arch + ".embedding_length"@, v) ==> config_of(m).hidden_size == v,
        lacks(m, arch + ".embedding_length"@) ==> config_of(m).hidden_size == 0,
        holds_u32(m, arch + ".block_count"@, v) ==> config_of(m).num_hidden_layers == v,
        lacks(m, arch + ".block_count"@) ==> config_of(m).num_hidden_layers == 0,
        holds_u32(m, arch + ".attention.head_count"@, v) ==> config_of(m).num_attention_heads == v,
        lacks(m, arch + ".attention.head_count"@) ==> config_of(m).num_attention_heads == 0,
        holds_u32(m, arch + ".vocab_size"@, v) && v > 0 ==> config_of(m).vocab_size == Some(v as int),
        lacks(m, arch + ".vocab_size"@) ==> config_of(m).vocab_size is None,
        holds_u32(m, arch + ".attention.q_lora_rank"@, v) && v > 0 ==> config_of(m).q_lora_rank == Some(v as int),
        lacks(m, arch + ".attention.q_lora_rank"@) ==> config_of(m).q_lora_rank is None,
        holds_u32(m, arch + ".attention.kv_lora_rank"@, v) && v > 0 ==> config_of(m).kv_lora_rank == Some(v as int),
        lacks(m, arch + ".attention.kv_lora_rank"@) ==> config_of(m).kv_lora_rank is None,
        holds_u32(m, arch + ".rope.dimension_count"@, v) && v > 0 ==> config_of(m).qk_rope_head_dim == Some(v as int),
        lacks(m, arch + ".rope.dimension_count"@) ==> config_of(m).qk_rope_head_dim is None,
{
    keys_written(arch);
}

/// The inner width is the feed-forward length; only where that is absent or 0
/// is it the width of one expert.
pub proof fn inner_width(m: Map<Seq<char>, Datum>, arch: Seq<char>, v: u32)
    requires
        names_arch(m, arch),
    ensures
        holds_u32(m, arch + ".feed_forward_length"@, v) && v > 0
            ==> config_of(m).intermediate_size == v,
        lacks(m, arch + ".feed_forward_length"@) && holds_u32(
            m,
            arch + ".expert_feed_forward_length"@,
            v,
        ) ==> config_of(m).intermediate_size == v,
{
    keys_written(arch);
}

/// The heads of keys and values are counted by their own key; where that is
/// absent or 0 there are as many as heads of queries.
pub proof fn key_value_heads(m: Map<Seq<char>, Datum>, arch: Seq<char>, v: u32)
    requires
        names_arch(m, arch),
    ensures
        holds_u32(m, arch + ".attention.head_count_kv"@, v) && v > 0
            ==> config_of(m).num_key_value_heads == v,
        lacks(m, arch + ".attention.head_count_kv"@) && holds_u32(
            m,
            arch + ".attention.head_count"@,
            v,
        ) ==> config_of(m).num_key_value_heads == v,
{
    keys_written(arch);
}

/// The width of a head is the key length, whatever the hidden size and the
/// number of heads are; only where it is absent or 0 is the hidden size
/// divided among the heads.  A `gemma4` model with heads has a width of its
/// own.
pub proof fn head_width_is_key_length(
    m: Map<Seq<char>, Datum>,
    arch: Seq<char>,
    v: u32,
    hidden: u32,
    heads: u32,
)
    requires
        names_arch(m, arch),
    ensures
        arch != "gemma4"@ && holds_u32(m, arch + ".attention.key_length"@, v) && v > 0
            ==> config_of(m).head_dim == v,
        arch != "gemma4"@ && lacks(m, arch + ".attention.key_length"@) && holds_u32(
            m,
            arch + ".embedding_length"@,
            hidden,
        ) && holds_u32(m, arch + ".attention.head_count"@, heads) && heads > 0 ==> {
            let d = config_of(m).head_dim;
            d * heads <= hidden < (d + 1) * heads
        },
        arch == "gemma4"@ && holds_u32(m, arch + ".attention.head_count"@, heads) && heads > 0
            ==> config_of(m).head_dim == 256,
        lacks(m, arch + ".attention.key_length"@) && lacks(m, arch + ".attention.head_count"@)
            ==> config_of(m).head_dim == 0,
{
    keys_written(arch);
    if heads > 0 {
        let d = hidden as int / heads as int;
        lemma_fundamental_div_mod(hidden as int, heads as int);
        assert(d * heads <= hidden < (d + 1) * heads) by (nonlinear_arith)
            requires
                hidden == heads * d + hidden % heads,
                0 <= hidden % heads < heads,
        ;
    }
}

/// The rotated and the other part of a key's width make up the whole: the
/// width before absorption where it is there, else the key length.
pub proof fn key_width_parts(m: Map<Seq<char>, Datum>, arch: Seq<char>, whole: u32, rope: u32)
    requires
        names_arch(m, arch),
        holds_u32(m, arch + ".rope.dimension_count"@, rope),
        rope > 0,
        holds_u32(m, arch + ".attention.key_length_mla"@, whole) && whole > 0 || lacks(
            m,
            arch + ".attention.key_length_mla"@,
        ) && holds_u32(m, arch + ".attention.key_length"@, whole),
    ensures
        match config_of(m).qk_nope_head_dim {
            Some(n) => n > 0 && n + rope == whole,
            None => whole <= rope,
        },
        config_of(m).qk_rope_head_dim == Some(rope as int),
{
    keys_written(arch);
}

/// The width of a value is the one before absorption where it is there, else
/// the value length.
pub proof fn value_width(m: Map<Seq<char>, Datum>, arch: Seq<char>, v: u32)
    requires
        names_arch(m, arch),
        v > 0,
    ensures
        holds_u32(m, arch + ".attention.value_length_mla"@, v) ==> config_of(m).v_head_dim == Some(
            v as int,
        ),
        lacks(m, arch + ".attention.value_length_mla"@) && holds_u32(
            m,
            arch + ".attention.value_length"@,
            v,
        ) ==> config_of(m).v_head_dim == Some(v as int),
{
    keys_written(arch);
}

/// The base of the rotary embedding is kept bit for bit.
pub proof fn rope_base_kept(m: Map<Seq<char>, Datum>, arch: Seq<char>)
    requires
        names_arch(m, arch),
    ensures
        m.dom().contains(arch + ".rope.freq_base"@) ==> match m[arch + ".rope.freq_base"@] {
            Datum::F32(bits) => config_of(m).rope_theta == Some(FloatBits::Single(bits)),
            Datum::F64(bits) => config_of(m).rope_theta == Some(FloatBits::Double(bits)),
            _ => config_of(m).rope_theta is None,
        },
        !m.dom().contains(arch + ".rope.freq_base"@) ==> config_of(m).rope_theta is None,
{
    keys_written(arch);
}

/// The greatest number of an array is one of its numbers, and none is greater.
proof fn greatest_is(s: Seq<Datum>)
    ensures
        forall|i: int|
            0 <= i < s.len() ==> (#[trigger] s[i] matches Datum::U32(v) ==> v <= greatest(s)),
        greatest(s) == 0 || exists|i: int|
            0 <= i < s.len() && datum_u32(#[trigger] s[i]) == Some(greatest(s)),
        greatest(s) >= 0,
    decreases s.len(),
{
    if s.len() > 0 {
        let init = s.drop_last();
        greatest_is(init);
        assert forall|i: int| 0 <= i < s.len() implies (#[trigger] s[i] matches Datum::U32(v) ==> v
            <= greatest(s)) by {
            if i < init.len() {
                assert(init[i] == s[i]);
            }
        }
        if greatest(s) == greatest(init) {
            if greatest(init) != 0 {
                let i = choose|i: int|
                    0 <= i < init.len() && datum_u32(#[trigger] init[i]) == Some(greatest(init));
                assert(s[i] == init[i]);
            }
        } else {
            assert(s[s.len() - 1] == s.last());
        }
    }
}

/// Where the layers' inner widths differ, the model's is the widest of them.
pub proof fn widest_layer_counts(m: Map<Seq<char>, Datum>, arch: Seq<char>, s: Seq<Datum>, i: int)
    requires
        names_arch(m, arch),
        m.dom().contains(arch + ".feed_forward_length"@),
        m[arch + ".feed_forward_length"@] == Datum::Array(s),
        0 <= i < s.len(),
        s[i] matches Datum::U32(v) && v > 0,
    ensures
        s[i]->U32_0 <= config_of(m).intermediate_size,
        exists|k: int|
            0 <= k < s.len() && datum_u32(#[trigger] s[k]) == Some(config_of(m).intermediate_size),
{
    keys_written(arch);
    greatest_is(s);
}

/// The model types: an architecture's later versions share that of the family,
/// and any other architecture is its own.
pub proof fn model_types(m: Map<Seq<char>, Datum>, arch: Seq<char>)
    requires
        names_arch(m, arch),
    ensures
        arch == "qwen"@ || arch == "qwen2"@ ==> config_of(m).model_type == "qwen2"@,
        arch == "phi"@ || arch == "phi2"@ || arch == "phi3"@ ==> config_of(m).model_type == "phi"@,
        arch == "deepseek"@ || arch == "deepseek2"@ ==> config_of(m).model_type == "deepseek_v2"@,
        arch == "deepseek_v4"@ || arch == "deepseekv4"@ ==> config_of(m).model_type
            == "deepseek_v4"@,
        arch == "llama"@ || arch == "gemma"@ || arch == "gemma2"@ || arch == "gemma3"@ || arch
            == "gemma4"@ || arch == "mistral"@ || arch == "mixtral"@ || arch == "gpt2"@
            ==> config_of(m).model_type == arch,
        !seq![
            "qwen"@,
            "qwen2"@,
            "phi"@,
            "phi2"@,
            "phi3"@,
            "deepseek"@,
            "deepseek2"@,
            "deepseek_v4"@,
            "deepseekv4"@,
        ].contains(arch) ==> config_of(m).model_type == arch,
{
    reveal_strlit("qwen");
    reveal_strlit("qwen2");
    reveal_strlit("phi");
    reveal_strlit("phi2");
    reveal_strlit("phi3");
    reveal_strlit("deepseek");
    reveal_strlit("deepseek2");
    reveal_strlit("deepseek_v4");
    reveal_strlit("deepseekv4");
    reveal_strlit("llama");
    reveal_strlit("gemma");
    reveal_strlit("gemma2");
    reveal_strlit("gemma3");
    reveal_strlit("gemma4");
    reveal_strlit("mistral");
    reveal_strlit("mixtral");
    reveal_strlit("gpt2");
    let others = seq![
        "qwen"@,
        "qwen2"@,
        "phi"@,
        "phi2"@,
        "phi3"@,
        "deepseek"@,
        "deepseek2"@,
        "deepseek_v4"@,
        "deepseekv4"@,
    ];
    assert(others[0] == "qwen"@);
    assert(others[1] == "qwen2"@);
    assert(others[2] == "phi"@);
    assert(others[3] == "phi2"@);
    assert(others[4] == "phi3"@);
    assert(others[5] == "deepseek"@);
    assert(others[6] == "deepseek2"@);
    assert(others[7] == "deepseek_v4"@);
    assert(others[8] == "deepseekv4"@);
    assert("qwen"@[0] == 'q' && "qwen2"@[0] == 'q');
    assert("phi"@[0] == 'p' && "phi2"@[0] == 'p' && "phi3"@[0] == 'p');
    assert("deepseek_v4"@[8] == '_' && "deepseekv4"@[8] == 'v' && "deepseek2"@[8] == '2');
}

/// The greatest 32-bit number among `values`.
fn greatest_of(values: &Vec<GgufValue>) -> (r: u32)
    ensures
        r == greatest(data_of(values@)),
{
    let mut best: u32 = 0;
    let mut i: usize = 0;
    assert(data_of(values@).take(0) =~= Seq::empty());
    while i < values.len()
        invariant
            0 <= i <= values.len(),
            best == greatest(data_of(values@).take(i as int)),
        decreases values.len() - i,
    {
        assert(data_of(values@).take(i + 1).drop_last() =~= data_of(values@).take(i as int));
        if let Some(n) = values[i].as_u32() {
            if n > best {
                best = n;
            }
        }
        i += 1;
    }
    assert(data_of(values@).take(i as int) =~= data_of(values@));
    best
}

/// An array's datum is the row of its elements' data.
proof fn array_datum(v: GgufValue)
    requires
        v is Array,
    ensures
        v@ == Datum::Array(data_of(v->Array_0@)),
{
    reveal_with_fuel(<GgufValue as View>::view, 2);
    assert(v@->Array_0 =~= data_of(v->Array_0@));
}

/// The architecture's key with the given suffix.
fn arch_key_string(arch: &str, suffix: &str) -> (r: String)
    ensures
        r@ == arch_key(arch@, suffix@),
{
    concat3(arch, ".", suffix)
}

/// Keeps a positive number.
fn positive(n: Option<u32>) -> (r: Option<u32>)
    ensures
        r == (match n {
            Some(v) => if v > 0 {
                Some(v)
            } else {
                None
            },
            None => None,
        }),
{
    match n {
        Some(v) => if v > 0 {
            Some(v)
        } else {
            None
        },
        None => None,
    }
}

/// The model type of an architecture.
fn model_type_string(arch: &str) -> (r: String)
    ensures
        r@ == model_type_of(arch@),
{
    if same(arch, "qwen") || same(arch, "qwen2") {
        "qwen2".to_owned()
    } else if same(arch, "phi") || same(arch, "phi2") || same(arch, "phi3") {
        "phi".to_owned()
    } else if same(arch, "deepseek") || same(arch, "deepseek2") {
        "deepseek_v2".to_owned()
    } else if same(arch, "deepseek_v4") || same(arch, "deepseekv4") {
        "deepseek_v4".to_owned()
    } else {
        arch.to_owned()
    }
}

impl GgufFile {
    /// The architecture that the metadata names.
    fn architecture_name(&self) -> (r: String)
        requires
            self.metadata.wf(),
        ensures
            r@ == architecture(meta(self.metadata@)),
    {
        match self.metadata.get("general.architecture") {
            Some(v) => match v.as_str() {
                Some(s) => s.to_owned(),
                None => String::new(),
            },
            None => String::new(),
        }
    }

    /// The number under a key of the architecture.
    fn arch_number(&self, arch: &str, suffix: &str) -> (r: u32)
        requires
            self.metadata.wf(),
            arch@ == architecture(meta(self.metadata@)),
        ensures
            r == arch_u32(meta(self.metadata@), suffix@),
    {
        let key = arch_key_string(arch, suffix);
        match self.metadata.get(key.as_str()) {
            None => 0,
            Some(v) => {
                if let Some(n) = v.as_u32() {
                    return n;
                }
                match v {
                    GgufValue::Array(items) => {
                        proof {
                            array_datum(*v);
                        }
                        greatest_of(items)
                    },
                    _ => 0,
                }
            },
        }
    }

    /// The single positive number under a key of the architecture.
    fn arch_positive_number(&self, arch: &str, suffix: &str) -> (r: Option<u32>)
        requires
            self.metadata.wf(),
            arch@ == architecture(meta(self.metadata@)),
        ensures
            opt_int(r) == arch_positive(meta(self.metadata@), suffix@),
            r matches Some(n) ==> n > 0,
    {
        let key = arch_key_string(arch, suffix);
        positive(metadata_u32(&self.metadata, key.as_str()))
    }

    /// The floating-point number under a key of the architecture.
    fn arch_float_bits(&self, arch: &str, suffix: &str) -> (r: Option<FloatBits>)
        requires
            self.metadata.wf(),
            arch@ == architecture(meta(self.metadata@)),
        ensures
            r == arch_float(meta(self.metadata@), suffix@),
    {
        let key = arch_key_string(arch, suffix);
        match self.metadata.get(key.as_str()) {
            Some(v) => v.as_f64(),
            None => None,
        }
    }

    /// The width of an attention head.
    fn head_width(&self, arch: &str, hidden_size: u32, num_heads: u32) -> (r: u32)
        requires
            self.metadata.wf(),
            arch@ == architecture(meta(self.metadata@)),
            hidden_size == arch_u32(meta(self.metadata@), "embedding_length"@),
            num_heads == arch_u32(meta(self.metadata@), "attention.head_count"@),
        ensures
            r == head_dim_of(meta(self.metadata@)),
    {
        if same(arch, "gemma4") && num_heads > 0 {
            return GEMMA4_GGUF_HEAD_DIM;
        }
        let key_length = self.arch_number(arch, "attention.key_length");
        if key_length > 0 {
            key_length
        } else if num_heads > 0 {
            hidden_size / num_heads
        } else {
            0
        }
    }

    /// The configuration that the metadata gives.
    pub fn to_config_json(&self) -> (r: GgufConfig)
        requires
            self.metadata.wf(),
        ensures
            r@ == config_of(meta(self.metadata@)),
    {
        let name = self.architecture_name();
        let arch = name.as_str();
        let hidden_size = self.arch_number(arch, "embedding_length");
        let num_heads = self.arch_number(arch, "attention.head_count");
        let kv_heads = self.arch_number(arch, "attention.head_count_kv");
        let head_dim = self.head_width(arch, hidden_size, num_heads);
        let feed_forward = self.arch_number(arch, "feed_forward_length");
        let intermediate_size: u32 = if feed_forward > 0 {
            feed_forward
        } else {
            self.arch_number(arch, "expert_feed_forward_length")
        };
        let num_key_value_heads: u32 = if kv_heads > 0 {
            kv_heads
        } else {
            num_heads
        };
        let rope = self.arch_positive_number(arch, "rope.dimension_count");
        let key_length_mla = self.arch_positive_number(arch, "attention.key_length_mla");
        let key_length = self.arch_positive_number(arch, "attention.key_length");
        let whole = if key_length_mla.is_some() {
            key_length_mla
        } else {
            key_length
        };
        let qk_nope_head_dim: Option<u32> = match (whole, rope) {
            (Some(w), Some(r)) => if w > r {
                Some(w - r)
            } else {
                None
            },
            _ => None,
        };
        let value_length_mla = self.arch_positive_number(arch, "attention.value_length_mla");
        let v_head_dim = if value_length_mla.is_some() {
            value_length_mla
        } else {
            self.arch_positive_number(arch, "attention.value_length")
        };
        GgufConfig {
            model_type: model_type_string(arch),
            hidden_size,
            num_hidden_layers: self.arch_number(arch, "block_count"),
            intermediate_size,
            num_attention_heads: num_heads,
            num_key_value_heads,
            head_dim,
            rope_theta: self.arch_float_bits(arch, "rope.freq_base"),
            vocab_size: self.arch_positive_number(arch, "vocab_size"),
            q_lora_rank: self.arch_positive_number(arch, "attention.q_lora_rank"),
            kv_lora_rank: self.arch_positive_number(arch, "attention.kv_lora_rank"),
            qk_rope_head_dim: rope,
            qk_nope_head_dim,
            v_head_dim,
        }
    }
}

} // verus!
