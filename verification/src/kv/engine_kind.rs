//! Which cache engine to use, as a user writes it: `name` or
//! `name:key=value,key=value`.
use vstd::prelude::*;

use crate::text::{
    contains_char, cut, decimal, decimal_is_digits, has_prefix, is_digit, joined, leading_space,
    opt_text, parse_usize, pieces, same, split, split_once, texts, trailing_space, trim, trimmed,
    unsigned_of, unsigned_of_decimal, until, until_is, white_space,
};
use crate::text_laws::{
    all_space, bare, cut_at_first, one_piece, separator_starts_piece, trimming_takes_space,
};

verus! {

/// How the cold part of a residual store is encoded.
#[derive(Debug, Clone, Copy, PartialEq, Eq, Structural)]
pub enum ColdResidualCodec {
    Bf16,
}

/// A cache engine with its parameters.
#[allow(inconsistent_fields)]
#[derive(Debug, Clone)]
pub enum EngineKind {
    /// Keeps all keys and values, or those of the last tokens.
    Standard { window_size: Option<usize> },
    /// Keeps nothing.
    NoCache,
    MarkovResidual { window_size: Option<usize> },
    UnlimitedContext { window_size: usize },
    TurboQuant { bits: u8 },
    /// What is not given is left to the engine's own defaults.  The
    /// coefficient is kept as it was written.
    Apollo {
        injection_layer: Option<usize>,
        inject_coefficient: Option<String>,
        top_k: Option<usize>,
    },
    BoundaryKv { window_size: Option<usize>, chunk_tokens: usize, sequence_id: String },
    MarkovResidualCodec { window_size: Option<usize>, codec: ColdResidualCodec },
    BoundaryPerLayer { window_size: Option<usize>, num_layers: usize },
}

/// What an [`EngineKind`] says, as plain values.
#[allow(inconsistent_fields)]
pub enum Engine {
    Standard { window_size: Option<nat> },
    NoCache,
    MarkovResidual { window_size: Option<nat> },
    UnlimitedContext { window_size: nat },
    TurboQuant { bits: nat },
    Apollo {
        injection_layer: Option<nat>,
        inject_coefficient: Option<Seq<char>>,
        top_k: Option<nat>,
    },
    BoundaryKv { window_size: Option<nat>, chunk_tokens: nat, sequence_id: Seq<char> },
    MarkovResidualCodec { window_size: Option<nat>, codec: ColdResidualCodec },
    BoundaryPerLayer { window_size: Option<nat>, num_layers: nat },
}

/// An optional machine number as a mathematical one.
pub open spec fn count(n: Option<usize>) -> Option<nat> {
    match n {
        Some(v) => Some(v as nat),
        None => None,
    }
}

impl View for EngineKind {
    type V = Engine;

    open spec fn view(&self) -> Engine {
        match self {
            EngineKind::Standard { window_size } => Engine::Standard {
                window_size: count(*window_size),
            },
            EngineKind::NoCache => Engine::NoCache,
            EngineKind::MarkovResidual { window_size } => Engine::MarkovResidual {
                window_size: count(*window_size),
            },
            EngineKind::UnlimitedContext { window_size } => Engine::UnlimitedContext {
                window_size: *window_size as nat,
            },
            EngineKind::TurboQuant { bits } => Engine::TurboQuant { bits: *bits as nat },
            EngineKind::Apollo { injection_layer, inject_coefficient, top_k } => Engine::Apollo {
                injection_layer: count(*injection_layer),
                inject_coefficient: opt_text(*inject_coefficient),
                top_k: count(*top_k),
            },
            EngineKind::BoundaryKv { window_size, chunk_tokens, sequence_id } => Engine::BoundaryKv {
                window_size: count(*window_size),
                chunk_tokens: *chunk_tokens as nat,
                sequence_id: sequence_id@,
            },
            EngineKind::MarkovResidualCodec { window_size, codec } => Engine::MarkovResidualCodec {
                window_size: count(*window_size),
                codec: *codec,
            },
            EngineKind::BoundaryPerLayer { window_size, num_layers } => Engine::BoundaryPerLayer {
                window_size: count(*window_size),
                num_layers: *num_layers as nat,
            },
        }
    }
}

/// The value of the parameter `key` among `params`: the text behind the first
/// `=` of the last one whose text before it is `key`.
pub open spec fn param_value(params: Seq<Seq<char>>, key: Seq<char>) -> Option<Seq<char>>
    decreases params.len(),
{
    if params.len() == 0 {
        None
    } else {
        match cut(params.last(), '=') {
            Some((k, v)) => if k == key {
                Some(v)
            } else {
                param_value(params.drop_last(), key)
            },
            None => param_value(params.drop_last(), key),
        }
    }
}

/// The number that the parameter `key` gives, if it gives one.
pub open spec fn param_number(params: Seq<Seq<char>>, key: Seq<char>) -> Option<nat> {
    match param_value(params, key) {
        Some(v) => unsigned_of(v, usize::MAX as nat),
        None => None,
    }
}

/// The number that the parameter `key` gives, or else `default`.
pub open spec fn param_or(params: Seq<Seq<char>>, key: Seq<char>, default: nat) -> nat {
    match param_number(params, key) {
        Some(n) => n,
        None => default,
    }
}

/// The engine of the given name and parameters.
pub open spec fn engine_named(name: Seq<char>, params: Seq<Seq<char>>) -> Option<Engine> {
    let window = param_number(params, "window"@);
    if name == "standard"@ || name == "full"@ || name == "fp32"@ || name == "markov-bounded"@
        || name == "bounded"@ || name == "sliding"@ {
        Some(Engine::Standard { window_size: window })
    } else if name == "no-cache"@ || name == "no_cache"@ || name == "none"@ || name == "off"@ {
        Some(Engine::NoCache)
    } else if name == "markov-rs"@ || name == "markov_rs"@ || name == "markov-residual"@ || name
        == "markov_residual"@ {
        Some(Engine::MarkovResidual { window_size: window })
    } else if name == "unlimited"@ || name == "unlimited-context"@ || name
        == "unlimited_context"@ {
        Some(Engine::UnlimitedContext { window_size: param_or(params, "window"@, 512) })
    } else if name == "turbo-quant"@ || name == "turbo_quant"@ || name == "turboquant"@ || name
        == "tq4"@ {
        Some(Engine::TurboQuant { bits: param_or(params, "bits"@, 4) % 256 })
    } else if name == "tq3"@ {
        Some(Engine::TurboQuant { bits: 3 })
    } else if name == "apollo"@ {
        Some(
            Engine::Apollo {
                injection_layer: param_number(params, "layer"@),
                inject_coefficient: param_value(params, "coef"@),
                top_k: param_number(params, "top_k"@),
            },
        )
    } else if name == "boundary-kv"@ || name == "boundary_kv"@ || name == "boundary"@ {
        Some(
            Engine::BoundaryKv {
                window_size: window,
                chunk_tokens: param_or(params, "chunk_tokens"@, 512),
                sequence_id: match param_value(params, "sequence_id"@) {
                    Some(s) => s,
                    None => "default"@,
                },
            },
        )
    } else if name == "markov-rs-codec"@ || name == "markov_rs_codec"@ || name
        == "markov-residual-codec"@ || name == "markov_residual_codec"@ {
        Some(
            Engine::MarkovResidualCodec { window_size: window, codec: ColdResidualCodec::Bf16 },
        )
    } else if name == "boundary-per-layer"@ || name == "boundary_per_layer"@ || name
        == "boundary-pl"@ {
        Some(
            Engine::BoundaryPerLayer {
                window_size: window,
                num_layers: param_or(params, "layers"@, 34),
            },
        )
    } else {
        None
    }
}

/// The engine that a text asks for.  The name ends at the first colon; what
/// follows are the parameters.
pub open spec fn engine_of(spec: Seq<char>) -> Option<Engine> {
    match cut(spec, ':') {
        Some((name, params)) => engine_named(trimmed(name), pieces(params, ',')),
        None => engine_named(trimmed(spec), pieces(Seq::empty(), ',')),
    }
}

/// The name under which an engine is shown.
pub open spec fn shown_name(e: Engine) -> Seq<char> {
    match e {
        Engine::Standard { .. } => "standard"@,
        Engine::NoCache => "no-cache"@,
        Engine::MarkovResidual { .. } => "markov-rs"@,
        Engine::UnlimitedContext { .. } => "unlimited-context"@,
        Engine::TurboQuant { .. } => "turbo-quant"@,
        Engine::Apollo { .. } => "apollo"@,
        Engine::BoundaryKv { .. } => "boundary-kv"@,
        Engine::MarkovResidualCodec { .. } => "markov-rs-codec"@,
        Engine::BoundaryPerLayer { .. } => "boundary-per-layer"@,
    }
}

/// A parameter `key=value` gives the value, unless a later one has the same
/// key.
pub proof fn parameter_read(params: Seq<Seq<char>>, i: int, key: Seq<char>, value: Seq<char>)
    requires
        0 <= i < params.len(),
        params[i] == key + "="@ + value,
        !key.contains('='),
        forall|j: int|
            i < j < params.len() ==> !has_prefix(#[trigger] params[j], key + "="@),
    ensures
        param_value(params, key) == Some(value),
    decreases params.len(),
{
    reveal_strlit("=");
    let last = params.last();
    assert forall|j: int| 0 <= j < key.len() implies #[trigger] key[j] != '=' by {}
    if i == params.len() - 1 {
        assert forall|j: int| 0 <= j < key.len() implies #[trigger] last[j] != '=' by {
            assert(last[j] == key[j]);
        }
        until_is(last, '=', key.len() as int);
        assert(last.take(key.len() as int) =~= key);
        assert(last.skip(key.len() as int + 1) =~= value);
    } else {
        let init = params.drop_last();
        assert(init[i] == params[i]);
        assert forall|j: int| i < j < init.len() implies !has_prefix(
            #[trigger] init[j],
            key + "="@,
        ) by {
            assert(init[j] == params[j]);
        }
        parameter_read(init, i, key, value);
        if let Some((k, v)) = cut(last, '=') {
            if k == key {
                let n = until(last, '=') as int;
                until_holds(last, '=');
                assert(last.subrange(0, key.len() as int + 1) =~= key + "="@);
                assert(has_prefix(params[params.len() - 1], key + "="@));
            }
        }
    }
}

/// The character at the index where a text is cut is the one it is cut at.
proof fn until_holds(s: Seq<char>, c: char)
    ensures
        until(s, c) <= s.len(),
        until(s, c) < s.len() ==> s[until(s, c) as int] == c,
    decreases s.len(),
{
    if s.len() > 0 && s[0] != c {
        until_holds(s.skip(1), c);
    }
}

/// A parameter that no entry gives is not there.
pub proof fn parameter_absent(params: Seq<Seq<char>>, key: Seq<char>)
    requires
        forall|j: int| 0 <= j < params.len() ==> !has_prefix(#[trigger] params[j], key + "="@),
    ensures
        param_value(params, key) is None,
    decreases params.len(),
{
    reveal_strlit("=");
    if params.len() > 0 {
        let init = params.drop_last();
        let last = params.last();
        assert forall|j: int| 0 <= j < init.len() implies !has_prefix(
            #[trigger] init[j],
            key + "="@,
        ) by {
            assert(init[j] == params[j]);
        }
        parameter_absent(init, key);
        if let Some((k, v)) = cut(last, '=') {
            if k == key {
                until_holds(last, '=');
                assert(last.subrange(0, key.len() as int + 1) =~= key + "="@);
                assert(has_prefix(params[params.len() - 1], key + "="@));
            }
        }
    }
}

/// A parameter whose value is a number in decimal gives that number.
pub proof fn number_parameter(params: Seq<Seq<char>>, i: int, key: Seq<char>, n: nat)
    requires
        0 <= i < params.len(),
        params[i] == key + "="@ + decimal(n),
        n <= usize::MAX,
        !key.contains('='),
        forall|j: int|
            i < j < params.len() ==> !has_prefix(#[trigger] params[j], key + "="@),
    ensures
        param_number(params, key) == Some(n),
        param_or(params, key, 0) == n,
{
    parameter_read(params, i, key, decimal(n));
    unsigned_of_decimal(n, usize::MAX as nat);
}

/// The engines with a window: those that bound their cache only where one is
/// asked for, and the one that always has windows, of 512 tokens unless it is
/// told otherwise.
pub proof fn engines_with_a_window(params: Seq<Seq<char>>, n: nat)
    requires
        param_number(params, "window"@) == Some(n),
    ensures
        engine_named("standard"@, params) == Some(Engine::Standard { window_size: Some(n) }),
        engine_named("full"@, params) == engine_named("standard"@, params),
        engine_named("fp32"@, params) == engine_named("standard"@, params),
        engine_named("markov-bounded"@, params) == engine_named("standard"@, params),
        engine_named("bounded"@, params) == engine_named("standard"@, params),
        engine_named("sliding"@, params) == engine_named("standard"@, params),
        engine_named("markov-rs"@, params) == Some(
            Engine::MarkovResidual { window_size: Some(n) },
        ),
        engine_named("unlimited-context"@, params) == Some(
            Engine::UnlimitedContext { window_size: n },
        ),
        engine_named("boundary-kv"@, params) matches Some(Engine::BoundaryKv { window_size, .. })
            && window_size == Some(n),
        engine_named("markov-rs-codec"@, params) == Some(
            Engine::MarkovResidualCodec { window_size: Some(n), codec: ColdResidualCodec::Bf16 },
        ),
        engine_named("boundary-per-layer"@, params) matches Some(
            Engine::BoundaryPerLayer { window_size, .. },
        ) && window_size == Some(n),
{
    engine_names_differ();
}

/// What an engine is without parameters.
pub proof fn engines_by_default(params: Seq<Seq<char>>)
    requires
        forall|key: Seq<char>| #[trigger] param_value(params, key) is None,
    ensures
        engine_named("standard"@, params) == Some(Engine::Standard { window_size: None }),
        engine_named("no-cache"@, params) == Some(Engine::NoCache),
        engine_named("markov-rs"@, params) == Some(Engine::MarkovResidual { window_size: None }),
        engine_named("unlimited-context"@, params) == Some(
            Engine::UnlimitedContext { window_size: 512 },
        ),
        engine_named("turbo-quant"@, params) == Some(Engine::TurboQuant { bits: 4 }),
        engine_named("tq4"@, params) == Some(Engine::TurboQuant { bits: 4 }),
        engine_named("tq3"@, params) == Some(Engine::TurboQuant { bits: 3 }),
        engine_named("apollo"@, params) == Some(
            Engine::Apollo { injection_layer: None, inject_coefficient: None, top_k: None },
        ),
        engine_named("boundary-kv"@, params) == Some(
            Engine::BoundaryKv {
                window_size: None,
                chunk_tokens: 512,
                sequence_id: "default"@,
            },
        ),
        engine_named("markov-rs-codec"@, params) == Some(
            Engine::MarkovResidualCodec { window_size: None, codec: ColdResidualCodec::Bf16 },
        ),
        engine_named("boundary-per-layer"@, params) == Some(
            Engine::BoundaryPerLayer { window_size: None, num_layers: 34 },
        ),
{
    engine_names_differ();
    assert(param_value(params, "window"@) is None);
    assert(param_value(params, "bits"@) is None);
    assert(param_value(params, "layer"@) is None);
    assert(param_value(params, "coef"@) is None);
    assert(param_value(params, "top_k"@) is None);
    assert(param_value(params, "chunk_tokens"@) is None);
    assert(param_value(params, "sequence_id"@) is None);
    assert(param_value(params, "layers"@) is None);
}

/// Each parameter goes to its own engine under its own name.
pub proof fn other_parameters(params: Seq<Seq<char>>, n: nat, text: Seq<char>)
    ensures
        param_number(params, "bits"@) == Some(n) && n < 256 ==> engine_named("turbo-quant"@, params)
            == Some(Engine::TurboQuant { bits: n }),
        param_number(params, "layer"@) == Some(n) ==> (engine_named("apollo"@, params) matches Some(
            Engine::Apollo { injection_layer, .. },
        ) && injection_layer == Some(n)),
        param_value(params, "coef"@) == Some(text) ==> (engine_named("apollo"@, params) matches Some(
            Engine::Apollo { inject_coefficient, .. },
        ) && inject_coefficient == Some(text)),
        param_number(params, "top_k"@) == Some(n) ==> (engine_named("apollo"@, params) matches Some(
            Engine::Apollo { top_k, .. },
        ) && top_k == Some(n)),
        param_number(params, "chunk_tokens"@) == Some(n) ==> (engine_named(
            "boundary-kv"@,
            params,
        ) matches Some(Engine::BoundaryKv { chunk_tokens, .. }) && chunk_tokens == n),
        param_value(params, "sequence_id"@) == Some(text) ==> (engine_named(
            "boundary-kv"@,
            params,
        ) matches Some(Engine::BoundaryKv { sequence_id, .. }) && sequence_id == text),
        param_number(params, "layers"@) == Some(n) ==> (engine_named(
            "boundary-per-layer"@,
            params,
        ) matches Some(Engine::BoundaryPerLayer { num_layers, .. }) && num_layers == n),
{
    engine_names_differ();
    if n < 256 {
        assert(n % 256 == n);
    }
}

/// The other names of the engines.
pub proof fn engine_aliases(params: Seq<Seq<char>>)
    ensures
        engine_named("no_cache"@, params) == engine_named("no-cache"@, params),
        engine_named("none"@, params) == engine_named("no-cache"@, params),
        engine_named("off"@, params) == engine_named("no-cache"@, params),
        engine_named("markov_rs"@, params) == engine_named("markov-rs"@, params),
        engine_named("markov-residual"@, params) == engine_named("markov-rs"@, params),
        engine_named("markov_residual"@, params) == engine_named("markov-rs"@, params),
        engine_named("unlimited"@, params) == engine_named("unlimited-context"@, params),
        engine_named("unlimited_context"@, params) == engine_named("unlimited-context"@, params),
        engine_named("turbo_quant"@, params) == engine_named("turbo-quant"@, params),
        engine_named("turboquant"@, params) == engine_named("turbo-quant"@, params),
        engine_named("tq4"@, params) == engine_named("turbo-quant"@, params),
        engine_named("boundary_kv"@, params) == engine_named("boundary-kv"@, params),
        engine_named("boundary"@, params) == engine_named("boundary-kv"@, params),
        engine_named("markov_rs_codec"@, params) == engine_named("markov-rs-codec"@, params),
        engine_named("markov-residual-codec"@, params) == engine_named("markov-rs-codec"@, params),
        engine_named("markov_residual_codec"@, params) == engine_named("markov-rs-codec"@, params),
        engine_named("boundary_per_layer"@, params) == engine_named("boundary-per-layer"@, params),
        engine_named("boundary-pl"@, params) == engine_named("boundary-per-layer"@, params),
{
    engine_names_differ();
}

/// The texts of the engines' names.
proof fn engine_names_differ()
    ensures
        "standard"@.len() == 8,
        "full"@.len() == 4,
        "fp32"@.len() == 4,
        "markov-bounded"@.len() == 14,
        "bounded"@.len() == 7,
        "sliding"@.len() == 7,
        "no-cache"@.len() == 8,
        "no_cache"@.len() == 8,
        "none"@.len() == 4,
        "off"@.len() == 3,
        "markov-rs"@.len() == 9,
        "markov_rs"@.len() == 9,
        "markov-residual"@.len() == 15,
        "markov_residual"@.len() == 15,
        "unlimited"@.len() == 9,
        "unlimited-context"@.len() == 17,
        "unlimited_context"@.len() == 17,
        "turbo-quant"@.len() == 11,
        "turbo_quant"@.len() == 11,
        "turboquant"@.len() == 10,
        "tq4"@.len() == 3,
        "tq3"@.len() == 3,
        "apollo"@.len() == 6,
        "boundary-kv"@.len() == 11,
        "boundary_kv"@.len() == 11,
        "boundary"@.len() == 8,
        "markov-rs-codec"@.len() == 15,
        "markov_rs_codec"@.len() == 15,
        "markov-residual-codec"@.len() == 21,
        "markov_residual_codec"@.len() == 21,
        "boundary-per-layer"@.len() == 18,
        "boundary_per_layer"@.len() == 18,
        "boundary-pl"@.len() == 11,
        "fp32"@ != "full"@,
        "sliding"@ != "bounded"@,
        "no-cache"@ != "standard"@,
        "no_cache"@ != "standard"@,
        "no_cache"@ != "no-cache"@,
        "none"@ != "full"@,
        "none"@ != "fp32"@,
        "markov_rs"@ != "markov-rs"@,
        "markov_residual"@ != "markov-residual"@,
        "unlimited"@ != "markov-rs"@,
        "unlimited"@ != "markov_rs"@,
        "unlimited_context"@ != "unlimited-context"@,
        "turbo_quant"@ != "turbo-quant"@,
        "tq4"@ != "off"@,
        "tq3"@ != "off"@,
        "tq3"@ != "tq4"@,
        "boundary-kv"@ != "turbo-quant"@,
        "boundary-kv"@ != "turbo_quant"@,
        "boundary_kv"@ != "turbo-quant"@,
        "boundary_kv"@ != "turbo_quant"@,
        "boundary_kv"@ != "boundary-kv"@,
        "boundary"@ != "standard"@,
        "boundary"@ != "no-cache"@,
        "boundary"@ != "no_cache"@,
        "markov-rs-codec"@ != "markov-residual"@,
        "markov-rs-codec"@ != "markov_residual"@,
        "markov_rs_codec"@ != "markov-residual"@,
        "markov_rs_codec"@ != "markov_residual"@,
        "markov_rs_codec"@ != "markov-rs-codec"@,
        "markov_residual_codec"@ != "markov-residual-codec"@,
        "boundary_per_layer"@ != "boundary-per-layer"@,
        "boundary-pl"@ != "turbo-quant"@,
        "boundary-pl"@ != "turbo_quant"@,
        "boundary-pl"@ != "boundary-kv"@,
        "boundary-pl"@ != "boundary_kv"@,
{
    reveal_strlit("standard");
    reveal_strlit("full");
    reveal_strlit("fp32");
    reveal_strlit("markov-bounded");
    reveal_strlit("bounded");
    reveal_strlit("sliding");
    reveal_strlit("no-cache");
    reveal_strlit("no_cache");
    reveal_strlit("none");
    reveal_strlit("off");
    reveal_strlit("markov-rs");
    reveal_strlit("markov_rs");
    reveal_strlit("markov-residual");
    reveal_strlit("markov_residual");
    reveal_strlit("unlimited");
    reveal_strlit("unlimited-context");
    reveal_strlit("unlimited_context");
    reveal_strlit("turbo-quant");
    reveal_strlit("turbo_quant");
    reveal_strlit("turboquant");
    reveal_strlit("tq4");
    reveal_strlit("tq3");
    reveal_strlit("apollo");
    reveal_strlit("boundary-kv");
    reveal_strlit("boundary_kv");
    reveal_strlit("boundary");
    reveal_strlit("markov-rs-codec");
    reveal_strlit("markov_rs_codec");
    reveal_strlit("markov-residual-codec");
    reveal_strlit("markov_residual_codec");
    reveal_strlit("boundary-per-layer");
    reveal_strlit("boundary_per_layer");
    reveal_strlit("boundary-pl");
    assert("fp32"@[1] != "full"@[1]);
    assert("sliding"@[0] != "bounded"@[0]);
    assert("no-cache"@[0] != "standard"@[0]);
    assert("no_cache"@[0] != "standard"@[0]);
    assert("no_cache"@[2] != "no-cache"@[2]);
    assert("none"@[0] != "full"@[0]);
    assert("none"@[0] != "fp32"@[0]);
    assert("markov_rs"@[6] != "markov-rs"@[6]);
    assert("markov_residual"@[6] != "markov-residual"@[6]);
    assert("unlimited"@[0] != "markov-rs"@[0]);
    assert("unlimited"@[0] != "markov_rs"@[0]);
    assert("unlimited_context"@[9] != "unlimited-context"@[9]);
    assert("turbo_quant"@[5] != "turbo-quant"@[5]);
    assert("tq4"@[0] != "off"@[0]);
    assert("tq3"@[0] != "off"@[0]);
    assert("tq3"@[2] != "tq4"@[2]);
    assert("boundary-kv"@[0] != "turbo-quant"@[0]);
    assert("boundary-kv"@[0] != "turbo_quant"@[0]);
    assert("boundary_kv"@[0] != "turbo-quant"@[0]);
    assert("boundary_kv"@[0] != "turbo_quant"@[0]);
    assert("boundary_kv"@[8] != "boundary-kv"@[8]);
    assert("boundary"@[0] != "standard"@[0]);
    assert("boundary"@[0] != "no-cache"@[0]);
    assert("boundary"@[0] != "no_cache"@[0]);
    assert("markov-rs-codec"@[8] != "markov-residual"@[8]);
    assert("markov-rs-codec"@[6] != "markov_residual"@[6]);
    assert("markov_rs_codec"@[6] != "markov-residual"@[6]);
    assert("markov_rs_codec"@[8] != "markov_residual"@[8]);
    assert("markov_rs_codec"@[6] != "markov-rs-codec"@[6]);
    assert("markov_residual_codec"@[6] != "markov-residual-codec"@[6]);
    assert("boundary_per_layer"@[8] != "boundary-per-layer"@[8]);
    assert("boundary-pl"@[0] != "turbo-quant"@[0]);
    assert("boundary-pl"@[0] != "turbo_quant"@[0]);
    assert("boundary-pl"@[9] != "boundary-kv"@[9]);
    assert("boundary-pl"@[8] != "boundary_kv"@[8]);
}

/// The value of the parameter `key`.
fn find_param(params: &Vec<String>, key: &str) -> (r: Option<String>)
    ensures
        opt_text(r) == param_value(texts(params@), key@),
{
    let mut i: usize = params.len();
    assert(texts(params@).take(i as int) =~= texts(params@));
    while i > 0
        invariant
            0 <= i <= params.len(),
            param_value(texts(params@), key@) == param_value(texts(params@).take(i as int), key@),
        decreases i,
    {
        let ghost front = texts(params@).take(i as int);
        assert(front.last() == params@[i - 1]@);
        assert(front.drop_last() =~= texts(params@).take(i - 1));
        if let Some((k, v)) = split_once(params[i - 1].as_str(), '=') {
            if same(k.as_str(), key) {
                return Some(v);
            }
        }
        i -= 1;
    }
    None
}

/// The number that the parameter `key` gives.
fn find_number(params: &Vec<String>, key: &str) -> (r: Option<usize>)
    ensures
        count(r) == param_number(texts(params@), key@),
{
    match find_param(params, key) {
        Some(v) => parse_usize(v.as_str()),
        None => None,
    }
}

/// The number that the parameter `key` gives, or else `default`.
fn number_or(params: &Vec<String>, key: &str, default: usize) -> (r: usize)
    ensures
        r == param_or(texts(params@), key@, default as nat),
{
    match find_number(params, key) {
        Some(n) => n,
        None => default,
    }
}

/// What an optional engine says.
pub open spec fn opt_engine(e: Option<EngineKind>) -> Option<Engine> {
    match e {
        Some(k) => Some(k@),
        None => None,
    }
}

/// The engine of the given name and parameters.
fn named_engine(name: &str, params: &Vec<String>) -> (r: Option<EngineKind>)
    ensures
        opt_engine(r) == engine_named(name@, texts(params@)),
{
    if same(name, "standard") || same(name, "full") || same(name, "fp32") || same(
        name,
        "markov-bounded",
    ) || same(name, "bounded") || same(name, "sliding") {
        Some(EngineKind::Standard { window_size: find_number(params, "window") })
    } else if same(name, "no-cache") || same(name, "no_cache") || same(name, "none") || same(
        name,
        "off",
    ) {
        Some(EngineKind::NoCache)
    } else if same(name, "markov-rs") || same(name, "markov_rs") || same(name, "markov-residual")
        || same(name, "markov_residual") {
        Some(EngineKind::MarkovResidual { window_size: find_number(params, "window") })
    } else if same(name, "unlimited") || same(name, "unlimited-context") || same(
        name,
        "unlimited_context",
    ) {
        Some(EngineKind::UnlimitedContext { window_size: number_or(params, "window", 512) })
    } else if same(name, "turbo-quant") || same(name, "turbo_quant") || same(name, "turboquant")
        || same(name, "tq4") {
        let n = number_or(params, "bits", 4);
        Some(EngineKind::TurboQuant { bits: (n % 256) as u8 })
    } else if same(name, "tq3") {
        Some(EngineKind::TurboQuant { bits: 3 })
    } else if same(name, "apollo") {
        Some(
            EngineKind::Apollo {
                injection_layer: find_number(params, "layer"),
                inject_coefficient: find_param(params, "coef"),
                top_k: find_number(params, "top_k"),
            },
        )
    } else if same(name, "boundary-kv") || same(name, "boundary_kv") || same(name, "boundary") {
        let sequence_id = match find_param(params, "sequence_id") {
            Some(s) => s,
            None => "default".to_owned(),
        };
        Some(
            EngineKind::BoundaryKv {
                window_size: find_number(params, "window"),
                chunk_tokens: number_or(params, "chunk_tokens", 512),
                sequence_id,
            },
        )
    } else if same(name, "markov-rs-codec") || same(name, "markov_rs_codec") || same(
        name,
        "markov-residual-codec",
    ) || same(name, "markov_residual_codec") {
        Some(
            EngineKind::MarkovResidualCodec {
                window_size: find_number(params, "window"),
                codec: ColdResidualCodec::Bf16,
            },
        )
    } else if same(name, "boundary-per-layer") || same(name, "boundary_per_layer") || same(
        name,
        "boundary-pl",
    ) {
        Some(
            EngineKind::BoundaryPerLayer {
                window_size: find_number(params, "window"),
                num_layers: number_or(params, "layers", 34),
            },
        )
    } else {
        None
    }
}

/// What the pieces of a list of engines become: a piece that asks for an
/// engine starts a new entry, any other continues the entry before it.  The
/// first piece starts an entry in any case.
pub open spec fn merged(parts: Seq<Seq<char>>) -> Seq<Seq<char>>
    decreases parts.len(),
{
    if parts.len() == 0 {
        Seq::empty()
    } else {
        let before = merged(parts.drop_last());
        let piece = parts.last();
        if engine_of(piece) is Some || before.len() == 0 {
            before.push(piece)
        } else {
            before.drop_last().push(before.last() + ","@ + piece)
        }
    }
}

/// The pieces of `s` between the separators, each without the white space at
/// its ends; empty ones are left out.
pub open spec fn trimmed_pieces(parts: Seq<Seq<char>>) -> Seq<Seq<char>>
    decreases parts.len(),
{
    if parts.len() == 0 {
        Seq::empty()
    } else {
        let before = trimmed_pieces(parts.drop_last());
        if trimmed(parts.last()).len() > 0 {
            before.push(trimmed(parts.last()))
        } else {
            before
        }
    }
}

/// The entries of a list of engines.  Semicolons, where there are any,
/// separate the entries; else commas separate pieces, which are merged.
pub open spec fn engine_list(s: Seq<char>) -> Seq<Seq<char>> {
    if s.contains(';') {
        trimmed_pieces(pieces(s, ';'))
    } else {
        merged(trimmed_pieces(pieces(s, ',')))
    }
}

/// The trimmed pieces of `s`.
fn split_trimmed(s: &str, sep: char) -> (r: Vec<String>)
    ensures
        texts(r@) == trimmed_pieces(pieces(s@, sep)),
{
    let parts = split(s, sep);
    let ghost all = texts(parts@);
    let mut out: Vec<String> = Vec::new();
    let mut i: usize = 0;
    assert(all.take(0) =~= Seq::empty());
    assert(texts(out@) =~= Seq::empty());
    while i < parts.len()
        invariant
            0 <= i <= parts.len(),
            all == texts(parts@),
            texts(out@) == trimmed_pieces(all.take(i as int)),
        decreases parts.len() - i,
    {
        let ghost before = out@;
        assert(all.take(i + 1).drop_last() =~= all.take(i as int));
        assert(all.take(i + 1).last() == parts@[i as int]@);
        let piece = trim(parts[i].as_str());
        if !piece.as_str().is_empty() {
            let ghost text = piece@;
            out.push(piece);
            assert(texts(out@) =~= texts(before).push(text));
        }
        i += 1;
    }
    assert(all.take(i as int) =~= all);
    out
}

/// How an engine is to be set up.
pub struct EngineSetup {
    pub kind: EngineKind,
    /// Whether the engine retrieves, rather than keeps keys and values.
    pub retrieval: bool,
    /// Whether the engine times its stages.
    pub profiling: bool,
    /// The identity that a boundary engine is given.
    pub identity: Option<&'static str>,
}

/// The engines that can time their stages.
pub open spec fn can_profile(e: Engine) -> bool {
    e is MarkovResidual || e is UnlimitedContext || e is TurboQuant || e is MarkovResidualCodec
}

/// The identity that a boundary engine is given.
pub open spec fn identity_of(e: Engine) -> Option<Seq<char>> {
    match e {
        Engine::BoundaryKv { .. } => Some("boundary-kv-cli"@),
        Engine::BoundaryPerLayer { .. } => Some("cli"@),
        _ => None,
    }
}

impl EngineKind {
    /// The engine that `spec` asks for.
    pub fn from_name(spec: &str) -> (r: Option<EngineKind>)
        ensures
            opt_engine(r) == engine_of(spec@),
    {
        match split_once(spec, ':') {
            Some((name, params)) => {
                let parts = split(params.as_str(), ',');
                named_engine(trim(name.as_str()).as_str(), &parts)
            },
            None => {
                let parts = split("", ',');
                proof {
                    reveal_strlit("");
                    assert(""@ =~= Seq::empty());
                }
                named_engine(trim(spec).as_str(), &parts)
            },
        }
    }

    /// The entries of a list of engines.
    pub fn split_specs(spec: &str) -> (r: Vec<String>)
        ensures
            texts(r@) == engine_list(spec@),
    {
        if contains_char(spec, ';') {
            return split_trimmed(spec, ';');
        }
        let parts = split_trimmed(spec, ',');
        let ghost all = texts(parts@);
        let mut out: Vec<String> = Vec::new();
        let mut i: usize = 0;
        assert(all.take(0) =~= Seq::empty());
        assert(texts(out@) =~= Seq::empty());
        while i < parts.len()
            invariant
                0 <= i <= parts.len(),
                all == texts(parts@),
                texts(out@) == merged(all.take(i as int)),
            decreases parts.len() - i,
        {
            let ghost before = texts(out@);
            assert(all.take(i + 1).drop_last() =~= all.take(i as int));
            assert(all.take(i + 1).last() == parts@[i as int]@);
            let piece = parts[i].as_str();
            if EngineKind::from_name(piece).is_some() || out.len() == 0 {
                out.push(piece.to_owned());
                assert(texts(out@) =~= before.push(piece@));
            } else {
                let ghost old_list = out@;
                let mut last = out.pop().unwrap();
                assert(texts(out@) =~= before.drop_last());
                last.append(",");
                last.append(piece);
                let ghost text = last@;
                let ghost shorter = out@;
                out.push(last);
                assert(texts(out@) =~= texts(shorter).push(text));
            }
            i += 1;
        }
        assert(all.take(i as int) =~= all);
        out
    }

    /// The name under which the engine is shown.
    pub fn display_name(&self) -> (r: &'static str)
        ensures
            r@ == shown_name(self@),
    {
        match self {
            EngineKind::Standard { .. } => "standard",
            EngineKind::NoCache => "no-cache",
            EngineKind::MarkovResidual { .. } => "markov-rs",
            EngineKind::UnlimitedContext { .. } => "unlimited-context",
            EngineKind::TurboQuant { .. } => "turbo-quant",
            EngineKind::Apollo { .. } => "apollo",
            EngineKind::BoundaryKv { .. } => "boundary-kv",
            EngineKind::MarkovResidualCodec { .. } => "markov-rs-codec",
            EngineKind::BoundaryPerLayer { .. } => "boundary-per-layer",
        }
    }

    /// The names under which engines are shown, one for each kind.
    pub fn supported_names() -> (r: Vec<&'static str>)
        ensures
            Seq::new(r@.len(), |i: int| r@[i]@) == supported(),
    {
        let mut r: Vec<&'static str> = Vec::new();
        r.push("standard");
        r.push("no-cache");
        r.push("markov-rs");
        r.push("markov-rs-codec");
        r.push("unlimited-context");
        r.push("turbo-quant");
        r.push("apollo");
        r.push("boundary-kv");
        r.push("boundary-per-layer");
        assert(Seq::new(r@.len(), |i: int| r@[i]@) =~= supported());
        r
    }

    /// How the engine is to be set up, without timing.
    pub fn build(self) -> (r: EngineSetup)
        ensures
            r.kind@ == self@,
            r.retrieval == (self@ is Apollo),
            !r.profiling,
            (match r.identity {
                Some(s) => Some(s@),
                None => None,
            }) == identity_of(self@),
    {
        self.build_with_profiling(false)
    }

    /// How the engine is to be set up.  Timing is asked only of the engines
    /// that can do it.
    pub fn build_with_profiling(self, profiling: bool) -> (r: EngineSetup)
        ensures
            r.kind@ == self@,
            r.retrieval == (self@ is Apollo),
            r.profiling == (profiling && can_profile(self@)),
            (match r.identity {
                Some(s) => Some(s@),
                None => None,
            }) == identity_of(self@),
    {
        let (retrieval, can, identity): (bool, bool, Option<&'static str>) = match &self {
            EngineKind::Apollo { .. } => (true, false, None),
            EngineKind::MarkovResidual { .. } => (false, true, None),
            EngineKind::UnlimitedContext { .. } => (false, true, None),
            EngineKind::TurboQuant { .. } => (false, true, None),
            EngineKind::MarkovResidualCodec { .. } => (false, true, None),
            EngineKind::BoundaryKv { .. } => (false, false, Some("boundary-kv-cli")),
            EngineKind::BoundaryPerLayer { .. } => (false, false, Some("cli")),
            _ => (false, false, None),
        };
        EngineSetup { kind: self, retrieval, profiling: profiling && can, identity }
    }
}

/// The names under which engines are shown, one for each kind.
pub open spec fn supported() -> Seq<Seq<char>> {
    seq![
        "standard"@,
        "no-cache"@,
        "markov-rs"@,
        "markov-rs-codec"@,
        "unlimited-context"@,
        "turbo-quant"@,
        "apollo"@,
        "boundary-kv"@,
        "boundary-per-layer"@,
    ]
}

/// Merging the pieces of a list loses none of them: with commas between, the
/// entries read as the pieces do.
pub proof fn merging_loses_nothing(parts: Seq<Seq<char>>)
    ensures
        joined(merged(parts), ","@) == joined(parts, ","@),
        parts.len() > 0 ==> merged(parts).len() > 0,
    decreases parts.len(),
{
    if parts.len() > 0 {
        let init = parts.drop_last();
        let piece = parts.last();
        let before = merged(init);
        merging_loses_nothing(init);
        if engine_of(piece) is Some || before.len() == 0 {
            let all = before.push(piece);
            assert(all.drop_last() =~= before);
            if before.len() == 0 {
                assert(parts.len() == 1);
                assert(parts[0] == piece);
            }
        } else {
            let longer = before.last() + ","@ + piece;
            let all = before.drop_last().push(longer);
            assert(all.drop_last() =~= before.drop_last());
            assert(parts.len() > 1) by {
                if parts.len() == 1 {
                    assert(init =~= Seq::empty());
                }
            }
            assert(joined(all, ","@) =~= joined(before, ","@) + ","@ + piece);
        }
    }
}

/// Every kind of engine is shown under one of the supported names.
pub proof fn every_engine_is_supported(e: Engine)
    ensures
        supported().contains(shown_name(e)),
{
    let s = supported();
    assert(s[0] == "standard"@);
    assert(s[1] == "no-cache"@);
    assert(s[2] == "markov-rs"@);
    assert(s[3] == "markov-rs-codec"@);
    assert(s[4] == "unlimited-context"@);
    assert(s[5] == "turbo-quant"@);
    assert(s[6] == "apollo"@);
    assert(s[7] == "boundary-kv"@);
    assert(s[8] == "boundary-per-layer"@);
}

/// A name without colon and without white space at its ends asks for the
/// engine of that name, without parameters.
pub proof fn bare_name(name: Seq<char>)
    requires
        name.len() > 0,
        !name.contains(':'),
        !white_space(name[0]),
        !white_space(name.last()),
    ensures
        engine_of(name) == engine_named(name, pieces(Seq::empty(), ',')),
{
    assert forall|i: int| 0 <= i < name.len() implies #[trigger] name[i] != ':' by {}
    until_is(name, ':', name.len() as int);
    assert(leading_space(name) == 0);
    assert(name.skip(0) =~= name);
    assert(trailing_space(name) == 0);
    assert(name.take(name.len() as int) =~= name);
}

/// Each supported name asks for an engine that is shown under it.
pub proof fn supported_names_parse(i: int)
    requires
        0 <= i < supported().len(),
    ensures
        engine_of(supported()[i]) matches Some(e) && shown_name(e) == supported()[i],
{
    reveal_strlit("standard");
    reveal_strlit("full");
    reveal_strlit("fp32");
    reveal_strlit("markov-bounded");
    reveal_strlit("bounded");
    reveal_strlit("sliding");
    reveal_strlit("no-cache");
    reveal_strlit("no_cache");
    reveal_strlit("none");
    reveal_strlit("off");
    reveal_strlit("markov-rs");
    reveal_strlit("markov_rs");
    reveal_strlit("markov-residual");
    reveal_strlit("markov_residual");
    reveal_strlit("unlimited");
    reveal_strlit("unlimited-context");
    reveal_strlit("unlimited_context");
    reveal_strlit("turbo-quant");
    reveal_strlit("turbo_quant");
    reveal_strlit("turboquant");
    reveal_strlit("tq4");
    reveal_strlit("tq3");
    reveal_strlit("apollo");
    reveal_strlit("boundary-kv");
    reveal_strlit("boundary_kv");
    reveal_strlit("boundary");
    reveal_strlit("markov-rs-codec");
    reveal_strlit("markov_rs_codec");
    reveal_strlit("markov-residual-codec");
    reveal_strlit("markov_residual_codec");
    reveal_strlit("boundary-per-layer");
    let name = supported()[i];
    bare_name(name);
    assert(name.len() >= 6);
    if i == 0 {
    } else if i == 1 {
        assert(name[0] == 'n' && name.len() == 8);
    } else if i == 2 {
        assert(name[6] == '-' && name[7] == 'r');
    } else if i == 3 {
        assert(name[7] == 'r' && name.len() == 15);
    } else if i == 4 {
        assert(name[0] == 'u');
    } else if i == 5 {
        assert(name[0] == 't');
    } else if i == 6 {
        assert(name[0] == 'a');
    } else if i == 7 {
        assert(name[8] == '-');
    } else {
        assert(name[9] == 'p');
    }
}

/// An engine is set up as it is; only four kinds are asked to time their
/// stages, and only if that is wanted; one kind retrieves; the two boundary
/// kinds have identities.
pub proof fn engine_set_up(k: EngineKind, profiling: bool, r: EngineSetup)
    requires
        call_ensures(EngineKind::build_with_profiling, (k, profiling), r),
    ensures
        r.kind@ == k@,
        !profiling ==> !r.profiling,
        profiling ==> (r.profiling <==> k@ is MarkovResidual || k@ is UnlimitedContext || k@
            is TurboQuant || k@ is MarkovResidualCodec),
        r.retrieval <==> k@ is Apollo,
        k@ is BoundaryKv ==> (r.identity matches Some(s) && s@ == "boundary-kv-cli"@),
        k@ is BoundaryPerLayer ==> (r.identity matches Some(s) && s@ == "cli"@),
        !(k@ is BoundaryKv) && !(k@ is BoundaryPerLayer) ==> r.identity is None,
{
}

/// Without timing an engine is set up as with it, but for that.
pub proof fn engine_set_up_plainly(k: EngineKind, a: EngineSetup, b: EngineSetup)
    requires
        call_ensures(EngineKind::build, (k,), a),
        call_ensures(EngineKind::build_with_profiling, (k, false), b),
    ensures
        a.kind@ == b.kind@,
        !a.profiling && !b.profiling,
        a.retrieval == b.retrieval,
        a.identity is Some <==> b.identity is Some,
{
}

/// A text that is trimmed, not empty and without the separator.
pub open spec fn is_entry(s: Seq<char>, sep: char) -> bool {
    &&& s.len() > 0
    &&& bare(s)
    &&& forall|i: int| 0 <= i < s.len() ==> #[trigger] s[i] != sep
}

/// The trimmed pieces of two entries with white space around them.
proof fn two_pieces(a: Seq<char>, b: Seq<char>, space: Seq<char>, sep: char)
    requires
        is_entry(a, sep),
        is_entry(b, sep),
        all_space(space),
        forall|i: int| 0 <= i < space.len() ==> #[trigger] space[i] != sep,
    ensures
        trimmed_pieces(pieces((a + space).push(sep) + (space + b), sep)) == seq![a, b],
{
    let left = a + space;
    let right = space + b;
    assert forall|i: int| 0 <= i < left.len() implies #[trigger] left[i] != sep by {
        if i < a.len() {
            assert(left[i] == a[i]);
        } else {
            assert(left[i] == space[i - a.len()]);
        }
    }
    assert forall|i: int| 0 <= i < right.len() implies #[trigger] right[i] != sep by {
        if i < space.len() {
            assert(right[i] == space[i]);
        } else {
            assert(right[i] == b[i - space.len()]);
        }
    }
    one_piece(left, sep);
    separator_starts_piece(left, sep, right);
    let none = Seq::<char>::empty();
    trimming_takes_space(none, a, space);
    trimming_takes_space(space, b, none);
    assert(none + a + space =~= left);
    assert(space + b + none =~= right);
    let parts = seq![left].push(right);
    assert(parts.drop_last() =~= seq![left]);
    assert(seq![left].drop_last() =~= Seq::<Seq<char>>::empty());
    assert(trimmed_pieces(Seq::<Seq<char>>::empty()) =~= Seq::<Seq<char>>::empty());
    assert(trimmed_pieces(seq![left]) =~= seq![a]);
    assert(trimmed_pieces(parts) =~= seq![a, b]);
}

/// A semicolon separates two entries of a list, whatever they are; without one
/// a comma does so before a piece that asks for an engine, and before any other
/// it goes on with the entry.  White space around them says nothing.
pub proof fn entries_separated(a: Seq<char>, b: Seq<char>, space: Seq<char>)
    requires
        is_entry(a, ';') && is_entry(a, ','),
        is_entry(b, ';') && is_entry(b, ','),
        all_space(space),
    ensures
        engine_list((a + space).push(';') + (space + b)) == seq![a, b],
        engine_of(b) is Some ==> engine_list((a + space).push(',') + (space + b)) == seq![a, b],
        engine_of(b) is None ==> engine_list((a + space).push(',') + (space + b)) == seq![
            a + ","@ + b,
        ],
{
    assert forall|i: int| 0 <= i < space.len() implies #[trigger] space[i] != ';' && space[i]
        != ',' by {
        assert(white_space(space[i]));
    }
    two_pieces(a, b, space, ';');
    two_pieces(a, b, space, ',');
    let s = (a + space).push(';') + (space + b);
    assert(s[(a + space).len() as int] == ';');
    let t = (a + space).push(',') + (space + b);
    assert forall|i: int| 0 <= i < t.len() implies t[i] != ';' by {
        if i < a.len() {
            assert(t[i] == a[i]);
        } else if i < a.len() + space.len() {
            assert(t[i] == space[i - a.len()]);
        } else if i == a.len() + space.len() {
            assert(t[i] == ',');
        } else if i < a.len() + 1 + 2 * space.len() {
            assert(t[i] == space[i - a.len() - space.len() - 1]);
        } else {
            assert(t[i] == b[i - a.len() - 1 - 2 * space.len()]);
        }
    }
    assert(!t.contains(';'));
    let parts = seq![a, b];
    assert(parts.drop_last() =~= seq![a]);
    assert(seq![a].drop_last() =~= Seq::<Seq<char>>::empty());
    assert(merged(Seq::<Seq<char>>::empty()) =~= Seq::<Seq<char>>::empty());
    assert(merged(seq![a]) =~= seq![a]);
    if engine_of(b) is Some {
        assert(merged(parts) =~= seq![a, b]);
    } else {
        assert(merged(parts) =~= seq![a + ","@ + b]);
    }
}

/// No other names ask for an engine.
pub proof fn other_names_ask_for_nothing(name: Seq<char>, params: Seq<Seq<char>>)
    ensures
        engine_named(name, params) is Some ==> seq![
            "standard"@,
            "full"@,
            "fp32"@,
            "markov-bounded"@,
            "bounded"@,
            "sliding"@,
            "no-cache"@,
            "no_cache"@,
            "none"@,
            "off"@,
            "markov-rs"@,
            "markov_rs"@,
            "markov-residual"@,
            "markov_residual"@,
            "unlimited"@,
            "unlimited-context"@,
            "unlimited_context"@,
            "turbo-quant"@,
            "turbo_quant"@,
            "turboquant"@,
            "tq4"@,
            "tq3"@,
            "apollo"@,
            "boundary-kv"@,
            "boundary_kv"@,
            "boundary"@,
            "markov-rs-codec"@,
            "markov_rs_codec"@,
            "markov-residual-codec"@,
            "markov_residual_codec"@,
            "boundary-per-layer"@,
            "boundary_per_layer"@,
            "boundary-pl"@,
        ].contains(name),
{
    let all = seq![
        "standard"@,
        "full"@,
        "fp32"@,
        "markov-bounded"@,
        "bounded"@,
        "sliding"@,
        "no-cache"@,
        "no_cache"@,
        "none"@,
        "off"@,
        "markov-rs"@,
        "markov_rs"@,
        "markov-residual"@,
        "markov_residual"@,
        "unlimited"@,
        "unlimited-context"@,
        "unlimited_context"@,
        "turbo-quant"@,
        "turbo_quant"@,
        "turboquant"@,
        "tq4"@,
        "tq3"@,
        "apollo"@,
        "boundary-kv"@,
        "boundary_kv"@,
        "boundary"@,
        "markov-rs-codec"@,
        "markov_rs_codec"@,
        "markov-residual-codec"@,
        "markov_residual_codec"@,
        "boundary-per-layer"@,
        "boundary_per_layer"@,
        "boundary-pl"@,
    ];
    assert(all[0] == "standard"@);
    assert(all[1] == "full"@);
    assert(all[2] == "fp32"@);
    assert(all[3] == "markov-bounded"@);
    assert(all[4] == "bounded"@);
    assert(all[5] == "sliding"@);
    assert(all[6] == "no-cache"@);
    assert(all[7] == "no_cache"@);
    assert(all[8] == "none"@);
    assert(all[9] == "off"@);
    assert(all[10] == "markov-rs"@);
    assert(all[11] == "markov_rs"@);
    assert(all[12] == "markov-residual"@);
    assert(all[13] == "markov_residual"@);
    assert(all[14] == "unlimited"@);
    assert(all[15] == "unlimited-context"@);
    assert(all[16] == "unlimited_context"@);
    assert(all[17] == "turbo-quant"@);
    assert(all[18] == "turbo_quant"@);
    assert(all[19] == "turboquant"@);
    assert(all[20] == "tq4"@);
    assert(all[21] == "tq3"@);
    assert(all[22] == "apollo"@);
    assert(all[23] == "boundary-kv"@);
    assert(all[24] == "boundary_kv"@);
    assert(all[25] == "boundary"@);
    assert(all[26] == "markov-rs-codec"@);
    assert(all[27] == "markov_rs_codec"@);
    assert(all[28] == "markov-residual-codec"@);
    assert(all[29] == "markov_residual_codec"@);
    assert(all[30] == "boundary-per-layer"@);
    assert(all[31] == "boundary_per_layer"@);
    assert(all[32] == "boundary-pl"@);
}

/// A name with a window behind a colon asks for the engine of that name with
/// that window.
pub proof fn window_asked_for(spec: &str, r: Option<EngineKind>, n: nat)
    requires
        call_ensures(EngineKind::from_name, (spec,), r),
        n <= usize::MAX,
    ensures
        spec@ == "standard"@ + ":"@ + ("window"@ + "="@ + decimal(n)) ==> (r matches Some(k) && k@
            == Engine::Standard { window_size: Some(n) }),
        spec@ == "unlimited-context"@ + ":"@ + ("window"@ + "="@ + decimal(n)) ==> (r matches Some(
            k,
        ) && k@ == Engine::UnlimitedContext { window_size: n }),
        spec@ == "markov-rs"@ + ":"@ + ("window"@ + "="@ + decimal(n)) ==> (r matches Some(k) && k@
            == Engine::MarkovResidual { window_size: Some(n) }),
{
    let param = "window"@ + "="@ + decimal(n);
    reveal_strlit("window");
    reveal_strlit("=");
    reveal_strlit(":");
    reveal_strlit("standard");
    reveal_strlit("unlimited-context");
    reveal_strlit("markov-rs");
    decimal_is_digits(n);
    assert forall|i: int| 0 <= i < param.len() implies #[trigger] param[i] != ',' by {
        if i >= 7 {
            assert(param[i] == decimal(n)[i - 7]);
            assert(is_digit(decimal(n)[i - 7]));
        }
    }
    one_piece(param, ',');
    let params = seq![param];
    assert(params[0] == param);
    number_parameter(params, 0, "window"@, n);
    engines_with_a_window(params, n);
    cut_name("standard"@, param);
    cut_name("unlimited-context"@, param);
    cut_name("markov-rs"@, param);
}

/// A name in front of a colon is cut off there and stays as it is.
proof fn cut_name(name: Seq<char>, param: Seq<char>)
    requires
        bare(name),
        name.len() > 0,
        forall|i: int| 0 <= i < name.len() ==> #[trigger] name[i] != ':',
    ensures
        cut(name + ":"@ + param, ':') == Some((name, param)),
        trimmed(name) == name,
{
    reveal_strlit(":");
    assert(name + ":"@ + param =~= name.push(':') + param);
    cut_at_first(name, ':', param);
    let none = Seq::<char>::empty();
    trimming_takes_space(none, name, none);
    assert(none + name + none =~= name);
}

/// The name that each engine is shown under.
pub proof fn names_shown(k: &EngineKind, r: &'static str)
    requires
        call_ensures(EngineKind::display_name, (k,), r),
    ensures
        k@ is Standard ==> r@ == "standard"@,
        k@ is NoCache ==> r@ == "no-cache"@,
        k@ is MarkovResidual ==> r@ == "markov-rs"@,
        k@ is UnlimitedContext ==> r@ == "unlimited-context"@,
        k@ is TurboQuant ==> r@ == "turbo-quant"@,
        k@ is Apollo ==> r@ == "apollo"@,
        k@ is BoundaryKv ==> r@ == "boundary-kv"@,
        k@ is MarkovResidualCodec ==> r@ == "markov-rs-codec"@,
        k@ is BoundaryPerLayer ==> r@ == "boundary-per-layer"@,
{
}

/// Two entries with a semicolon between them are listed in their order, without
/// the white space around it.
pub proof fn entries_listed(
    spec: &str,
    r: Vec<String>,
    a: Seq<char>,
    b: Seq<char>,
    space: Seq<char>,
)
    requires
        call_ensures(EngineKind::split_specs, (spec,), r),
        is_entry(a, ';') && is_entry(a, ','),
        is_entry(b, ';') && is_entry(b, ','),
        all_space(space),
        spec@ == (a + space).push(';') + (space + b),
    ensures
        texts(r@) == seq![a, b],
{
    entries_separated(a, b, space);
}

} // verus!
