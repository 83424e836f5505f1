//! Tensor names: from the names that GGUF files use to the keys that the rest
//! of the program uses.
use vstd::prelude::*;

use crate::text::{has_prefix, has_substring, occurs_at, replace, replaced, strip_prefix, texts};

verus! {

/// The parts of names that are rewritten, in order.
pub open spec fn key_rules() -> Seq<(Seq<char>, Seq<char>)> {
    seq![
        ("blk."@, "layers."@),
        ("attn_qkv."@, "self_attn.qkv_proj."@),
        ("attn_q."@, "self_attn.q_proj."@),
        ("attn_k."@, "self_attn.k_proj."@),
        ("attn_v."@, "self_attn.v_proj."@),
        ("attn_output."@, "self_attn.o_proj."@),
        ("ffn_gate."@, "mlp.gate_proj."@),
        ("ffn_up."@, "mlp.up_proj."@),
        ("ffn_down."@, "mlp.down_proj."@),
        ("attn_norm."@, "input_layernorm."@),
        ("ffn_norm."@, "post_attention_layernorm."@),
        ("token_embd."@, "embed_tokens."@),
        ("position_embd."@, "wpe."@),
        ("output_norm."@, "norm."@),
        ("output."@, "lm_head."@),
    ]
}

/// `s` after each of `rules` in turn.
pub open spec fn rewritten(s: Seq<char>, rules: Seq<(Seq<char>, Seq<char>)>) -> Seq<char>
    decreases rules.len(),
{
    if rules.len() == 0 {
        s
    } else {
        replaced(rewritten(s, rules.drop_last()), rules.last().0, rules.last().1)
    }
}

/// The key of the tensor that a GGUF file calls `name`.
pub open spec fn gguf_key(name: Seq<char>) -> Seq<char> {
    rewritten(name, key_rules())
}

/// Where a pattern does not occur, replacing it changes nothing.
pub proof fn replaced_nothing(s: Seq<char>, pat: Seq<char>, with: Seq<char>)
    requires
        !has_substring(s, pat),
    ensures
        replaced(s, pat, with) == s,
    decreases s.len(),
{
    if s.len() > 0 && pat.len() > 0 {
        assert(!occurs_at(s, pat, 0));
        assert(!has_substring(s.skip(1), pat)) by {
            if has_substring(s.skip(1), pat) {
                let i = choose|i: int| #[trigger] occurs_at(s.skip(1), pat, i);
                assert(s.skip(1).subrange(i, i + pat.len()) =~= s.subrange(
                    i + 1,
                    i + 1 + pat.len(),
                ));
                assert(occurs_at(s, pat, i + 1));
            }
        }
        replaced_nothing(s.skip(1), pat, with);
        assert(seq![s[0]] + s.skip(1) =~= s);
    }
}

/// A name in which none of the rewritten parts occurs is its own key.
pub proof fn key_of_plain_name(name: Seq<char>, rules: Seq<(Seq<char>, Seq<char>)>)
    requires
        forall|i: int| 0 <= i < rules.len() ==> !has_substring(name, (#[trigger] rules[i]).0),
    ensures
        rewritten(name, rules) == name,
    decreases rules.len(),
{
    if rules.len() > 0 {
        assert forall|i: int| 0 <= i < rules.drop_last().len() implies !has_substring(
            name,
            (#[trigger] rules.drop_last()[i]).0,
        ) by {
            assert(!has_substring(name, rules[i].0));
        }
        key_of_plain_name(name, rules.drop_last());
        assert(rules.last() == rules[rules.len() - 1]);
        replaced_nothing(name, rules.last().0, rules.last().1);
    }
}

/// What a list of rewriting rules says.
spec fn rule_texts(v: Seq<(&str, &str)>) -> Seq<(Seq<char>, Seq<char>)> {
    v.map_values(|r: (&str, &str)| (r.0@, r.1@))
}

/// The rewriting rules.
fn key_rule_list() -> (r: Vec<(&'static str, &'static str)>)
    ensures
        rule_texts(r@) == key_rules(),
        forall|i: int| 0 <= i < r@.len() ==> (#[trigger] r@[i]).0@.len() > 0,
{
    proof {
        reveal_strlit("blk.");
        reveal_strlit("attn_qkv.");
        reveal_strlit("attn_q.");
        reveal_strlit("attn_k.");
        reveal_strlit("attn_v.");
        reveal_strlit("attn_output.");
        reveal_strlit("ffn_gate.");
        reveal_strlit("ffn_up.");
        reveal_strlit("ffn_down.");
        reveal_strlit("attn_norm.");
        reveal_strlit("ffn_norm.");
        reveal_strlit("token_embd.");
        reveal_strlit("position_embd.");
        reveal_strlit("output_norm.");
        reveal_strlit("output.");
    }
    let mut r: Vec<(&'static str, &'static str)> = Vec::new();
    r.push(("blk.", "layers."));
    r.push(("attn_qkv.", "self_attn.qkv_proj."));
    r.push(("attn_q.", "self_attn.q_proj."));
    r.push(("attn_k.", "self_attn.k_proj."));
    r.push(("attn_v.", "self_attn.v_proj."));
    r.push(("attn_output.", "self_attn.o_proj."));
    r.push(("ffn_gate.", "mlp.gate_proj."));
    r.push(("ffn_up.", "mlp.up_proj."));
    r.push(("ffn_down.", "mlp.down_proj."));
    r.push(("attn_norm.", "input_layernorm."));
    r.push(("ffn_norm.", "post_attention_layernorm."));
    r.push(("token_embd.", "embed_tokens."));
    r.push(("position_embd.", "wpe."));
    r.push(("output_norm.", "norm."));
    r.push(("output.", "lm_head."));
    assert(rule_texts(r@) =~= key_rules());
    r
}

/// The key of the tensor that a GGUF file calls `name`.
pub fn normalize_gguf_key(name: &str) -> (r: String)
    ensures
        r@ == gguf_key(name@),
{
    let rules = key_rule_list();
    let mut out = name.to_owned();
    let mut i: usize = 0;
    assert(rule_texts(rules@).take(0) =~= Seq::empty());
    while i < rules.len()
        invariant
            0 <= i <= rules.len(),
            rule_texts(rules@) == key_rules(),
            forall|k: int| 0 <= k < rules@.len() ==> (#[trigger] rules@[k]).0@.len() > 0,
            out@ == rewritten(name@, rule_texts(rules@).take(i as int)),
        decreases rules.len() - i,
    {
        assert(rule_texts(rules@).take(i + 1).drop_last() =~= rule_texts(rules@).take(i as int));
        assert(rules@[i as int].0@.len() > 0);
        let (from, to) = rules[i];
        out = replace(out.as_str(), from, to);
        i += 1;
    }
    assert(rule_texts(rules@).take(i as int) =~= rule_texts(rules@));
    out
}

/// `key` without the first of `prefixes` that it starts with.
pub open spec fn stripped(key: Seq<char>, prefixes: Seq<Seq<char>>) -> Seq<char>
    decreases prefixes.len(),
{
    if prefixes.len() == 0 {
        key
    } else if has_prefix(key, prefixes[0]) {
        key.skip(prefixes[0].len() as int)
    } else {
        stripped(key, prefixes.skip(1))
    }
}

/// `key` without the first of `prefixes` that it starts with.
pub fn normalize_key(key: &str, prefixes: &Vec<String>) -> (r: String)
    ensures
        r@ == stripped(key@, texts(prefixes@)),
{
    let mut i: usize = 0;
    assert(texts(prefixes@).skip(0) =~= texts(prefixes@));
    while i < prefixes.len()
        invariant
            0 <= i <= prefixes.len(),
            stripped(key@, texts(prefixes@)) == stripped(key@, texts(prefixes@).skip(i as int)),
        decreases prefixes.len() - i,
    {
        let ghost rest = texts(prefixes@).skip(i as int);
        assert(rest[0] == prefixes@[i as int]@);
        assert(rest.skip(1) =~= texts(prefixes@).skip(i + 1));
        if let Some(tail) = strip_prefix(key, prefixes[i].as_str()) {
            return tail;
        }
        i += 1;
    }
    assert(texts(prefixes@).skip(i as int) =~= Seq::empty());
    key.to_owned()
}

} // verus!
