//! The names of a layer's tensors: each known name becomes its key, and a key
//! stays what it is.
use vstd::prelude::*;

use crate::gguf::keys::{gguf_key, key_rules, replaced_nothing, rewritten};
use crate::text::{
    decimal, decimal_is_digits, has_prefix, has_substring, has_suffix, is_digit, occurs_at,
    replaced,
};

verus! {

/// There is no dot in `s`.
pub open spec fn dotless(s: Seq<char>) -> bool {
    forall|i: int| 0 <= i < s.len() ==> #[trigger] s[i] != '.'
}

/// The parts, each with a dot behind it, and then `x`.
pub open spec fn dotted(parts: Seq<Seq<char>>, x: Seq<char>) -> Seq<char>
    decreases parts.len(),
{
    if parts.len() == 0 {
        x
    } else {
        parts[0].push('.') + dotted(parts.skip(1), x)
    }
}

/// A part of a name with a dot behind it.
pub open spec fn is_pattern(pat: Seq<char>) -> bool {
    pat.len() >= 2 && pat.last() == '.' && dotless(pat.drop_last())
}

/// No part has a dot, and none ends with what stands before the pattern's dot.
pub open spec fn parts_clear(parts: Seq<Seq<char>>, pat: Seq<char>) -> bool {
    forall|i: int|
        0 <= i < parts.len() ==> dotless(#[trigger] parts[i]) && !has_suffix(
            parts[i],
            pat.drop_last(),
        )
}

/// The name in a file of a tensor of layer `n`: rule `j` rewrites the part
/// that says which tensor it is.
pub open spec fn layer_name(n: nat, j: int, x: Seq<char>) -> Seq<char> {
    "blk."@ + decimal(n) + "."@ + key_rules()[j].0 + x
}

/// The key of a tensor of layer `n`.
pub open spec fn layer_tensor_key(n: nat, j: int, x: Seq<char>) -> Seq<char> {
    "layers."@ + decimal(n) + "."@ + key_rules()[j].1 + x
}

/// A part that is the pattern's is replaced; one that does not end with it
/// stays.
proof fn part_replaced(a: Seq<char>, rest: Seq<char>, pat: Seq<char>, to: Seq<char>)
    requires
        dotless(a),
        is_pattern(pat),
        a == pat.drop_last() || !has_suffix(a, pat.drop_last()),
    ensures
        replaced(a.push('.') + rest, pat, to) == (if a == pat.drop_last() {
            to
        } else {
            a.push('.')
        }) + replaced(rest, pat, to),
    decreases a.len(),
{
    let s = a.push('.') + rest;
    let w = pat.drop_last();
    if a == w {
        assert(a.push('.') =~= pat);
        assert(s.subrange(0, pat.len() as int) =~= pat);
        assert(s.skip(pat.len() as int) =~= rest);
    } else {
        if has_prefix(s, pat) {
            assert(s.subrange(0, pat.len() as int) == pat);
            let last = pat.len() - 1;
            assert(s[last] == s.subrange(0, pat.len() as int)[last]);
            if last < a.len() {
                assert(s[last] == a[last]);
            } else if last > a.len() {
                let at = a.len() as int;
                assert(s[at] == '.');
                assert(s[at] == s.subrange(0, pat.len() as int)[at]);
                assert(w[at] == pat[at]);
            } else {
                assert(a =~= w) by {
                    assert forall|i: int| 0 <= i < a.len() implies a[i] == w[i] by {
                        assert(s[i] == s.subrange(0, pat.len() as int)[i]);
                    }
                }
            }
        }
        if a.len() == 0 {
            assert(s.skip(1) =~= rest);
            assert(seq![s[0]] =~= a.push('.'));
        } else {
            let b = a.skip(1);
            assert(s.skip(1) =~= b.push('.') + rest);
            assert forall|i: int| 0 <= i < b.len() implies #[trigger] b[i] != '.' by {
                assert(b[i] == a[i + 1]);
            }
            if has_suffix(b, w) {
                assert(b.subrange(b.len() - w.len(), b.len() as int) =~= a.subrange(
                    a.len() - w.len(),
                    a.len() as int,
                ));
                assert(has_suffix(a, w));
            }
            if b == w {
                assert(a.subrange(a.len() - w.len(), a.len() as int) =~= w);
                assert(has_suffix(a, w));
            }
            part_replaced(b, rest, pat, to);
            assert(seq![s[0]] + (b.push('.') + replaced(rest, pat, to)) =~= a.push('.') + replaced(
                rest,
                pat,
                to,
            ));
        }
    }
}

/// A pattern does not occur where there is no dot.
proof fn nothing_in_dotless(x: Seq<char>, pat: Seq<char>, to: Seq<char>)
    requires
        dotless(x),
        is_pattern(pat),
    ensures
        replaced(x, pat, to) == x,
{
    if has_substring(x, pat) {
        let i = choose|i: int| #[trigger] occurs_at(x, pat, i);
        assert(x.subrange(i, i + pat.len())[pat.len() - 1] == '.');
        assert(x[i + pat.len() - 1] == '.');
    }
    replaced_nothing(x, pat, to);
}

/// Where no part ends with the pattern, nothing is replaced.
proof fn parts_kept(parts: Seq<Seq<char>>, x: Seq<char>, pat: Seq<char>, to: Seq<char>)
    requires
        parts_clear(parts, pat),
        dotless(x),
        is_pattern(pat),
    ensures
        replaced(dotted(parts, x), pat, to) == dotted(parts, x),
    decreases parts.len(),
{
    if parts.len() == 0 {
        nothing_in_dotless(x, pat, to);
    } else {
        let rest = parts.skip(1);
        assert forall|i: int| 0 <= i < rest.len() implies dotless(#[trigger] rest[i])
            && !has_suffix(rest[i], pat.drop_last()) by {
            assert(rest[i] == parts[i + 1]);
        }
        parts_kept(rest, x, pat, to);
        assert(dotless(parts[0]));
        if parts[0] == pat.drop_last() {
            assert(parts[0].subrange(0, parts[0].len() as int) =~= parts[0]);
            assert(has_suffix(parts[0], pat.drop_last()));
        }
        part_replaced(parts[0], dotted(rest, x), pat, to);
    }
}

/// The pattern behind other parts is replaced, and nothing else is.
proof fn pattern_replaced(parts: Seq<Seq<char>>, x: Seq<char>, pat: Seq<char>, to: Seq<char>)
    requires
        parts_clear(parts, pat),
        dotless(x),
        is_pattern(pat),
    ensures
        replaced(dotted(parts, pat + x), pat, to) == dotted(parts, to + x),
    decreases parts.len(),
{
    if parts.len() == 0 {
        let w = pat.drop_last();
        assert(w.push('.') =~= pat);
        part_replaced(w, x, pat, to);
        nothing_in_dotless(x, pat, to);
    } else {
        let rest = parts.skip(1);
        assert forall|i: int| 0 <= i < rest.len() implies dotless(#[trigger] rest[i])
            && !has_suffix(rest[i], pat.drop_last()) by {
            assert(rest[i] == parts[i + 1]);
        }
        pattern_replaced(rest, x, pat, to);
        assert(dotless(parts[0]));
        if parts[0] == pat.drop_last() {
            assert(parts[0].subrange(0, parts[0].len() as int) =~= parts[0]);
            assert(has_suffix(parts[0], pat.drop_last()));
        }
        part_replaced(parts[0], dotted(rest, pat + x), pat, to);
    }
}

/// The last letter of what rule `k` rewrites, before its dot.
spec fn end_letter(k: int) -> char {
    if k == 0 {
        'k'
    } else if k == 1 {
        'v'
    } else if k == 2 {
        'q'
    } else if k == 3 {
        'k'
    } else if k == 4 {
        'v'
    } else if k == 5 {
        't'
    } else if k == 6 {
        'e'
    } else if k == 7 {
        'p'
    } else if k == 8 {
        'n'
    } else if k == 9 {
        'm'
    } else if k == 10 {
        'm'
    } else if k == 11 {
        'd'
    } else if k == 12 {
        'd'
    } else if k == 13 {
        'm'
    } else {
        't'
    }
}

/// What each rule rewrites is a part with a dot behind it.
proof fn rule_facts(k: int)
    requires
        0 <= k < 15,
    ensures
        is_pattern(key_rules()[k].0),
        key_rules()[k].0[key_rules()[k].0.len() - 2] == end_letter(k),
{
    let pat = key_rules()[k].0;

    if k == 0 {
        reveal_strlit("blk.");
        assert(pat == "blk."@);
    } else if k == 1 {
        reveal_strlit("attn_qkv.");
        assert(pat == "attn_qkv."@);
    } else if k == 2 {
        reveal_strlit("attn_q.");
        assert(pat == "attn_q."@);
    } else if k == 3 {
        reveal_strlit("attn_k.");
        assert(pat == "attn_k."@);
    } else if k == 4 {
        reveal_strlit("attn_v.");
        assert(pat == "attn_v."@);
    } else if k == 5 {
        reveal_strlit("attn_output.");
        assert(pat == "attn_output."@);
    } else if k == 6 {
        reveal_strlit("ffn_gate.");
        assert(pat == "ffn_gate."@);
    } else if k == 7 {
        reveal_strlit("ffn_up.");
        assert(pat == "ffn_up."@);
    } else if k == 8 {
        reveal_strlit("ffn_down.");
        assert(pat == "ffn_down."@);
    } else if k == 9 {
        reveal_strlit("attn_norm.");
        assert(pat == "attn_norm."@);
    } else if k == 10 {
        reveal_strlit("ffn_norm.");
        assert(pat == "ffn_norm."@);
    } else if k == 11 {
        reveal_strlit("token_embd.");
        assert(pat == "token_embd."@);
    } else if k == 12 {
        reveal_strlit("position_embd.");
        assert(pat == "position_embd."@);
    } else if k == 13 {
        reveal_strlit("output_norm.");
        assert(pat == "output_norm."@);
    } else if k == 14 {
        reveal_strlit("output.");
        assert(pat == "output."@);
    }
    assert(dotless(pat.drop_last()));
}

/// A part does not end with a word where their letters differ, `d` letters
/// before the end.
proof fn not_suffix(part: Seq<char>, w: Seq<char>, d: int)
    requires
        1 <= d <= w.len(),
        d <= part.len() ==> part[part.len() - d] != w[w.len() - d],
    ensures
        !has_suffix(part, w),
{
    if has_suffix(part, w) {
        let tail = part.subrange(part.len() - w.len(), part.len() as int);
        assert(tail[w.len() - d] == part[part.len() - d]);
    }
}

/// The parts of what rule `j` puts in place of a layer's part.
pub open spec fn target_parts(j: int) -> Seq<Seq<char>> {

    if j == 1 {
        seq!["self_attn"@, "qkv_proj"@]
    } else if j == 2 {
        seq!["self_attn"@, "q_proj"@]
    } else if j == 3 {
        seq!["self_attn"@, "k_proj"@]
    } else if j == 4 {
        seq!["self_attn"@, "v_proj"@]
    } else if j == 5 {
        seq!["self_attn"@, "o_proj"@]
    } else if j == 6 {
        seq!["mlp"@, "gate_proj"@]
    } else if j == 7 {
        seq!["mlp"@, "up_proj"@]
    } else if j == 8 {
        seq!["mlp"@, "down_proj"@]
    } else if j == 9 {
        seq!["input_layernorm"@]
    } else {
        seq!["post_attention_layernorm"@]
    }
}

/// What rule `j` puts in place of a layer's part is its parts, each with a dot
/// behind it, and none of them has a dot.
proof fn target_facts(j: int)
    requires
        1 <= j <= 10,
    ensures
        key_rules()[j].1 == dotted(target_parts(j), Seq::empty()),
        forall|i: int| 0 <= i < target_parts(j).len() ==> dotless(#[trigger] target_parts(j)[i]),
{
    reveal_with_fuel(dotted, 3);
    let parts = target_parts(j);
    let to = key_rules()[j].1;

    if j == 1 {
        reveal_strlit("self_attn.qkv_proj.");
        reveal_strlit("self_attn");
        reveal_strlit("qkv_proj");
        assert(to == "self_attn.qkv_proj."@);
        assert(parts[0] == "self_attn"@ && dotless(parts[0]));
        assert(parts[1] == "qkv_proj"@ && dotless(parts[1]));
        assert(parts.skip(1).skip(1) =~= Seq::empty());
        assert(parts.skip(1)[0] == parts[1]);
    } else if j == 2 {
        reveal_strlit("self_attn.q_proj.");
        reveal_strlit("self_attn");
        reveal_strlit("q_proj");
        assert(to == "self_attn.q_proj."@);
        assert(parts[0] == "self_attn"@ && dotless(parts[0]));
        assert(parts[1] == "q_proj"@ && dotless(parts[1]));
        assert(parts.skip(1).skip(1) =~= Seq::empty());
        assert(parts.skip(1)[0] == parts[1]);
    } else if j == 3 {
        reveal_strlit("self_attn.k_proj.");
        reveal_strlit("self_attn");
        reveal_strlit("k_proj");
        assert(to == "self_attn.k_proj."@);
        assert(parts[0] == "self_attn"@ && dotless(parts[0]));
        assert(parts[1] == "k_proj"@ && dotless(parts[1]));
        assert(parts.skip(1).skip(1) =~= Seq::empty());
        assert(parts.skip(1)[0] == parts[1]);
    } else if j == 4 {
        reveal_strlit("self_attn.v_proj.");
        reveal_strlit("self_attn");
        reveal_strlit("v_proj");
        assert(to == "self_attn.v_proj."@);
        assert(parts[0] == "self_attn"@ && dotless(parts[0]));
        assert(parts[1] == "v_proj"@ && dotless(parts[1]));
        assert(parts.skip(1).skip(1) =~= Seq::empty());
        assert(parts.skip(1)[0] == parts[1]);
    } else if j == 5 {
        reveal_strlit("self_attn.o_proj.");
        reveal_strlit("self_attn");
        reveal_strlit("o_proj");
        assert(to == "self_attn.o_proj."@);
        assert(parts[0] == "self_attn"@ && dotless(parts[0]));
        assert(parts[1] == "o_proj"@ && dotless(parts[1]));
        assert(parts.skip(1).skip(1) =~= Seq::empty());
        assert(parts.skip(1)[0] == parts[1]);
    } else if j == 6 {
        reveal_strlit("mlp.gate_proj.");
        reveal_strlit("mlp");
        reveal_strlit("gate_proj");
        assert(to == "mlp.gate_proj."@);
        assert(parts[0] == "mlp"@ && dotless(parts[0]));
        assert(parts[1] == "gate_proj"@ && dotless(parts[1]));
        assert(parts.skip(1).skip(1) =~= Seq::empty());
        assert(parts.skip(1)[0] == parts[1]);
    } else if j == 7 {
        reveal_strlit("mlp.up_proj.");
        reveal_strlit("mlp");
        reveal_strlit("up_proj");
        assert(to == "mlp.up_proj."@);
        assert(parts[0] == "mlp"@ && dotless(parts[0]));
        assert(parts[1] == "up_proj"@ && dotless(parts[1]));
        assert(parts.skip(1).skip(1) =~= Seq::empty());
        assert(parts.skip(1)[0] == parts[1]);
    } else if j == 8 {
        reveal_strlit("mlp.down_proj.");
        reveal_strlit("mlp");
        reveal_strlit("down_proj");
        assert(to == "mlp.down_proj."@);
        assert(parts[0] == "mlp"@ && dotless(parts[0]));
        assert(parts[1] == "down_proj"@ && dotless(parts[1]));
        assert(parts.skip(1).skip(1) =~= Seq::empty());
        assert(parts.skip(1)[0] == parts[1]);
    } else if j == 9 {
        reveal_strlit("input_layernorm.");
        reveal_strlit("input_layernorm");
        assert(to == "input_layernorm."@);
        assert(parts[0] == "input_layernorm"@ && dotless(parts[0]));
        assert(parts.skip(1) =~= Seq::empty());
    } else {
        reveal_strlit("post_attention_layernorm.");
        reveal_strlit("post_attention_layernorm");
        assert(to == "post_attention_layernorm."@);
        assert(parts[0] == "post_attention_layernorm"@ && dotless(parts[0]));
        assert(parts.skip(1) =~= Seq::empty());
    }
    assert(to =~= dotted(parts, Seq::empty()));
}

/// No part that a rule puts in place of a layer's part ends with what a rule
/// rewrites.
proof fn target_clear(j: int, k: int)
    requires
        1 <= j <= 10,
        0 <= k < 15,
    ensures
        parts_clear(target_parts(j), key_rules()[k].0),
{
    let pat = key_rules()[k].0;
    let w = pat.drop_last();
    let parts = target_parts(j);
    rule_facts(k);
    target_facts(j);
    assert(w.last() == end_letter(k));

    if j <= 5 {
        reveal_strlit("self_attn");
        reveal_strlit("qkv_proj");
        reveal_strlit("q_proj");
        reveal_strlit("k_proj");
        reveal_strlit("v_proj");
        reveal_strlit("o_proj");
        reveal_strlit("ffn_down.");
        if k == 8 {
            not_suffix(parts[0], w, 2);
        } else {
            not_suffix(parts[0], w, 1);
        }
        not_suffix(parts[1], w, 1);
    } else if j <= 8 {
        reveal_strlit("mlp");
        reveal_strlit("gate_proj");
        reveal_strlit("up_proj");
        reveal_strlit("down_proj");
        reveal_strlit("ffn_up.");
        if k == 7 {
            not_suffix(parts[0], w, 2);
        } else {
            not_suffix(parts[0], w, 1);
        }
        not_suffix(parts[1], w, 1);
    } else {
        reveal_strlit("input_layernorm");
        reveal_strlit("post_attention_layernorm");
        reveal_strlit("attn_norm.");
        reveal_strlit("ffn_norm.");
        reveal_strlit("output_norm.");
        if k == 9 || k == 10 || k == 13 {
            not_suffix(parts[0], w, 5);
        } else {
            not_suffix(parts[0], w, 1);
        }
    }
}

/// What rule `j` rewrites does not end with what an earlier rule rewrites.
proof fn source_clear(j: int, k: int)
    requires
        0 <= k < j <= 10,
    ensures
        dotless(key_rules()[j].0.drop_last()),
        !has_suffix(key_rules()[j].0.drop_last(), key_rules()[k].0.drop_last()),
{
    rule_facts(j);
    rule_facts(k);
    let part = key_rules()[j].0.drop_last();
    let w = key_rules()[k].0.drop_last();
    assert(part.last() == end_letter(j) && w.last() == end_letter(k));
    if j == 3 && k == 0 {
        reveal_strlit("attn_k.");
        reveal_strlit("blk.");
        not_suffix(part, w, 2);
    } else if j == 4 && k == 1 {
        reveal_strlit("attn_v.");
        reveal_strlit("attn_qkv.");
        not_suffix(part, w, 2);
    } else if j == 10 && k == 9 {
        reveal_strlit("ffn_norm.");
        reveal_strlit("attn_norm.");
        not_suffix(part, w, 7);
    } else {
        not_suffix(part, w, 1);
    }
}

/// Neither the word in front of a layer's number nor the number ends with what
/// a rule rewrites.
proof fn head_clear(n: nat, k: int)
    requires
        0 <= k < 15,
    ensures
        parts_clear(seq!["layers"@, decimal(n)], key_rules()[k].0),
{
    let pat = key_rules()[k].0;
    let w = pat.drop_last();
    let parts = seq!["layers"@, decimal(n)];
    rule_facts(k);
    assert(w.last() == end_letter(k));
    reveal_strlit("layers");
    assert(dotless(parts[0]));
    not_suffix(parts[0], w, 1);
    decimal_is_digits(n);
    assert forall|i: int| 0 <= i < decimal(n).len() implies #[trigger] decimal(n)[i] != '.' by {
        assert(is_digit(decimal(n)[i]));
    }
    assert(is_digit(decimal(n).last()));
    not_suffix(parts[1], w, 1);
}

/// The first `k + 1` rules are the first `k` and then rule `k`.
proof fn one_more_rule(s: Seq<char>, k: int)
    requires
        0 <= k < 15,
    ensures
        rewritten(s, key_rules().take(k + 1)) == replaced(
            rewritten(s, key_rules().take(k)),
            key_rules()[k].0,
            key_rules()[k].1,
        ),
{
    assert(key_rules().take(k + 1).drop_last() =~= key_rules().take(k));
}

/// Parts in front of parts in front of a text.
proof fn dotted_twice(a: Seq<Seq<char>>, b: Seq<Seq<char>>, x: Seq<char>)
    ensures
        dotted(a + b, x) == dotted(a, dotted(b, x)),
    decreases a.len(),
{
    if a.len() == 0 {
        assert(a + b =~= b);
    } else {
        assert((a + b).skip(1) =~= a.skip(1) + b);
        dotted_twice(a.skip(1), b, x);
    }
}

/// Parts in front of a text are parts in front of nothing, and then the text.
proof fn dotted_ends(a: Seq<Seq<char>>, x: Seq<char>)
    ensures
        dotted(a, Seq::empty()) + x == dotted(a, x),
    decreases a.len(),
{
    if a.len() == 0 {
        assert(Seq::<char>::empty() + x =~= x);
    } else {
        dotted_ends(a.skip(1), x);
        assert(a[0].push('.') + dotted(a.skip(1), Seq::empty()) + x =~= a[0].push('.') + (dotted(
            a.skip(1),
            Seq::empty(),
        ) + x));
    }
}

/// The parts of two lists are clear of a pattern if those of each list are.
proof fn clear_together(a: Seq<Seq<char>>, b: Seq<Seq<char>>, pat: Seq<char>)
    requires
        parts_clear(a, pat),
        parts_clear(b, pat),
    ensures
        parts_clear(a + b, pat),
{
    let parts = a + b;
    assert forall|i: int| 0 <= i < parts.len() implies dotless(#[trigger] parts[i])
        && !has_suffix(parts[i], pat.drop_last()) by {
        if i < a.len() {
            assert(parts[i] == a[i]);
        } else {
            assert(parts[i] == b[i - a.len()]);
        }
    }
}

/// A key of a layer's tensor, part by part.
proof fn key_parts(n: nat, j: int, x: Seq<char>)
    requires
        1 <= j <= 10,
    ensures
        layer_tensor_key(n, j, x) == dotted(seq!["layers"@, decimal(n)] + target_parts(j), x),
        layer_tensor_key(n, j, x) == dotted(seq!["layers"@, decimal(n)], key_rules()[j].1 + x),
{
    let head = seq!["layers"@, decimal(n)];
    let tail = key_rules()[j].1 + x;
    target_facts(j);
    dotted_ends(target_parts(j), x);
    dotted_twice(head, target_parts(j), x);
    reveal_strlit("layers");
    reveal_strlit("layers.");
    reveal_strlit(".");
    reveal_with_fuel(dotted, 3);
    assert(head.skip(1).skip(1) =~= Seq::empty());
    assert(head.skip(1)[0] == decimal(n));
    assert(layer_tensor_key(n, j, x) =~= "layers"@.push('.') + (decimal(n).push('.') + tail));
}

/// The key of a layer's tensor is not changed by the first `k` rules.
proof fn key_stays(n: nat, j: int, x: Seq<char>, s: Seq<char>, from: int, k: int)
    requires
        1 <= j <= 10,
        dotless(x),
        0 <= from <= k <= 15,
        rewritten(s, key_rules().take(from)) == layer_tensor_key(n, j, x),
    ensures
        rewritten(s, key_rules().take(k)) == layer_tensor_key(n, j, x),
    decreases k,
{
    if from < k {
        let pat = key_rules()[k - 1].0;
        key_stays(n, j, x, s, from, k - 1);
        one_more_rule(s, k - 1);
        key_parts(n, j, x);
        rule_facts(k - 1);
        head_clear(n, k - 1);
        target_clear(j, k - 1);
        let head = seq!["layers"@, decimal(n)];
        clear_together(head, target_parts(j), pat);
        parts_kept(head + target_parts(j), x, pat, key_rules()[k - 1].1);
    }
}

/// Before rule `j`, only the word in front of the number has been rewritten.
proof fn name_until(n: nat, j: int, x: Seq<char>, k: int)
    requires
        1 <= k <= j <= 10,
        dotless(x),
    ensures
        rewritten(layer_name(n, j, x), key_rules().take(k)) == dotted(
            seq!["layers"@, decimal(n)],
            key_rules()[j].0 + x,
        ),
    decreases k,
{
    let s = layer_name(n, j, x);
    let pat = key_rules()[k - 1].0;
    let part = key_rules()[j].0.drop_last();
    let head = seq!["layers"@, decimal(n)];
    let number = seq![decimal(n)];
    let tail = key_rules()[j].0 + x;
    rule_facts(j);
    rule_facts(k - 1);
    source_clear(j, k - 1);
    head_clear(n, k - 1);
    reveal_with_fuel(dotted, 3);
    assert(seq![part].skip(1) =~= Seq::empty());
    assert(part.push('.') =~= key_rules()[j].0);
    assert(tail =~= dotted(seq![part], x));
    assert(parts_clear(seq![part], pat));
    one_more_rule(s, k - 1);
    if k == 1 {
        assert(key_rules().take(0) =~= Seq::empty());
        assert(rewritten(s, key_rules().take(0)) == s);
        reveal_strlit("blk.");
        reveal_strlit("layers.");
        reveal_strlit("layers");
        reveal_strlit(".");
        assert(parts_clear(number, pat)) by {
            assert(head[1] == decimal(n));
        }
        clear_together(number, seq![part], pat);
        parts_kept(number + seq![part], x, pat, key_rules()[0].1);
        dotted_twice(number, seq![part], x);
        assert(number.skip(1) =~= Seq::empty());
        let rest = decimal(n).push('.') + tail;
        assert(dotted(number + seq![part], x) == rest);
        let blk = pat.drop_last();
        assert(s =~= blk.push('.') + rest);
        part_replaced(blk, rest, pat, key_rules()[0].1);
        assert(head.skip(1).skip(1) =~= Seq::empty());
        assert(head.skip(1)[0] == decimal(n));
        assert("layers."@ =~= "layers"@.push('.'));
    } else {
        name_until(n, j, x, k - 1);
        clear_together(head, seq![part], pat);
        parts_kept(head + seq![part], x, pat, key_rules()[k - 1].1);
        dotted_twice(head, seq![part], x);
    }
}

/// Each known name of a layer's tensor becomes its key, whatever follows the
/// last dot: `blk` becomes `layers`, and the part that says which tensor it is
/// becomes what its own rule says.  A key stays what it is.
pub proof fn layer_name_becomes_key(n: nat, j: int, x: Seq<char>)
    requires
        1 <= j <= 10,
        dotless(x),
    ensures
        gguf_key(layer_name(n, j, x)) == layer_tensor_key(n, j, x),
        gguf_key(layer_tensor_key(n, j, x)) == layer_tensor_key(n, j, x),
{
    let s = layer_name(n, j, x);
    let key = layer_tensor_key(n, j, x);
    let head = seq!["layers"@, decimal(n)];
    name_until(n, j, x, j);
    one_more_rule(s, j);
    rule_facts(j);
    head_clear(n, j);
    pattern_replaced(head, x, key_rules()[j].0, key_rules()[j].1);
    key_parts(n, j, x);
    key_stays(n, j, x, s, j + 1, 15);
    assert(key_rules().take(15) =~= key_rules());
    assert(key_rules().take(0) =~= Seq::empty());
    assert(rewritten(key, key_rules().take(0)) == key);
    key_stays(n, j, x, key, 0, 15);
}

/// The keys of a layer's tensors, written out: query, key, value, fused and
/// output projections, the three feed-forward projections and the two norms.
pub proof fn layer_keys_are(n: nat, x: Seq<char>)
    requires
        dotless(x),
    ensures
        gguf_key("blk."@ + decimal(n) + ".attn_qkv."@ + x) == "layers."@ + decimal(n) + ".self_attn.qkv_proj."@ + x,
        gguf_key("blk."@ + decimal(n) + ".attn_q."@ + x) == "layers."@ + decimal(n) + ".self_attn.q_proj."@ + x,
        gguf_key("blk."@ + decimal(n) + ".attn_k."@ + x) == "layers."@ + decimal(n) + ".self_attn.k_proj."@ + x,
        gguf_key("blk."@ + decimal(n) + ".attn_v."@ + x) == "layers."@ + decimal(n) + ".self_attn.v_proj."@ + x,
        gguf_key("blk."@ + decimal(n) + ".attn_output."@ + x) == "layers."@ + decimal(n) + ".self_attn.o_proj."@ + x,
        gguf_key("blk."@ + decimal(n) + ".ffn_gate."@ + x) == "layers."@ + decimal(n) + ".mlp.gate_proj."@ + x,
        gguf_key("blk."@ + decimal(n) + ".ffn_up."@ + x) == "layers."@ + decimal(n) + ".mlp.up_proj."@ + x,
        gguf_key("blk."@ + decimal(n) + ".ffn_down."@ + x) == "layers."@ + decimal(n) + ".mlp.down_proj."@ + x,
        gguf_key("blk."@ + decimal(n) + ".attn_norm."@ + x) == "layers."@ + decimal(n) + ".input_layernorm."@ + x,
        gguf_key("blk."@ + decimal(n) + ".ffn_norm."@ + x) == "layers."@ + decimal(n) + ".post_attention_layernorm."@ + x,
{
    reveal_strlit(".");
    layer_name_becomes_key(n, 1, x);
    reveal_strlit("attn_qkv.");
    reveal_strlit(".attn_qkv.");
    reveal_strlit("self_attn.qkv_proj.");
    reveal_strlit(".self_attn.qkv_proj.");
    assert(layer_name(n, 1, x) =~= "blk."@ + decimal(n) + ".attn_qkv."@ + x);
    assert(layer_tensor_key(n, 1, x) =~= "layers."@ + decimal(n) + ".self_attn.qkv_proj."@ + x);
    layer_name_becomes_key(n, 2, x);
    reveal_strlit("attn_q.");
    reveal_strlit(".attn_q.");
    reveal_strlit("self_attn.q_proj.");
    reveal_strlit(".self_attn.q_proj.");
    assert(layer_name(n, 2, x) =~= "blk."@ + decimal(n) + ".attn_q."@ + x);
    assert(layer_tensor_key(n, 2, x) =~= "layers."@ + decimal(n) + ".self_attn.q_proj."@ + x);
    layer_name_becomes_key(n, 3, x);
    reveal_strlit("attn_k.");
    reveal_strlit(".attn_k.");
    reveal_strlit("self_attn.k_proj.");
    reveal_strlit(".self_attn.k_proj.");
    assert(layer_name(n, 3, x) =~= "blk."@ + decimal(n) + ".attn_k."@ + x);
    assert(layer_tensor_key(n, 3, x) =~= "layers."@ + decimal(n) + ".self_attn.k_proj."@ + x);
    layer_name_becomes_key(n, 4, x);
    reveal_strlit("attn_v.");
    reveal_strlit(".attn_v.");
    reveal_strlit("self_attn.v_proj.");
    reveal_strlit(".self_attn.v_proj.");
    assert(layer_name(n, 4, x) =~= "blk."@ + decimal(n) + ".attn_v."@ + x);
    assert(layer_tensor_key(n, 4, x) =~= "layers."@ + decimal(n) + ".self_attn.v_proj."@ + x);
    layer_name_becomes_key(n, 5, x);
    reveal_strlit("attn_output.");
    reveal_strlit(".attn_output.");
    reveal_strlit("self_attn.o_proj.");
    reveal_strlit(".self_attn.o_proj.");
    assert(layer_name(n, 5, x) =~= "blk."@ + decimal(n) + ".attn_output."@ + x);
    assert(layer_tensor_key(n, 5, x) =~= "layers."@ + decimal(n) + ".self_attn.o_proj."@ + x);
    layer_name_becomes_key(n, 6, x);
    reveal_strlit("ffn_gate.");
    reveal_strlit(".ffn_gate.");
    reveal_strlit("mlp.gate_proj.");
    reveal_strlit(".mlp.gate_proj.");
    assert(layer_name(n, 6, x) =~= "blk."@ + decimal(n) + ".ffn_gate."@ + x);
    assert(layer_tensor_key(n, 6, x) =~= "layers."@ + decimal(n) + ".mlp.gate_proj."@ + x);
    layer_name_becomes_key(n, 7, x);
    reveal_strlit("ffn_up.");
    reveal_strlit(".ffn_up.");
    reveal_strlit("mlp.up_proj.");
    reveal_strlit(".mlp.up_proj.");
    assert(layer_name(n, 7, x) =~= "blk."@ + decimal(n) + ".ffn_up."@ + x);
    assert(layer_tensor_key(n, 7, x) =~= "layers."@ + decimal(n) + ".mlp.up_proj."@ + x);
    layer_name_becomes_key(n, 8, x);
    reveal_strlit("ffn_down.");
    reveal_strlit(".ffn_down.");
    reveal_strlit("mlp.down_proj.");
    reveal_strlit(".mlp.down_proj.");
    assert(layer_name(n, 8, x) =~= "blk."@ + decimal(n) + ".ffn_down."@ + x);
    assert(layer_tensor_key(n, 8, x) =~= "layers."@ + decimal(n) + ".mlp.down_proj."@ + x);
    layer_name_becomes_key(n, 9, x);
    reveal_strlit("attn_norm.");
    reveal_strlit(".attn_norm.");
    reveal_strlit("input_layernorm.");
    reveal_strlit(".input_layernorm.");
    assert(layer_name(n, 9, x) =~= "blk."@ + decimal(n) + ".attn_norm."@ + x);
    assert(layer_tensor_key(n, 9, x) =~= "layers."@ + decimal(n) + ".input_layernorm."@ + x);
    layer_name_becomes_key(n, 10, x);
    reveal_strlit("ffn_norm.");
    reveal_strlit(".ffn_norm.");
    reveal_strlit("post_attention_layernorm.");
    reveal_strlit(".post_attention_layernorm.");
    assert(layer_name(n, 10, x) =~= "blk."@ + decimal(n) + ".ffn_norm."@ + x);
    assert(layer_tensor_key(n, 10, x) =~= "layers."@ + decimal(n) + ".post_attention_layernorm."@ + x);
}

/// What rule `j` rewrites of a name outside the layers does not end with what
/// an earlier rule rewrites, and what it puts in its place does not end with
/// what any rule rewrites.
proof fn outer_clear(j: int, k: int)
    requires
        11 <= j <= 14,
        0 <= k < 15,
    ensures
        k < j ==> !has_suffix(key_rules()[j].0.drop_last(), key_rules()[k].0.drop_last()),
        is_pattern(key_rules()[j].1),
        !has_suffix(key_rules()[j].1.drop_last(), key_rules()[k].0.drop_last()),
{
    rule_facts(j);
    rule_facts(k);
    let part = key_rules()[j].0.drop_last();
    let target = key_rules()[j].1.drop_last();
    let w = key_rules()[k].0.drop_last();
    assert(part.last() == end_letter(j) && w.last() == end_letter(k));
    reveal_strlit("token_embd.");
    reveal_strlit("embed_tokens.");
    reveal_strlit("position_embd.");
    reveal_strlit("wpe.");
    reveal_strlit("output_norm.");
    reveal_strlit("norm.");
    reveal_strlit("output.");
    reveal_strlit("lm_head.");
    reveal_strlit("attn_output.");
    reveal_strlit("ffn_gate.");
    reveal_strlit("attn_norm.");
    reveal_strlit("ffn_norm.");
    assert(dotless(target));
    if k < j {
        if j == 12 && k == 11 {
            not_suffix(part, w, 7);
        } else if j == 13 && (k == 9 || k == 10) {
            not_suffix(part, w, 6);
        } else if j == 14 && k == 5 {
            not_suffix(part, w, 7);
        } else {
            not_suffix(part, w, 1);
        }
    }
    if j == 12 && k == 6 {
        not_suffix(target, w, 2);
    } else if j == 13 && (k == 9 || k == 10 || k == 13) {
        not_suffix(target, w, 5);
    } else if j == 14 && (k == 11 || k == 12) {
        not_suffix(target, w, 2);
    } else {
        not_suffix(target, w, 1);
    }
}

/// Before rule `j` nothing of its name is rewritten, and behind it nothing of
/// its key.
proof fn outer_name_until(j: int, x: Seq<char>, k: int)
    requires
        11 <= j <= 14,
        dotless(x),
        0 <= k <= 15,
    ensures
        rewritten(key_rules()[j].0 + x, key_rules().take(k)) == (if k <= j {
            key_rules()[j].0 + x
        } else {
            key_rules()[j].1 + x
        }),
        rewritten(key_rules()[j].1 + x, key_rules().take(k)) == key_rules()[j].1 + x,
    decreases k,
{
    let name = key_rules()[j].0 + x;
    let key = key_rules()[j].1 + x;
    if k == 0 {
        assert(key_rules().take(0) =~= Seq::empty());
        assert(rewritten(name, key_rules().take(0)) == name);
        assert(rewritten(key, key_rules().take(0)) == key);
    } else {
        let pat = key_rules()[k - 1].0;
        let to = key_rules()[k - 1].1;
        outer_name_until(j, x, k - 1);
        one_more_rule(name, k - 1);
        one_more_rule(key, k - 1);
        rule_facts(j);
        rule_facts(k - 1);
        outer_clear(j, k - 1);
        let part = key_rules()[j].0.drop_last();
        let target = key_rules()[j].1.drop_last();
        assert(part.push('.') =~= key_rules()[j].0);
        assert(target.push('.') =~= key_rules()[j].1);
        nothing_in_dotless(x, pat, to);
        part_replaced(target, x, pat, to);
        if target == pat.drop_last() {
            assert(target.subrange(0, target.len() as int) =~= target);
            assert(has_suffix(target, pat.drop_last()));
        }
        if k - 1 < j {
            if part == pat.drop_last() {
                assert(part.subrange(0, part.len() as int) =~= part);
                assert(has_suffix(part, pat.drop_last()));
            }
            part_replaced(part, x, pat, to);
        } else if k - 1 == j {
            part_replaced(part, x, pat, to);
        }
    }
}

/// The keys outside the layers, written out: the embedding of tokens, that of
/// positions, the last norm and the output matrix.  A key stays what it is.
pub proof fn outer_keys_are(x: Seq<char>)
    requires
        dotless(x),
    ensures
        gguf_key("token_embd."@ + x) == "embed_tokens."@ + x,
        gguf_key("embed_tokens."@ + x) == "embed_tokens."@ + x,
        gguf_key("position_embd."@ + x) == "wpe."@ + x,
        gguf_key("wpe."@ + x) == "wpe."@ + x,
        gguf_key("output_norm."@ + x) == "norm."@ + x,
        gguf_key("norm."@ + x) == "norm."@ + x,
        gguf_key("output."@ + x) == "lm_head."@ + x,
        gguf_key("lm_head."@ + x) == "lm_head."@ + x,
{
    assert(key_rules().take(15) =~= key_rules());
    outer_name_until(11, x, 15);
    outer_name_until(12, x, 15);
    outer_name_until(13, x, 15);
    outer_name_until(14, x, 15);
}

} // verus!
