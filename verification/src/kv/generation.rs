//! Generating tokens one after the other: what to ask of an engine next, and
//! when to stop.
//!
//! The engine computes scores for the next token; which token they choose and
//! whether generation goes on is decided here.  Single-precision scores are
//! given as their bit patterns.
use vstd::prelude::*;

use crate::kv::numbers::{number_of, order_is_numeric};
use crate::text::same;

verus! {

/// The texts that end a generation.
pub open spec fn is_stop(s: Seq<char>) -> bool {
    ||| s == "<eos>"@
    ||| s == "</s>"@
    ||| s == "<|endoftext|>"@
    ||| s == "<|im_end|>"@
    ||| s == "<|end_of_turn|>"@
    ||| s == "<end_of_turn>"@
    ||| s == "<|end_of_text|>"@
    ||| s == "<|eom_id|>"@
    ||| s == "<|eot_id|>"@
}

/// Whether a token's text ends the generation.
pub fn is_stop_token_str(s: &str) -> (r: bool)
    ensures
        r == is_stop(s@),
{
    same(s, "<eos>") || same(s, "</s>") || same(s, "<|endoftext|>") || same(s, "<|im_end|>")
        || same(s, "<|end_of_turn|>") || same(s, "<end_of_turn>") || same(s, "<|end_of_text|>")
        || same(s, "<|eom_id|>") || same(s, "<|eot_id|>")
}

/// What to ask of the engine next.
#[derive(Debug, Clone, Copy, PartialEq, Eq, Structural)]
pub enum Action {
    /// Go over the prompt.
    Prefill,
    /// Go one step on with this token.
    Decode(u32),
    /// Nothing more.
    Stop,
}

/// A generation under way.
pub struct Generation {
    /// How many more tokens may be generated.
    pub left: usize,
    pub generated: Vec<u32>,
    pub running: bool,
}

/// What a [`Generation`] holds, as plain values.
pub struct GenState {
    pub left: nat,
    pub generated: Seq<u32>,
    pub running: bool,
}

impl View for Generation {
    type V = GenState;

    open spec fn view(&self) -> GenState {
        GenState { left: self.left as nat, generated: self.generated@, running: self.running }
    }
}

impl GenState {
    /// While it runs, tokens are left to generate.
    pub open spec fn wf(self) -> bool {
        self.running ==> self.left > 0
    }

    /// The state after the engine was asked: a token with its text, or nothing
    /// where the engine failed or gave no token.
    pub open spec fn after(self, event: Option<(u32, Seq<char>)>) -> GenState {
        if !self.running {
            self
        } else {
            match event {
                None => GenState { running: false, ..self },
                Some((id, text)) => GenState {
                    left: (self.left - 1) as nat,
                    generated: self.generated.push(id),
                    running: !is_stop(text) && self.left > 1,
                },
            }
        }
    }

    /// The event adds a token.
    pub open spec fn adds(self, event: Option<(u32, Seq<char>)>) -> bool {
        self.running && event is Some
    }

    /// The state after each of `events` in turn.
    pub open spec fn after_all(self, events: Seq<Option<(u32, Seq<char>)>>) -> GenState
        decreases events.len(),
    {
        if events.len() == 0 {
            self
        } else {
            self.after(events[0]).after_all(events.skip(1))
        }
    }

    /// What to ask of the engine next.
    pub open spec fn action(self) -> Action {
        if !self.running {
            Action::Stop
        } else if self.generated.len() == 0 {
            Action::Prefill
        } else {
            Action::Decode(self.generated.last())
        }
    }
}

/// The start of a generation of at most `max` tokens from a prompt of
/// `prompt_len` rows.
pub open spec fn started(max: nat, prompt_len: nat) -> GenState {
    GenState { left: max, generated: Seq::empty(), running: max > 0 && prompt_len > 0 }
}

/// The tokens that a generation of at most `max` tokens gives: the tokens of
/// the events up to the first that has none, up to and with the first whose
/// text ends the generation, at most `max`.
pub open spec fn stream(events: Seq<Option<(u32, Seq<char>)>>, max: nat) -> Seq<u32>
    decreases events.len(),
{
    if max == 0 || events.len() == 0 {
        Seq::empty()
    } else {
        match events[0] {
            None => Seq::empty(),
            Some((id, text)) => if is_stop(text) {
                seq![id]
            } else {
                seq![id] + stream(events.skip(1), (max - 1) as nat)
            },
        }
    }
}

/// A generation that has stopped stays as it is.
proof fn stopped_stays(s: GenState, events: Seq<Option<(u32, Seq<char>)>>)
    requires
        !s.running,
    ensures
        s.after_all(events) == s,
    decreases events.len(),
{
    if events.len() > 0 {
        stopped_stays(s, events.skip(1));
    }
}

/// Asking the engine again and again gives the stream, behind what was there.
pub proof fn generation_is_stream(s: GenState, events: Seq<Option<(u32, Seq<char>)>>)
    requires
        s.wf(),
    ensures
        s.after_all(events).generated == (if s.running {
            s.generated + stream(events, s.left)
        } else {
            s.generated
        }),
    decreases events.len(),
{
    if !s.running {
        stopped_stays(s, events);
    } else if events.len() == 0 {
        assert(s.generated + stream(events, s.left) =~= s.generated);
    } else {
        let next = s.after(events[0]);
        generation_is_stream(next, events.skip(1));
        if let Some((id, text)) = events[0] {
            let rest = stream(events.skip(1), (s.left - 1) as nat);
            assert(s.generated.push(id) + rest =~= s.generated + (seq![id] + rest));
            assert(s.generated.push(id) =~= s.generated + seq![id]);
            if s.left == 1 {
                assert(rest =~= Seq::empty());
                assert(seq![id] + rest =~= seq![id]);
            }
        } else {
            assert(s.generated + Seq::<u32>::empty() =~= s.generated);
        }
    }
}

/// A generation never gives more tokens than it may, however long the prompt
/// is.
pub proof fn stream_bounded(events: Seq<Option<(u32, Seq<char>)>>, max: nat)
    ensures
        stream(events, max).len() <= max,
        stream(events, max).len() <= events.len(),
    decreases events.len(),
{
    if max > 0 && events.len() > 0 {
        stream_bounded(events.skip(1), (max - 1) as nat);
    }
}

/// No token but the last one of a generation has a text that ends it.
pub proof fn stream_ends_at_stop(events: Seq<Option<(u32, Seq<char>)>>, max: nat, i: int)
    requires
        0 <= i < stream(events, max).len() - 1,
    ensures
        events[i] matches Some((id, text)) && id == stream(events, max)[i] && !is_stop(text),
    decreases events.len(),
{
    stream_bounded(events, max);
    if i > 0 {
        stream_ends_at_stop(events.skip(1), (max - 1) as nat, i - 1);
        assert(events.skip(1)[i - 1] == events[i]);
    }
}

/// A token with its text, as plain values.
pub open spec fn event_of(e: Option<(u32, &str)>) -> Option<(u32, Seq<char>)> {
    match e {
        Some((id, text)) => Some((id, text@)),
        None => None,
    }
}

impl Generation {
    /// The start of a generation of at most `max_new_tokens` tokens from a
    /// prompt of `prompt_len` rows.
    pub fn new(max_new_tokens: usize, prompt_len: usize) -> (r: Generation)
        ensures
            r@.wf(),
            r@ == started(max_new_tokens as nat, prompt_len as nat),
    {
        let r = Generation {
            left: max_new_tokens,
            generated: Vec::new(),
            running: max_new_tokens > 0 && prompt_len > 0,
        };
        assert(r@.generated =~= Seq::empty());
        r
    }

    /// What to ask of the engine next.
    pub fn next_action(&self) -> (r: Action)
        ensures
            r == self@.action(),
    {
        if !self.running {
            Action::Stop
        } else if self.generated.len() == 0 {
            Action::Prefill
        } else {
            Action::Decode(self.generated[self.generated.len() - 1])
        }
    }

    /// Takes up what the engine gave: a token with its text, or nothing where
    /// it failed or gave no token.  Gives whether a token was added.
    pub fn sampled(&mut self, event: Option<(u32, &str)>) -> (added: bool)
        requires
            old(self)@.wf(),
        ensures
            final(self)@.wf(),
            final(self)@ == old(self)@.after(event_of(event)),
            added == old(self)@.adds(event_of(event)),
    {
        if !self.running {
            return false;
        }
        match event {
            None => {
                self.running = false;
                false
            },
            Some((id, text)) => {
                self.generated.push(id);
                self.running = !is_stop_token_str(text) && self.left > 1;
                self.left = self.left - 1;
                true
            },
        }
    }
}

/// The bits of a number that is not a number.
pub open spec fn is_nan(bits: u32) -> bool {
    bits as int % 0x8000_0000 > 0x7F80_0000
}

/// An integer that orders the numbers that are numbers as they order
/// themselves; the two zeros are equal.
pub open spec fn order_key(bits: u32) -> int {
    if bits < 0x8000_0000 {
        bits as int
    } else {
        -(bits - 0x8000_0000)
    }
}

/// Whether the bits are not a number.
pub(crate) fn nan_bits(bits: u32) -> (r: bool)
    ensures
        r == is_nan(bits),
{
    bits % 0x8000_0000 > 0x7F80_0000
}

/// The integer that orders the bits.
pub(crate) fn key_of(bits: u32) -> (r: i64)
    ensures
        r == order_key(bits),
{
    if bits < 0x8000_0000 {
        bits as i64
    } else {
        -(bits as i64 - 0x8000_0000)
    }
}

/// The index of the greatest score, the last one where several are equal;
/// scores that are not numbers do not count.  Nothing if there is no other.
pub fn masked_argmax(logits: &[u32]) -> (r: Option<usize>)
    ensures
        match r {
            Some(i) => {
                &&& i < logits@.len()
                &&& !is_nan(logits@[i as int])
                &&& forall|j: int|
                    0 <= j < logits@.len() && !is_nan(#[trigger] logits@[j]) ==> order_key(
                        logits@[j],
                    ) <= order_key(logits@[i as int])
                &&& forall|j: int|
                    i < j < logits@.len() && !is_nan(#[trigger] logits@[j]) ==> order_key(
                        logits@[j],
                    ) < order_key(logits@[i as int])
            },
            None => forall|j: int| 0 <= j < logits@.len() ==> is_nan(#[trigger] logits@[j]),
        },
        r matches Some(i) ==> forall|j: int|
            0 <= j < logits@.len() && !is_nan(#[trigger] logits@[j]) ==> number_of(logits@[j])
                <= number_of(logits@[i as int]) && (j > i ==> number_of(logits@[j]) < number_of(
                logits@[i as int],
            )),
{
    let mut best: Option<usize> = None;
    let mut i: usize = 0;
    while i < logits.len()
        invariant
            0 <= i <= logits@.len(),
            match best {
                Some(b) => {
                    &&& b < i
                    &&& !is_nan(logits@[b as int])
                    &&& forall|j: int|
                        0 <= j < i && !is_nan(#[trigger] logits@[j]) ==> order_key(logits@[j])
                            <= order_key(logits@[b as int])
                    &&& forall|j: int|
                        b < j < i && !is_nan(#[trigger] logits@[j]) ==> order_key(logits@[j])
                            < order_key(logits@[b as int])
                },
                None => forall|j: int| 0 <= j < i ==> is_nan(#[trigger] logits@[j]),
            },
        decreases logits@.len() - i,
    {
        let v = logits[i];
        if !nan_bits(v) {
            match best {
                None => {
                    best = Some(i);
                },
                Some(b) => {
                    if key_of(v) >= key_of(logits[b]) {
                        best = Some(i);
                    }
                },
            }
        }
        i += 1;
    }
    proof {
        if let Some(b) = best {
            assert forall|j: int| 0 <= j < logits@.len() && !is_nan(
                #[trigger] logits@[j],
            ) implies number_of(logits@[j]) <= number_of(logits@[b as int]) && (j > b ==> number_of(
                logits@[j],
            ) < number_of(logits@[b as int])) by {
                order_is_numeric(logits@[j], logits@[b as int]);
                order_is_numeric(logits@[b as int], logits@[j]);
            }
        }
    }
    best
}

} // verus!
