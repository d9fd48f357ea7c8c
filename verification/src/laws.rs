//! What holds of the protocol as a whole, whatever the stack holds and
//! whatever the peers send.
//!
//! The laws speak of exchanges as a peer sees them: what was delivered, what
//! came back, and what the stack held before and after.

use crate::payload::{
    lemma_strip_terminator_unique, spec_fits, spec_is_framed, spec_is_terminator_run,
    spec_strip_terminator,
};
use crate::protocol::{ERR_EMPTY_STACK, ERR_LARGE_STRING, OP_CLEAR, OP_PEEK, OP_POP, OP_PUSH};
use crate::session::{
    spec_exchange, spec_exchanges, spec_step, ActionView, Delivery, EventView, Phase,
};
use crate::stack::spec_apply;
use vstd::prelude::*;
use vstd::seq_lib::{to_multiset_build, to_multiset_contains, to_multiset_len, to_multiset_remove};
use vstd::utf8::encode_utf8;

verus! {

/// A text that can be pushed and comes back as it was sent: it is short enough
/// and does not end in a line terminator.
pub open spec fn spec_sendable(text: Seq<char>) -> bool {
    spec_fits(text) && spec_is_framed(text)
}

/// What arrives when a peer pushes `text` and ends the line with a line feed.
pub open spec fn push_of(text: Seq<char>) -> Delivery {
    Delivery { opcode: Some(OP_PUSH), line: Some(text.push('\n')) }
}

/// What arrives when a peer sends an opcode that takes no payload.
pub open spec fn bare(opcode: u8) -> Delivery {
    Delivery { opcode: Some(opcode), line: None }
}

/// One push for each text, in the order of the texts.
pub open spec fn pushes_of(texts: Seq<Seq<char>>) -> Seq<Delivery> {
    Seq::new(texts.len(), |i: int| push_of(texts[i]))
}

/// The same opcode, sent `n` times.
pub open spec fn repeated(opcode: u8, n: nat) -> Seq<Delivery> {
    Seq::new(n, |i: int| bare(opcode))
}

/// The bytes of each text, in the order of the texts.
pub open spec fn encodings(texts: Seq<Seq<char>>) -> Seq<Seq<u8>> {
    Seq::new(texts.len(), |i: int| encode_utf8(texts[i]))
}

/// What the action that ends a connection does to the stack, and the bytes that
/// it writes back.
pub open spec fn spec_carry_out(stack: Seq<Seq<char>>, action: ActionView) -> (
    Seq<Seq<char>>,
    Seq<u8>,
) {
    match action {
        ActionView::Apply(command) => (
            spec_apply(stack, command).0,
            spec_apply(stack, command).1.wire_bytes(),
        ),
        ActionView::Reply(response) => (stack, response.wire_bytes()),
        _ => (stack, Seq::<u8>::empty()),
    }
}

/// The event that reports an opcode byte, or that none arrived.
pub open spec fn opcode_event(opcode: Option<u8>) -> EventView {
    match opcode {
        Some(byte) => EventView::Opcode(byte),
        None => EventView::Failed,
    }
}

/// The event that reports a line, or that none arrived.
pub open spec fn line_event(line: Option<Seq<char>>) -> EventView {
    match line {
        Some(text) => EventView::Line(text),
        None => EventView::Failed,
    }
}

/// An exchange is what the session decides, step by step, carried out on the
/// stack: the opcode is reported first, the line only if the session asks for
/// it, and the action that ends the connection is carried out.
pub proof fn law_exchange_follows_steps(
    stack: Seq<Seq<char>>,
    opcode: Option<u8>,
    line: Option<Seq<char>>,
)
    ensures
        ({
            let first = spec_step(Phase::AwaitingOpcode, opcode_event(opcode));
            let last = if first.1 is ReadLine {
                spec_step(first.0, line_event(line))
            } else {
                first
            };
            &&& last.0 == Phase::Closed
            &&& !(last.1 is ReadLine)
            &&& spec_exchange(stack, opcode, line) == spec_carry_out(stack, last.1)
        }),
{
}

/// Every connection ends: after two events at most the session is closed,
/// whatever the events were, and a closed session asks for nothing but to
/// close.
pub proof fn law_session_closes(phase: Phase, first: EventView, second: EventView)
    ensures
        spec_step(spec_step(phase, first).0, second).0 == Phase::Closed,
        spec_step(Phase::Closed, first) == (Phase::Closed, ActionView::Close),
        spec_step(phase, first).0 != Phase::Closed ==> spec_step(phase, first).1 is ReadLine,
{
}

/// A push followed at once by a pop gives back the text that was pushed and
/// leaves the stack as it was before the push. The push itself writes nothing.
/// This holds however the peer ended the line: with no terminator, with a line
/// feed, or with any run of line terminators.
pub proof fn law_push_then_pop_restores(stack: Seq<Seq<char>>, text: Seq<char>, ending: Seq<char>)
    requires
        spec_sendable(text),
        spec_is_terminator_run(ending),
    ensures
        ({
            let pushed = spec_exchange(stack, Some(OP_PUSH), Some(text + ending));
            let popped = spec_exchange(pushed.0, Some(OP_POP), None);
            &&& pushed.1 == Seq::<u8>::empty()
            &&& popped.1 == encode_utf8(text)
            &&& popped.0 == stack
        }),
{
    lemma_strip_terminator_unique(text, ending);
}

/// What a push of a sendable text does: the text goes on top, nothing is
/// written.
proof fn lemma_push_exchange(stack: Seq<Seq<char>>, text: Seq<char>)
    requires
        spec_sendable(text),
    ensures
        spec_exchange(stack, push_of(text).opcode, push_of(text).line) == (
            stack.push(text),
            Seq::<u8>::empty(),
        ),
{
    let ending = seq!['\n'];
    assert(text.push('\n') =~= text + ending);
    lemma_strip_terminator_unique(text, ending);
}

/// What a run of pushes of sendable texts does: the texts go on top in their
/// order, and nothing is written.
proof fn lemma_pushes(stack: Seq<Seq<char>>, texts: Seq<Seq<char>>)
    requires
        forall|i: int| 0 <= i < texts.len() ==> spec_sendable(#[trigger] texts[i]),
    ensures
        spec_exchanges(stack, pushes_of(texts)).0 == stack + texts,
        spec_exchanges(stack, pushes_of(texts)).1 == Seq::new(
            texts.len(),
            |i: int| Seq::<u8>::empty(),
        ),
    decreases texts.len(),
{
    if texts.len() > 0 {
        let rest = texts.drop_first();
        lemma_push_exchange(stack, texts[0]);
        assert(pushes_of(texts).drop_first() =~= pushes_of(rest));
        lemma_pushes(stack.push(texts[0]), rest);
    }
}

/// What as many pops as there are texts on top do: the texts come back, the
/// last first, and the stack is left with what lay under them.
proof fn lemma_pops(stack: Seq<Seq<char>>, texts: Seq<Seq<char>>)
    ensures
        spec_exchanges(stack + texts, repeated(OP_POP, texts.len())).0 == stack,
        spec_exchanges(stack + texts, repeated(OP_POP, texts.len())).1 == encodings(
            texts.reverse(),
        ),
    decreases texts.len(),
{
    if texts.len() > 0 {
        let under = texts.drop_last();
        assert((stack + texts).drop_last() =~= stack + under);
        assert(repeated(OP_POP, texts.len()).drop_first() =~= repeated(OP_POP, under.len()));
        lemma_pops(stack, under);
    }
}

/// Last in, first out: after the pushes of `texts`, in that order, as many
/// pops give the texts back in the opposite order, and the stack is left as it
/// was before the first push. No push writes anything.
pub proof fn law_lifo_order(stack: Seq<Seq<char>>, texts: Seq<Seq<char>>)
    requires
        forall|i: int| 0 <= i < texts.len() ==> spec_sendable(#[trigger] texts[i]),
    ensures
        ({
            let pushed = spec_exchanges(stack, pushes_of(texts));
            let popped = spec_exchanges(pushed.0, repeated(OP_POP, texts.len()));
            &&& pushed.1.len() == texts.len()
            &&& forall|i: int| 0 <= i < texts.len() ==> pushed.1[i] == Seq::<u8>::empty()
            &&& popped.1.len() == texts.len()
            &&& forall|i: int|
                0 <= i < texts.len() ==> popped.1[i] == encode_utf8(texts[texts.len() - 1 - i])
            &&& popped.0 == stack
        }),
{
    lemma_pushes(stack, texts);
    lemma_pops(stack, texts);
}

/// A peek changes nothing: however often it is repeated, the stack stays as it
/// is and every reply is the same as the first.
pub proof fn law_peek_is_idempotent(stack: Seq<Seq<char>>, n: nat)
    ensures
        spec_exchanges(stack, repeated(OP_PEEK, n)).0 == stack,
        spec_exchanges(stack, repeated(OP_PEEK, n)).1 == Seq::new(
            n,
            |i: int| spec_exchange(stack, Some(OP_PEEK), None).1,
        ),
    decreases n,
{
    if n > 0 {
        assert(repeated(OP_PEEK, n).drop_first() =~= repeated(OP_PEEK, (n - 1) as nat));
        law_peek_is_idempotent(stack, (n - 1) as nat);
    }
}

/// A pop or a peek of an empty stack writes the empty-stack byte, and nothing
/// else, and the stack stays empty.
pub proof fn law_empty_stack_is_signalled(line: Option<Seq<char>>)
    ensures
        spec_exchange(Seq::empty(), Some(OP_POP), line) == (
            Seq::<Seq<char>>::empty(),
            seq![ERR_EMPTY_STACK],
        ),
        spec_exchange(Seq::empty(), Some(OP_PEEK), line) == (
            Seq::<Seq<char>>::empty(),
            seq![ERR_EMPTY_STACK],
        ),
{
}

/// A push whose payload is longer than the cap writes the large-string byte,
/// and nothing else, and leaves the stack as it was.
pub proof fn law_oversized_payload_is_rejected(stack: Seq<Seq<char>>, line: Seq<char>)
    requires
        !spec_fits(spec_strip_terminator(line)),
    ensures
        spec_exchange(stack, Some(OP_PUSH), Some(line)) == (stack, seq![ERR_LARGE_STRING]),
{
}

/// After a clear the stack is empty, whatever it held: the clear writes
/// nothing, and a peek that follows writes the empty-stack byte.
pub proof fn law_clear_resets(stack: Seq<Seq<char>>)
    ensures
        ({
            let cleared = spec_exchange(stack, Some(OP_CLEAR), None);
            let peeked = spec_exchange(cleared.0, Some(OP_PEEK), None);
            &&& cleared.0 == Seq::<Seq<char>>::empty()
            &&& cleared.1 == Seq::<u8>::empty()
            &&& peeked.1 == seq![ERR_EMPTY_STACK]
        }),
{
}

/// A byte that is no opcode changes nothing and is answered with nothing.
pub proof fn law_unknown_opcode_is_silent(
    stack: Seq<Seq<char>>,
    byte: u8,
    line: Option<Seq<char>>,
)
    requires
        byte > OP_CLEAR,
    ensures
        spec_exchange(stack, Some(byte), line) == (stack, Seq::<u8>::empty()),
{
}

/// A read that fails changes nothing and is answered with nothing, be it the
/// read of the opcode or the read of the payload line.
pub proof fn law_failed_read_is_silent(stack: Seq<Seq<char>>, line: Option<Seq<char>>)
    ensures
        spec_exchange(stack, None, line) == (stack, Seq::<u8>::empty()),
        spec_exchange(stack, Some(OP_PUSH), None) == (stack, Seq::<u8>::empty()),
{
}

/// Two sequences that hold the same texts equally often have encodings that
/// hold the same byte strings equally often.
proof fn lemma_encodings_of_rearrangement(a: Seq<Seq<char>>, b: Seq<Seq<char>>)
    requires
        a.to_multiset() == b.to_multiset(),
    ensures
        encodings(a).to_multiset() == encodings(b).to_multiset(),
    decreases a.len(),
{
    to_multiset_len(a);
    to_multiset_len(b);
    if a.len() == 0 {
        assert(encodings(a) =~= encodings(b));
    } else {
        let x = a.last();
        to_multiset_contains(a, x);
        to_multiset_contains(b, x);
        let j = choose|j: int| 0 <= j < b.len() && b[j] == x;
        let a_rest = a.drop_last();
        let b_rest = b.remove(j);
        to_multiset_remove(a, a.len() - 1);
        to_multiset_remove(b, j);
        lemma_encodings_of_rearrangement(a_rest, b_rest);
        let code = encode_utf8(x);
        assert(encodings(a) =~= encodings(a_rest).push(code));
        to_multiset_build(encodings(a_rest), code);
        assert(encodings(b).remove(j) =~= encodings(b_rest));
        to_multiset_remove(encodings(b), j);
        to_multiset_contains(encodings(b), code);
    }
}

/// Pushes that race are safe: in whatever order the pushes of the markers take
/// the stack, as many pops give back the markers, each exactly as often as it
/// was pushed, none lost, none doubled, none changed. The stack is left as it
/// was before the first push.
///
/// `arrival` is the order in which the pushes took the stack: any rearrangement
/// of `markers`.
pub proof fn law_racing_pushes_all_come_back(
    stack: Seq<Seq<char>>,
    markers: Seq<Seq<char>>,
    arrival: Seq<Seq<char>>,
)
    requires
        arrival.to_multiset() == markers.to_multiset(),
        forall|i: int| 0 <= i < markers.len() ==> spec_sendable(#[trigger] markers[i]),
    ensures
        ({
            let pushed = spec_exchanges(stack, pushes_of(arrival));
            let popped = spec_exchanges(pushed.0, repeated(OP_POP, markers.len()));
            &&& popped.1.len() == markers.len()
            &&& popped.1.to_multiset() == encodings(markers).to_multiset()
            &&& popped.0 == stack
        }),
{
    to_multiset_len(arrival);
    to_multiset_len(markers);
    assert forall|i: int| 0 <= i < arrival.len() implies spec_sendable(#[trigger] arrival[i]) by {
        to_multiset_contains(arrival, arrival[i]);
        to_multiset_contains(markers, arrival[i]);
    }
    lemma_pushes(stack, arrival);
    lemma_pops(stack, arrival);
    arrival.lemma_reverse_to_multiset();
    lemma_encodings_of_rearrangement(arrival.reverse(), arrival);
    lemma_encodings_of_rearrangement(arrival, markers);
}

} // verus!
