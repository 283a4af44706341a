//! What the consumer thread does with the batches that worker threads send.

use vstd::prelude::*;
use crate::backend::perfetto::process_descriptor;
use crate::span::RawSpan;
use crate::TraceState;

verus! {

/// A message from a worker thread to the consumer.
pub enum Command {
    SendSpans(Vec<RawSpan>),
}

/// The spans a command carries.
pub open spec fn spec_command_spans(command: Command) -> Seq<RawSpan> {
    match command {
        Command::SendSpans(spans) => spans@,
    }
}

/// The spans of a sequence of commands, in order.
pub open spec fn spec_commands_spans(commands: Seq<Command>) -> Seq<RawSpan> {
    commands.map_values(|c: Command| spec_command_spans(c)).flatten()
}

/// Receives the spans that a consumer collected. Implemented by the
/// backends (such as the Perfetto reporter).
pub trait SpanConsumer: Send + 'static {
    fn consume(&mut self, spans: Vec<RawSpan>);
}

/// Adds the receiving end of a worker's channel to those the consumer drains.
pub fn register_receiver<R>(receivers: &mut Vec<R>, rx: R)
    ensures
        final(receivers)@ == old(receivers)@.push(rx),
{
    receivers.push(rx);
}

/// Whether the consumer has already published the process descriptor.
pub fn flushed_once(state: &TraceState) -> (flushed: bool)
    ensures
        flushed == state.flushed_once,
{
    state.flushed_once
}

/// Records whether the consumer has published the process descriptor.
pub fn set_flushed_once(state: &mut TraceState, set: bool)
    ensures
        final(state).flushed_once == set,
        final(state).enabled == old(state).enabled,
{
    state.flushed_once = set;
}

/// The spans that one round of the consumer hands to the backend: the
/// spans of `commands` in the order they were received, led on the first
/// round by a process descriptor (which Perfetto needs before anything else).
pub fn collect_spans(state: &mut TraceState, commands: Vec<Command>) -> (spans: Vec<RawSpan>)
    ensures
        final(state).flushed_once,
        final(state).enabled == old(state).enabled,
        old(state).flushed_once ==> spans@ == spec_commands_spans(commands@),
        !old(state).flushed_once ==> {
            &&& spans@.len() == spec_commands_spans(commands@).len() + 1
            &&& spans@[0].typ is ProcessDiscriptor
            &&& spans@.skip(1) == spec_commands_spans(commands@)
        },
{
    let ghost received = commands@;
    let ghost parts = received.map_values(|c: Command| spec_command_spans(c));
    let mut commands = commands;
    let mut spans: Vec<RawSpan> = Vec::new();

    // Required for perfetto tracing.
    if !flushed_once(state) {
        spans.push(process_descriptor());
        set_flushed_once(state, true);
    }
    let ghost lead = spans@;

    let n = commands.len();
    let mut i: usize = 0;
    while i < n
        invariant
            n == commands@.len(),
            n == received.len(),
            parts == received.map_values(|c: Command| spec_command_spans(c)),
            i <= n,
            forall|k: int| i <= k < n ==> #[trigger] commands@[k] == received[k],
            spans@ == lead + parts.take(i as int).flatten(),
        decreases n - i,
    {
        let mut taken = Command::SendSpans(Vec::new());
        std::mem::swap(&mut commands[i], &mut taken);
        match taken {
            Command::SendSpans(mut batch) => {
                proof {
                    assert(batch@ == parts[i as int]);
                    assert(parts.take(i + 1) =~= parts.take(i as int).push(parts[i as int]));
                    parts.take(i as int).lemma_flatten_push(parts[i as int]);
                }
                spans.append(&mut batch);
                proof {
                    assert(spans@ =~= lead + parts.take(i + 1).flatten());
                }
            },
        }
        i = i + 1;
    }
    proof {
        assert(parts.take(n as int) =~= parts);
        if !old(state).flushed_once {
            assert(spans@.skip(1) =~= parts.flatten());
        } else {
            assert(spans@ =~= parts.flatten());
        }
    }
    spans
}

} // verus!
