//! The relay of a child's output: lines arrive from its two pipes in some
//! interleaving and leave towards the peer in the order of their arrival.

use vstd::prelude::*;
use vstd::utf8::encode_utf8;

verus! {

/// The pipe that a line came from.
#[derive(Clone, Copy, Debug, PartialEq, Eq, Structural)]
pub enum Source {
    Stdout,
    Stderr,
}

/// What the relay knows: which pipes still produce, and whether the peer
/// still listens.
#[derive(Clone, Copy, Debug, PartialEq, Eq, Structural)]
pub struct RelayState {
    pub stdout_open: bool,
    pub stderr_open: bool,
    pub connected: bool,
}

/// What reaches the relay.
#[derive(Clone, Debug, PartialEq, Eq)]
pub enum RelayEvent {
    /// A complete line, without its newline.
    Line { source: Source, text: String },
    /// The pipe has reached its end.
    Finished(Source),
    /// The last line could not be written to the peer.
    WriteFailed,
}

/// What the caller is to do next.
#[derive(Clone, Debug, PartialEq, Eq)]
pub enum RelayAction {
    /// Write `line` and a newline to the peer, and flush.
    Write { line: String },
    /// Take the next event.
    Wait,
    /// Leave the relay.
    Stop,
}

/// A `RelayEvent` over plain values.
pub enum RelayEventView {
    Line { source: Source, text: Seq<char> },
    Finished(Source),
    WriteFailed,
}

/// A `RelayAction` over plain values.
pub enum RelayActionView {
    Write { line: Seq<char> },
    Wait,
    Stop,
}

impl View for RelayEvent {
    type V = RelayEventView;

    open spec fn view(&self) -> RelayEventView {
        match *self {
            RelayEvent::Line { source, text } => RelayEventView::Line { source, text: text@ },
            RelayEvent::Finished(source) => RelayEventView::Finished(source),
            RelayEvent::WriteFailed => RelayEventView::WriteFailed,
        }
    }
}

impl View for RelayAction {
    type V = RelayActionView;

    open spec fn view(&self) -> RelayActionView {
        match *self {
            RelayAction::Write { line } => RelayActionView::Write { line: line@ },
            RelayAction::Wait => RelayActionView::Wait,
            RelayAction::Stop => RelayActionView::Stop,
        }
    }
}

/// The relay before anything arrived.
pub open spec fn relay_start() -> RelayState {
    RelayState { stdout_open: true, stderr_open: true, connected: true }
}

/// The relay is over when both pipes have ended or the peer is gone.
pub open spec fn relay_over(state: RelayState) -> bool {
    !state.connected || (!state.stdout_open && !state.stderr_open)
}

/// The state once the pipe `source` has ended.
pub open spec fn with_finished(state: RelayState, source: Source) -> RelayState {
    match source {
        Source::Stdout => RelayState { stdout_open: false, ..state },
        Source::Stderr => RelayState { stderr_open: false, ..state },
    }
}

/// The relay's transition. While it is not over, every line that arrives is
/// written. The end of a pipe is noted, and the end of the second one ends
/// the relay. A failed write ends it at once: what the child still says is
/// abandoned.
pub open spec fn relay_next(state: RelayState, event: RelayEventView) -> (
    RelayState,
    RelayActionView,
) {
    if relay_over(state) {
        (state, RelayActionView::Stop)
    } else {
        match event {
            RelayEventView::Line { text, .. } => (state, RelayActionView::Write { line: text }),
            RelayEventView::Finished(source) => {
                let after = with_finished(state, source);
                (
                    after,
                    if relay_over(after) {
                        RelayActionView::Stop
                    } else {
                        RelayActionView::Wait
                    },
                )
            },
            RelayEventView::WriteFailed => (
                RelayState { connected: false, ..state },
                RelayActionView::Stop,
            ),
        }
    }
}

impl RelayState {
    /// The relay before anything arrived.
    pub fn new() -> (state: RelayState)
        ensures
            state == relay_start(),
    {
        RelayState { stdout_open: true, stderr_open: true, connected: true }
    }

    /// Whether the relay is over.
    pub fn is_over(&self) -> (over: bool)
        ensures
            over == relay_over(*self),
    {
        !self.connected || (!self.stdout_open && !self.stderr_open)
    }
}

/// One step of the relay: takes the state and what arrived, gives the next
/// state and what to do.
pub fn relay_step(state: RelayState, event: RelayEvent) -> (out: (RelayState, RelayAction))
    ensures
        (out.0, out.1@) == relay_next(state, event@),
{
    if state.is_over() {
        return (state, RelayAction::Stop);
    }
    match event {
        RelayEvent::Line { text, .. } => (state, RelayAction::Write { line: text }),
        RelayEvent::Finished(source) => {
            let after = match source {
                Source::Stdout => RelayState {
                    stdout_open: false,
                    stderr_open: state.stderr_open,
                    connected: state.connected,
                },
                Source::Stderr => RelayState {
                    stdout_open: state.stdout_open,
                    stderr_open: false,
                    connected: state.connected,
                },
            };
            if after.is_over() {
                (after, RelayAction::Stop)
            } else {
                (after, RelayAction::Wait)
            }
        },
        RelayEvent::WriteFailed => (
            RelayState {
                stdout_open: state.stdout_open,
                stderr_open: state.stderr_open,
                connected: false,
            },
            RelayAction::Stop,
        ),
    }
}

/// The bytes that carry one line of output to the peer: its text in UTF-8,
/// ended by a newline.
pub open spec fn line_record(text: Seq<char>) -> Seq<u8> {
    encode_utf8(text).push(0x0au8)
}

/// The bytes to write for one line of output.
pub fn line_bytes(line: &str) -> (bytes: Vec<u8>)
    ensures
        bytes@ == line_record(line@),
{
    let mut bytes = line.as_bytes_vec();
    bytes.push(0x0au8);
    bytes
}

/// What a read from one of the child's pipes gave, or what became of
/// forwarding it.
#[derive(Clone, Debug, PartialEq, Eq)]
pub enum PipeEvent {
    /// A complete line of text, without its newline.
    Line(String),
    /// A line that is no text.
    Undecodable,
    /// The pipe is at its end, or reading it failed.
    End,
    /// The relay no longer takes anything.
    SinkClosed,
}

/// What the reader of a pipe is to do next.
#[derive(Clone, Debug, PartialEq, Eq)]
pub enum PipeAction {
    /// Hand this event to the relay, then read on.
    Forward(RelayEvent),
    /// Read on.
    Skip,
    /// Hand this event to the relay, then leave.
    Finish(RelayEvent),
    /// Leave.
    Stop,
}

/// A `PipeEvent` over plain values.
pub enum PipeEventView {
    Line(Seq<char>),
    Undecodable,
    End,
    SinkClosed,
}

/// A `PipeAction` over plain values.
pub enum PipeActionView {
    Forward(RelayEventView),
    Skip,
    Finish(RelayEventView),
    Stop,
}

impl View for PipeEvent {
    type V = PipeEventView;

    open spec fn view(&self) -> PipeEventView {
        match *self {
            PipeEvent::Line(text) => PipeEventView::Line(text@),
            PipeEvent::Undecodable => PipeEventView::Undecodable,
            PipeEvent::End => PipeEventView::End,
            PipeEvent::SinkClosed => PipeEventView::SinkClosed,
        }
    }
}

impl View for PipeAction {
    type V = PipeActionView;

    open spec fn view(&self) -> PipeActionView {
        match *self {
            PipeAction::Forward(event) => PipeActionView::Forward(event@),
            PipeAction::Skip => PipeActionView::Skip,
            PipeAction::Finish(event) => PipeActionView::Finish(event@),
            PipeAction::Stop => PipeActionView::Stop,
        }
    }
}

/// What the reader of the pipe `source` does: every line of text goes to the
/// relay as it stands, a line that is no text is passed over and costs
/// nothing else, and the end of the pipe is told to the relay.
pub open spec fn pipe_next(source: Source, event: PipeEventView) -> PipeActionView {
    match event {
        PipeEventView::Line(text) => PipeActionView::Forward(RelayEventView::Line { source, text }),
        PipeEventView::Undecodable => PipeActionView::Skip,
        PipeEventView::End => PipeActionView::Finish(RelayEventView::Finished(source)),
        PipeEventView::SinkClosed => PipeActionView::Stop,
    }
}

/// One step of the reader of the pipe `source`.
pub fn pipe_step(source: Source, event: PipeEvent) -> (action: PipeAction)
    ensures
        action@ == pipe_next(source, event@),
{
    match event {
        PipeEvent::Line(text) => PipeAction::Forward(RelayEvent::Line { source, text }),
        PipeEvent::Undecodable => PipeAction::Skip,
        PipeEvent::End => PipeAction::Finish(RelayEvent::Finished(source)),
        PipeEvent::SinkClosed => PipeAction::Stop,
    }
}

/// The state after a run of events from `state`, and the actions that the
/// caller was given on the way, one for each event.
pub open spec fn relay_run(state: RelayState, events: Seq<RelayEventView>) -> (
    RelayState,
    Seq<RelayActionView>,
)
    decreases events.len(),
{
    if events.len() == 0 {
        (state, Seq::empty())
    } else {
        let before = relay_run(state, events.drop_last());
        let step = relay_next(before.0, events.last());
        (step.0, before.1.push(step.1))
    }
}

/// The lines that `actions` write, in their order.
pub open spec fn lines_written(actions: Seq<RelayActionView>) -> Seq<Seq<char>>
    decreases actions.len(),
{
    if actions.len() == 0 {
        Seq::empty()
    } else {
        let earlier = lines_written(actions.drop_last());
        match actions.last() {
            RelayActionView::Write { line } => earlier.push(line),
            _ => earlier,
        }
    }
}

/// The lines that the pipe `source` produced among `events`, in their order.
pub open spec fn lines_from(events: Seq<RelayEventView>, source: Source) -> Seq<Seq<char>>
    decreases events.len(),
{
    if events.len() == 0 {
        Seq::empty()
    } else {
        let earlier = lines_from(events.drop_last(), source);
        match events.last() {
            RelayEventView::Line { source: from, text } => if from == source {
                earlier.push(text)
            } else {
                earlier
            },
            _ => earlier,
        }
    }
}

/// `merged` holds the items of `first` and of `second`, each of the two in
/// its own order, and nothing else.
pub open spec fn interleaves(
    merged: Seq<Seq<char>>,
    first: Seq<Seq<char>>,
    second: Seq<Seq<char>>,
) -> bool
    decreases merged.len(),
{
    if merged.len() == 0 {
        first.len() == 0 && second.len() == 0
    } else {
        ||| first.len() > 0 && first.last() == merged.last() && interleaves(
            merged.drop_last(),
            first.drop_last(),
            second,
        )
        ||| second.len() > 0 && second.last() == merged.last() && interleaves(
            merged.drop_last(),
            first,
            second.drop_last(),
        )
    }
}

/// The pipe `source` has ended somewhere among `events`.
pub open spec fn finished_in(events: Seq<RelayEventView>, source: Source) -> bool {
    exists|i: int| 0 <= i < events.len() && #[trigger] events[i] == RelayEventView::Finished(source)
}

/// What a child with two pipes and a peer that keeps listening can give
/// rise to: no pipe produces a line after its end, and no write fails.
pub open spec fn orderly(events: Seq<RelayEventView>) -> bool {
    &&& forall|i: int| 0 <= i < events.len() ==> !((#[trigger] events[i]) is WriteFailed)
    &&& forall|i: int, j: int|
        0 <= i < j < events.len() && (#[trigger] events[i]) is Finished && (
        #[trigger] events[j]) is Line ==> events[i]->Finished_0 != events[j]->source
}

/// A run that is one event longer ends with the step for that event.
pub proof fn lemma_relay_run_push(
    state: RelayState,
    events: Seq<RelayEventView>,
    event: RelayEventView,
)
    ensures
        relay_run(state, events.push(event)) == ({
            let before = relay_run(state, events);
            let step = relay_next(before.0, event);
            (step.0, before.1.push(step.1))
        }),
{
    assert(events.push(event).drop_last() =~= events);
}

/// In an orderly run the relay knows exactly which pipes have ended, and
/// has written every line that came, each pipe's lines in their own order.
proof fn lemma_orderly_run(events: Seq<RelayEventView>)
    requires
        orderly(events),
    ensures
        ({
            let (state, actions) = relay_run(relay_start(), events);
            let out = lines_written(actions);
            &&& state.connected
            &&& state.stdout_open == !finished_in(events, Source::Stdout)
            &&& state.stderr_open == !finished_in(events, Source::Stderr)
            &&& out.len() == lines_from(events, Source::Stdout).len() + lines_from(
                events,
                Source::Stderr,
            ).len()
            &&& interleaves(
                out,
                lines_from(events, Source::Stdout),
                lines_from(events, Source::Stderr),
            )
        }),
    decreases events.len(),
{
    if events.len() > 0 {
        let earlier = events.drop_last();
        let event = events.last();
        assert(orderly(earlier)) by {
            assert forall|i: int| 0 <= i < earlier.len() implies !((
            #[trigger] earlier[i]) is WriteFailed) by {
                assert(earlier[i] == events[i]);
            }
            assert forall|i: int, j: int|
                0 <= i < j < earlier.len() && (#[trigger] earlier[i]) is Finished && (
                #[trigger] earlier[j]) is Line implies earlier[i]->Finished_0
                != earlier[j]->source by {
                assert(earlier[i] == events[i] && earlier[j] == events[j]);
            }
        }
        lemma_orderly_run(earlier);
        let (before, actions) = relay_run(relay_start(), earlier);
        let step = relay_next(before, event);
        let out = lines_written(actions);
        assert(actions.push(step.1).drop_last() =~= actions);
        assert forall|source: Source|
            finished_in(events, source) == (finished_in(earlier, source) || event
                == RelayEventView::Finished(source)) by {
            if finished_in(earlier, source) {
                let i = choose|i: int|
                    0 <= i < earlier.len() && #[trigger] earlier[i] == RelayEventView::Finished(
                        source,
                    );
                assert(events[i] == RelayEventView::Finished(source));
            }
            if event == RelayEventView::Finished(source) {
                assert(events[events.len() - 1] == RelayEventView::Finished(source));
            }
            if finished_in(events, source) {
                let i = choose|i: int|
                    0 <= i < events.len() && #[trigger] events[i] == RelayEventView::Finished(
                        source,
                    );
                if i < earlier.len() {
                    assert(earlier[i] == RelayEventView::Finished(source));
                }
            }
        }
        match event {
            RelayEventView::Line { source, text } => {
                assert(!finished_in(earlier, source)) by {
                    if finished_in(earlier, source) {
                        let i = choose|i: int|
                            0 <= i < earlier.len() && #[trigger] earlier[i]
                                == RelayEventView::Finished(source);
                        assert(events[i] is Finished && events[events.len() - 1] is Line);
                    }
                }
                assert(!relay_over(before));
                assert(lines_written(actions.push(step.1)) == out.push(text));
                assert(out.push(text).drop_last() =~= out);
                let mine = lines_from(earlier, source);
                assert(mine.push(text).drop_last() =~= mine);
            },
            RelayEventView::Finished(source) => {
                assert(lines_written(actions.push(step.1)) == out);
            },
            RelayEventView::WriteFailed => {
                assert(events[events.len() - 1] is WriteFailed);
            },
        }
    }
}

/// Of a child that writes some lines to its standard output and some to its
/// standard error, and a peer that keeps listening, the relay writes every
/// line: as many as the two pipes produced together, the lines of each pipe
/// in the order in which that pipe produced them, the two interleaved as
/// they arrived.
pub proof fn lemma_relay_complete_and_ordered(events: Seq<RelayEventView>)
    requires
        orderly(events),
    ensures
        ({
            let out = lines_written(relay_run(relay_start(), events).1);
            &&& out.len() == lines_from(events, Source::Stdout).len() + lines_from(
                events,
                Source::Stderr,
            ).len()
            &&& interleaves(
                out,
                lines_from(events, Source::Stdout),
                lines_from(events, Source::Stderr),
            )
        }),
{
    lemma_orderly_run(events);
}

/// Once both pipes have ended in an orderly run, the relay is over.
pub proof fn lemma_relay_ends_with_both_pipes(events: Seq<RelayEventView>)
    requires
        orderly(events),
        finished_in(events, Source::Stdout),
        finished_in(events, Source::Stderr),
    ensures
        relay_over(relay_run(relay_start(), events).0),
{
    lemma_orderly_run(events);
}

/// A relay that is over writes nothing more, whatever still arrives.
pub proof fn lemma_relay_over_writes_nothing(state: RelayState, events: Seq<RelayEventView>)
    requires
        relay_over(state),
    ensures
        relay_run(state, events).0 == state,
        lines_written(relay_run(state, events).1) == Seq::<Seq<char>>::empty(),
    decreases events.len(),
{
    if events.len() > 0 {
        lemma_relay_over_writes_nothing(state, events.drop_last());
        let actions = relay_run(state, events.drop_last()).1;
        assert(actions.push(RelayActionView::Stop).drop_last() =~= actions);
    }
}

} // verus!
