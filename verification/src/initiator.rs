//! The initiator's side of one connection, as a state machine: it learns what
//! the responder holds, works out what to send, sends it, and then listens.

use vstd::prelude::*;
use crate::error::SyncError;
use crate::protocol::{ClientCommand, ClientCommandView};
use crate::signature::{new_and_changed_spec, texts, FolderEntryView, FolderSignature};

verus! {

/// Where the initiator stands.
#[derive(Debug, PartialEq, Eq)]
pub enum InitiatorState {
    /// Not connected yet; `target` is the file that is to be run.
    Idle { target: String },
    /// The responder's signature is awaited.
    AwaitingCatalog { target: String },
    /// The signature of the working directory is being built.
    BuildingCatalog { target: String, remote: FolderSignature },
    /// The command, or one of the files, is on its way; `paths` are the files
    /// to send and `next` of them have been handed out.
    Sending { paths: Vec<String>, next: usize },
    /// Everything is sent; the command's output is being read.
    ReceivingOutput,
    /// The exchange came to its end.
    Done,
    /// The exchange was given up.
    Failed { error: SyncError },
}

/// What the caller reports back.
#[derive(Debug, PartialEq, Eq)]
pub enum InitiatorEvent {
    /// The connection stands.
    Connected,
    /// The responder's signature arrived.
    RemoteCatalog(FolderSignature),
    /// The signature of the working directory is built.
    LocalCatalog(FolderSignature),
    /// What was to be sent is sent.
    Sent,
    /// A line of output arrived.
    OutputLine(String),
    /// The responder closed the connection.
    OutputClosed,
    /// The last action failed.
    Failure(SyncError),
}

/// What the caller is to do next.
#[derive(Debug, PartialEq, Eq)]
pub enum InitiatorAction {
    /// Receive the responder's signature.
    ReceiveCatalog,
    /// Build the signature of the working directory.
    BuildCatalog,
    /// Send this command.
    SendCommand(ClientCommand),
    /// Send the header and then the content of the file at `rel_path`.
    SendFile { rel_path: String },
    /// Read the next line of output.
    ReadOutput,
    /// Show `line`, then read the next one.
    Print { line: String },
    /// Leave: the exchange is over.
    Finish,
    /// Report `error` and leave.
    Abort { error: SyncError },
}

/// An `InitiatorState` over plain values.
pub enum InitiatorStateView {
    Idle { target: Seq<char> },
    AwaitingCatalog { target: Seq<char> },
    BuildingCatalog { target: Seq<char>, remote: Seq<FolderEntryView> },
    Sending { paths: Seq<Seq<char>>, next: nat },
    ReceivingOutput,
    Done,
    Failed { error: SyncError },
}

/// An `InitiatorEvent` over plain values.
pub enum InitiatorEventView {
    Connected,
    RemoteCatalog(Seq<FolderEntryView>),
    LocalCatalog(Seq<FolderEntryView>),
    Sent,
    OutputLine(Seq<char>),
    OutputClosed,
    Failure(SyncError),
}

/// An `InitiatorAction` over plain values.
pub enum InitiatorActionView {
    ReceiveCatalog,
    BuildCatalog,
    SendCommand(ClientCommandView),
    SendFile { rel_path: Seq<char> },
    ReadOutput,
    Print { line: Seq<char> },
    Finish,
    Abort { error: SyncError },
}

impl View for InitiatorState {
    type V = InitiatorStateView;

    open spec fn view(&self) -> InitiatorStateView {
        match *self {
            InitiatorState::Idle { target } => InitiatorStateView::Idle { target: target@ },
            InitiatorState::AwaitingCatalog { target } => InitiatorStateView::AwaitingCatalog {
                target: target@,
            },
            InitiatorState::BuildingCatalog { target, remote } => InitiatorStateView::BuildingCatalog {
                target: target@,
                remote: remote@,
            },
            InitiatorState::Sending { paths, next } => InitiatorStateView::Sending {
                paths: texts(paths@),
                next: next as nat,
            },
            InitiatorState::ReceivingOutput => InitiatorStateView::ReceivingOutput,
            InitiatorState::Done => InitiatorStateView::Done,
            InitiatorState::Failed { error } => InitiatorStateView::Failed { error },
        }
    }
}

impl View for InitiatorEvent {
    type V = InitiatorEventView;

    open spec fn view(&self) -> InitiatorEventView {
        match *self {
            InitiatorEvent::Connected => InitiatorEventView::Connected,
            InitiatorEvent::RemoteCatalog(remote) => InitiatorEventView::RemoteCatalog(remote@),
            InitiatorEvent::LocalCatalog(local) => InitiatorEventView::LocalCatalog(local@),
            InitiatorEvent::Sent => InitiatorEventView::Sent,
            InitiatorEvent::OutputLine(line) => InitiatorEventView::OutputLine(line@),
            InitiatorEvent::OutputClosed => InitiatorEventView::OutputClosed,
            InitiatorEvent::Failure(error) => InitiatorEventView::Failure(error),
        }
    }
}

impl View for InitiatorAction {
    type V = InitiatorActionView;

    open spec fn view(&self) -> InitiatorActionView {
        match *self {
            InitiatorAction::ReceiveCatalog => InitiatorActionView::ReceiveCatalog,
            InitiatorAction::BuildCatalog => InitiatorActionView::BuildCatalog,
            InitiatorAction::SendCommand(command) => InitiatorActionView::SendCommand(command@),
            InitiatorAction::SendFile { rel_path } => InitiatorActionView::SendFile {
                rel_path: rel_path@,
            },
            InitiatorAction::ReadOutput => InitiatorActionView::ReadOutput,
            InitiatorAction::Print { line } => InitiatorActionView::Print { line: line@ },
            InitiatorAction::Finish => InitiatorActionView::Finish,
            InitiatorAction::Abort { error } => InitiatorActionView::Abort { error },
        }
    }
}

/// The initiator's transition: the state after `event`, and the action that
/// the caller is to perform.
///
/// Once both signatures are known, the files to send are those that are new
/// or changed with respect to the responder, and the command announces as
/// many. They go out one by one, in that order; then the output is read line
/// by line until the responder closes the connection or reading fails. A
/// failure before that ends the exchange with its error, and an event that
/// the state does not expect is a protocol error.
pub open spec fn initiator_next(state: InitiatorStateView, event: InitiatorEventView) -> (
    InitiatorStateView,
    InitiatorActionView,
) {
    match (state, event) {
        (InitiatorStateView::Done, _) => (state, InitiatorActionView::Finish),
        (InitiatorStateView::Failed { error }, _) => (state, InitiatorActionView::Abort { error }),
        (InitiatorStateView::ReceivingOutput, InitiatorEventView::Failure(_)) => (
            InitiatorStateView::Done,
            InitiatorActionView::Finish,
        ),
        (_, InitiatorEventView::Failure(error)) => (
            InitiatorStateView::Failed { error },
            InitiatorActionView::Abort { error },
        ),
        (InitiatorStateView::Idle { target }, InitiatorEventView::Connected) => (
            InitiatorStateView::AwaitingCatalog { target },
            InitiatorActionView::ReceiveCatalog,
        ),
        (
            InitiatorStateView::AwaitingCatalog { target },
            InitiatorEventView::RemoteCatalog(remote),
        ) => (
            InitiatorStateView::BuildingCatalog { target, remote },
            InitiatorActionView::BuildCatalog,
        ),
        (
            InitiatorStateView::BuildingCatalog { target, remote },
            InitiatorEventView::LocalCatalog(local),
        ) => {
            let paths = new_and_changed_spec(local, remote);
            (
                InitiatorStateView::Sending { paths, next: 0 },
                InitiatorActionView::SendCommand(
                    ClientCommandView { python_file_path: target, num_files: paths.len() },
                ),
            )
        },
        (InitiatorStateView::Sending { paths, next }, InitiatorEventView::Sent) => {
            if next < paths.len() {
                (
                    InitiatorStateView::Sending { paths, next: next + 1 },
                    InitiatorActionView::SendFile { rel_path: paths[next as int] },
                )
            } else {
                (InitiatorStateView::ReceivingOutput, InitiatorActionView::ReadOutput)
            }
        },
        (InitiatorStateView::ReceivingOutput, InitiatorEventView::OutputLine(line)) => (
            InitiatorStateView::ReceivingOutput,
            InitiatorActionView::Print { line },
        ),
        (InitiatorStateView::ReceivingOutput, InitiatorEventView::OutputClosed) => (
            InitiatorStateView::Done,
            InitiatorActionView::Finish,
        ),
        _ => (
            InitiatorStateView::Failed { error: SyncError::Protocol },
            InitiatorActionView::Abort { error: SyncError::Protocol },
        ),
    }
}

/// One step of the initiator: takes the state and what the caller reports,
/// gives the next state and the next action.
pub fn initiator_step(state: InitiatorState, event: InitiatorEvent) -> (out: (
    InitiatorState,
    InitiatorAction,
))
    ensures
        (out.0@, out.1@) == initiator_next(state@, event@),
{
    match (state, event) {
        (InitiatorState::Done, _) => (InitiatorState::Done, InitiatorAction::Finish),
        (InitiatorState::Failed { error }, _) => (
            InitiatorState::Failed { error },
            InitiatorAction::Abort { error },
        ),
        (InitiatorState::ReceivingOutput, InitiatorEvent::Failure(_)) => (
            InitiatorState::Done,
            InitiatorAction::Finish,
        ),
        (_, InitiatorEvent::Failure(error)) => (
            InitiatorState::Failed { error },
            InitiatorAction::Abort { error },
        ),
        (InitiatorState::Idle { target }, InitiatorEvent::Connected) => (
            InitiatorState::AwaitingCatalog { target },
            InitiatorAction::ReceiveCatalog,
        ),
        (InitiatorState::AwaitingCatalog { target }, InitiatorEvent::RemoteCatalog(remote)) => (
            InitiatorState::BuildingCatalog { target, remote },
            InitiatorAction::BuildCatalog,
        ),
        (InitiatorState::BuildingCatalog { target, remote }, InitiatorEvent::LocalCatalog(local)) => {
            let paths = local.new_and_changed(&remote);
            let command = ClientCommand { python_file_path: target, num_files: paths.len() };
            (InitiatorState::Sending { paths, next: 0 }, InitiatorAction::SendCommand(command))
        },
        (InitiatorState::Sending { paths, next }, InitiatorEvent::Sent) => {
            if next < paths.len() {
                let rel_path = paths[next].clone();
                (
                    InitiatorState::Sending { paths, next: next + 1 },
                    InitiatorAction::SendFile { rel_path },
                )
            } else {
                (InitiatorState::ReceivingOutput, InitiatorAction::ReadOutput)
            }
        },
        (InitiatorState::ReceivingOutput, InitiatorEvent::OutputLine(line)) => (
            InitiatorState::ReceivingOutput,
            InitiatorAction::Print { line },
        ),
        (InitiatorState::ReceivingOutput, InitiatorEvent::OutputClosed) => (
            InitiatorState::Done,
            InitiatorAction::Finish,
        ),
        _ => (
            InitiatorState::Failed { error: SyncError::Protocol },
            InitiatorAction::Abort { error: SyncError::Protocol },
        ),
    }
}

/// The state after a run of events from `state`, and the actions that the
/// caller was given on the way, one for each event.
pub open spec fn initiator_run(state: InitiatorStateView, events: Seq<InitiatorEventView>) -> (
    InitiatorStateView,
    Seq<InitiatorActionView>,
)
    decreases events.len(),
{
    if events.len() == 0 {
        (state, Seq::empty())
    } else {
        let before = initiator_run(state, events.drop_last());
        let step = initiator_next(before.0, events.last());
        (step.0, before.1.push(step.1))
    }
}

/// What the caller reports while the local signature is built and then
/// `sends` things go out without failure.
pub open spec fn sending_events(local: Seq<FolderEntryView>, sends: nat) -> Seq<InitiatorEventView> {
    seq![InitiatorEventView::LocalCatalog(local)] + Seq::new(
        sends,
        |i: int| InitiatorEventView::Sent,
    )
}

/// The actions that send a command for `target` which announces `paths`, and
/// then the first `count` of these files, in their order.
pub open spec fn sending_actions(target: Seq<char>, paths: Seq<Seq<char>>, count: nat) -> Seq<
    InitiatorActionView,
> {
    seq![
        InitiatorActionView::SendCommand(
            ClientCommandView { python_file_path: target, num_files: paths.len() },
        ),
    ] + Seq::new(count, |i: int| InitiatorActionView::SendFile { rel_path: paths[i] })
}

/// A run that is one event longer ends with the step for that event.
pub proof fn lemma_initiator_run_push(
    state: InitiatorStateView,
    events: Seq<InitiatorEventView>,
    event: InitiatorEventView,
)
    ensures
        initiator_run(state, events.push(event)) == ({
            let before = initiator_run(state, events);
            let step = initiator_next(before.0, event);
            (step.0, before.1.push(step.1))
        }),
{
    assert(events.push(event).drop_last() =~= events);
}

/// After the command and `count` files went out, the initiator has handed
/// out the first `count` of the new or changed files, and nothing else.
proof fn lemma_sending_in_progress(
    target: Seq<char>,
    remote: Seq<FolderEntryView>,
    local: Seq<FolderEntryView>,
    count: nat,
)
    requires
        count <= new_and_changed_spec(local, remote).len(),
    ensures
        initiator_run(
            InitiatorStateView::BuildingCatalog { target, remote },
            sending_events(local, count),
        ) == (
            InitiatorStateView::Sending {
                paths: new_and_changed_spec(local, remote),
                next: count,
            },
            sending_actions(target, new_and_changed_spec(local, remote), count),
        ),
    decreases count,
{
    let start = InitiatorStateView::BuildingCatalog { target, remote };
    let paths = new_and_changed_spec(local, remote);
    if count == 0 {
        let first = InitiatorEventView::LocalCatalog(local);
        assert(sending_events(local, 0) =~= Seq::empty().push(first));
        lemma_initiator_run_push(start, Seq::empty(), first);
        assert(sending_actions(target, paths, 0) =~= Seq::<InitiatorActionView>::empty().push(
            InitiatorActionView::SendCommand(
                ClientCommandView { python_file_path: target, num_files: paths.len() },
            ),
        ));
    } else {
        let earlier = (count - 1) as nat;
        lemma_sending_in_progress(target, remote, local, earlier);
        assert(sending_events(local, count) =~= sending_events(local, earlier).push(
            InitiatorEventView::Sent,
        ));
        lemma_initiator_run_push(start, sending_events(local, earlier), InitiatorEventView::Sent);
        assert(sending_actions(target, paths, count) =~= sending_actions(
            target,
            paths,
            earlier,
        ).push(InitiatorActionView::SendFile { rel_path: paths[earlier as int] }));
    }
}

/// The initiator sends exactly the files that are new or changed with
/// respect to the responder, each once and in their order, after a command
/// that announces their number, and only then turns to the output.
pub proof fn lemma_all_new_and_changed_files_are_sent(
    target: Seq<char>,
    remote: Seq<FolderEntryView>,
    local: Seq<FolderEntryView>,
)
    ensures
        ({
            let paths = new_and_changed_spec(local, remote);
            initiator_run(
                InitiatorStateView::BuildingCatalog { target, remote },
                sending_events(local, paths.len() + 1),
            ) == (
                InitiatorStateView::ReceivingOutput,
                sending_actions(target, paths, paths.len()).push(InitiatorActionView::ReadOutput),
            )
        }),
{
    let start = InitiatorStateView::BuildingCatalog { target, remote };
    let paths = new_and_changed_spec(local, remote);
    lemma_sending_in_progress(target, remote, local, paths.len());
    assert(sending_events(local, paths.len() + 1) =~= sending_events(local, paths.len()).push(
        InitiatorEventView::Sent,
    ));
    lemma_initiator_run_push(start, sending_events(local, paths.len()), InitiatorEventView::Sent);
}

} // verus!
