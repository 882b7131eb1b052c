//! The responder's side of one connection, as a state machine: the decisions
//! are made here, the caller performs each action and reports what came of it.

use vstd::prelude::*;
use crate::error::SyncError;
use crate::protocol::{ClientCommand, ClientCommandView, FileHeader, FileHeaderView};
use crate::signature::texts;

verus! {

/// Where the responder stands.
#[derive(Clone, Debug, PartialEq, Eq)]
pub enum ResponderState {
    /// Nothing has happened on the connection yet.
    Idle,
    /// The signature of the execution root is being built.
    BuildingCatalog,
    /// The signature is on its way to the initiator.
    SendingCatalog,
    /// The initiator's command is awaited.
    AwaitingCommand,
    /// `remaining` files are still to come; the next header is awaited.
    AwaitingHeader { target: String, remaining: usize },
    /// The block that `header` announces is being read.
    AwaitingBlock { target: String, remaining: usize, header: FileHeader },
    /// One of the `remaining` files is being written.
    StoringFile { target: String, remaining: usize },
    /// The command is being started.
    Launching,
    /// The command's output is being relayed.
    Relaying,
    /// The connection was handled to its end.
    Closed,
    /// The connection was given up.
    Failed { error: SyncError },
}

/// What the caller reports back.
#[derive(Clone, Debug, PartialEq, Eq)]
pub enum ResponderEvent {
    /// A connection was accepted.
    Connected,
    /// The signature is built.
    CatalogBuilt,
    /// The signature was sent.
    CatalogSent,
    /// The initiator's command arrived.
    Command(ClientCommand),
    /// A file's header arrived.
    Header(FileHeader),
    /// The connection gave `received` bytes of the announced block.
    Block { received: usize },
    /// The block is written to its file.
    FileStored,
    /// The command runs.
    Launched,
    /// The relay has ended.
    OutputExhausted,
    /// The last action failed.
    Failure(SyncError),
}

/// What the caller is to do next.
#[derive(Clone, Debug, PartialEq, Eq)]
pub enum ResponderAction {
    /// Build the signature of the execution root.
    BuildCatalog,
    /// Send the signature as a structured message.
    SendCatalog,
    /// Receive the command.
    ReceiveCommand,
    /// Receive the next file's header.
    ReceiveHeader,
    /// Read a raw block of `length` bytes.
    ReceiveBlock { length: usize },
    /// Write the block, as it is, to the file at `rel_path` under the
    /// execution root, creating its directories as needed.
    WriteFile { rel_path: String },
    /// Run the file at `target` in the execution root.
    Launch { target: String },
    /// Relay the command's output to the initiator.
    RelayOutput,
    /// Close the connection.
    Close,
    /// Report `error` and drop the connection.
    Abort { error: SyncError },
}

/// A `ResponderState` over plain values.
pub enum ResponderStateView {
    Idle,
    BuildingCatalog,
    SendingCatalog,
    AwaitingCommand,
    AwaitingHeader { target: Seq<char>, remaining: nat },
    AwaitingBlock { target: Seq<char>, remaining: nat, header: FileHeaderView },
    StoringFile { target: Seq<char>, remaining: nat },
    Launching,
    Relaying,
    Closed,
    Failed { error: SyncError },
}

/// A `ResponderEvent` over plain values.
pub enum ResponderEventView {
    Connected,
    CatalogBuilt,
    CatalogSent,
    Command(ClientCommandView),
    Header(FileHeaderView),
    Block { received: nat },
    FileStored,
    Launched,
    OutputExhausted,
    Failure(SyncError),
}

/// A `ResponderAction` over plain values.
pub enum ResponderActionView {
    BuildCatalog,
    SendCatalog,
    ReceiveCommand,
    ReceiveHeader,
    ReceiveBlock { length: nat },
    WriteFile { rel_path: Seq<char> },
    Launch { target: Seq<char> },
    RelayOutput,
    Close,
    Abort { error: SyncError },
}

impl View for ResponderState {
    type V = ResponderStateView;

    open spec fn view(&self) -> ResponderStateView {
        match *self {
            ResponderState::Idle => ResponderStateView::Idle,
            ResponderState::BuildingCatalog => ResponderStateView::BuildingCatalog,
            ResponderState::SendingCatalog => ResponderStateView::SendingCatalog,
            ResponderState::AwaitingCommand => ResponderStateView::AwaitingCommand,
            ResponderState::AwaitingHeader { target, remaining } => ResponderStateView::AwaitingHeader {
                target: target@,
                remaining: remaining as nat,
            },
            ResponderState::AwaitingBlock { target, remaining, header } => ResponderStateView::AwaitingBlock {
                target: target@,
                remaining: remaining as nat,
                header: header@,
            },
            ResponderState::StoringFile { target, remaining } => ResponderStateView::StoringFile {
                target: target@,
                remaining: remaining as nat,
            },
            ResponderState::Launching => ResponderStateView::Launching,
            ResponderState::Relaying => ResponderStateView::Relaying,
            ResponderState::Closed => ResponderStateView::Closed,
            ResponderState::Failed { error } => ResponderStateView::Failed { error },
        }
    }
}

impl View for ResponderEvent {
    type V = ResponderEventView;

    open spec fn view(&self) -> ResponderEventView {
        match *self {
            ResponderEvent::Connected => ResponderEventView::Connected,
            ResponderEvent::CatalogBuilt => ResponderEventView::CatalogBuilt,
            ResponderEvent::CatalogSent => ResponderEventView::CatalogSent,
            ResponderEvent::Command(command) => ResponderEventView::Command(command@),
            ResponderEvent::Header(header) => ResponderEventView::Header(header@),
            ResponderEvent::Block { received } => ResponderEventView::Block {
                received: received as nat,
            },
            ResponderEvent::FileStored => ResponderEventView::FileStored,
            ResponderEvent::Launched => ResponderEventView::Launched,
            ResponderEvent::OutputExhausted => ResponderEventView::OutputExhausted,
            ResponderEvent::Failure(error) => ResponderEventView::Failure(error),
        }
    }
}

impl View for ResponderAction {
    type V = ResponderActionView;

    open spec fn view(&self) -> ResponderActionView {
        match *self {
            ResponderAction::BuildCatalog => ResponderActionView::BuildCatalog,
            ResponderAction::SendCatalog => ResponderActionView::SendCatalog,
            ResponderAction::ReceiveCommand => ResponderActionView::ReceiveCommand,
            ResponderAction::ReceiveHeader => ResponderActionView::ReceiveHeader,
            ResponderAction::ReceiveBlock { length } => ResponderActionView::ReceiveBlock {
                length: length as nat,
            },
            ResponderAction::WriteFile { rel_path } => ResponderActionView::WriteFile {
                rel_path: rel_path@,
            },
            ResponderAction::Launch { target } => ResponderActionView::Launch { target: target@ },
            ResponderAction::RelayOutput => ResponderActionView::RelayOutput,
            ResponderAction::Close => ResponderActionView::Close,
            ResponderAction::Abort { error } => ResponderActionView::Abort { error },
        }
    }
}

/// The responder's transition: the state after `event`, and the action that
/// the caller is to perform.
///
/// A finished connection stays finished. A reported failure ends the
/// connection with that error, except while relaying, where a lost peer only
/// ends the relay. A block that does not have the announced length is a
/// network error: a file is written whole or not at all. An event that the
/// state does not expect is a protocol error.
pub open spec fn responder_next(state: ResponderStateView, event: ResponderEventView) -> (
    ResponderStateView,
    ResponderActionView,
) {
    match (state, event) {
        (ResponderStateView::Closed, _) => (state, ResponderActionView::Close),
        (ResponderStateView::Failed { error }, _) => (state, ResponderActionView::Abort { error }),
        (ResponderStateView::Relaying, ResponderEventView::Failure(_)) => (
            ResponderStateView::Closed,
            ResponderActionView::Close,
        ),
        (_, ResponderEventView::Failure(error)) => (
            ResponderStateView::Failed { error },
            ResponderActionView::Abort { error },
        ),
        (ResponderStateView::Idle, ResponderEventView::Connected) => (
            ResponderStateView::BuildingCatalog,
            ResponderActionView::BuildCatalog,
        ),
        (ResponderStateView::BuildingCatalog, ResponderEventView::CatalogBuilt) => (
            ResponderStateView::SendingCatalog,
            ResponderActionView::SendCatalog,
        ),
        (ResponderStateView::SendingCatalog, ResponderEventView::CatalogSent) => (
            ResponderStateView::AwaitingCommand,
            ResponderActionView::ReceiveCommand,
        ),
        (ResponderStateView::AwaitingCommand, ResponderEventView::Command(command)) => {
            if command.num_files == 0 {
                (
                    ResponderStateView::Launching,
                    ResponderActionView::Launch { target: command.python_file_path },
                )
            } else {
                (
                    ResponderStateView::AwaitingHeader {
                        target: command.python_file_path,
                        remaining: command.num_files,
                    },
                    ResponderActionView::ReceiveHeader,
                )
            }
        },
        (
            ResponderStateView::AwaitingHeader { target, remaining },
            ResponderEventView::Header(header),
        ) => (
            ResponderStateView::AwaitingBlock { target, remaining, header },
            ResponderActionView::ReceiveBlock { length: header.length },
        ),
        (
            ResponderStateView::AwaitingBlock { target, remaining, header },
            ResponderEventView::Block { received },
        ) => {
            if received == header.length {
                (
                    ResponderStateView::StoringFile { target, remaining },
                    ResponderActionView::WriteFile { rel_path: header.rel_path },
                )
            } else {
                (
                    ResponderStateView::Failed { error: SyncError::Network },
                    ResponderActionView::Abort { error: SyncError::Network },
                )
            }
        },
        (ResponderStateView::StoringFile { target, remaining }, ResponderEventView::FileStored) => {
            if remaining <= 1 {
                (ResponderStateView::Launching, ResponderActionView::Launch { target })
            } else {
                (
                    ResponderStateView::AwaitingHeader {
                        target,
                        remaining: (remaining - 1) as nat,
                    },
                    ResponderActionView::ReceiveHeader,
                )
            }
        },
        (ResponderStateView::Launching, ResponderEventView::Launched) => (
            ResponderStateView::Relaying,
            ResponderActionView::RelayOutput,
        ),
        (ResponderStateView::Relaying, ResponderEventView::OutputExhausted) => (
            ResponderStateView::Closed,
            ResponderActionView::Close,
        ),
        _ => (
            ResponderStateView::Failed { error: SyncError::Protocol },
            ResponderActionView::Abort { error: SyncError::Protocol },
        ),
    }
}

/// One step of the responder: takes the state and what the caller reports,
/// gives the next state and the next action.
pub fn responder_step(state: ResponderState, event: ResponderEvent) -> (out: (
    ResponderState,
    ResponderAction,
))
    ensures
        (out.0@, out.1@) == responder_next(state@, event@),
{
    match (state, event) {
        (ResponderState::Closed, _) => (ResponderState::Closed, ResponderAction::Close),
        (ResponderState::Failed { error }, _) => (
            ResponderState::Failed { error },
            ResponderAction::Abort { error },
        ),
        (ResponderState::Relaying, ResponderEvent::Failure(_)) => (
            ResponderState::Closed,
            ResponderAction::Close,
        ),
        (_, ResponderEvent::Failure(error)) => (
            ResponderState::Failed { error },
            ResponderAction::Abort { error },
        ),
        (ResponderState::Idle, ResponderEvent::Connected) => (
            ResponderState::BuildingCatalog,
            ResponderAction::BuildCatalog,
        ),
        (ResponderState::BuildingCatalog, ResponderEvent::CatalogBuilt) => (
            ResponderState::SendingCatalog,
            ResponderAction::SendCatalog,
        ),
        (ResponderState::SendingCatalog, ResponderEvent::CatalogSent) => (
            ResponderState::AwaitingCommand,
            ResponderAction::ReceiveCommand,
        ),
        (ResponderState::AwaitingCommand, ResponderEvent::Command(command)) => {
            if command.num_files == 0 {
                (ResponderState::Launching, ResponderAction::Launch { target: command.python_file_path })
            } else {
                (
                    ResponderState::AwaitingHeader {
                        target: command.python_file_path,
                        remaining: command.num_files,
                    },
                    ResponderAction::ReceiveHeader,
                )
            }
        },
        (ResponderState::AwaitingHeader { target, remaining }, ResponderEvent::Header(header)) => {
            let length = header.length;
            (
                ResponderState::AwaitingBlock { target, remaining, header },
                ResponderAction::ReceiveBlock { length },
            )
        },
        (
            ResponderState::AwaitingBlock { target, remaining, header },
            ResponderEvent::Block { received },
        ) => {
            if received == header.length {
                (
                    ResponderState::StoringFile { target, remaining },
                    ResponderAction::WriteFile { rel_path: header.rel_path },
                )
            } else {
                (
                    ResponderState::Failed { error: SyncError::Network },
                    ResponderAction::Abort { error: SyncError::Network },
                )
            }
        },
        (ResponderState::StoringFile { target, remaining }, ResponderEvent::FileStored) => {
            if remaining <= 1 {
                (ResponderState::Launching, ResponderAction::Launch { target })
            } else {
                (
                    ResponderState::AwaitingHeader { target, remaining: remaining - 1 },
                    ResponderAction::ReceiveHeader,
                )
            }
        },
        (ResponderState::Launching, ResponderEvent::Launched) => (
            ResponderState::Relaying,
            ResponderAction::RelayOutput,
        ),
        (ResponderState::Relaying, ResponderEvent::OutputExhausted) => (
            ResponderState::Closed,
            ResponderAction::Close,
        ),
        _ => (
            ResponderState::Failed { error: SyncError::Protocol },
            ResponderAction::Abort { error: SyncError::Protocol },
        ),
    }
}

/// The state after a run of events from `state`, and the actions that the
/// caller was given on the way, one for each event.
pub open spec fn responder_run(state: ResponderStateView, events: Seq<ResponderEventView>) -> (
    ResponderStateView,
    Seq<ResponderActionView>,
)
    decreases events.len(),
{
    if events.len() == 0 {
        (state, Seq::empty())
    } else {
        let before = responder_run(state, events.drop_last());
        let step = responder_next(before.0, events.last());
        (step.0, before.1.push(step.1))
    }
}

/// What the caller reports while the files announced by `headers` arrive
/// without failure: each header, then its whole block, then that its file is
/// stored.
pub open spec fn transfer_events(headers: Seq<FileHeaderView>) -> Seq<ResponderEventView>
    decreases headers.len(),
{
    if headers.len() == 0 {
        Seq::empty()
    } else {
        transfer_events(headers.drop_last()).push(
            ResponderEventView::Header(headers.last()),
        ).push(ResponderEventView::Block { received: headers.last().length }).push(
            ResponderEventView::FileStored,
        )
    }
}

/// The actions that receive and store the files announced by `headers`, in
/// their order.
pub open spec fn transfer_actions(headers: Seq<FileHeaderView>) -> Seq<ResponderActionView>
    decreases headers.len(),
{
    if headers.len() == 0 {
        Seq::empty()
    } else {
        transfer_actions(headers.drop_last()).push(ResponderActionView::ReceiveHeader).push(
            ResponderActionView::ReceiveBlock { length: headers.last().length },
        ).push(ResponderActionView::WriteFile { rel_path: headers.last().rel_path })
    }
}

/// A run that is one event longer ends with the step for that event.
pub proof fn lemma_responder_run_push(
    state: ResponderStateView,
    events: Seq<ResponderEventView>,
    event: ResponderEventView,
)
    ensures
        responder_run(state, events.push(event)) == ({
            let before = responder_run(state, events);
            let step = responder_next(before.0, event);
            (step.0, before.1.push(step.1))
        }),
{
    assert(events.push(event).drop_last() =~= events);
}

/// While fewer files have arrived than the command announced, the responder
/// awaits the next header, and has stored each file that came.
proof fn lemma_transfer_in_progress(command: ClientCommandView, headers: Seq<FileHeaderView>)
    requires
        headers.len() < command.num_files,
    ensures
        responder_run(
            ResponderStateView::AwaitingCommand,
            seq![ResponderEventView::Command(command)] + transfer_events(headers),
        ) == (
            ResponderStateView::AwaitingHeader {
                target: command.python_file_path,
                remaining: (command.num_files - headers.len()) as nat,
            },
            transfer_actions(headers).push(ResponderActionView::ReceiveHeader),
        ),
    decreases headers.len(),
{
    let start = ResponderStateView::AwaitingCommand;
    let first = seq![ResponderEventView::Command(command)];
    if headers.len() == 0 {
        assert(first + transfer_events(headers) =~= Seq::empty().push(first[0]));
        lemma_responder_run_push(start, Seq::empty(), first[0]);
        assert(transfer_actions(headers).push(ResponderActionView::ReceiveHeader)
            =~= Seq::<ResponderActionView>::empty().push(ResponderActionView::ReceiveHeader));
    } else {
        let earlier = headers.drop_last();
        let header = ResponderEventView::Header(headers.last());
        let block = ResponderEventView::Block { received: headers.last().length };
        let stored = ResponderEventView::FileStored;
        lemma_transfer_in_progress(command, earlier);
        let upto = first + transfer_events(earlier);
        assert(first + transfer_events(headers) =~= upto.push(header).push(block).push(stored));
        lemma_responder_run_push(start, upto, header);
        lemma_responder_run_push(start, upto.push(header), block);
        lemma_responder_run_push(start, upto.push(header).push(block), stored);
    }
}

/// The responder stores exactly the files that the command announced, each
/// under the path of its own header and in the order of arrival, and only
/// then starts the command: after a command that announces `headers.len()`
/// files and the arrival of those files, the actions were to receive and
/// write each of them and then to launch the command's target, and nothing
/// else.
pub proof fn lemma_all_announced_files_are_stored(
    command: ClientCommandView,
    headers: Seq<FileHeaderView>,
)
    requires
        headers.len() == command.num_files,
    ensures
        responder_run(
            ResponderStateView::AwaitingCommand,
            seq![ResponderEventView::Command(command)] + transfer_events(headers),
        ) == (
            ResponderStateView::Launching,
            transfer_actions(headers).push(
                ResponderActionView::Launch { target: command.python_file_path },
            ),
        ),
{
    let start = ResponderStateView::AwaitingCommand;
    let first = seq![ResponderEventView::Command(command)];
    let launch = ResponderActionView::Launch { target: command.python_file_path };
    if headers.len() == 0 {
        assert(first + transfer_events(headers) =~= Seq::empty().push(first[0]));
        lemma_responder_run_push(start, Seq::empty(), first[0]);
        assert(transfer_actions(headers).push(launch) =~= Seq::<ResponderActionView>::empty().push(
            launch,
        ));
    } else {
        let earlier = headers.drop_last();
        let header = ResponderEventView::Header(headers.last());
        let block = ResponderEventView::Block { received: headers.last().length };
        let stored = ResponderEventView::FileStored;
        lemma_transfer_in_progress(command, earlier);
        let upto = first + transfer_events(earlier);
        assert(first + transfer_events(headers) =~= upto.push(header).push(block).push(stored));
        lemma_responder_run_push(start, upto, header);
        lemma_responder_run_push(start, upto.push(header), block);
        lemma_responder_run_push(start, upto.push(header).push(block), stored);
    }
}

/// A block that falls short of what its header announced is never written:
/// the connection ends with a network error.
pub proof fn lemma_short_block_is_refused(
    target: Seq<char>,
    remaining: nat,
    header: FileHeaderView,
    received: nat,
)
    requires
        received != header.length,
    ensures
        responder_next(
            ResponderStateView::AwaitingBlock { target, remaining, header },
            ResponderEventView::Block { received },
        ) == (
            ResponderStateView::Failed { error: SyncError::Network },
            ResponderActionView::Abort { error: SyncError::Network },
        ),
{
}

/// A connection that is closed or has failed stays so, whatever is reported.
pub proof fn lemma_finished_stays_finished(state: ResponderStateView, event: ResponderEventView)
    requires
        state is Closed || state is Failed,
    ensures
        responder_next(state, event).0 == state,
{
}

/// The part of the exchange that a state belongs to, for the record of a
/// failure.
#[derive(Clone, Copy, Debug, PartialEq, Eq, Structural)]
pub enum Phase {
    /// Up to the arrival of the command.
    CatalogExchange,
    /// While the announced files arrive.
    FileReceipt,
    /// From the start of the command on.
    Execution,
    /// After the end of the connection.
    Finished,
}

/// The phase that a state belongs to.
pub open spec fn phase_of(state: ResponderStateView) -> Phase {
    match state {
        ResponderStateView::Idle
        | ResponderStateView::BuildingCatalog
        | ResponderStateView::SendingCatalog
        | ResponderStateView::AwaitingCommand => Phase::CatalogExchange,
        ResponderStateView::AwaitingHeader { .. }
        | ResponderStateView::AwaitingBlock { .. }
        | ResponderStateView::StoringFile { .. } => Phase::FileReceipt,
        ResponderStateView::Launching | ResponderStateView::Relaying => Phase::Execution,
        ResponderStateView::Closed | ResponderStateView::Failed { .. } => Phase::Finished,
    }
}

impl ResponderState {
    /// The phase that this state belongs to.
    pub fn phase(&self) -> (phase: Phase)
        ensures
            phase == phase_of(self@),
    {
        match self {
            ResponderState::Idle
            | ResponderState::BuildingCatalog
            | ResponderState::SendingCatalog
            | ResponderState::AwaitingCommand => Phase::CatalogExchange,
            ResponderState::AwaitingHeader { .. }
            | ResponderState::AwaitingBlock { .. }
            | ResponderState::StoringFile { .. } => Phase::FileReceipt,
            ResponderState::Launching | ResponderState::Relaying => Phase::Execution,
            ResponderState::Closed | ResponderState::Failed { .. } => Phase::Finished,
        }
    }
}

/// The name of the interpreter to run: `python3` where it is to be had,
/// `python` where it is not.
pub fn find_python_version(python3_runs: bool) -> (name: &'static str)
    ensures
        name@ == if python3_runs {
            "python3"@
        } else {
            "python"@
        },
{
    if python3_runs {
        "python3"
    } else {
        "python"
    }
}

/// The arguments with which the interpreter runs the file at `target`: its
/// output unbuffered, so that each line leaves as it is written.
pub fn launch_arguments(target: &String) -> (arguments: Vec<String>)
    ensures
        texts(arguments@) == seq!["-u"@, target@],
{
    let mut arguments: Vec<String> = Vec::new();
    arguments.push(String::from_str("-u"));
    arguments.push(target.clone());
    assert(texts(arguments@) =~= seq!["-u"@, target@]);
    arguments
}

} // verus!
