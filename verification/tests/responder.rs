use remote_python::error::SyncError;
use remote_python::protocol::{file_header, ClientCommand, FileHeader};
use remote_python::responder::{
    find_python_version, launch_arguments, responder_step, Phase, ResponderAction, ResponderEvent,
    ResponderState,
};

fn command(target: &str, num_files: usize) -> ClientCommand {
    ClientCommand { python_file_path: target.to_string(), num_files }
}

fn header(rel_path: &str, length: usize) -> FileHeader {
    FileHeader { length, rel_path: rel_path.to_string() }
}

fn run(mut state: ResponderState, events: Vec<ResponderEvent>) -> (ResponderState, Vec<ResponderAction>) {
    let mut actions = Vec::new();
    for event in events {
        let (next, action) = responder_step(state, event);
        state = next;
        actions.push(action);
    }
    (state, actions)
}

#[test]
fn the_responder_builds_and_sends_its_catalog_first() {
    let (state, actions) = run(
        ResponderState::Idle,
        vec![ResponderEvent::Connected, ResponderEvent::CatalogBuilt, ResponderEvent::CatalogSent],
    );
    assert_eq!(state, ResponderState::AwaitingCommand);
    assert_eq!(
        actions,
        vec![
            ResponderAction::BuildCatalog,
            ResponderAction::SendCatalog,
            ResponderAction::ReceiveCommand,
        ]
    );
}

#[test]
fn a_command_without_files_launches_at_once() {
    let (state, action) =
        responder_step(ResponderState::AwaitingCommand, ResponderEvent::Command(command("run.py", 0)));
    assert_eq!(state, ResponderState::Launching);
    assert_eq!(action, ResponderAction::Launch { target: "run.py".to_string() });
}

#[test]
fn a_command_with_files_asks_for_the_first_header() {
    let (state, action) =
        responder_step(ResponderState::AwaitingCommand, ResponderEvent::Command(command("run.py", 3)));
    assert_eq!(state, ResponderState::AwaitingHeader { target: "run.py".to_string(), remaining: 3 });
    assert_eq!(action, ResponderAction::ReceiveHeader);
}

#[test]
fn one_file_is_received_and_written_before_the_launch() {
    let (state, actions) = run(
        ResponderState::AwaitingCommand,
        vec![
            ResponderEvent::Command(command("script.py", 1)),
            ResponderEvent::Header(header("script.py", 12)),
            ResponderEvent::Block { received: 12 },
            ResponderEvent::FileStored,
        ],
    );
    assert_eq!(state, ResponderState::Launching);
    assert_eq!(
        actions,
        vec![
            ResponderAction::ReceiveHeader,
            ResponderAction::ReceiveBlock { length: 12 },
            ResponderAction::WriteFile { rel_path: "script.py".to_string() },
            ResponderAction::Launch { target: "script.py".to_string() },
        ]
    );
}

#[test]
fn exactly_the_announced_files_are_received() {
    let (state, actions) = run(
        ResponderState::AwaitingCommand,
        vec![
            ResponderEvent::Command(command("run.py", 2)),
            ResponderEvent::Header(header("pkg/lib.py", 0)),
            ResponderEvent::Block { received: 0 },
            ResponderEvent::FileStored,
            ResponderEvent::Header(header("run.py", 7)),
            ResponderEvent::Block { received: 7 },
            ResponderEvent::FileStored,
            ResponderEvent::Launched,
            ResponderEvent::OutputExhausted,
        ],
    );
    assert_eq!(state, ResponderState::Closed);
    assert_eq!(
        actions,
        vec![
            ResponderAction::ReceiveHeader,
            ResponderAction::ReceiveBlock { length: 0 },
            ResponderAction::WriteFile { rel_path: "pkg/lib.py".to_string() },
            ResponderAction::ReceiveHeader,
            ResponderAction::ReceiveBlock { length: 7 },
            ResponderAction::WriteFile { rel_path: "run.py".to_string() },
            ResponderAction::Launch { target: "run.py".to_string() },
            ResponderAction::RelayOutput,
            ResponderAction::Close,
        ]
    );
}

#[test]
fn the_count_of_remaining_files_goes_down_by_one() {
    let state = ResponderState::StoringFile { target: "t.py".to_string(), remaining: 3 };
    let (state, action) = responder_step(state, ResponderEvent::FileStored);
    assert_eq!(state, ResponderState::AwaitingHeader { target: "t.py".to_string(), remaining: 2 });
    assert_eq!(action, ResponderAction::ReceiveHeader);
}

#[test]
fn a_block_that_falls_short_is_a_network_error() {
    let state = ResponderState::AwaitingBlock {
        target: "t.py".to_string(),
        remaining: 1,
        header: header("a.py", 10),
    };
    let (state, action) = responder_step(state, ResponderEvent::Block { received: 9 });
    assert_eq!(state, ResponderState::Failed { error: SyncError::Network });
    assert_eq!(action, ResponderAction::Abort { error: SyncError::Network });
}

#[test]
fn a_reported_failure_ends_the_connection_with_its_error() {
    for error in [SyncError::Network, SyncError::Protocol, SyncError::Filesystem, SyncError::Process] {
        let (state, action) = responder_step(ResponderState::Launching, ResponderEvent::Failure(error));
        assert_eq!(state, ResponderState::Failed { error });
        assert_eq!(action, ResponderAction::Abort { error });
    }
    let (state, action) = responder_step(
        ResponderState::AwaitingHeader { target: "t.py".to_string(), remaining: 2 },
        ResponderEvent::Failure(SyncError::Filesystem),
    );
    assert_eq!(state, ResponderState::Failed { error: SyncError::Filesystem });
    assert_eq!(action, ResponderAction::Abort { error: SyncError::Filesystem });
}

#[test]
fn a_lost_peer_only_ends_the_relay() {
    let (state, action) =
        responder_step(ResponderState::Relaying, ResponderEvent::Failure(SyncError::Network));
    assert_eq!(state, ResponderState::Closed);
    assert_eq!(action, ResponderAction::Close);
}

#[test]
fn an_unexpected_event_is_a_protocol_error() {
    let (state, action) = responder_step(ResponderState::Idle, ResponderEvent::FileStored);
    assert_eq!(state, ResponderState::Failed { error: SyncError::Protocol });
    assert_eq!(action, ResponderAction::Abort { error: SyncError::Protocol });
    let (state, _) = responder_step(
        ResponderState::AwaitingCommand,
        ResponderEvent::Header(header("a.py", 1)),
    );
    assert_eq!(state, ResponderState::Failed { error: SyncError::Protocol });
    let (state, _) = responder_step(
        ResponderState::AwaitingHeader { target: "t.py".to_string(), remaining: 1 },
        ResponderEvent::Command(command("t.py", 1)),
    );
    assert_eq!(state, ResponderState::Failed { error: SyncError::Protocol });
}

#[test]
fn a_finished_connection_stays_finished() {
    let (state, action) = responder_step(ResponderState::Closed, ResponderEvent::Connected);
    assert_eq!(state, ResponderState::Closed);
    assert_eq!(action, ResponderAction::Close);
    let failed = ResponderState::Failed { error: SyncError::Process };
    let (state, action) = responder_step(failed, ResponderEvent::Failure(SyncError::Network));
    assert_eq!(state, ResponderState::Failed { error: SyncError::Process });
    assert_eq!(action, ResponderAction::Abort { error: SyncError::Process });
}

#[test]
fn each_state_belongs_to_a_phase() {
    assert_eq!(ResponderState::Idle.phase(), Phase::CatalogExchange);
    assert_eq!(ResponderState::SendingCatalog.phase(), Phase::CatalogExchange);
    assert_eq!(ResponderState::AwaitingCommand.phase(), Phase::CatalogExchange);
    let receiving = ResponderState::AwaitingHeader { target: "t.py".to_string(), remaining: 1 };
    assert_eq!(receiving.phase(), Phase::FileReceipt);
    let storing = ResponderState::StoringFile { target: "t.py".to_string(), remaining: 1 };
    assert_eq!(storing.phase(), Phase::FileReceipt);
    assert_eq!(ResponderState::Launching.phase(), Phase::Execution);
    assert_eq!(ResponderState::Relaying.phase(), Phase::Execution);
    assert_eq!(ResponderState::Closed.phase(), Phase::Finished);
    assert_eq!(ResponderState::Failed { error: SyncError::Network }.phase(), Phase::Finished);
}

#[test]
fn python3_is_taken_where_it_runs() {
    assert_eq!(find_python_version(true), "python3");
    assert_eq!(find_python_version(false), "python");
}

#[test]
fn the_target_runs_unbuffered() {
    assert_eq!(
        launch_arguments(&"pkg/run.py".to_string()),
        vec!["-u".to_string(), "pkg/run.py".to_string()]
    );
}

#[test]
fn a_file_header_announces_the_length_of_its_body() {
    assert_eq!(file_header("a.py".to_string(), b"print(1)\n"), header("a.py", 9));
    assert_eq!(file_header("dir/empty".to_string(), b""), header("dir/empty", 0));
}
