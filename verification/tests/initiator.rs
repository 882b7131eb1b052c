use remote_python::error::SyncError;
use remote_python::initiator::{initiator_step, InitiatorAction, InitiatorEvent, InitiatorState};
use remote_python::protocol::ClientCommand;
use remote_python::signature::{FolderEntry, FolderSignature};

fn catalog(entries: &[(&str, &str)]) -> FolderSignature {
    let mut built = FolderSignature::new();
    for (path, hash) in entries {
        assert!(built.add_entry(FolderEntry::new(path.to_string(), hash.to_string())));
    }
    built
}

fn drive(mut state: InitiatorState, events: Vec<InitiatorEvent>) -> (InitiatorState, Vec<InitiatorAction>) {
    let mut actions = Vec::new();
    for event in events {
        let (next, action) = initiator_step(state, event);
        state = next;
        actions.push(action);
    }
    (state, actions)
}

fn send_command(target: &str, num_files: usize) -> InitiatorAction {
    InitiatorAction::SendCommand(ClientCommand { python_file_path: target.to_string(), num_files })
}

fn send_file(rel_path: &str) -> InitiatorAction {
    InitiatorAction::SendFile { rel_path: rel_path.to_string() }
}

#[test]
fn the_initiator_first_awaits_the_remote_catalog() {
    let (state, action) =
        initiator_step(InitiatorState::Idle { target: "run.py".to_string() }, InitiatorEvent::Connected);
    assert_eq!(state, InitiatorState::AwaitingCatalog { target: "run.py".to_string() });
    assert_eq!(action, InitiatorAction::ReceiveCatalog);
}

#[test]
fn a_single_new_script_is_sent_to_an_empty_responder() {
    let (state, actions) = drive(
        InitiatorState::Idle { target: "script.py".to_string() },
        vec![
            InitiatorEvent::Connected,
            InitiatorEvent::RemoteCatalog(FolderSignature::new()),
            InitiatorEvent::LocalCatalog(catalog(&[("script.py", "h1")])),
            InitiatorEvent::Sent,
            InitiatorEvent::Sent,
            InitiatorEvent::OutputLine("hi".to_string()),
            InitiatorEvent::OutputClosed,
        ],
    );
    assert_eq!(state, InitiatorState::Done);
    assert_eq!(
        actions,
        vec![
            InitiatorAction::ReceiveCatalog,
            InitiatorAction::BuildCatalog,
            send_command("script.py", 1),
            send_file("script.py"),
            InitiatorAction::ReadOutput,
            InitiatorAction::Print { line: "hi".to_string() },
            InitiatorAction::Finish,
        ]
    );
}

#[test]
fn a_shared_file_is_not_sent_again() {
    let (state, actions) = drive(
        InitiatorState::AwaitingCatalog { target: "run.py".to_string() },
        vec![
            InitiatorEvent::RemoteCatalog(catalog(&[("lib.py", "same")])),
            InitiatorEvent::LocalCatalog(catalog(&[("lib.py", "same"), ("run.py", "h2")])),
            InitiatorEvent::Sent,
            InitiatorEvent::Sent,
        ],
    );
    assert_eq!(state, InitiatorState::ReceivingOutput);
    assert_eq!(
        actions,
        vec![
            InitiatorAction::BuildCatalog,
            send_command("run.py", 1),
            send_file("run.py"),
            InitiatorAction::ReadOutput,
        ]
    );
}

#[test]
fn a_file_that_only_the_responder_has_is_left_alone() {
    let (state, actions) = drive(
        InitiatorState::AwaitingCatalog { target: "run.py".to_string() },
        vec![
            InitiatorEvent::RemoteCatalog(catalog(&[("run.py", "h"), ("old.py", "h9")])),
            InitiatorEvent::LocalCatalog(catalog(&[("run.py", "h")])),
            InitiatorEvent::Sent,
        ],
    );
    assert_eq!(state, InitiatorState::ReceivingOutput);
    assert_eq!(
        actions,
        vec![InitiatorAction::BuildCatalog, send_command("run.py", 0), InitiatorAction::ReadOutput]
    );
}

#[test]
fn the_command_announces_as_many_files_as_are_sent() {
    let (state, actions) = drive(
        InitiatorState::AwaitingCatalog { target: "main.py".to_string() },
        vec![
            InitiatorEvent::RemoteCatalog(catalog(&[("a.py", "1"), ("b.py", "old"), ("z.py", "9")])),
            InitiatorEvent::LocalCatalog(catalog(&[
                ("c.py", "3"),
                ("a.py", "1"),
                ("b.py", "2"),
                ("main.py", "4"),
            ])),
            InitiatorEvent::Sent,
            InitiatorEvent::Sent,
        ],
    );
    assert_eq!(
        state,
        InitiatorState::Sending {
            paths: vec!["c.py".to_string(), "b.py".to_string(), "main.py".to_string()],
            next: 2,
        }
    );
    assert_eq!(
        actions,
        vec![
            InitiatorAction::BuildCatalog,
            send_command("main.py", 3),
            send_file("c.py"),
            send_file("b.py"),
        ]
    );
    let (state, actions) = drive(state, vec![InitiatorEvent::Sent, InitiatorEvent::Sent]);
    assert_eq!(state, InitiatorState::ReceivingOutput);
    assert_eq!(actions, vec![send_file("main.py"), InitiatorAction::ReadOutput]);
}

#[test]
fn output_lines_are_shown_as_they_arrive() {
    let (state, actions) = drive(
        InitiatorState::ReceivingOutput,
        vec![
            InitiatorEvent::OutputLine("first".to_string()),
            InitiatorEvent::OutputLine("".to_string()),
            InitiatorEvent::OutputLine("third".to_string()),
        ],
    );
    assert_eq!(state, InitiatorState::ReceivingOutput);
    assert_eq!(
        actions,
        vec![
            InitiatorAction::Print { line: "first".to_string() },
            InitiatorAction::Print { line: "".to_string() },
            InitiatorAction::Print { line: "third".to_string() },
        ]
    );
}

#[test]
fn a_failed_read_of_the_output_ends_the_exchange_quietly() {
    let (state, action) =
        initiator_step(InitiatorState::ReceivingOutput, InitiatorEvent::Failure(SyncError::Network));
    assert_eq!(state, InitiatorState::Done);
    assert_eq!(action, InitiatorAction::Finish);
}

#[test]
fn a_failure_during_the_sync_is_reported() {
    let (state, action) = initiator_step(
        InitiatorState::AwaitingCatalog { target: "run.py".to_string() },
        InitiatorEvent::Failure(SyncError::Protocol),
    );
    assert_eq!(state, InitiatorState::Failed { error: SyncError::Protocol });
    assert_eq!(action, InitiatorAction::Abort { error: SyncError::Protocol });
    let sending = InitiatorState::Sending { paths: vec!["a.py".to_string()], next: 0 };
    let (state, action) = initiator_step(sending, InitiatorEvent::Failure(SyncError::Filesystem));
    assert_eq!(state, InitiatorState::Failed { error: SyncError::Filesystem });
    assert_eq!(action, InitiatorAction::Abort { error: SyncError::Filesystem });
}

#[test]
fn an_event_out_of_turn_is_a_protocol_error() {
    let (state, action) =
        initiator_step(InitiatorState::Idle { target: "run.py".to_string() }, InitiatorEvent::Sent);
    assert_eq!(state, InitiatorState::Failed { error: SyncError::Protocol });
    assert_eq!(action, InitiatorAction::Abort { error: SyncError::Protocol });
    let (state, _) = initiator_step(
        InitiatorState::ReceivingOutput,
        InitiatorEvent::RemoteCatalog(FolderSignature::new()),
    );
    assert_eq!(state, InitiatorState::Failed { error: SyncError::Protocol });
}

#[test]
fn a_finished_exchange_stays_finished() {
    let (state, action) = initiator_step(InitiatorState::Done, InitiatorEvent::Sent);
    assert_eq!(state, InitiatorState::Done);
    assert_eq!(action, InitiatorAction::Finish);
    let failed = InitiatorState::Failed { error: SyncError::Network };
    let (state, action) = initiator_step(failed, InitiatorEvent::OutputClosed);
    assert_eq!(state, InitiatorState::Failed { error: SyncError::Network });
    assert_eq!(action, InitiatorAction::Abort { error: SyncError::Network });
}
