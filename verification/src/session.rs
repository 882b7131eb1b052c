//! The two ends together: what the initiator sends is what the responder
//! expects, and what it writes is what was new or changed.

use vstd::prelude::*;
use crate::initiator::{
    initiator_run, lemma_all_new_and_changed_files_are_sent, sending_actions, sending_events,
    InitiatorActionView, InitiatorStateView,
};
use crate::protocol::{ClientCommandView, FileHeaderView};
use crate::responder::{
    lemma_all_announced_files_are_stored, responder_run, transfer_actions, transfer_events,
    ResponderActionView, ResponderEventView, ResponderStateView,
};
use crate::signature::{
    has_path, lemma_diff_never_reports_missing, new_and_changed_spec, FolderEntryView,
};

verus! {

/// The headers that announce the files at `paths`, where the file at
/// `paths[i]` has `lengths[i]` bytes.
pub open spec fn headers_for(paths: Seq<Seq<char>>, lengths: Seq<nat>) -> Seq<FileHeaderView> {
    Seq::new(paths.len(), |i: int| FileHeaderView { length: lengths[i], rel_path: paths[i] })
}

/// The paths of the files that `actions` write, in their order.
pub open spec fn files_written(actions: Seq<ResponderActionView>) -> Seq<Seq<char>>
    decreases actions.len(),
{
    if actions.len() == 0 {
        Seq::empty()
    } else {
        let earlier = files_written(actions.drop_last());
        match actions.last() {
            ResponderActionView::WriteFile { rel_path } => earlier.push(rel_path),
            _ => earlier,
        }
    }
}

/// Receiving and storing announced files writes the files of their headers,
/// in their order.
proof fn lemma_transfer_writes_its_headers(headers: Seq<FileHeaderView>)
    ensures
        files_written(transfer_actions(headers)) == headers.map_values(
            |header: FileHeaderView| header.rel_path,
        ),
    decreases headers.len(),
{
    let path_of = |header: FileHeaderView| header.rel_path;
    if headers.len() == 0 {
        assert(headers.map_values(path_of) =~= Seq::empty());
    } else {
        let earlier = transfer_actions(headers.drop_last());
        let receive = ResponderActionView::ReceiveHeader;
        let block = ResponderActionView::ReceiveBlock { length: headers.last().length };
        let write = ResponderActionView::WriteFile { rel_path: headers.last().rel_path };
        lemma_transfer_writes_its_headers(headers.drop_last());
        let first = earlier.push(receive);
        let second = first.push(block);
        let third = second.push(write);
        assert(first.drop_last() =~= earlier);
        assert(second.drop_last() =~= first);
        assert(third.drop_last() =~= second);
        assert(files_written(first) == files_written(earlier));
        assert(files_written(second) == files_written(first));
        assert(files_written(third) == files_written(second).push(headers.last().rel_path));
        assert(headers.map_values(path_of) =~= headers.drop_last().map_values(path_of).push(
            headers.last().rel_path,
        ));
    }
}

/// One exchange without failure transfers exactly what is new or changed.
/// The initiator sends a command that announces the number of the files
/// that are new or changed with respect to the responder, and then these
/// files, each once, in their order. Given that command and the headers of
/// these files, the responder writes these files, in that order, and no
/// other; then it launches the target that the initiator named.
pub proof fn lemma_exchange_transfers_the_difference(
    target: Seq<char>,
    local: Seq<FolderEntryView>,
    remote: Seq<FolderEntryView>,
    lengths: Seq<nat>,
)
    requires
        lengths.len() == new_and_changed_spec(local, remote).len(),
    ensures
        ({
            let paths = new_and_changed_spec(local, remote);
            let command = ClientCommandView { python_file_path: target, num_files: paths.len() };
            let sent = initiator_run(
                InitiatorStateView::BuildingCatalog { target, remote },
                sending_events(local, paths.len() + 1),
            ).1;
            let received = responder_run(
                ResponderStateView::AwaitingCommand,
                seq![ResponderEventView::Command(command)] + transfer_events(
                    headers_for(paths, lengths),
                ),
            );
            &&& sent == sending_actions(target, paths, paths.len()).push(
                InitiatorActionView::ReadOutput,
            )
            &&& received.0 == ResponderStateView::Launching
            &&& received.1.last() == ResponderActionView::Launch { target }
            &&& files_written(received.1) == paths
        }),
{
    let paths = new_and_changed_spec(local, remote);
    let command = ClientCommandView { python_file_path: target, num_files: paths.len() };
    let headers = headers_for(paths, lengths);
    let launch = ResponderActionView::Launch { target };
    lemma_all_new_and_changed_files_are_sent(target, remote, local);
    lemma_all_announced_files_are_stored(command, headers);
    lemma_transfer_writes_its_headers(headers);
    assert(transfer_actions(headers).push(launch).drop_last() =~= transfer_actions(headers));
    assert(headers.map_values(|header: FileHeaderView| header.rel_path) =~= paths);
}

/// No exchange touches a file that only the responder holds: a path that
/// the initiator does not hold is not among the files written.
pub proof fn lemma_exchange_spares_what_the_initiator_lacks(
    target: Seq<char>,
    local: Seq<FolderEntryView>,
    remote: Seq<FolderEntryView>,
    lengths: Seq<nat>,
    path: Seq<char>,
)
    requires
        lengths.len() == new_and_changed_spec(local, remote).len(),
        !has_path(local, path),
    ensures
        ({
            let paths = new_and_changed_spec(local, remote);
            let command = ClientCommandView { python_file_path: target, num_files: paths.len() };
            !files_written(
                responder_run(
                    ResponderStateView::AwaitingCommand,
                    seq![ResponderEventView::Command(command)] + transfer_events(
                        headers_for(paths, lengths),
                    ),
                ).1,
            ).contains(path)
        }),
{
    lemma_exchange_transfers_the_difference(target, local, remote, lengths);
    lemma_diff_never_reports_missing(local, remote, path);
}

} // verus!
