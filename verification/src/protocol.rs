//! The records that the two ends exchange as structured messages.

use vstd::prelude::*;

verus! {

/// Announces one file: the raw block of `length` bytes that follows it on the
/// connection is the content of the file at `rel_path`.
#[derive(Clone, Debug, PartialEq, Eq)]
pub struct FileHeader {
    pub length: usize,
    pub rel_path: String,
}

/// What a `FileHeader` says.
pub struct FileHeaderView {
    pub length: nat,
    pub rel_path: Seq<char>,
}

impl View for FileHeader {
    type V = FileHeaderView;

    open spec fn view(&self) -> FileHeaderView {
        FileHeaderView { length: self.length as nat, rel_path: self.rel_path@ }
    }
}

/// The initiator's request: run the file at `python_file_path`, after
/// `num_files` announced files have arrived.
#[derive(Clone, Debug, PartialEq, Eq)]
pub struct ClientCommand {
    pub python_file_path: String,
    pub num_files: usize,
}

/// What a `ClientCommand` says.
pub struct ClientCommandView {
    pub python_file_path: Seq<char>,
    pub num_files: nat,
}

impl View for ClientCommand {
    type V = ClientCommandView;

    open spec fn view(&self) -> ClientCommandView {
        ClientCommandView {
            python_file_path: self.python_file_path@,
            num_files: self.num_files as nat,
        }
    }
}

/// The header that announces `body` as the content of the file at
/// `rel_path`.
pub fn file_header(rel_path: String, body: &[u8]) -> (header: FileHeader)
    ensures
        header@ == (FileHeaderView { length: body@.len(), rel_path: rel_path@ }),
{
    FileHeader { length: body.len(), rel_path }
}

} // verus!
