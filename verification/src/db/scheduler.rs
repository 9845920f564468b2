//! Commands understood by the background reindexing queue, and the decisions
//! the queue makes for each of them. The queue itself (a channel and the task
//! that drains it) lives with the application; it performs the steps chosen
//! here and reports back what the index said.
use vstd::prelude::*;

use crate::db::hash::{blake3_hex, content_hash};
use crate::db::repos::files::{file_name_or, path_file_name};
use crate::db::validation::ValidationResult;

verus! {

/// `std::path::PathBuf`, carried through without being inspected.
#[verifier::external_type_specification]
#[verifier::external_body]
pub struct ExPathBuf(std::path::PathBuf);

/// A request to the reindexing queue.
pub enum IndexCommand {
    /// Index one file with the given content.
    IndexFile { file_path: String, content: String, chunking_version: String, model: String },
    /// Index every file under a directory.
    IndexDirectory { dir_path: std::path::PathBuf, chunking_version: String, model: String },
    /// Stop the queue.
    Shutdown,
}

/// What the queue does for a command it received.
pub enum ReindexStep {
    /// Ask the index whether `file_path`, whose content hashes to
    /// `file_hash`, must be (re)indexed with `model` and `chunking_version`.
    CheckFile { file_path: String, file_hash: String, model: String, chunking_version: String },
    /// Report the directory; its files are not queued one by one.
    ScanDirectory { dir_path: std::path::PathBuf },
    /// Leave the queue loop.
    Stop,
}

/// Embedding width recorded for files persisted by the queue.
pub const QUEUE_EMBEDDING_DIM: i64 = 1536;

/// What the queue does once the index has answered for a file.
pub enum FileIndexAction {
    /// Persist the file under `file_name`, with embeddings of `embedding_dim`.
    Persist { file_name: String, embedding_dim: i64 },
    /// The file is unchanged since it was last indexed.
    Skip,
}

/// The step for a received command: a file is hashed and checked against
/// the index, a directory is reported, and a shutdown ends the loop.
pub fn reindex_step(cmd: IndexCommand) -> (r: ReindexStep)
    ensures
        match cmd {
            IndexCommand::IndexFile { file_path, content, chunking_version, model } => {
                &&& r matches ReindexStep::CheckFile { file_path: p, file_hash, model: m, chunking_version: v }
                &&& p@ == file_path@
                &&& file_hash@ == blake3_hex(content@)
                &&& m@ == model@
                &&& v@ == chunking_version@
            },
            IndexCommand::IndexDirectory { dir_path, .. } => r == (ReindexStep::ScanDirectory {
                dir_path,
            }),
            IndexCommand::Shutdown => r is Stop,
        },
{
    match cmd {
        IndexCommand::IndexFile { file_path, content, chunking_version, model } => {
            let file_hash = content_hash(content.as_str());
            ReindexStep::CheckFile { file_path, file_hash, model, chunking_version }
        },
        IndexCommand::IndexDirectory { dir_path, .. } => ReindexStep::ScanDirectory { dir_path },
        IndexCommand::Shutdown => ReindexStep::Stop,
    }
}

/// The action for a checked file: a file that must be indexed is persisted
/// under its file name (`unknown` when the path has none); any other file is
/// skipped.
pub fn file_index_action(file_path: &str, validation: ValidationResult) -> (r: FileIndexAction)
    ensures
        validation.should_index ==> {
            &&& r matches FileIndexAction::Persist { file_name, embedding_dim }
            &&& embedding_dim == QUEUE_EMBEDDING_DIM
            &&& file_name@ == match path_file_name(file_path@) {
                Some(n) => n,
                None => "unknown"@,
            }
        },
        !validation.should_index ==> r is Skip,
{
    if validation.should_index {
        let file_name = file_name_or(file_path, "unknown");
        FileIndexAction::Persist { file_name, embedding_dim: QUEUE_EMBEDDING_DIM }
    } else {
        FileIndexAction::Skip
    }
}

} // verus!
