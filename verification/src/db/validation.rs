//! Whether a file needs (re)indexing, decided from what the index stores of it.
use vstd::prelude::*;

use crate::text::str_eq;

verus! {

/// Outcome of the indexing check.
#[derive(Debug, Clone, Copy, PartialEq, Eq, Structural)]
pub struct ValidationResult {
    pub should_index: bool,
    /// Id of the stored, non-deleted record of the file, if any.
    pub existing_file_id: Option<i64>,
}

/// What the index stores of a file.
#[derive(Debug, Clone)]
pub struct StoredFileState {
    pub file_id: i64,
    pub file_hash: Option<String>,
    pub embedding_model: Option<String>,
    pub chunking_version: Option<String>,
    pub status: Option<String>,
    pub mtime: Option<i64>,
}

/// Whether the stored text `o` is present and equals `s`.
pub open spec fn stored_equals(o: Option<String>, s: Seq<char>) -> bool {
    o matches Some(v) && v@ == s
}

/// Whether the stored record was indexed from the same content with the same
/// model and chunking version.
pub open spec fn same_index_inputs(
    row: StoredFileState,
    file_hash: Seq<char>,
    embedding_model: Seq<char>,
    chunking_version: Seq<char>,
) -> bool {
    &&& stored_equals(row.file_hash, file_hash)
    &&& stored_equals(row.embedding_model, embedding_model)
    &&& stored_equals(row.chunking_version, chunking_version)
}

/// The indexing decision: a file with no stored record, or whose last
/// indexing failed, is indexed; a file whose stored record matches the mtime
/// and inputs, or just the inputs, is skipped; any other file is indexed.
pub open spec fn indexing_decision(
    row: Option<StoredFileState>,
    file_hash: Seq<char>,
    embedding_model: Seq<char>,
    chunking_version: Seq<char>,
    file_mtime: Option<i64>,
) -> ValidationResult {
    match row {
        None => ValidationResult { should_index: true, existing_file_id: None },
        Some(r) => if stored_equals(r.status, "failed"@) {
            ValidationResult { should_index: true, existing_file_id: Some(r.file_id) }
        } else if file_mtime is Some && r.mtime is Some && file_mtime == r.mtime
            && same_index_inputs(r, file_hash, embedding_model, chunking_version) {
            ValidationResult { should_index: false, existing_file_id: Some(r.file_id) }
        } else if same_index_inputs(r, file_hash, embedding_model, chunking_version) {
            ValidationResult { should_index: false, existing_file_id: Some(r.file_id) }
        } else {
            ValidationResult { should_index: true, existing_file_id: Some(r.file_id) }
        },
    }
}

fn stored_eq(o: &Option<String>, s: &str) -> (r: bool)
    ensures
        r == stored_equals(*o, s@),
{
    match o {
        Some(v) => str_eq(v.as_str(), s),
        None => false,
    }
}

/// Decides whether a file must be indexed, given the stored record of the
/// file (`None` when the index has none).
pub fn evaluate_indexing_need(
    row: Option<&StoredFileState>,
    file_hash: &str,
    embedding_model: &str,
    chunking_version: &str,
    file_mtime: Option<i64>,
) -> (r: ValidationResult)
    ensures
        r == indexing_decision(
            match row {
                Some(x) => Some(*x),
                None => None,
            },
            file_hash@,
            embedding_model@,
            chunking_version@,
            file_mtime,
        ),
{
    match row {
        None => ValidationResult { should_index: true, existing_file_id: None },
        Some(r) => {
            if stored_eq(&r.status, "failed") {
                return ValidationResult { should_index: true, existing_file_id: Some(r.file_id) };
            }
            let same = stored_eq(&r.file_hash, file_hash) && stored_eq(
                &r.embedding_model,
                embedding_model,
            ) && stored_eq(&r.chunking_version, chunking_version);
            match (file_mtime, r.mtime) {
                (Some(mtime), Some(db_m)) => {
                    if mtime == db_m && same {
                        return ValidationResult {
                            should_index: false,
                            existing_file_id: Some(r.file_id),
                        };
                    }
                },
                _ => {},
            }
            if same {
                return ValidationResult { should_index: false, existing_file_id: Some(r.file_id) };
            }
            ValidationResult { should_index: true, existing_file_id: Some(r.file_id) }
        },
    }
}

/// The modification time never changes the decision: it only offers a
/// shortcut to the answer the stored inputs give anyway.
pub proof fn lemma_mtime_does_not_change_decision(
    row: Option<StoredFileState>,
    file_hash: Seq<char>,
    embedding_model: Seq<char>,
    chunking_version: Seq<char>,
    mtime_a: Option<i64>,
    mtime_b: Option<i64>,
)
    ensures
        indexing_decision(row, file_hash, embedding_model, chunking_version, mtime_a)
            == indexing_decision(row, file_hash, embedding_model, chunking_version, mtime_b),
{
}

/// A file is skipped exactly when it has a stored record that did not fail
/// and was indexed from the same inputs; the stored id is reported whenever
/// there is a record.
pub proof fn lemma_indexing_decision_summary(
    row: Option<StoredFileState>,
    file_hash: Seq<char>,
    embedding_model: Seq<char>,
    chunking_version: Seq<char>,
    file_mtime: Option<i64>,
)
    ensures
        ({
            let d = indexing_decision(row, file_hash, embedding_model, chunking_version, file_mtime);
            &&& !d.should_index <==> (row matches Some(r) && !stored_equals(r.status, "failed"@)
                && same_index_inputs(r, file_hash, embedding_model, chunking_version))
            &&& d.existing_file_id == match row {
                Some(r) => Some(r.file_id),
                None => None,
            }
        }),
{
}

} // verus!
