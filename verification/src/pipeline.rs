//! The row-by-row pipeline driver: it walks the sheet's rows in order,
//! skips the header, and derives one download task per data row. The
//! surrounding program performs each task's fetch and write and stops the
//! walk at the first failure, so a failing row leaves every later row
//! unattempted.

use vstd::prelude::*;
use crate::colspec::KvPair;
use crate::errors::RunError;
use crate::filename::{derive_filename, derived_path, extension_of, get_extension_from_filename};

verus! {

/// One row's work: the URL to fetch and the path its bytes go to.
#[derive(Clone, Debug, PartialEq, Eq)]
pub struct DownloadTask {
    pub url: String,
    pub output_path: String,
}

/// What one data row demands: the task derived from its URL and identifier
/// cells, or a missing-extension failure naming its URL.
pub open spec fn row_outcome(
    row: Seq<Seq<char>>,
    kv: KvPair,
    save: Seq<char>,
) -> Result<(Seq<char>, Seq<char>), ()> {
    match extension_of(row[kv.url as int]) {
        Some(ext) => Ok(
            (row[kv.url as int], derived_path(save, row[kv.sort_id as int], ext)),
        ),
        None => Err(()),
    }
}

/// The view of one row: each cell as its character sequence.
pub open spec fn row_view(row: Vec<String>) -> Seq<Seq<char>> {
    row@.map_values(|c: String| c@)
}

/// Derives the download task of one data row: its URL cell taken verbatim,
/// and an output path composed from the save prefix, its identifier cell
/// and the URL's extension. Fails exactly when the URL has no extension.
pub fn derive_task(row: &Vec<String>, kv: &KvPair, save_path: &str) -> (r: Result<
    DownloadTask,
    RunError,
>)
    requires
        kv.sort_id < row@.len(),
        kv.url < row@.len(),
    ensures
        match r {
            Ok(t) => row_outcome(row_view(*row), *kv, save_path@) matches Ok(o) && t.url@ == o.0
                && t.output_path@ == o.1,
            Err(e) => row_outcome(row_view(*row), *kv, save_path@) is Err && (
            e matches RunError::MissingExtension { url } && url@ == row@[kv.url as int]@),
        },
{
    let url: &String = &row[kv.url];
    match get_extension_from_filename(url.as_str()) {
        Some(ext) => {
            let sort_id: &String = &row[kv.sort_id];
            let output_path = derive_filename(save_path, sort_id.as_str(), ext);
            Ok(DownloadTask { url: url.clone(), output_path })
        },
        None => Err(RunError::MissingExtension { url: url.clone() }),
    }
}

/// The sequential driver state: the sheet's rows (header first), the column
/// specification, the save prefix, and the index of the next row to work
/// on. Row 0 is always treated as the header and never yields a task.
pub struct Pipeline {
    pub rows: Vec<Vec<String>>,
    pub kv: KvPair,
    pub save_path: String,
    pub next: usize,
}

impl Pipeline {
    /// The driver is well formed: the sheet has at least its header row,
    /// both configured columns exist in every data row, and the cursor
    /// stands on a data row or just past the end.
    pub open spec fn wf(self) -> bool {
        &&& 1 <= self.rows@.len()
        &&& 1 <= self.next <= self.rows@.len()
        &&& forall|i: int|
            1 <= i < self.rows@.len() ==> self.kv.sort_id < #[trigger] self.rows@[i]@.len()
                && self.kv.url < self.rows@[i]@.len()
    }

    /// How many data rows have not been worked on yet.
    pub open spec fn tasks_remaining(self) -> int {
        self.rows@.len() - self.next
    }

    /// Starts a run over `rows`: the cursor is placed on the first data
    /// row, so the header is skipped before any work.
    pub fn new(rows: Vec<Vec<String>>, kv: KvPair, save_path: String) -> (p: Pipeline)
        requires
            1 <= rows@.len(),
            forall|i: int|
                1 <= i < rows@.len() ==> kv.sort_id < #[trigger] rows@[i]@.len() && kv.url
                    < rows@[i]@.len(),
        ensures
            p.wf(),
            p.rows == rows,
            p.kv == kv,
            p.save_path == save_path,
            p.next == 1,
    {
        Pipeline { rows, kv, save_path, next: 1 }
    }

    /// The total announced before the run: the row count minus the header.
    pub fn total(&self) -> (n: usize)
        requires
            self.wf(),
        ensures
            n == self.rows@.len() - 1,
    {
        self.rows.len() - 1
    }

    /// Whether every data row has been worked on.
    pub fn is_done(&self) -> (b: bool)
        ensures
            b == (self.next == self.rows@.len()),
    {
        self.next == self.rows.len()
    }

    /// Yields the next data row's 1-based progress number and its download
    /// task, and advances the cursor by exactly one row. Fails, leaving the
    /// cursor where it stands, exactly when that row's URL has no
    /// extension: the surrounding program then aborts the whole run, so no
    /// later row is attempted.
    pub fn next_task(&mut self) -> (r: Result<(usize, DownloadTask), RunError>)
        requires
            old(self).wf(),
            old(self).next < old(self).rows@.len(),
        ensures
            final(self).wf(),
            final(self).rows == old(self).rows,
            final(self).kv == old(self).kv,
            final(self).save_path == old(self).save_path,
            match r {
                Ok((i, t)) => {
                    &&& i == old(self).next
                    &&& final(self).next == old(self).next + 1
                    &&& row_outcome(
                        row_view(old(self).rows@[old(self).next as int]),
                        old(self).kv,
                        old(self).save_path@,
                    ) matches Ok(o) && t.url@ == o.0 && t.output_path@ == o.1
                },
                Err(e) => {
                    &&& final(self).next == old(self).next
                    &&& row_outcome(
                        row_view(old(self).rows@[old(self).next as int]),
                        old(self).kv,
                        old(self).save_path@,
                    ) is Err
                    &&& (e matches RunError::MissingExtension { url } && url@ == old(
                        self,
                    ).rows@[old(self).next as int]@[old(self).kv.url as int]@)
                },
            },
    {
        let i = self.next;
        let nrows = self.rows.len();
        assert(i < nrows);
        let row: &Vec<String> = &self.rows[i];
        match derive_task(row, &self.kv, self.save_path.as_str()) {
            Ok(t) => {
                self.next = i + 1;
                Ok((i, t))
            },
            Err(e) => Err(e),
        }
    }
}

/// A sheet of a header row and `n` data rows yields exactly `n` tasks: a
/// fresh driver has as many tasks remaining as the total it announces, each
/// successful step removes exactly one, and the run is done exactly when
/// none remain.
pub proof fn lemma_run_yields_one_task_per_data_row(p: Pipeline)
    requires
        p.wf(),
    ensures
        p.next == 1 ==> p.tasks_remaining() == p.rows@.len() - 1,
        0 <= p.tasks_remaining() <= p.rows@.len() - 1,
        p.tasks_remaining() == 0 <==> p.next == p.rows@.len(),
{
}

} // verus!
