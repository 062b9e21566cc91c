use vstd::prelude::*;

use crate::index::Index;
use crate::scan::{
    indexed_among, indexed_paths, is_indexed_entry, path_views, select_indexed, ScanEntry,
};
use crate::summary::{
    fallback_summary, fallback_text, recorded_summary, resolve_summary, SummaryError,
};

verus! {

/// What the caller must do next to advance an index build.
#[derive(Debug, PartialEq, Eq)]
pub enum BuildStep {
    /// Read the file at this path and report with `on_read`.
    Read(String),
    /// Summarize this content and report with `on_summary`.
    Summarize(String),
    /// Every file has been recorded; take the index with `into_index`.
    Done,
    /// A file could not be read; the build has failed.
    Halted,
}

/// The outcome of reading a file.
#[derive(Debug, PartialEq, Eq)]
pub enum FileRead {
    /// The file holds this text.
    Text(String),
    /// The file was read but is not valid text; this is its content with
    /// each invalid sequence replaced.
    NotText(String),
    /// The file could not be read, for this reason.
    Failed(String),
}

/// Why building the index failed.
#[derive(Debug, PartialEq, Eq)]
pub enum IndexError {
    /// The file at `path` could not be read.
    Read { path: String, message: String },
}

/// An index build over a list of files, one file at a time: read it, then
/// summarize it, then record the summary (or its fallback) under its path.
/// A file that is not valid text gets the fallback without a summary. A read
/// failure halts the build for good.
pub struct IndexBuild {
    files: Vec<String>,
    pos: usize,
    pending: Option<String>,
    failed: bool,
    index: Index,
}

impl IndexBuild {
    pub closed spec fn files(&self) -> Seq<Seq<char>> {
        path_views(self.files@)
    }

    /// How many files have been recorded.
    pub closed spec fn done_count(&self) -> nat {
        self.pos as nat
    }

    /// The content read for the current file, awaiting its summary.
    pub closed spec fn pending(&self) -> Option<Seq<char>> {
        match self.pending {
            Some(c) => Some(c@),
            None => None,
        }
    }

    pub closed spec fn failed(&self) -> bool {
        self.failed
    }

    /// The index recorded so far.
    pub closed spec fn index_view(&self) -> Map<Seq<char>, Seq<char>> {
        self.index@
    }

    /// The recorded paths are exactly the files taken so far.
    pub closed spec fn wf(&self) -> bool {
        &&& self.pos <= self.files@.len()
        &&& self.index.wf()
        &&& self.pending is Some ==> self.pos < self.files@.len()
        &&& self.index@.dom() == self.files().take(self.pos as int).to_set()
    }

    pub fn new(files: Vec<String>) -> (r: IndexBuild)
        ensures
            r.wf(),
            r.files() == path_views(files@),
            r.done_count() == 0,
            r.pending() is None,
            !r.failed(),
            r.index_view() == Map::<Seq<char>, Seq<char>>::empty(),
    {
        let r = IndexBuild { files, pos: 0, pending: None, failed: false, index: Index::new() };
        assert(r.files().take(0).to_set() =~= Set::empty());
        r
    }

    /// A build over the files of a directory walk that the index covers.
    pub fn from_walk(entries: &Vec<ScanEntry>) -> (r: IndexBuild)
        ensures
            r.wf(),
            r.files() == indexed_paths(entries@),
            forall|i: int|
                0 <= i < r.files().len() ==> indexed_among(
                    entries@,
                    entries@.len() as int,
                    #[trigger] r.files()[i],
                ),
            forall|j: int|
                0 <= j < entries@.len() && #[trigger] is_indexed_entry(entries@[j])
                    ==> r.files().contains(entries@[j].path@),
            r.done_count() == 0,
            r.pending() is None,
            !r.failed(),
            r.index_view() == Map::<Seq<char>, Seq<char>>::empty(),
    {
        let files = select_indexed(entries);
        let ghost fv = files@;
        let r = IndexBuild::new(files);
        assert forall|i: int| 0 <= i < r.files().len() implies indexed_among(
            entries@,
            entries@.len() as int,
            #[trigger] r.files()[i],
        ) by {
            assert(r.files()[i] == fv[i]@);
        }
        assert forall|j: int| 0 <= j < entries@.len() && #[trigger] is_indexed_entry(entries@[j])
            implies r.files().contains(entries@[j].path@) by {
            let i = choose|i: int| 0 <= i < fv.len() && #[trigger] fv[i]@ == entries@[j].path@;
            assert(r.files()[i] == entries@[j].path@);
        }
        r
    }

    /// The next thing to do.
    pub fn next_step(&self) -> (r: BuildStep)
        requires
            self.wf(),
        ensures
            self.failed() ==> r == BuildStep::Halted,
            !self.failed() && self.pending() is Some ==> (r matches BuildStep::Summarize(c)
                && Some(c@) == self.pending()),
            !self.failed() && self.pending() is None && self.done_count() < self.files().len()
                ==> (r matches BuildStep::Read(p) && p@ == self.files()[self.done_count() as int]),
            !self.failed() && self.pending() is None && self.done_count() == self.files().len()
                ==> r == BuildStep::Done,
    {
        if self.failed {
            return BuildStep::Halted;
        }
        match &self.pending {
            Some(c) => BuildStep::Summarize(c.clone()),
            None => {
                if self.pos < self.files.len() {
                    BuildStep::Read(self.files[self.pos].clone())
                } else {
                    BuildStep::Done
                }
            },
        }
    }

    /// Takes the outcome of reading the current file. Text awaits its
    /// summary; content that is not valid text is recorded with the fallback
    /// at once; a failure halts the build and is returned as an error naming
    /// the file.
    pub fn on_read(&mut self, read: FileRead) -> (r: Result<(), IndexError>)
        requires
            old(self).wf(),
            !old(self).failed(),
            old(self).pending() is None,
            old(self).done_count() < old(self).files().len(),
        ensures
            final(self).wf(),
            final(self).files() == old(self).files(),
            read matches FileRead::Text(c) ==> r is Ok && final(self).pending() == Some(c@)
                && !final(self).failed() && final(self).done_count() == old(self).done_count()
                && final(self).index_view() == old(self).index_view(),
            read matches FileRead::NotText(c) ==> r is Ok && final(self).pending() is None
                && !final(self).failed() && final(self).done_count() == old(self).done_count() + 1
                && final(self).index_view() == old(self).index_view().insert(
                old(self).files()[old(self).done_count() as int],
                fallback_text(c@),
            ),
            read matches FileRead::Failed(m) ==> final(self).failed() && final(self).pending() is None
                && final(self).done_count() == old(self).done_count() && final(self).index_view()
                == old(self).index_view() && (r matches Err(IndexError::Read { path, message })
                && path@ == old(self).files()[old(self).done_count() as int] && message@ == m@),
    {
        match read {
            FileRead::Text(c) => {
                self.pending = Some(c);
                Ok(())
            },
            FileRead::NotText(c) => {
                let summary = fallback_summary(c.as_str());
                self.record(summary);
                Ok(())
            },
            FileRead::Failed(m) => {
                self.failed = true;
                Err(IndexError::Read { path: self.files[self.pos].clone(), message: m })
            },
        }
    }

    /// Takes the outcome of summarizing the pending content and records the
    /// summary, or its fallback, under the current file's path.
    pub fn on_summary(&mut self, outcome: Result<String, SummaryError>)
        requires
            old(self).wf(),
            !old(self).failed(),
            old(self).pending() is Some,
        ensures
            final(self).wf(),
            final(self).files() == old(self).files(),
            final(self).done_count() == old(self).done_count() + 1,
            final(self).pending() is None,
            !final(self).failed(),
            final(self).index_view() == old(self).index_view().insert(
                old(self).files()[old(self).done_count() as int],
                recorded_summary(old(self).pending()->Some_0, outcome),
            ),
    {
        let content = match self.pending.take() {
            Some(c) => c,
            None => String::new(),
        };
        let summary = resolve_summary(content.as_str(), outcome);
        self.record(summary);
    }

    /// Records `summary` under the current file's path and moves on.
    fn record(&mut self, summary: String)
        requires
            old(self).index.wf(),
            old(self).pos < old(self).files@.len(),
            old(self).index@.dom() == old(self).files().take(old(self).pos as int).to_set(),
            old(self).pending is None,
            summary@.len() > 0,
        ensures
            final(self).wf(),
            final(self).files@ == old(self).files@,
            final(self).failed == old(self).failed,
            final(self).pending is None,
            final(self).pos == old(self).pos + 1,
            final(self).index@ == old(self).index@.insert(old(self).files()[old(self).pos as int], summary@),
    {
        let n = self.files.len();
        assert(self.pos < n);
        let path = self.files[self.pos].clone();
        self.index.insert(path, summary);
        let ghost old_pos = self.pos as int;
        self.pos = self.pos + 1;
        assert(self.files().take(self.pos as int) =~= self.files().take(old_pos).push(
            self.files()[old_pos],
        ));
        let ghost next = self.files().take(self.pos as int);
        assert(path@ == self.files()[old_pos]);
        assert forall|k: Seq<char>| #[trigger] self.index@.dom().contains(k) <==> next.to_set().contains(k) by {
            if k == path@ {
                assert(next[old_pos] == k);
            } else if self.index@.dom().contains(k) {
                let t = choose|t: int| 0 <= t < old_pos && #[trigger] self.files().take(old_pos)[t] == k;
                assert(next[t] == k);
            } else if next.to_set().contains(k) {
                let t = choose|t: int| 0 <= t < old_pos + 1 && #[trigger] next[t] == k;
                assert(self.files().take(old_pos)[t] == k);
            }
        }
        assert(self.index@.dom() =~= next.to_set());
    }

    /// The finished index; none while files remain or after a failure.
    pub fn into_index(self) -> (r: Option<Index>)
        requires
            self.wf(),
        ensures
            r is Some <==> !self.failed() && self.pending() is None && self.done_count()
                == self.files().len(),
            r matches Some(i) ==> i.wf() && i@ == self.index_view() && i@.dom()
                == self.files().to_set(),
    {
        if self.failed || self.pending.is_some() || self.pos < self.files.len() {
            return None;
        }
        assert(self.files().take(self.pos as int) =~= self.files());
        Some(self.index)
    }
}

} // verus!
