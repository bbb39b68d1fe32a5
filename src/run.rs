//! The decisions of a run over many files: what each file contributes and
//! what is reported, and the running total that gives the verdict.

use vstd::prelude::*;

use crate::config::DisplaySettings;
use crate::registry::{get_char_detail, BIDICharDetail};
use crate::scan::{check_for_bidi_chars, occurrences, BIDICharOccurence};

verus! {

/// What became of reading one selected file.
pub enum FileEvent {
    /// The content was read as text.
    Read(String),
    /// The content could not be read; `invalid_data` when it was not valid text.
    ReadFailed { invalid_data: bool },
}

/// One occurrence together with the metadata of its character.
#[derive(Debug, Clone)]
pub struct OccurrenceReport {
    pub occurrence: BIDICharOccurence,
    pub detail: BIDICharDetail,
}

/// What to report for one file.
#[derive(Debug)]
pub enum FileAction {
    /// The file was scanned: its count, whether to print its count line,
    /// and the occurrences to print in detail.
    Report { count: u64, show_count: bool, details: Vec<OccurrenceReport> },
    /// The read failure is to be reported.
    ReportReadError,
    /// Nothing is reported.
    Skip,
    /// The file's count would carry the total past `u64::MAX`; it was not added.
    CountOverflow,
}

/// Sum of a sequence of counts.
pub open spec fn sum_of(s: Seq<u64>) -> int
    decreases s.len(),
{
    if s.len() == 0 {
        0
    } else {
        sum_of(s.drop_last()) + s.last()
    }
}

/// Whether `details` lists the occurrences `occs`, in order, each with the
/// table entry of its character.
pub open spec fn details_of(details: Seq<OccurrenceReport>, occs: Seq<(nat, nat, char)>) -> bool {
    &&& details.len() == occs.len()
    &&& forall|k: int|
        0 <= k < details.len() ==> (#[trigger] details[k]).occurrence@ == occs[k]
            && details[k].detail.is_entry_for(details[k].occurrence.found_char)
}

/// Whether a file's count line is printed.
pub open spec fn shows_count(count: nat, display: DisplaySettings) -> bool {
    count > 0 || match display.verbose {
        Some(v) => v,
        None => true,
    }
}

/// Whether a read failure is reported.
pub open spec fn reports_read_error(invalid_data: bool, display: DisplaySettings) -> bool {
    !invalid_data || !match display.ignore_invalid_data {
        Some(v) => v,
        None => true,
    }
}

/// The tally of a run: the occurrence count of every scanned file, in
/// order, and their total.
#[derive(Debug, Clone)]
pub struct RunSummary {
    pub total: u64,
    pub file_counts: Vec<u64>,
}

impl RunSummary {
    /// The total is the sum of the per-file counts.
    pub open spec fn wf(&self) -> bool {
        self.total == sum_of(self.file_counts@)
    }

    /// A run before any file.
    pub fn new() -> (r: RunSummary)
        ensures
            r.wf(),
            r.total == 0,
            r.file_counts@.len() == 0,
    {
        RunSummary { total: 0, file_counts: Vec::new() }
    }

    /// Whether the run fails: some occurrence was found.
    pub fn found_any(&self) -> (r: bool)
        ensures
            r == (self.total > 0),
    {
        self.total > 0
    }

    /// Process status for the run: 1 when it fails, 0 when it passes.
    pub fn exit_code(&self) -> (r: i32)
        ensures
            r == if self.total > 0 {
                1i32
            } else {
                0i32
            },
    {
        if self.total > 0 {
            1
        } else {
            0
        }
    }

    /// Takes in one selected file: scans text that was read and adds its
    /// count, or decides whether a read failure is reported.
    pub fn handle_file(&mut self, display: &DisplaySettings, event: FileEvent) -> (action:
        FileAction)
        requires
            old(self).wf(),
        ensures
            final(self).wf(),
            match event {
                FileEvent::Read(text) => {
                    let n = occurrences(text@).len();
                    if old(self).total + n <= u64::MAX {
                        &&& final(self).total == old(self).total + n
                        &&& final(self).file_counts@ == old(self).file_counts@.push(n as u64)
                        &&& action matches FileAction::Report { count, show_count, details } && count
                            == n && show_count == shows_count(n, *display) && if display.show_details {
                            details_of(details@, occurrences(text@))
                        } else {
                            details@.len() == 0
                        }
                    } else {
                        &&& final(self).total == old(self).total
                        &&& final(self).file_counts@ == old(self).file_counts@
                        &&& action is CountOverflow
                    }
                },
                FileEvent::ReadFailed { invalid_data } => {
                    &&& final(self).total == old(self).total
                    &&& final(self).file_counts@ == old(self).file_counts@
                    &&& if reports_read_error(invalid_data, *display) {
                        action is ReportReadError
                    } else {
                        action is Skip
                    }
                },
            },
    {
        match event {
            FileEvent::Read(text) => {
                let result = check_for_bidi_chars(text.as_str());
                let n: usize = result.occurences.len();
                let count: u64 = n as u64;
                if count > u64::MAX - self.total {
                    return FileAction::CountOverflow;
                }
                proof {
                    assert(self.file_counts@.push(count).drop_last() == self.file_counts@);
                }
                self.total = self.total + count;
                self.file_counts.push(count);
                let show_count = count > 0 || display.verbose_output();
                let mut details: Vec<OccurrenceReport> = Vec::new();
                if display.show_details {
                    let mut i: usize = 0;
                    while i < n
                        invariant
                            n == result.occurences@.len(),
                            i <= n,
                            forall|k: int|
                                0 <= k < n ==> crate::registry::is_bidi_char(
                                    #[trigger] result.occurences@[k].found_char,
                                ),
                            details_of(
                                details@,
                                result@.1.take(i as int),
                            ),
                        decreases n - i,
                    {
                        let occurrence = result.occurences[i];
                        match get_char_detail(&occurrence.found_char) {
                            Some(detail) => {
                                details.push(OccurrenceReport { occurrence, detail });
                            },
                            None => {},
                        }
                        i = i + 1;
                    }
                    proof {
                        assert(result@.1.take(n as int) == result@.1);
                    }
                }
                FileAction::Report { count, show_count, details }
            },
            FileEvent::ReadFailed { invalid_data } => {
                if !invalid_data || !display.ignores_invalid_data() {
                    FileAction::ReportReadError
                } else {
                    FileAction::Skip
                }
            },
        }
    }
}

proof fn lemma_sum_positive(counts: Seq<u64>)
    ensures
        sum_of(counts) >= 0,
        sum_of(counts) > 0 <==> exists|k: int| 0 <= k < counts.len() && #[trigger] counts[k] > 0,
    decreases counts.len(),
{
    if counts.len() > 0 {
        let p = counts.drop_last();
        lemma_sum_positive(p);
        if exists|k: int| 0 <= k < p.len() && #[trigger] p[k] > 0 {
            let k = choose|k: int| 0 <= k < p.len() && #[trigger] p[k] > 0;
            assert(counts[k] == p[k]);
        }
        if exists|k: int| 0 <= k < counts.len() && #[trigger] counts[k] > 0 {
            let k = choose|k: int| 0 <= k < counts.len() && #[trigger] counts[k] > 0;
            if k < p.len() {
                assert(p[k] == counts[k]);
            }
        }
    }
}

/// Over a whole run, the total is the sum of the counts of the scanned
/// files, and the run fails exactly when some scanned file holds an occurrence.
pub proof fn total_is_sum_of_file_counts(summary: RunSummary)
    requires
        summary.wf(),
    ensures
        summary.total == sum_of(summary.file_counts@),
        (summary.total > 0) <==> exists|k: int|
            0 <= k < summary.file_counts@.len() && #[trigger] summary.file_counts@[k] > 0,
{
    lemma_sum_positive(summary.file_counts@);
}

} // verus!
