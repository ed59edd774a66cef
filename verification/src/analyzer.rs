//! The file analyzer: statistics and error records for one file.
//!
//! The analyzer works from the outcome of the two reads that the caller
//! performed — the metadata lookup for the size and the read of the text.
//! A failed read never aborts the analysis: its error description is
//! recorded and the statistics fall back to an empty text and a zero size.

use crate::freq::{char_frequencies, spec_char_freqs, CharCounts};
use crate::text::{line_count, spec_line_count, spec_word_count, word_count};
use vstd::prelude::*;

verus! {

/// The statistics of one file's text.
pub struct FileStats {
    /// Number of whitespace-delimited words.
    pub word_count: usize,
    /// Number of line segments.
    pub line_count: usize,
    /// Occurrence count of every character of the text.
    pub char_frequencies: CharCounts,
    /// Size of the file on disk, zero when the metadata lookup failed.
    pub size_bytes: u64,
}

/// The complete analysis of one file.
pub struct FileAnalysis {
    /// The display path of the file, as given.
    pub filename: String,
    /// The file's statistics.
    pub stats: FileStats,
    /// Descriptions of the failures met during analysis, in the order they
    /// were met; empty when the analysis was fully successful.
    pub errors: Vec<String>,
    /// Wall-clock nanoseconds spent on the analysis, reads included.  It is
    /// populated even when `errors` is not empty.
    pub processing_time_nanos: u64,
}

/// The characters the statistics are computed over: the file's text when
/// the read succeeded, empty text otherwise.
pub open spec fn spec_content_chars(content: Result<String, String>) -> Seq<char> {
    match content {
        Ok(s) => s@,
        Err(_) => Seq::empty(),
    }
}

/// The recorded file size: the size from metadata, zero when the lookup
/// failed.
pub open spec fn spec_size_bytes(meta: Result<u64, String>) -> u64 {
    match meta {
        Ok(n) => n,
        Err(_) => 0,
    }
}

/// The recorded error descriptions: the metadata failure first, then the
/// read failure, each only when it happened.
pub open spec fn spec_errors(meta: Result<u64, String>, content: Result<String, String>) -> Seq<
    Seq<char>,
> {
    let from_meta: Seq<Seq<char>> = match meta {
        Ok(_) => seq![],
        Err(e) => seq![e@],
    };
    let from_read: Seq<Seq<char>> = match content {
        Ok(_) => seq![],
        Err(e) => seq![e@],
    };
    from_meta + from_read
}

/// Whether `a` is the analysis of the file named `filename` whose reads
/// ended in `meta` and `content`.  It pins everything but the processing
/// time, which depends on the clock.
pub open spec fn spec_analysis_matches(
    a: FileAnalysis,
    filename: Seq<char>,
    meta: Result<u64, String>,
    content: Result<String, String>,
) -> bool {
    let cs = spec_content_chars(content);
    &&& a.filename@ == filename
    &&& a.stats.word_count == spec_word_count(cs)
    &&& a.stats.line_count == spec_line_count(cs)
    &&& a.stats.char_frequencies.wf()
    &&& a.stats.char_frequencies@ == spec_char_freqs(cs)
    &&& a.stats.size_bytes == spec_size_bytes(meta)
    &&& a.errors.deep_view() == spec_errors(meta, content)
}

/// Relies on std::time::SystemTime: the wall clock, read as nanoseconds
/// since the Unix epoch, saturated to `u64` and zero when the clock sits
/// before the epoch.  Nothing is promised of the value, which depends on
/// the machine's clock.
#[verifier::external_body]
pub(crate) fn clock_nanos() -> u64 {
    match std::time::SystemTime::now().duration_since(std::time::UNIX_EPOCH) {
        Ok(d) => u64::try_from(d.as_nanos()).unwrap_or(u64::MAX),
        Err(_) => 0,
    }
}

/// Analyzes one file, given the outcome of its reads: `meta` carries the
/// size from the metadata lookup and `content` the text, each replaced by
/// an error description where the read failed.  `start_nanos` is the
/// caller's clock reading from just before the reads, so that the recorded
/// processing time spans them.  The analysis never fails: errors are
/// recorded and the statistics of the missing text are zero-filled.
pub fn analyze_read(
    filename: String,
    meta: Result<u64, String>,
    content: Result<String, String>,
    start_nanos: u64,
) -> (a: FileAnalysis)
    ensures
        spec_analysis_matches(a, filename@, meta, content),
{
    let mut errors: Vec<String> = Vec::new();

    let size_bytes: u64 = match meta {
        Ok(n) => n,
        Err(e) => {
            errors.push(e);
            0
        },
    };

    let text: String = match content {
        Ok(s) => s,
        Err(e) => {
            errors.push(e);
            String::new()
        },
    };

    let words = word_count(text.as_str());
    let lines = line_count(text.as_str());
    let freqs = char_frequencies(text.as_str());

    let end_nanos = clock_nanos();
    let processing_time_nanos: u64 = if end_nanos >= start_nanos {
        end_nanos - start_nanos
    } else {
        0
    };

    let a = FileAnalysis {
        filename,
        stats: FileStats {
            word_count: words,
            line_count: lines,
            char_frequencies: freqs,
            size_bytes,
        },
        errors,
        processing_time_nanos,
    };
    proof {
        assert(a.errors.deep_view() =~= spec_errors(meta, content));
    }
    a
}

} // verus!
