//! Recording decisions: which listed segments to fetch, how captured bytes
//! add up, when to start a new output file, and when to stop or retry.
//!
//! The caller performs the polling, downloads and file writes and reports
//! back; durations are whole milliseconds.

use vstd::prelude::*;
use crate::config::RecordingConfig;
use crate::error::Error;
use crate::text::{decimal, push_decimal, push_str, string_of};
use crate::discovery::{resolve_segment_url, resolved_url};
use crate::monitor::saturate;
use crate::segment::{after_updates, sequence_of, SegmentTracker};

verus! {

/// Attempts made to download one segment.
pub const SEGMENT_ATTEMPTS: u32 = 3;

/// Pause between two attempts to download a segment, in milliseconds.
pub const RETRY_DELAY_MS: u64 = 600;

/// `a` as a `u32`, held at `u32::MAX` when larger.
pub open spec fn saturate32(a: int) -> u32 {
    if a > u32::MAX {
        u32::MAX
    } else {
        a as u32
    }
}

/// What one recording captured.
#[derive(Debug, Clone, Copy, PartialEq, Eq, Structural)]
pub struct RecordingStats {
    pub segments_downloaded: u64,
    pub bytes_written: u64,
    /// Sum of the declared durations of the captured segments, in milliseconds.
    pub duration_ms: u64,
    pub files_created: u32,
}

/// Whether a file with this much media and these many bytes is due to be
/// closed: a positive limit of either kind that is reached splits; a limit of
/// zero is off.
pub open spec fn split_due(duration_ms: u64, size: u64, max_duration_ms: u64, max_filesize_bytes: u64) -> bool {
    (max_duration_ms > 0 && duration_ms >= max_duration_ms) || (max_filesize_bytes > 0 && size
        >= max_filesize_bytes)
}

/// Whether the current output file is to be closed and a new one started.
pub fn should_split_file(duration_ms: u64, size: u64, max_duration_ms: u64, max_filesize_bytes: u64) -> (r: bool)
    ensures
        r == split_due(duration_ms, size, max_duration_ms, max_filesize_bytes),
{
    if max_duration_ms > 0 && duration_ms >= max_duration_ms {
        return true;
    }
    if max_filesize_bytes > 0 && size >= max_filesize_bytes {
        return true;
    }
    false
}

/// Each limit splits on its own: with the duration limit off, a file is split
/// exactly when its size reaches the size limit, whatever its duration; with
/// the size limit off, exactly when its duration reaches the duration limit,
/// whatever its size.
pub proof fn lemma_split_independent(duration_ms: u64, size: u64, max_duration_ms: u64, max_filesize_bytes: u64)
    ensures
        split_due(duration_ms, size, 0, max_filesize_bytes) == (max_filesize_bytes > 0 && size
            >= max_filesize_bytes),
        split_due(duration_ms, size, max_duration_ms, 0) == (max_duration_ms > 0 && duration_ms
            >= max_duration_ms),
{
}

/// What to do after a poll of the media playlist.
#[derive(Debug, Clone, Copy, PartialEq, Eq, Structural)]
pub enum PollAction {
    /// Flush the file and end the recording.
    Stop,
    /// Wait one interval and poll again.
    Retry,
    /// Go through the listed segments, then wait one interval.
    Process,
}

/// The decision at the top of each poll: a cancelled recording stops; a
/// playlist that could not be fetched or parsed (`None`) is retried; one that
/// marks the end of the stream stops; any other is processed.
pub fn poll_action(cancelled: bool, end_list: Option<bool>) -> (r: PollAction)
    ensures
        r == if cancelled {
            PollAction::Stop
        } else {
            match end_list {
                None => PollAction::Retry,
                Some(true) => PollAction::Stop,
                Some(false) => PollAction::Process,
            }
        },
{
    if cancelled {
        return PollAction::Stop;
    }
    match end_list {
        None => PollAction::Retry,
        Some(true) => PollAction::Stop,
        Some(false) => PollAction::Process,
    }
}

/// What to do after one attempt to download a segment.
#[derive(Debug)]
pub enum DownloadStep {
    /// Stop trying: the segment's bytes, or the error of the last attempt.
    Finished(Result<Vec<u8>, Error>),
    /// Wait this many milliseconds, then make the next attempt.
    RetryAfter(u64),
}

/// The decision after attempt `attempt` (counted from 0) of at most
/// `max_attempts`: a success finishes with its bytes; a failure is retried
/// after the fixed pause while attempts remain, and otherwise finishes with
/// that attempt's error.
pub fn download_step(attempt: u32, max_attempts: u32, outcome: Result<Vec<u8>, Error>) -> (r: DownloadStep)
    ensures
        match outcome {
            Ok(d) => r == DownloadStep::Finished(Ok(d)),
            Err(e) => if attempt as int + 1 < max_attempts as int {
                r == DownloadStep::RetryAfter(RETRY_DELAY_MS)
            } else {
                r == DownloadStep::Finished(Err(e))
            },
        },
{
    match outcome {
        Ok(d) => DownloadStep::Finished(Ok(d)),
        Err(e) => {
            if attempt < max_attempts && attempt + 1 < max_attempts {
                DownloadStep::RetryAfter(RETRY_DELAY_MS)
            } else {
                DownloadStep::Finished(Err(e))
            }
        },
    }
}

/// The error of a download for which no attempt was allowed.
pub fn attempts_exhausted(url: &str, max_attempts: u32) -> (r: Error)
    ensures
        r matches Error::SegmentDownloadFailed(m) && m@ == "Failed after "@ + decimal(max_attempts as nat)
            + " attempts: "@ + url@,
{
    let mut msg: Vec<char> = Vec::new();
    push_str(&mut msg, "Failed after ");
    push_decimal(&mut msg, max_attempts as u64);
    push_str(&mut msg, " attempts: ");
    push_str(&mut msg, url);
    assert(msg@ =~= "Failed after "@ + decimal(max_attempts as nat) + " attempts: "@ + url@);
    Error::SegmentDownloadFailed(string_of(&msg))
}

/// The state of one recording.
pub struct Recorder {
    pub tracker: SegmentTracker,
    pub stats: RecordingStats,
    /// Media in the current file, in milliseconds.
    pub file_duration_ms: u64,
    /// Bytes in the current file.
    pub file_size: u64,
    /// Suffix number of the current file; 0 for the first.
    pub file_sequence: u32,
    pub max_duration_ms: u64,
    pub max_filesize_bytes: u64,
}

impl Recorder {
    /// A recording whose first output file is open: nothing captured yet, one
    /// file created, limits taken from the configuration (minutes and
    /// megabytes of 1024 × 1024 bytes).
    pub fn new(config: &RecordingConfig) -> (r: Recorder)
        ensures
            r.tracker@ == 0,
            r.stats == (RecordingStats {
                segments_downloaded: 0,
                bytes_written: 0,
                duration_ms: 0,
                files_created: 1,
            }),
            r.file_duration_ms == 0,
            r.file_size == 0,
            r.file_sequence == 0,
            r.max_duration_ms == config.max_duration_minutes as nat * 60000,
            r.max_filesize_bytes == config.max_filesize_mb as nat * 1048576,
    {
        Recorder {
            tracker: SegmentTracker::default(),
            stats: RecordingStats { segments_downloaded: 0, bytes_written: 0, duration_ms: 0, files_created: 1 },
            file_duration_ms: 0,
            file_size: 0,
            file_sequence: 0,
            max_duration_ms: config.max_duration_minutes as u64 * 60000,
            max_filesize_bytes: config.max_filesize_mb as u64 * 1048576,
        }
    }

    /// The segment to download for a listed URI: its sequence number and
    /// absolute URL, when the URI carries a number not captured yet and
    /// resolves against the playlist's URL; none otherwise.
    pub fn segment_to_fetch(&self, playlist_url: &str, uri: &str) -> (r: Option<(u64, String)>)
        ensures
            match sequence_of(uri@) {
                Some(q) => if q > self.tracker@ {
                    match resolved_url(playlist_url@, uri@) {
                        Some(u) => r matches Some((s, v)) && s == q && v@ == u,
                        None => r is None,
                    }
                } else {
                    r is None
                },
                None => r is None,
            },
    {
        let seq = match self.tracker.extract_sequence(uri) {
            Some(q) => q,
            None => return None,
        };
        if !self.tracker.is_new_segment(seq) {
            return None;
        }
        match resolve_segment_url(playlist_url, uri) {
            Ok(u) => Some((seq, u)),
            Err(_) => None,
        }
    }

    /// A downloaded segment was appended to the current file: counts it,
    /// remembers its number, and tells whether the file is now to be split.
    /// Sums are held at `u64::MAX`.
    pub fn segment_written(&mut self, sequence: u64, bytes: u64, duration_ms: u64) -> (r: bool)
        ensures
            final(self).tracker@ == after_updates(old(self).tracker@, seq![sequence]),
            final(self).stats == (RecordingStats {
                segments_downloaded: saturate(old(self).stats.segments_downloaded + 1),
                bytes_written: saturate(old(self).stats.bytes_written + bytes),
                duration_ms: saturate(old(self).stats.duration_ms + duration_ms),
                files_created: old(self).stats.files_created,
            }),
            final(self).file_size == saturate(old(self).file_size + bytes),
            final(self).file_duration_ms == saturate(old(self).file_duration_ms + duration_ms),
            final(self).file_sequence == old(self).file_sequence,
            final(self).max_duration_ms == old(self).max_duration_ms,
            final(self).max_filesize_bytes == old(self).max_filesize_bytes,
            r == split_due(
                final(self).file_duration_ms,
                final(self).file_size,
                old(self).max_duration_ms,
                old(self).max_filesize_bytes,
            ),
    {
        self.file_size = self.file_size.saturating_add(bytes);
        self.file_duration_ms = self.file_duration_ms.saturating_add(duration_ms);
        self.stats.bytes_written = self.stats.bytes_written.saturating_add(bytes);
        self.stats.duration_ms = self.stats.duration_ms.saturating_add(duration_ms);
        self.stats.segments_downloaded = self.stats.segments_downloaded.saturating_add(1);
        self.tracker.update_sequence(sequence);
        should_split_file(self.file_duration_ms, self.file_size, self.max_duration_ms, self.max_filesize_bytes)
    }

    /// The current file was closed and the next one opened: per-file counters
    /// start over and the file number goes up. Returns the new file number.
    pub fn file_rotated(&mut self) -> (r: u32)
        ensures
            final(self).file_sequence == saturate32(old(self).file_sequence + 1),
            r == final(self).file_sequence,
            final(self).stats.files_created == saturate32(old(self).stats.files_created + 1),
            final(self).stats.segments_downloaded == old(self).stats.segments_downloaded,
            final(self).stats.bytes_written == old(self).stats.bytes_written,
            final(self).stats.duration_ms == old(self).stats.duration_ms,
            final(self).file_size == 0,
            final(self).file_duration_ms == 0,
            final(self).tracker@ == old(self).tracker@,
            final(self).max_duration_ms == old(self).max_duration_ms,
            final(self).max_filesize_bytes == old(self).max_filesize_bytes,
    {
        self.file_sequence = self.file_sequence.saturating_add(1);
        self.stats.files_created = self.stats.files_created.saturating_add(1);
        self.file_size = 0;
        self.file_duration_ms = 0;
        self.file_sequence
    }

    /// What was captured so far.
    pub fn stats(&self) -> (r: RecordingStats)
        ensures
            r == self.stats,
    {
        self.stats
    }
}

} // verus!
