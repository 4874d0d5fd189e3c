//! Progress of a transfer: the snapshot pushed to the caller, the arithmetic
//! of a streamed transfer with its cancellation, and the reading of the
//! external tool's progress lines.

use vstd::prelude::*;
use crate::download::DownloadError;
use crate::text::{chars_of, is_prefix, parse_u64, parsed_u64, starts_with, string_of};

verus! {

/// A point-in-time snapshot of a transfer. The percentage is kept in
/// hundredths of a percent (0 to 10000); the speed in bytes per second.
#[derive(Debug, Clone, Copy, PartialEq, Eq, Structural)]
pub struct DownloadProgress {
    pub downloaded: u64,
    pub total: Option<u64>,
    pub percent_hundredths: u32,
    pub speed: u64,
}

/// A whole transfer, in hundredths of a percent.
pub const FULL: u32 = 10000;

/// The share of `total` that `downloaded` bytes make, in hundredths of a
/// percent, at most `FULL`; 0 when the total is unknown or zero.
pub open spec fn percent_of(downloaded: nat, total: Option<u64>) -> nat {
    match total {
        Some(t) => if t == 0 {
            0
        } else if downloaded * 10000 / (t as nat) >= FULL {
            FULL as nat
        } else {
            downloaded * 10000 / (t as nat)
        },
        None => 0,
    }
}

/// Bytes per second over the whole transfer so far, at most `u64::MAX`; 0
/// before any time has elapsed.
pub open spec fn speed_of(downloaded: nat, elapsed_ms: nat) -> nat {
    if elapsed_ms == 0 {
        0
    } else if downloaded * 1000 / elapsed_ms >= u64::MAX {
        u64::MAX as nat
    } else {
        downloaded * 1000 / elapsed_ms
    }
}

/// The snapshot of a streamed transfer.
pub open spec fn snapshot(downloaded: u64, total: Option<u64>, elapsed_ms: u64) -> DownloadProgress {
    DownloadProgress {
        downloaded: downloaded,
        total: total,
        percent_hundredths: percent_of(downloaded as nat, total) as u32,
        speed: speed_of(downloaded as nat, elapsed_ms as nat) as u64,
    }
}

fn percent_exec(downloaded: u64, total: Option<u64>) -> (r: u32)
    ensures
        r as nat == percent_of(downloaded as nat, total),
{
    match total {
        Some(t) => {
            if t == 0 {
                0
            } else {
                let p: u128 = (downloaded as u128) * 10000 / (t as u128);
                if p >= FULL as u128 {
                    FULL
                } else {
                    p as u32
                }
            }
        },
        None => 0,
    }
}

fn speed_exec(downloaded: u64, elapsed_ms: u64) -> (r: u64)
    ensures
        r as nat == speed_of(downloaded as nat, elapsed_ms as nat),
{
    if elapsed_ms == 0 {
        0
    } else {
        let v: u128 = (downloaded as u128) * 1000 / (elapsed_ms as u128);
        if v >= u64::MAX as u128 {
            u64::MAX
        } else {
            v as u64
        }
    }
}

/// The state of a streamed transfer: the bytes written so far and the length
/// that the server advertised, if any.
#[derive(Debug, Clone, Copy, PartialEq, Eq, Structural)]
pub struct StreamProgress {
    pub downloaded: u64,
    pub total: Option<u64>,
}

/// What the transfer loop observed since the last step.
#[derive(Debug)]
pub enum TransferEvent {
    /// A chunk of this many bytes was written.
    Chunk(u64),
    /// The body is exhausted and the file flushed.
    End,
    /// Reading or writing failed.
    Failed(DownloadError),
}

/// What the transfer loop does next.
#[derive(Debug)]
pub enum TransferAction {
    /// Push this snapshot to the progress sink and go on.
    Report(DownloadProgress),
    /// Nothing to report (an empty chunk); go on.
    Continue,
    /// The transfer is complete.
    Finish,
    /// The transfer ends with this error; the partial file stays.
    Abort(DownloadError),
}

impl StreamProgress {
    /// A transfer that has written nothing yet.
    pub fn new(total: Option<u64>) -> (r: StreamProgress)
        ensures
            r.downloaded == 0,
            r.total == total,
    {
        StreamProgress { downloaded: 0, total }
    }

    /// Accounts for a written chunk of `len` bytes, `elapsed_ms` after the
    /// start, and returns the snapshot to report.
    pub fn on_chunk(&mut self, len: u64, elapsed_ms: u64) -> (r: DownloadProgress)
        requires
            old(self).downloaded + len <= u64::MAX,
        ensures
            final(self).downloaded == old(self).downloaded + len,
            final(self).total == old(self).total,
            r == snapshot(final(self).downloaded, final(self).total, elapsed_ms),
    {
        self.downloaded = self.downloaded + len;
        DownloadProgress {
            downloaded: self.downloaded,
            total: self.total,
            percent_hundredths: percent_exec(self.downloaded, self.total),
            speed: speed_exec(self.downloaded, elapsed_ms),
        }
    }

    /// The step of the transfer loop after `event`, `elapsed_ms` after the
    /// start. A cancellation wins over whatever happened meanwhile; an error
    /// ends the transfer; a non-empty chunk is reported, so reported byte
    /// counts strictly increase; an empty one changes nothing.
    pub fn step(&mut self, event: TransferEvent, cancelled: bool, elapsed_ms: u64) -> (r: TransferAction)
        requires
            event matches TransferEvent::Chunk(n) ==> old(self).downloaded + n <= u64::MAX,
        ensures
            cancelled ==> r matches TransferAction::Abort(DownloadError::Cancelled),
            cancelled ==> *final(self) == *old(self),
            !cancelled ==> match event {
                TransferEvent::Chunk(n) => if n == 0 {
                    *final(self) == *old(self) && r is Continue
                } else {
                    final(self).downloaded == old(self).downloaded + n && final(self).downloaded
                        > old(self).downloaded && final(self).total == old(self).total && r
                        == TransferAction::Report(
                        snapshot(final(self).downloaded, final(self).total, elapsed_ms),
                    )
                },
                TransferEvent::End => *final(self) == *old(self) && r is Finish,
                TransferEvent::Failed(e) => *final(self) == *old(self) && r
                    == TransferAction::Abort(e),
            },
    {
        if cancelled {
            return TransferAction::Abort(DownloadError::Cancelled);
        }
        match event {
            TransferEvent::Chunk(n) => if n == 0 {
                TransferAction::Continue
            } else {
                TransferAction::Report(self.on_chunk(n, elapsed_ms))
            },
            TransferEvent::End => TransferAction::Finish,
            TransferEvent::Failed(e) => TransferAction::Abort(e),
        }
    }
}

proof fn lemma_percent_grows(a: nat, b: nat, total: Option<u64>)
    requires
        a <= b,
    ensures
        percent_of(a, total) <= percent_of(b, total),
{
    if let Some(t) = total {
        if t > 0 {
            assert(a * 10000 <= b * 10000) by (nonlinear_arith)
                requires
                    a <= b,
            ;
            vstd::arithmetic::div_mod::lemma_div_is_ordered(
                (a * 10000) as int,
                (b * 10000) as int,
                t as int,
            );
        }
    }
}

/// Each non-empty chunk strictly raises the bytes reported, and the
/// percentage never falls; once the advertised total is reached it is
/// complete.
pub proof fn chunk_progress_grows(s: StreamProgress, len: u64, elapsed_ms: u64)
    requires
        s.downloaded + len <= u64::MAX,
    ensures
        len > 0 ==> snapshot((s.downloaded + len) as u64, s.total, elapsed_ms).downloaded
            > s.downloaded,
        percent_of(s.downloaded as nat, s.total) <= snapshot(
            (s.downloaded + len) as u64,
            s.total,
            elapsed_ms,
        ).percent_hundredths,
        s.total == Some((s.downloaded + len) as u64) && s.downloaded + len > 0 ==> snapshot(
            (s.downloaded + len) as u64,
            s.total,
            elapsed_ms,
        ).percent_hundredths == FULL,
{
    lemma_percent_grows(s.downloaded as nat, (s.downloaded + len) as nat, s.total);
    let d = (s.downloaded + len) as nat;
    if s.total == Some(d as u64) && d > 0 {
        assert(d * 10000 / d == 10000) by (nonlinear_arith)
            requires
                d > 0,
        ;
    }
}

/// A transfer that has not reached its advertised total never reports
/// completion.
pub proof fn partial_transfer_is_incomplete(downloaded: u64, total: u64)
    requires
        downloaded < total,
    ensures
        percent_of(downloaded as nat, Some(total)) < FULL,
{
    let d = downloaded as nat;
    let t = total as nat;
    assert(d * 10000 / t < 10000) by (nonlinear_arith)
        requires
            d < t,
    {
        assert(d * 10000 < t * 10000);
        vstd::arithmetic::div_mod::lemma_div_by_multiple_is_strongly_ordered(
            (d * 10000) as int,
            (t * 10000) as int,
            10000,
            t as int,
        );
    }
}

/// The bytes that the chunks `chunks` add up to.
pub open spec fn written(chunks: Seq<u64>) -> nat
    decreases chunks.len(),
{
    if chunks.len() == 0 {
        0
    } else {
        written(chunks.drop_last()) + chunks.last() as nat
    }
}

proof fn lemma_written_prefix(chunks: Seq<u64>, n: int)
    requires
        0 <= n <= chunks.len(),
    ensures
        written(chunks.subrange(0, n)) <= written(chunks),
    decreases chunks.len() - n,
{
    if n < chunks.len() {
        lemma_written_prefix(chunks, n + 1);
        assert(chunks.subrange(0, n + 1).drop_last() =~= chunks.subrange(0, n));
    } else {
        assert(chunks.subrange(0, n) =~= chunks);
    }
}

/// A transfer that is cancelled once the chunks `chunks` have been written,
/// short of its advertised total, never reported completion: the snapshot of
/// every chunk up to then, whatever its time, stays below 100%. The
/// cancelled step itself reports nothing (see `StreamProgress::step`).
pub proof fn cancelled_transfer_never_completes(chunks: Seq<u64>, total: u64, times: Seq<u64>)
    requires
        written(chunks) < total,
        times.len() == chunks.len(),
    ensures
        forall|i: int|
            0 <= i < chunks.len() ==> (#[trigger] snapshot(
                written(chunks.subrange(0, i + 1)) as u64,
                Some(total),
                times[i],
            )).percent_hundredths < FULL,
{
    assert forall|i: int| 0 <= i < chunks.len() implies (#[trigger] snapshot(
        written(chunks.subrange(0, i + 1)) as u64,
        Some(total),
        times[i],
    )).percent_hundredths < FULL by {
        lemma_written_prefix(chunks, i + 1);
        partial_transfer_is_incomplete(written(chunks.subrange(0, i + 1)) as u64, total);
    }
}

/// The key of the external tool's progress line that carries the elapsed
/// media time.
pub const OUT_TIME_KEY: &'static str = "out_time_ms=";

/// Units of the progress line's elapsed media time per second: the line
/// counts microseconds.
pub const TIME_UNITS_PER_SECOND: u64 = 1_000_000;

/// The media duration assumed for the percentage of a transcode, in the unit
/// of the progress line (five minutes).
pub const ASSUMED_DURATION: u64 = 300_000_000;

/// The highest percentage reported before the external tool has exited.
pub const TRANSCODE_CEILING: u32 = 9900;

/// The snapshot for an elapsed-time value `t` of the external tool: the time
/// in seconds as the byte-equivalent, the percentage against the assumed
/// duration, held below completion.
pub open spec fn transcode_snapshot(t: u64) -> DownloadProgress {
    DownloadProgress {
        downloaded: t / TIME_UNITS_PER_SECOND,
        total: None,
        percent_hundredths: if (t as nat) * 10000 / (ASSUMED_DURATION as nat) >= TRANSCODE_CEILING as nat {
            TRANSCODE_CEILING
        } else {
            ((t as nat) * 10000 / (ASSUMED_DURATION as nat)) as u32
        },
        speed: 0,
    }
}

/// The snapshot that a progress line of the external tool gives, if it carries
/// the elapsed media time.
pub open spec fn transcode_line(line: Seq<char>) -> Option<DownloadProgress> {
    if is_prefix(OUT_TIME_KEY@, line) {
        match parsed_u64(line.subrange(OUT_TIME_KEY@.len() as int, line.len() as int)) {
            Some(t) => Some(transcode_snapshot(t)),
            None => None,
        }
    } else {
        None
    }
}

/// Reads one progress line of the external tool. No snapshot read from a
/// line reports completion.
pub fn transcode_progress(line: &str) -> (r: Option<DownloadProgress>)
    ensures
        r == transcode_line(line@),
        r matches Some(p) ==> p.percent_hundredths < FULL,
{
    if !starts_with(line, OUT_TIME_KEY) {
        return None;
    }
    let cs = chars_of(line);
    let key = chars_of(OUT_TIME_KEY);
    let mut rest: Vec<char> = Vec::new();
    let mut i: usize = key.len();
    while i < cs.len()
        invariant
            key@ == OUT_TIME_KEY@,
            key@.len() <= i <= cs@.len(),
            rest@ == cs@.subrange(key@.len() as int, i as int),
        decreases cs@.len() - i,
    {
        rest.push(cs[i]);
        i = i + 1;
        assert(rest@ =~= cs@.subrange(key@.len() as int, i as int));
    }
    let value = string_of(&rest);
    match parse_u64(value.as_str()) {
        Some(t) => {
            let p: u128 = (t as u128) * 10000 / (ASSUMED_DURATION as u128);
            Some(
                DownloadProgress {
                    downloaded: t / TIME_UNITS_PER_SECOND,
                    total: None,
                    percent_hundredths: if p >= TRANSCODE_CEILING as u128 {
                        TRANSCODE_CEILING
                    } else {
                        p as u32
                    },
                    speed: 0,
                },
            )
        },
        None => None,
    }
}

/// The progress of a transcode: the elapsed media seconds last reported,
/// and whether any snapshot has been reported yet.
#[derive(Debug, Clone, Copy, PartialEq, Eq, Structural)]
pub struct TranscodeProgress {
    pub reached: u64,
    pub reported: bool,
}

/// A snapshot read from a line is reported when it is the first, or when it
/// raises the elapsed seconds past those last reported.
pub open spec fn raises(s: TranscodeProgress, p: DownloadProgress) -> bool {
    !s.reported || p.downloaded > s.reached
}

impl TranscodeProgress {
    /// A transcode that has reported nothing yet.
    pub fn new() -> (r: TranscodeProgress)
        ensures
            r.reached == 0,
            !r.reported,
    {
        TranscodeProgress { reached: 0, reported: false }
    }

    /// Reads one progress line of the external tool and returns the snapshot
    /// to report, if the line carries an elapsed time that raises the one
    /// last reported. Reported values thus strictly increase.
    pub fn on_line(&mut self, line: &str) -> (r: Option<DownloadProgress>)
        ensures
            match transcode_line(line@) {
                Some(p) => if raises(*old(self), p) {
                    r == Some(p) && final(self).reached == p.downloaded && final(self).reported
                } else {
                    r is None && *final(self) == *old(self)
                },
                None => r is None && *final(self) == *old(self),
            },
            r matches Some(p) ==> p.percent_hundredths < FULL && (old(self).reported
                ==> p.downloaded > old(self).reached),
            old(self).reached <= u64::MAX / TIME_UNITS_PER_SECOND ==> final(self).reached
                <= u64::MAX / TIME_UNITS_PER_SECOND,
    {
        match transcode_progress(line) {
            Some(p) => {
                if !self.reported || p.downloaded > self.reached {
                    self.reached = p.downloaded;
                    self.reported = true;
                    Some(p)
                } else {
                    None
                }
            },
            None => None,
        }
    }

    /// The snapshot reported once the external tool has exited successfully:
    /// complete, and one second past the elapsed time last reported, so that
    /// it reports more than any snapshot before it.
    pub fn transcode_complete(&self) -> (r: DownloadProgress)
        requires
            self.reached < u64::MAX,
        ensures
            self.reported ==> r.downloaded == self.reached + 1,
            !self.reported ==> r.downloaded == 0,
            self.reported ==> r.downloaded > self.reached,
            r.total == Some(r.downloaded),
            r.percent_hundredths == FULL,
            r.speed == 0,
    {
        let downloaded = if self.reported {
            self.reached + 1
        } else {
            0
        };
        DownloadProgress { downloaded, total: Some(downloaded), percent_hundredths: FULL, speed: 0 }
    }

    /// The outcome once the external tool has exited: a cancellation wins;
    /// a failed exit is a tool error with its diagnostic text; a successful
    /// one gives the completion snapshot.
    pub fn on_exit(&self, exited_ok: bool, cancelled: bool, diagnostic: String) -> (r: Result<
        DownloadProgress,
        DownloadError,
    >)
        requires
            self.reached < u64::MAX,
        ensures
            cancelled ==> r == Err::<DownloadProgress, DownloadError>(DownloadError::Cancelled),
            !cancelled && !exited_ok ==> r == Err::<DownloadProgress, DownloadError>(
                DownloadError::ExternalToolError(diagnostic),
            ),
            !cancelled && exited_ok ==> r is Ok && r->Ok_0.percent_hundredths == FULL && (
            self.reported ==> r->Ok_0.downloaded > self.reached),
    {
        if cancelled {
            Err(DownloadError::Cancelled)
        } else if !exited_ok {
            Err(DownloadError::ExternalToolError(diagnostic))
        } else {
            Ok(self.transcode_complete())
        }
    }
}

} // verus!
