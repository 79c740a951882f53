//! Encode orchestration: turning a probed media description into the full
//! encoder invocation plan, and translating the encoder's incremental
//! time-processed reports into progress snapshots.
//!
//! The plan is computed before any subprocess is launched: a malformed
//! probe (an audio stream without a channel count) or a missing or
//! unparsable container duration fails the operation here, so the caller
//! never spawns the encoder for it.

use vstd::prelude::*;

use crate::model::{EncodeError, EncodeProgress, MediaDescription};
use crate::numeral::{duration_secs_u64, is_duration_str, parse_duration_secs};
use crate::selector::{missing_channels, select_stream_maps, selected_maps, StreamMap};

verus! {

/// One fixed option of the encoder invocation.
#[derive(Clone, Copy, Debug)]
pub enum EncoderOption {
    /// A bare flag.
    Flag(&'static str),
    /// A key with a value.
    KeyValue(&'static str, &'static str),
}

/// Everything the caller needs to launch the encoder: the progress
/// denominator in whole seconds, and the stream maps to pass, in order.
#[derive(Debug)]
pub struct EncodePlan {
    pub total_secs: u64,
    pub maps: Vec<StreamMap>,
}

/// Compute the encode plan for one probed source.
///
/// Fails, before anything is launched, exactly when the probe is malformed
/// (an audio stream without a channel count), the duration is absent, or
/// the duration does not parse; stream selection is checked first.
pub fn plan_encode(desc: &MediaDescription) -> (r: Result<EncodePlan, EncodeError>)
    ensures
        r is Ok <==> (!missing_channels(desc.streams@) && (desc.duration matches Some(d)
            && is_duration_str(d@))),
        r matches Ok(p) ==> {
            &&& p.maps@ == selected_maps(desc.streams@)
            &&& desc.duration matches Some(d) && p.total_secs == duration_secs_u64(d@)
        },
        missing_channels(desc.streams@) ==> r == Err::<EncodePlan, EncodeError>(
            EncodeError::MissingChannelCount,
        ),
        !missing_channels(desc.streams@) && desc.duration is None ==> r == Err::<
            EncodePlan,
            EncodeError,
        >(EncodeError::MissingDuration),
        !missing_channels(desc.streams@) && (desc.duration matches Some(d) && !is_duration_str(
            d@,
        )) ==> r == Err::<EncodePlan, EncodeError>(EncodeError::UnparsableDuration),
{
    let maps = match select_stream_maps(&desc.streams) {
        Ok(maps) => maps,
        Err(e) => {
            return Err(e);
        },
    };
    let total_secs = match &desc.duration {
        Some(d) => {
            match parse_duration_secs(d.as_str()) {
                Some(secs) => secs,
                None => {
                    return Err(EncodeError::UnparsableDuration);
                },
            }
        },
        None => {
            return Err(EncodeError::MissingDuration);
        },
    };
    Ok(EncodePlan { total_secs, maps })
}

/// The fixed options applied to the encoder invocation itself, before the
/// input file: overwrite the target, probe generously, tolerate unknown
/// streams and truncated subtitle durations.
pub fn global_options() -> (r: Vec<EncoderOption>)
    ensures
        r@.len() == 5,
        r@[0] matches EncoderOption::Flag(f) && f@ == "y"@,
        r@[1] matches EncoderOption::KeyValue(k, v) && k@ == "analyzeduration"@ && v@ == "100M"@,
        r@[2] matches EncoderOption::KeyValue(k, v) && k@ == "probesize"@ && v@ == "100M"@,
        r@[3] matches EncoderOption::Flag(f) && f@ == "ignore_unknown"@,
        r@[4] matches EncoderOption::Flag(f) && f@ == "fix_sub_duration"@,
{
    let mut r: Vec<EncoderOption> = Vec::new();
    r.push(EncoderOption::Flag("y"));
    r.push(EncoderOption::KeyValue("analyzeduration", "100M"));
    r.push(EncoderOption::KeyValue("probesize", "100M"));
    r.push(EncoderOption::Flag("ignore_unknown"));
    r.push(EncoderOption::Flag("fix_sub_duration"));
    r
}

/// The fixed options of the output file, besides the stream maps:
/// constant-quality AV1 video with unconditional deinterlacing, audio
/// copied unchanged with ADTS framing converted, subtitles transcoded to
/// the container's text format, and corrupt input chunks tolerated.
pub fn output_options() -> (r: Vec<EncoderOption>)
    ensures
        r@.len() == 7,
        r@[0] matches EncoderOption::KeyValue(k, v) && k@ == "vcodec"@ && v@ == "libsvtav1"@,
        r@[1] matches EncoderOption::KeyValue(k, v) && k@ == "crf"@ && v@ == "38"@,
        r@[2] matches EncoderOption::KeyValue(k, v) && k@ == "vf"@ && v@ == "yadif=1"@,
        r@[3] matches EncoderOption::KeyValue(k, v) && k@ == "absf"@ && v@ == "aac_adtstoasc"@,
        r@[4] matches EncoderOption::KeyValue(k, v) && k@ == "fflags"@ && v@ == "+discardcorrupt"@,
        r@[5] matches EncoderOption::KeyValue(k, v) && k@ == "acodec"@ && v@ == "copy"@,
        r@[6] matches EncoderOption::KeyValue(k, v) && k@ == "scodec"@ && v@ == "mov_text"@,
{
    let mut r: Vec<EncoderOption> = Vec::new();
    r.push(EncoderOption::KeyValue("vcodec", "libsvtav1"));
    r.push(EncoderOption::KeyValue("crf", "38"));
    r.push(EncoderOption::KeyValue("vf", "yadif=1"));
    r.push(EncoderOption::KeyValue("absf", "aac_adtstoasc"));
    r.push(EncoderOption::KeyValue("fflags", "+discardcorrupt"));
    r.push(EncoderOption::KeyValue("acodec", "copy"));
    r.push(EncoderOption::KeyValue("scodec", "mov_text"));
    r
}

/// The larger of two report values.
pub open spec fn max_u64(a: u64, b: u64) -> u64 {
    if a > b {
        a
    } else {
        b
    }
}

/// The furthest point the encoder has reported after a sequence of
/// time-processed reports.
pub open spec fn running_max(reports: Seq<u64>) -> u64
    decreases reports.len(),
{
    if reports.len() == 0 {
        0
    } else {
        max_u64(running_max(reports.drop_last()), reports.last())
    }
}

/// The progress snapshots one encode emits for a sequence of reports: the
/// initial zero snapshot, then one per report. The denominator is fixed.
pub open spec fn encode_snapshots(total: u64, reports: Seq<u64>) -> Seq<EncodeProgress> {
    Seq::new(
        reports.len() + 1,
        |i: int|
            EncodeProgress {
                current_secs: running_max(reports.take(i)),
                total_secs: total,
            },
    )
}

/// One encode operation's progress state: the denominator fixed at start,
/// and the furthest point reported so far.
pub struct EncodeSession {
    pub total_secs: u64,
    pub last_secs: u64,
}

impl EncodeSession {
    /// Open a session; its first snapshot reports zero seconds done, so a
    /// slow-starting consumer has an initial data point.
    pub fn new(total_secs: u64) -> (r: Self)
        ensures
            r.total_secs == total_secs,
            r.last_secs == 0,
    {
        EncodeSession { total_secs, last_secs: 0 }
    }

    /// The snapshot describing the session's current state.
    pub fn snapshot(&self) -> (r: EncodeProgress)
        ensures
            r.current_secs == self.last_secs,
            r.total_secs == self.total_secs,
    {
        EncodeProgress { current_secs: self.last_secs, total_secs: self.total_secs }
    }

    /// Absorb one time-processed report from the encoder. The session never
    /// moves backwards, so the snapshots it hands out are non-decreasing in
    /// `current_secs` and constant in `total_secs`.
    pub fn on_report(&mut self, secs: u64) -> (r: EncodeProgress)
        ensures
            final(self).total_secs == old(self).total_secs,
            final(self).last_secs == max_u64(old(self).last_secs, secs),
            r.current_secs == final(self).last_secs,
            r.total_secs == old(self).total_secs,
    {
        if secs > self.last_secs {
            self.last_secs = secs;
        }
        EncodeProgress { current_secs: self.last_secs, total_secs: self.total_secs }
    }

    /// Absorb one progress update as the encoder's stream hands it out: an
    /// update whose time-processed field could not be parsed is tolerated —
    /// it costs only its snapshot, the session is unchanged and the encode
    /// goes on.
    pub fn on_update(&mut self, report_secs: Option<u64>) -> (r: Option<EncodeProgress>)
        ensures
            report_secs matches Some(secs) ==> {
                &&& final(self).total_secs == old(self).total_secs
                &&& final(self).last_secs == max_u64(old(self).last_secs, secs)
                &&& r matches Some(p) && p.current_secs == final(self).last_secs
                    && p.total_secs == old(self).total_secs
            },
            report_secs is None ==> *final(self) == *old(self) && r is None,
    {
        match report_secs {
            Some(secs) => Some(self.on_report(secs)),
            None => None,
        }
    }
}

/// The encode's verdict from the encoder's exit: a successful exit
/// completes the operation; any other exit is an encoding failure.
pub fn encode_outcome(exit_success: bool) -> (r: Result<(), EncodeError>)
    ensures
        r is Ok <==> exit_success,
        r is Err ==> r == Err::<(), EncodeError>(EncodeError::EncoderFailed),
{
    if exit_success {
        Ok(())
    } else {
        Err(EncodeError::EncoderFailed)
    }
}

/// Replay a whole report sequence through a session, yielding every
/// snapshot the encode emits, the initial zero snapshot first.
pub fn replay_encode_reports(total_secs: u64, reports: &Vec<u64>) -> (r: Vec<EncodeProgress>)
    ensures
        r@ == encode_snapshots(total_secs, reports@),
{
    let mut session = EncodeSession::new(total_secs);
    let mut out: Vec<EncodeProgress> = Vec::new();
    out.push(session.snapshot());
    let mut i: usize = 0;
    while i < reports.len()
        invariant
            0 <= i <= reports@.len(),
            session.total_secs == total_secs,
            session.last_secs == running_max(reports@.take(i as int)),
            out@ == encode_snapshots(total_secs, reports@).take(i + 1),
        decreases reports@.len() - i,
    {
        proof {
            assert(reports@.take(i + 1).drop_last() =~= reports@.take(i as int));
            assert(reports@.take(i + 1).last() == reports@[i as int]);
        }
        let snap = session.on_report(reports[i]);
        out.push(snap);
        proof {
            assert(out@ =~= encode_snapshots(total_secs, reports@).take(i + 2));
        }
        i += 1;
    }
    proof {
        assert(out@ =~= encode_snapshots(total_secs, reports@));
    }
    out
}

proof fn lemma_running_max_prefix(reports: Seq<u64>, i: int, j: int)
    requires
        0 <= i <= j <= reports.len(),
    ensures
        running_max(reports.take(i)) <= running_max(reports.take(j)),
    decreases j - i,
{
    if i < j {
        lemma_running_max_prefix(reports, i, j - 1);
        assert(reports.take(j).drop_last() =~= reports.take(j - 1));
    }
}

/// Law: within one encode, the snapshots' `current_secs` is non-decreasing
/// and their `total_secs` never changes.
pub proof fn lemma_encode_progress_monotone(total: u64, reports: Seq<u64>, i: int, j: int)
    requires
        0 <= i <= j < encode_snapshots(total, reports).len(),
    ensures
        encode_snapshots(total, reports)[i].current_secs <= encode_snapshots(total, reports)[j].current_secs,
        encode_snapshots(total, reports)[i].total_secs == total,
{
    lemma_running_max_prefix(reports, i, j);
}

} // verus!
