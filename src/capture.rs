use crate::envelope::{elapsed_ms, envelope_step, PeakEnvelope};
use crate::sample_decoder::{calculate_peak_from_buffer, peak_level, sample_level};
use crate::stream_format::{SampleEncoding, StreamFormat};
use vstd::prelude::*;

verus! {

/// Consecutive failed buffer claims tolerated before the device is taken to have changed.
pub const DEVICE_CHANGE_ERROR_THRESHOLD: u32 = 10;

/// Minimum time between two meter updates, in milliseconds (about 30 per second).
pub const PEAK_METER_EMIT_INTERVAL_MS: u64 = 33;

/// Pause between two buffer polls, in milliseconds.
pub const AUDIO_POLL_INTERVAL_MS: u64 = 10;

/// Pause before a new session after a failed one, in milliseconds.
pub const DEVICE_RECONNECT_DELAY_MS: u64 = 500;

/// What the poll loop does after a failed buffer claim.
#[derive(Debug, Clone, Copy, PartialEq, Eq, Structural)]
pub enum PollAction {
    /// A transient glitch: keep polling.
    KeepPolling,
    /// Too many failures in a row: stop the stream and end the session with an error.
    Reconnect,
}

/// Decision state of one loopback capture session.
#[derive(Debug, Clone, Copy, PartialEq, Eq, Structural)]
pub struct CaptureSession {
    /// Mix format of the captured stream; it decides how buffers are decoded.
    pub format: StreamFormat,
    /// Buffer claims that failed since the last successful one.
    pub consecutive_errors: u32,
    /// When the last meter update was emitted, in milliseconds.
    pub last_emit_ms: u64,
}

impl CaptureSession {
    pub open spec fn wf(&self) -> bool {
        self.consecutive_errors <= DEVICE_CHANGE_ERROR_THRESHOLD
    }

    /// Interleaved samples in a buffer of `frames` frames.
    pub open spec fn samples_in(&self, frames: u32) -> nat {
        frames as nat * self.format.channel_count as nat
    }

    /// A session over a stream of the given mix format, started at `now_ms`.
    pub fn new(format: StreamFormat, now_ms: u64) -> (r: CaptureSession)
        ensures
            r.wf(),
            r.format == format,
            r.consecutive_errors == 0,
            r.last_emit_ms == now_ms,
    {
        CaptureSession { format, consecutive_errors: 0, last_emit_ms: now_ms }
    }

    /// Records a failed buffer claim. More than `DEVICE_CHANGE_ERROR_THRESHOLD`
    /// failures in a row mean the device or its format changed.
    pub fn on_claim_failed(&mut self) -> (r: PollAction)
        requires
            old(self).wf(),
        ensures
            final(self).consecutive_errors == old(self).consecutive_errors + 1,
            final(self).format == old(self).format,
            final(self).last_emit_ms == old(self).last_emit_ms,
            r == PollAction::Reconnect <==> final(self).consecutive_errors
                > DEVICE_CHANGE_ERROR_THRESHOLD,
            r == PollAction::KeepPolling ==> final(self).wf(),
    {
        self.consecutive_errors = self.consecutive_errors + 1;
        if self.consecutive_errors > DEVICE_CHANGE_ERROR_THRESHOLD {
            PollAction::Reconnect
        } else {
            PollAction::KeepPolling
        }
    }

    /// Handles a successful claim of `frames` frames held in `buffer`, observed at
    /// `now_ms`: the error count is reset, and a non-empty buffer feeds its peak into
    /// the envelope.
    pub fn on_buffer(&mut self, envelope: &mut PeakEnvelope, buffer: &[u8], frames: u32, now_ms: u64)
        requires
            self.samples_in(frames) * ((self.format.bit_depth / 8) as nat) <= buffer@.len(),
        ensures
            final(self).wf(),
            final(self).consecutive_errors == 0,
            final(self).format == old(self).format,
            final(self).last_emit_ms == old(self).last_emit_ms,
            frames > 0 ==> *final(envelope) == envelope_step(
                *old(envelope),
                peak_level(
                    buffer@,
                    old(self).samples_in(frames),
                    (old(self).format.bit_depth / 8) as u16,
                    old(self).format.encoding == SampleEncoding::IeeeFloat,
                ) as u64,
                now_ms,
            ),
            frames == 0 ==> *final(envelope) == *old(envelope),
    {
        self.consecutive_errors = 0;
        if frames == 0 {
            return;
        }
        let bytes_per_sample = self.format.bytes_per_sample();
        let is_float = self.format.is_float();
        assert(frames as nat * self.format.channel_count as nat <= 0xffff_ffff * 0xffff) by (nonlinear_arith);
        let count: u64 = frames as u64 * self.format.channel_count as u64;
        let level = if bytes_per_sample == 2 || bytes_per_sample == 3 || bytes_per_sample == 4 {
            assert(count <= count * bytes_per_sample) by (nonlinear_arith)
                requires
                    bytes_per_sample >= 1,
            ;
            // the slice length bounds the sample count, so the count fits in usize
            let _len = buffer.len();
            calculate_peak_from_buffer(buffer, count as usize, bytes_per_sample, is_float)
        } else {
            proof {
                lemma_unsupported_width_is_silent(buffer@, count as nat, bytes_per_sample, is_float);
            }
            0
        };
        envelope.update(level, now_ms);
    }

    /// Asked on every poll, with or without data: whether a meter update is due at
    /// `now_ms`, that is, whether the emit interval has passed since the last one.
    /// When it is, the update counts as emitted now.
    pub fn emit_due(&mut self, now_ms: u64) -> (emit: bool)
        ensures
            emit <==> elapsed_ms(old(self).last_emit_ms, now_ms) >= PEAK_METER_EMIT_INTERVAL_MS,
            emit ==> final(self).last_emit_ms == now_ms,
            !emit ==> final(self).last_emit_ms == old(self).last_emit_ms,
            final(self).format == old(self).format,
            final(self).consecutive_errors == old(self).consecutive_errors,
    {
        let elapsed: u64 = if now_ms >= self.last_emit_ms {
            now_ms - self.last_emit_ms
        } else {
            0
        };
        if elapsed >= PEAK_METER_EMIT_INTERVAL_MS {
            self.last_emit_ms = now_ms;
            true
        } else {
            false
        }
    }
}

proof fn lemma_unsupported_width_is_silent(b: Seq<u8>, n: nat, bytes_per_sample: u16, is_float: bool)
    requires
        bytes_per_sample != 2 && bytes_per_sample != 3 && bytes_per_sample != 4,
    ensures
        peak_level(b, n, bytes_per_sample, is_float) == 0,
    decreases n,
{
    if n > 0 {
        lemma_unsupported_width_is_silent(b, (n - 1) as nat, bytes_per_sample, is_float);
        assert(sample_level(b, n - 1, bytes_per_sample, is_float) == 0);
    }
}

/// How a capture session ended.
#[derive(Debug, Clone, Copy, PartialEq, Eq, Structural)]
pub enum SessionEnd {
    /// Monitoring was stopped; nothing to retry.
    Stopped,
    /// Setup failed or the device went away; a new session is due.
    Failed,
}

/// What the supervisor does next.
#[derive(Debug, Clone, Copy, PartialEq, Eq, Structural)]
pub enum SupervisorAction {
    /// Open a new capture session.
    StartSession,
    /// Wait this long, then decide again with no session pending.
    Backoff { delay_ms: u64 },
    /// Leave the supervisor loop.
    Exit,
}

/// The supervisor's decision, from the running flag and how the last session
/// ended (`None` before the first session and after a backoff).
pub open spec fn supervisor_decision(running: bool, last: Option<SessionEnd>) -> SupervisorAction {
    match last {
        Some(SessionEnd::Stopped) => SupervisorAction::Exit,
        Some(SessionEnd::Failed) => SupervisorAction::Backoff { delay_ms: DEVICE_RECONNECT_DELAY_MS },
        None => if running {
            SupervisorAction::StartSession
        } else {
            SupervisorAction::Exit
        },
    }
}

/// Next step of the reconnecting supervisor: sessions are restarted after a fixed
/// delay for as long as monitoring runs; a session that ended because monitoring
/// stopped ends the supervisor.
pub fn supervisor_next(running: bool, last: Option<SessionEnd>) -> (r: SupervisorAction)
    ensures
        r == supervisor_decision(running, last),
{
    match last {
        Some(SessionEnd::Stopped) => SupervisorAction::Exit,
        Some(SessionEnd::Failed) => SupervisorAction::Backoff { delay_ms: DEVICE_RECONNECT_DELAY_MS },
        None => if running {
            SupervisorAction::StartSession
        } else {
            SupervisorAction::Exit
        },
    }
}

/// While monitoring runs, a failed session is followed by exactly the fixed
/// reconnect delay and then a new session; the supervisor never gives up on its own.
pub proof fn lemma_failed_session_is_retried()
    ensures
        supervisor_decision(true, Some(SessionEnd::Failed)) == (SupervisorAction::Backoff {
            delay_ms: DEVICE_RECONNECT_DELAY_MS,
        }),
        supervisor_decision(true, None) == SupervisorAction::StartSession,
        forall|last: Option<SessionEnd>|
            supervisor_decision(true, last) == SupervisorAction::Exit ==> last == Some(
                SessionEnd::Stopped,
            ),
{
}

/// The supervisor's decisions while monitoring runs, when the sessions it starts
/// end as listed in `ends`: its first decision, then for each ended session the
/// decision on that ending, followed after a backoff by the decision with no
/// session pending.
pub open spec fn supervisor_trace(ends: Seq<SessionEnd>) -> Seq<SupervisorAction>
    decreases ends.len(),
{
    if ends.len() == 0 {
        seq![supervisor_decision(true, None)]
    } else {
        let t = supervisor_trace(ends.drop_last());
        let d = supervisor_decision(true, Some(ends.last()));
        match d {
            SupervisorAction::Backoff { .. } => t.push(d).push(supervisor_decision(true, None)),
            _ => t.push(d),
        }
    }
}

/// While monitoring runs, however many sessions fail in a row, each failure is
/// followed by exactly the fixed reconnect delay and a new session: the decisions
/// alternate between starting a session and waiting, the supervisor never exits,
/// and after the last failure a new session is started.
pub proof fn lemma_retries_after_failures(ends: Seq<SessionEnd>)
    requires
        forall|i: int| 0 <= i < ends.len() ==> ends[i] == SessionEnd::Failed,
    ensures
        supervisor_trace(ends).len() == 2 * ends.len() + 1,
        forall|j: int|
            0 <= j < supervisor_trace(ends).len() ==> #[trigger] supervisor_trace(ends)[j] == if j
                % 2 == 0 {
                SupervisorAction::StartSession
            } else {
                SupervisorAction::Backoff { delay_ms: DEVICE_RECONNECT_DELAY_MS }
            },
        supervisor_trace(ends).last() == SupervisorAction::StartSession,
    decreases ends.len(),
{
    if ends.len() > 0 {
        let prev = ends.drop_last();
        lemma_retries_after_failures(prev);
        let t = supervisor_trace(prev);
        assert(ends.last() == SessionEnd::Failed);
        let full = supervisor_trace(ends);
        assert(full == t.push(SupervisorAction::Backoff { delay_ms: DEVICE_RECONNECT_DELAY_MS }).push(
            SupervisorAction::StartSession,
        ));
        assert forall|j: int| 0 <= j < full.len() implies #[trigger] full[j] == if j % 2 == 0 {
            SupervisorAction::StartSession
        } else {
            SupervisorAction::Backoff { delay_ms: DEVICE_RECONNECT_DELAY_MS }
        } by {
            if j < t.len() {
                assert(full[j] == t[j]);
            }
        }
    }
}

} // verus!
