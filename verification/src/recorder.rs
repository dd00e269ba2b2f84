//! The capture session state machine and its sample pipeline.
//!
//! At most one capture session exists at any time: the state holds one
//! optional session, a start against an active state fails and leaves it
//! untouched, and stop or cancel with a wrong identifier leaves the active
//! session exactly as it was. Incoming sample blocks are downmixed to mono
//! by averaging the channels of each frame; stopping encodes the buffered
//! samples into the PCM container.

use vstd::prelude::*;
use vstd::arithmetic::div_mod::lemma_div_is_ordered;
use vstd::arithmetic::div_mod::lemma_div_multiples_vanish;
use vstd::arithmetic::mul::lemma_mul_inequality;
use crate::audio_types::{AudioRecordingConfig, AudioRecordingSession, AudioRecordingResult, AudioRecordingError};
use crate::wav::{wav_fits, wav_bytes, encode_wav};
use crate::text::str_eq;

verus! {

/// One supported input configuration of a capture device: a channel count
/// and the sample-rate range it allows.
#[derive(Clone, Copy, Debug)]
pub struct SupportedConfigRange {
    pub channels: u16,
    pub min_sample_rate: u32,
    pub max_sample_rate: u32,
}

/// Whether a device range can serve the requested configuration exactly.
pub open spec fn range_matches(r: SupportedConfigRange, c: AudioRecordingConfig) -> bool {
    r.channels == c.channels && r.min_sample_rate <= c.sample_rate <= r.max_sample_rate
}

/// Whether some device range matches the request exactly.
pub open spec fn has_exact(s: Seq<SupportedConfigRange>, c: AudioRecordingConfig) -> bool {
    exists|k: int| 0 <= k < s.len() && range_matches(#[trigger] s[k], c)
}

/// Whether some device range is single-channel.
pub open spec fn has_mono(s: Seq<SupportedConfigRange>) -> bool {
    exists|k: int| 0 <= k < s.len() && (#[trigger] s[k]).channels == 1
}

/// The three-tier fallback: the first exact match, else the first
/// single-channel range, else the first range of all.
pub open spec fn picked_ok(
    s: Seq<SupportedConfigRange>,
    c: AudioRecordingConfig,
    i: int,
) -> bool {
    &&& 0 <= i < s.len()
    &&& if has_exact(s, c) {
        range_matches(s[i], c) && forall|j: int| 0 <= j < i ==> !range_matches(#[trigger] s[j], c)
    } else if has_mono(s) {
        s[i].channels == 1 && forall|j: int| 0 <= j < i ==> (#[trigger] s[j]).channels != 1
    } else {
        i == 0
    }
}

/// Pick a supported configuration for the request by the three-tier
/// fallback; nothing to pick only when the device reports no range at all.
pub fn pick_supported_config(
    supported: &Vec<SupportedConfigRange>,
    config: &AudioRecordingConfig,
) -> (r: Option<usize>)
    ensures
        match r {
            Some(i) => picked_ok(supported@, *config, i as int),
            None => supported@.len() == 0,
        },
{
    let n = supported.len();
    let mut k: usize = 0;
    while k < n
        invariant
            n == supported@.len(),
            k <= n,
            forall|j: int| 0 <= j < k ==> !range_matches(#[trigger] supported@[j], *config),
        decreases n - k,
    {
        let rg = supported[k];
        if rg.channels == config.channels && rg.min_sample_rate <= config.sample_rate
            && config.sample_rate <= rg.max_sample_rate {
            assert(range_matches(supported@[k as int], *config));
            return Some(k);
        }
        k = k + 1;
    }
    assert(!has_exact(supported@, *config));
    let mut k: usize = 0;
    while k < n
        invariant
            n == supported@.len(),
            k <= n,
            !has_exact(supported@, *config),
            forall|j: int| 0 <= j < k ==> (#[trigger] supported@[j]).channels != 1,
        decreases n - k,
    {
        if supported[k].channels == 1 {
            return Some(k);
        }
        k = k + 1;
    }
    assert(!has_mono(supported@));
    if n > 0 {
        Some(0)
    } else {
        None
    }
}

/// The sample rate used with a picked range: the requested rate when the
/// range allows it, otherwise the range's maximum capped at 48 kHz.
pub open spec fn spec_negotiated_rate(r: SupportedConfigRange, requested: u32) -> u32 {
    if r.min_sample_rate <= requested && requested <= r.max_sample_rate {
        requested
    } else if r.max_sample_rate <= 48000 {
        r.max_sample_rate
    } else {
        48000
    }
}

pub fn negotiated_rate(range: &SupportedConfigRange, requested: u32) -> (r: u32)
    ensures
        r == spec_negotiated_rate(*range, requested),
{
    if range.min_sample_rate <= requested && requested <= range.max_sample_rate {
        requested
    } else if range.max_sample_rate <= 48000 {
        range.max_sample_rate
    } else {
        48000
    }
}

/// Negotiate channel count and sample rate against the device's supported
/// ranges: pick a range by the three-tier fallback, then a rate within it.
pub fn negotiate_stream_config(
    supported: &Vec<SupportedConfigRange>,
    config: &AudioRecordingConfig,
) -> (r: Option<(u16, u32)>)
    ensures
        match r {
            Some(p) => exists|i: int|
                {
                    &&& #[trigger] picked_ok(supported@, *config, i)
                    &&& p.0 == supported@[i].channels
                    &&& p.1 == spec_negotiated_rate(supported@[i], config.sample_rate)
                },
            None => supported@.len() == 0,
        },
{
    match pick_supported_config(supported, config) {
        None => None,
        Some(i) => {
            let rg = supported[i];
            let rate = negotiated_rate(&rg, config.sample_rate);
            proof {
                assert(picked_ok(supported@, *config, i as int));
            }
            Some((rg.channels, rate))
        }
    }
}

/// The signed sum of a block of samples.
pub open spec fn sum_samples(s: Seq<i16>) -> int
    decreases s.len(),
{
    if s.len() == 0 {
        0
    } else {
        sum_samples(s.drop_last()) + s.last()
    }
}

/// Integer division rounding toward zero, as the hardware divides.
pub open spec fn div_toward_zero(a: int, b: int) -> int {
    if a >= 0 {
        a / b
    } else {
        -((-a) / b)
    }
}

/// Mono downmix: each frame of `c` interleaved samples averaged into one
/// (a trailing partial frame is still divided by `c`).
pub open spec fn spec_downmix(s: Seq<i16>, c: int) -> Seq<i16>
    decreases s.len(),
{
    if s.len() == 0 || c < 1 {
        Seq::empty()
    } else {
        let k = if c <= s.len() { c } else { s.len() as int };
        seq![div_toward_zero(sum_samples(s.take(k)), c) as i16] + spec_downmix(s.skip(k), c)
    }
}

/// The average of a frame of at most `c` samples, rounded toward zero.
fn frame_average(sum: i32, c: u32) -> (a: i16)
    requires
        1 <= c <= 65535,
        -32768 * c <= sum <= 32767 * c,
    ensures
        a == div_toward_zero(sum as int, c as int),
{
    if sum >= 0 {
        let q = (sum as u32) / c;
        proof {
            lemma_div_is_ordered(sum as int, 32767 * c, c as int);
            lemma_div_multiples_vanish(32767, c as int);
        }
        q as i16
    } else {
        let m = (0 - sum) as u32;
        let q = m / c;
        proof {
            lemma_div_is_ordered(m as int, 32768 * c, c as int);
            lemma_div_multiples_vanish(32768, c as int);
        }
        let neg: i32 = 0 - (q as i32);
        neg as i16
    }
}

/// Downmix interleaved samples of `channels` channels to mono by averaging
/// each frame.
#[verifier::loop_isolation(false)]
pub fn downmix_to_mono(block: &Vec<i16>, channels: u16) -> (r: Vec<i16>)
    requires
        channels >= 1,
    ensures
        r@ == spec_downmix(block@, channels as int),
{
    let c = channels as usize;
    let len = block.len();
    let mut out: Vec<i16> = Vec::new();
    let mut p: usize = 0;
    proof {
        assert(block@.skip(0) =~= block@);
    }
    while p < len
        invariant
            p <= len,
            spec_downmix(block@, c as int) == out@ + spec_downmix(block@.skip(p as int), c as int),
        decreases len - p,
    {
        let hi = if c <= len - p {
            p + c
        } else {
            len
        };
        let ghost k: int = hi - p;
        let mut sum: i32 = 0;
        let mut q: usize = p;
        while q < hi
            invariant
                p <= q <= hi,
                hi <= len,
                k == hi - p,
                k <= c,
                sum == sum_samples(block@.subrange(p as int, q as int)),
                -32768 * (q - p) <= sum <= 32767 * (q - p),
            decreases hi - q,
        {
            proof {
                let t = block@.subrange(p as int, q as int + 1);
                assert(t.drop_last() =~= block@.subrange(p as int, q as int));
                assert(t.last() == block@[q as int]);
            }
            sum = sum + (block[q] as i32);
            q = q + 1;
        }
        let ghost frame = block@.subrange(p as int, hi as int);
        proof {
            assert(sum == sum_samples(frame));
            lemma_mul_inequality(k, c as int, 32767);
            lemma_mul_inequality(k, c as int, 32768);
            assert(-32768 * (c as int) <= sum <= 32767 * (c as int));
        }
        let a = frame_average(sum, channels as u32);
        proof {
            let rest = block@.skip(p as int);
            assert(rest.len() == len - p);
            assert(rest.take(k) =~= frame);
            assert(rest.skip(k) =~= block@.skip(hi as int));
            assert(spec_downmix(rest, c as int)
                == seq![div_toward_zero(sum_samples(frame), c as int) as i16]
                + spec_downmix(block@.skip(hi as int), c as int));
            assert(a == div_toward_zero(sum_samples(frame), c as int) as i16);
            assert(out@.push(a) + spec_downmix(block@.skip(hi as int), c as int)
                =~= out@ + spec_downmix(rest, c as int));
        }
        out.push(a);
        p = hi;
    }
    proof {
        assert(block@.skip(len as int) =~= Seq::<i16>::empty());
        assert(out@ + Seq::<i16>::empty() =~= out@);
    }
    out
}

/// An active capture: its immutable session and the append-only buffer of
/// mono samples.
pub struct ActiveRecording {
    pub session: AudioRecordingSession,
    pub samples: Vec<i16>,
}

/// The recorder's whole state: at most one active capture session, by
/// construction.
pub struct RecorderState {
    pub active: Option<ActiveRecording>,
}

/// Milliseconds elapsed since the session started; zero when the clock
/// reads earlier than the start.
pub open spec fn spec_duration_ms(now_ms: u64, started_at: u64) -> u64 {
    if now_ms >= started_at {
        (now_ms - started_at) as u64
    } else {
        0
    }
}

/// How starting a capture relates states, request and response: a start
/// while a session is active fails and changes nothing; otherwise the new
/// session becomes active with an empty buffer and is returned.
pub open spec fn start_post(
    pre: RecorderState,
    session: AudioRecordingSession,
    post: RecorderState,
    r: Result<AudioRecordingSession, AudioRecordingError>,
) -> bool {
    if pre.active is Some {
        &&& post == pre
        &&& r matches Err(e) && e matches AudioRecordingError::StreamInitFailed(m)
            && m@ == "Recording already in progress"@
    } else {
        &&& post.active matches Some(a) && a.session == session && a.samples@ == Seq::<i16>::empty()
        &&& r matches Ok(s) && s == session
    }
}

/// How stopping relates states, request and response: no session or a
/// mismatched identifier fails and changes nothing; a match drains the
/// buffer into the encoded container (or fails when it cannot fit) and
/// leaves no session behind.
pub open spec fn stop_post(
    pre: RecorderState,
    session_id: Seq<char>,
    now_ms: u64,
    post: RecorderState,
    r: Result<AudioRecordingResult, AudioRecordingError>,
) -> bool {
    match pre.active {
        None => {
            &&& post == pre
            &&& r matches Err(e) && e is NoActiveSession
        },
        Some(a) => {
            if a.session.session_id@ != session_id {
                &&& post == pre
                &&& r matches Err(e) && e is SessionMismatch
            } else if wav_fits(a.samples@, a.session.sample_rate) {
                &&& post.active is None
                &&& r matches Ok(res) && res.session_id@ == session_id
                    && res.duration_ms == spec_duration_ms(now_ms, a.session.started_at)
                    && res.audio_data@ == wav_bytes(a.samples@, a.session.sample_rate)
                    && res.sample_rate == a.session.sample_rate
            } else {
                &&& post.active is None
                &&& r matches Err(e) && e matches AudioRecordingError::EncodingError(m)
                    && m@ == "Capture exceeds container size limits"@
            }
        },
    }
}

/// How cancelling relates states, request and response: the same matching
/// rules as stopping, but buffered samples are discarded.
pub open spec fn cancel_post(
    pre: RecorderState,
    session_id: Seq<char>,
    post: RecorderState,
    r: Result<(), AudioRecordingError>,
) -> bool {
    match pre.active {
        None => {
            &&& post == pre
            &&& r matches Err(e) && e is NoActiveSession
        },
        Some(a) => {
            if a.session.session_id@ != session_id {
                &&& post == pre
                &&& r matches Err(e) && e is SessionMismatch
            } else {
                &&& post.active is None
                &&& r is Ok
            }
        },
    }
}

impl RecorderState {
    /// Any active session has at least one channel, as a device stream
    /// always does.
    pub open spec fn wf(&self) -> bool {
        self.active matches Some(a) ==> a.session.channels >= 1
    }

    pub fn new() -> (r: Self)
        ensures
            r.active is None,
            r.wf(),
    {
        RecorderState { active: None }
    }

    /// Open a capture session; fails without touching the active one when a
    /// session already exists.
    pub fn start_session(&mut self, session: AudioRecordingSession) -> (r: Result<
        AudioRecordingSession,
        AudioRecordingError,
    >)
        requires
            old(self).wf(),
            session.channels >= 1,
        ensures
            final(self).wf(),
            start_post(*old(self), session, *final(self), r),
    {
        if self.active.is_some() {
            Err(AudioRecordingError::StreamInitFailed("Recording already in progress".to_owned()))
        } else {
            let copy = session.clone();
            self.active = Some(ActiveRecording { session, samples: Vec::new() });
            Ok(copy)
        }
    }

    /// Buffer one callback block, downmixed to mono by the session's
    /// channel count.
    pub fn append_block(&mut self, block: &Vec<i16>)
        requires
            old(self).wf(),
            old(self).active is Some,
        ensures
            final(self).wf(),
            final(self).active matches Some(a) && old(self).active matches Some(b)
                && a.session == b.session
                && a.samples@ == b.samples@ + spec_downmix(
                block@,
                b.session.channels as int,
            ),
    {
        let mut cur: Option<ActiveRecording> = None;
        core::mem::swap(&mut cur, &mut self.active);
        match cur {
            None => {
                proof {
                    assert(false);
                }
            }
            Some(mut a) => {
                let mut mono = downmix_to_mono(block, a.session.channels);
                a.samples.append(&mut mono);
                self.active = Some(a);
            }
        }
    }

    /// Stop the matching session: drain the buffer, encode it, and hand
    /// back duration, bytes and sample rate.
    pub fn stop_session(&mut self, session_id: &str, now_ms: u64) -> (r: Result<
        AudioRecordingResult,
        AudioRecordingError,
    >)
        requires
            old(self).wf(),
        ensures
            final(self).wf(),
            stop_post(*old(self), session_id@, now_ms, *final(self), r),
    {
        let mut cur: Option<ActiveRecording> = None;
        core::mem::swap(&mut cur, &mut self.active);
        match cur {
            None => Err(AudioRecordingError::NoActiveSession),
            Some(a) => {
                if !str_eq(a.session.session_id.as_str(), session_id) {
                    self.active = Some(a);
                    return Err(AudioRecordingError::SessionMismatch);
                }
                let n = a.samples.len();
                if n > 2147483625 || a.session.sample_rate > 2147483647 {
                    return Err(AudioRecordingError::EncodingError(
                        "Capture exceeds container size limits".to_owned(),
                    ));
                }
                let audio_data = encode_wav(&a.samples, a.session.sample_rate);
                let duration_ms: u64 = if now_ms >= a.session.started_at {
                    now_ms - a.session.started_at
                } else {
                    0
                };
                Ok(AudioRecordingResult {
                    session_id: a.session.session_id,
                    duration_ms,
                    audio_data,
                    sample_rate: a.session.sample_rate,
                })
            }
        }
    }

    /// Cancel the matching session, discarding its buffered samples.
    pub fn cancel_session(&mut self, session_id: &str) -> (r: Result<(), AudioRecordingError>)
        requires
            old(self).wf(),
        ensures
            final(self).wf(),
            cancel_post(*old(self), session_id@, *final(self), r),
    {
        let mut cur: Option<ActiveRecording> = None;
        core::mem::swap(&mut cur, &mut self.active);
        match cur {
            None => Err(AudioRecordingError::NoActiveSession),
            Some(a) => {
                if !str_eq(a.session.session_id.as_str(), session_id) {
                    self.active = Some(a);
                    return Err(AudioRecordingError::SessionMismatch);
                }
                Ok(())
            }
        }
    }

    /// Discard any active session without validation; reports whether one
    /// existed. The recovery valve when the normal paths are unreachable.
    pub fn force_reset(&mut self) -> (had: bool)
        requires
            old(self).wf(),
        ensures
            final(self).wf(),
            final(self).active is None,
            had == (old(self).active is Some),
    {
        let mut cur: Option<ActiveRecording> = None;
        core::mem::swap(&mut cur, &mut self.active);
        cur.is_some()
    }
}

/// A command of the actor protocol.
pub enum RecorderCommand {
    /// Open the given session (the caller has negotiated it and stamped
    /// identifier and start time).
    StartCapture(AudioRecordingSession),
    /// Stop the session with this identifier and return its audio.
    StopCapture(String),
    /// Cancel the session with this identifier, discarding its audio.
    CancelCapture(String),
    /// Unconditionally discard whatever is active.
    ForceReset,
    /// Terminate the actor; any active session is discarded.
    Shutdown,
}

/// The response to one command.
pub enum RecorderResponse {
    Started(Result<AudioRecordingSession, AudioRecordingError>),
    Stopped(Result<AudioRecordingResult, AudioRecordingError>),
    Cancelled(Result<(), AudioRecordingError>),
    WasReset(bool),
    ShuttingDown,
}

/// The whole actor step relation: what one command does to the state and
/// what it answers.
pub open spec fn step_ok(
    pre: RecorderState,
    cmd: RecorderCommand,
    now_ms: u64,
    post: RecorderState,
    resp: RecorderResponse,
) -> bool {
    match cmd {
        RecorderCommand::StartCapture(session) => resp matches RecorderResponse::Started(r)
            && start_post(pre, session, post, r),
        RecorderCommand::StopCapture(id) => resp matches RecorderResponse::Stopped(r)
            && stop_post(pre, id@, now_ms, post, r),
        RecorderCommand::CancelCapture(id) => resp matches RecorderResponse::Cancelled(r)
            && cancel_post(pre, id@, post, r),
        RecorderCommand::ForceReset => resp matches RecorderResponse::WasReset(had)
            && post.active is None && had == (pre.active is Some),
        RecorderCommand::Shutdown => resp is ShuttingDown && post.active is None,
    }
}

/// Process one command of the actor protocol against the recorder state,
/// at the given wall-clock time.
pub fn handle_command(state: &mut RecorderState, cmd: RecorderCommand, now_ms: u64) -> (resp:
    RecorderResponse)
    requires
        old(state).wf(),
        cmd matches RecorderCommand::StartCapture(s) ==> s.channels >= 1,
    ensures
        final(state).wf(),
        step_ok(*old(state), cmd, now_ms, *final(state), resp),
{
    match cmd {
        RecorderCommand::StartCapture(session) => RecorderResponse::Started(
            state.start_session(session),
        ),
        RecorderCommand::StopCapture(id) => RecorderResponse::Stopped(
            state.stop_session(id.as_str(), now_ms),
        ),
        RecorderCommand::CancelCapture(id) => RecorderResponse::Cancelled(
            state.cancel_session(id.as_str()),
        ),
        RecorderCommand::ForceReset => RecorderResponse::WasReset(state.force_reset()),
        RecorderCommand::Shutdown => {
            state.force_reset();
            RecorderResponse::ShuttingDown
        }
    }
}

/// How many capture sessions a state holds.
pub open spec fn session_count(state: RecorderState) -> int {
    if state.active is Some {
        1
    } else {
        0
    }
}

/// Whether `states`, `cmds` and `resps` form one run of the actor
/// protocol: each command relates consecutive states by `step_ok`.
pub open spec fn run_ok(
    states: Seq<RecorderState>,
    cmds: Seq<(RecorderCommand, u64)>,
    resps: Seq<RecorderResponse>,
) -> bool {
    &&& states.len() == cmds.len() + 1
    &&& resps.len() == cmds.len()
    &&& forall|i: int|
        0 <= i < cmds.len() ==> step_ok(
            states[i],
            (#[trigger] cmds[i]).0,
            cmds[i].1,
            states[i + 1],
            resps[i],
        )
}

/// Over every sequence of protocol commands, at most one capture session
/// is active in every state the run passes through, and every start issued
/// while a session is active fails with the conflict error and leaves the
/// state, including the existing session, exactly as it was.
pub proof fn lemma_protocol_exclusive_sessions(
    states: Seq<RecorderState>,
    cmds: Seq<(RecorderCommand, u64)>,
    resps: Seq<RecorderResponse>,
)
    requires
        run_ok(states, cmds, resps),
    ensures
        forall|i: int| 0 <= i < states.len() ==> session_count(#[trigger] states[i]) <= 1,
        forall|i: int|
            0 <= i < cmds.len() && states[i].active is Some && (#[trigger] cmds[i]).0
                is StartCapture ==> states[i + 1] == states[i] && (resps[i]
                matches RecorderResponse::Started(r) && r is Err),
{
    assert forall|i: int|
        0 <= i < cmds.len() && states[i].active is Some && (#[trigger] cmds[i]).0
            is StartCapture implies states[i + 1] == states[i] && (resps[i]
            matches RecorderResponse::Started(r) && r is Err) by {
        assert(step_ok(states[i], cmds[i].0, cmds[i].1, states[i + 1], resps[i]));
        lemma_start_while_active(states[i], cmds[i].0, cmds[i].1, states[i + 1], resps[i]);
    }
}

/// At most one capture session is ever active: the recorder state holds at
/// most one by construction, and this lemma states the other half of the
/// exclusivity law for every step of the protocol: a start while any
/// session is active answers the conflict error and leaves the state,
/// including the existing session, exactly as it was.
pub proof fn lemma_start_while_active(
    pre: RecorderState,
    cmd: RecorderCommand,
    now_ms: u64,
    post: RecorderState,
    resp: RecorderResponse,
)
    requires
        step_ok(pre, cmd, now_ms, post, resp),
        pre.active is Some,
        cmd is StartCapture,
    ensures
        post == pre,
        resp matches RecorderResponse::Started(r) && r matches Err(e)
            && e matches AudioRecordingError::StreamInitFailed(m)
            && m@ == "Recording already in progress"@,
{
}

/// Stop or cancel with an identifier that does not match the active
/// session answers the mismatch error and leaves the active session, and
/// the whole state, untouched.
pub proof fn lemma_mismatch_preserves_session(
    pre: RecorderState,
    cmd: RecorderCommand,
    now_ms: u64,
    post: RecorderState,
    resp: RecorderResponse,
)
    requires
        step_ok(pre, cmd, now_ms, post, resp),
        pre.active matches Some(a) && match cmd {
            RecorderCommand::StopCapture(id) => id@ != a.session.session_id@,
            RecorderCommand::CancelCapture(id) => id@ != a.session.session_id@,
            _ => false,
        },
    ensures
        post == pre,
        match cmd {
            RecorderCommand::StopCapture(_) => resp matches RecorderResponse::Stopped(r)
                && r matches Err(e) && e is SessionMismatch,
            RecorderCommand::CancelCapture(_) => resp matches RecorderResponse::Cancelled(r)
                && r matches Err(e) && e is SessionMismatch,
            _ => true,
        },
{
}

} // verus!
