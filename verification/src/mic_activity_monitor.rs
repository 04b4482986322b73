//! Microphone activity monitor: the monitoring state, the rolling sample
//! buffer, and the meeting-detection state machine.
//!
//! The audio stream, the level computation and the event emission run
//! outside this module. Each emitter tick hands in whether the microphone
//! was active and the current time; the state machine answers whether a
//! meeting was just detected or just ended.
use vstd::prelude::*;

use crate::seq_search::{first_index, lemma_first_index_absent, lemma_first_index_found};
use crate::text::{concat, owned, str_eq};

verus! {

/// Maximum buffer size: 1 second of audio at 48 kHz.
pub const MAX_BUFFER_SAMPLES: usize = 48_000;

/// How often (ms) activity updates are emitted.
pub const EMIT_INTERVAL_MS: u64 = 150;

/// Consecutive active ticks needed to report a meeting (about 9 s).
pub const MEETING_DETECTION_THRESHOLD: u32 = 60;

/// Consecutive silent ticks needed to report that a meeting ended (about 6 s).
pub const MEETING_ENDED_THRESHOLD: u32 = 40;

/// Cooldown (ms) after a dismissed detection before detection may fire again.
pub const DETECTION_COOLDOWN_MS: u64 = 60_000;

/// Grace period (ms) after monitoring starts during which detection cannot fire.
pub const STARTUP_GRACE_PERIOD_MS: u64 = 10_000;

/// Delay (ms) before the capture stream is opened at start-up on Windows.
pub const STARTUP_STREAM_DELAY_MS: u64 = 5_000;

// ─── Rolling buffer ─────────────────────────────────────────────────────────

/// The last `max` elements of `s` (all of `s` when it is shorter).
pub open spec fn keep_last<T>(s: Seq<T>, max: nat) -> Seq<T> {
    if s.len() > max {
        s.subrange(s.len() - max, s.len() as int)
    } else {
        s
    }
}

/// Copies `s[from..to]` onto the end of `out`.
fn extend_from_range<T: Copy>(out: &mut Vec<T>, s: &[T], from: usize, to: usize)
    requires
        from <= to <= s@.len(),
    ensures
        final(out)@ == old(out)@ + s@.subrange(from as int, to as int),
{
    let mut j: usize = from;
    while j < to
        invariant
            from <= j <= to,
            to <= s@.len(),
            out@ == old(out)@ + s@.subrange(from as int, j as int),
        decreases to - j,
    {
        out.push(s[j]);
        j = j + 1;
        assert(out@ =~= old(out)@ + s@.subrange(from as int, j as int));
    }
}

/// Appends mono samples `data` to the rolling buffer `buf`, keeping only the
/// last `MAX_BUFFER_SAMPLES` samples.
pub fn push_mono_samples<T: Copy>(buf: &mut Vec<T>, data: &[T])
    ensures
        final(buf)@ == keep_last(old(buf)@ + data@, MAX_BUFFER_SAMPLES as nat),
{
    let ghost whole = old(buf)@ + data@;
    let mut kept: Vec<T> = Vec::new();
    if data.len() >= MAX_BUFFER_SAMPLES {
        extend_from_range(&mut kept, data, data.len() - MAX_BUFFER_SAMPLES, data.len());
        assert(kept@ =~= keep_last(whole, MAX_BUFFER_SAMPLES as nat));
    } else {
        let room = MAX_BUFFER_SAMPLES - data.len();
        let old_len = buf.len();
        let from = if old_len > room {
            old_len - room
        } else {
            0
        };
        extend_from_range(&mut kept, buf.as_slice(), from, old_len);
        extend_from_range(&mut kept, data, 0, data.len());
        assert(data@.subrange(0, data@.len() as int) =~= data@);
        assert(kept@ =~= keep_last(whole, MAX_BUFFER_SAMPLES as nat));
    }
    *buf = kept;
}

// ─── Monitoring state ───────────────────────────────────────────────────────

/// Process-wide state of the microphone activity monitor.
pub struct MicMonitorState {
    /// Monitoring is running.
    pub monitoring: bool,
    /// A meeting is currently detected (sustained microphone activity).
    pub meeting_detected: bool,
    /// The user dismissed the detection.
    pub detection_dismissed: bool,
    /// When detection was last dismissed (ms since the epoch), 0 when never.
    pub dismiss_timestamp_ms: u64,
    /// A capture stream is held open.
    pub stream_open: bool,
    /// Name of the monitored input device.
    pub device_name: String,
}

impl MicMonitorState {
    /// Nothing is monitored, detected or dismissed, and no stream is open.
    pub fn new() -> (r: Self)
        ensures
            !r.monitoring,
            !r.meeting_detected,
            !r.detection_dismissed,
            r.dismiss_timestamp_ms == 0,
            !r.stream_open,
            r.device_name@ == Seq::<char>::empty(),
    {
        MicMonitorState {
            monitoring: false,
            meeting_detected: false,
            detection_dismissed: false,
            dismiss_timestamp_ms: 0,
            stream_open: false,
            device_name: String::new(),
        }
    }

    /// Marks monitoring as running (before the stream is opened).
    pub fn begin_monitoring(&mut self)
        ensures
            final(self).monitoring,
            final(self).meeting_detected == old(self).meeting_detected,
            final(self).detection_dismissed == old(self).detection_dismissed,
            final(self).dismiss_timestamp_ms == old(self).dismiss_timestamp_ms,
            final(self).stream_open == old(self).stream_open,
            final(self).device_name == old(self).device_name,
    {
        self.monitoring = true;
    }

    /// Records the opened capture stream on `device_name`.
    pub fn record_stream(&mut self, device_name: String)
        ensures
            final(self).stream_open,
            final(self).device_name == device_name,
            final(self).monitoring == old(self).monitoring,
            final(self).meeting_detected == old(self).meeting_detected,
            final(self).detection_dismissed == old(self).detection_dismissed,
            final(self).dismiss_timestamp_ms == old(self).dismiss_timestamp_ms,
    {
        self.stream_open = true;
        self.device_name = device_name;
    }

    /// Resets detection when the emitter loop ends.
    pub fn emitter_finished(&mut self)
        ensures
            !final(self).meeting_detected,
            !final(self).detection_dismissed,
            final(self).monitoring == old(self).monitoring,
            final(self).dismiss_timestamp_ms == old(self).dismiss_timestamp_ms,
            final(self).stream_open == old(self).stream_open,
            final(self).device_name == old(self).device_name,
    {
        self.meeting_detected = false;
        self.detection_dismissed = false;
    }
}

/// Whether microphone activity monitoring is currently running.
pub fn is_mic_activity_monitoring(state: &MicMonitorState) -> (r: bool)
    ensures
        r == state.monitoring,
{
    state.monitoring
}

/// Stops monitoring. Returns whether monitoring was running, in which case the
/// capture stream (if any) is to be released; otherwise nothing changes.
pub fn stop_mic_activity_monitoring(state: &mut MicMonitorState) -> (r: bool)
    ensures
        r == old(state).monitoring,
        r ==> !final(state).monitoring && !final(state).stream_open,
        !r ==> *final(state) == *old(state),
        final(state).meeting_detected == old(state).meeting_detected,
        final(state).detection_dismissed == old(state).detection_dismissed,
        final(state).dismiss_timestamp_ms == old(state).dismiss_timestamp_ms,
        final(state).device_name == old(state).device_name,
{
    if !state.monitoring {
        return false;
    }
    state.monitoring = false;
    state.stream_open = false;
    true
}

/// Dismisses the current detection at `now_ms` and starts the cooldown.
pub fn dismiss_mic_activity_detection(state: &mut MicMonitorState, now_ms: u64)
    ensures
        !final(state).meeting_detected,
        final(state).detection_dismissed,
        final(state).dismiss_timestamp_ms == now_ms,
        final(state).monitoring == old(state).monitoring,
        final(state).stream_open == old(state).stream_open,
        final(state).device_name == old(state).device_name,
{
    state.meeting_detected = false;
    state.detection_dismissed = true;
    state.dismiss_timestamp_ms = now_ms;
}

/// The monitoring preference from the stored value: enabled unless stored as `false`.
pub fn monitoring_preference(stored: Option<bool>) -> (r: bool)
    ensures
        r == match stored {
            Some(b) => b,
            None => true,
        },
{
    match stored {
        Some(b) => b,
        None => true,
    }
}

/// What a change of the monitoring preference requires.
#[derive(Debug, Clone, Copy, PartialEq, Eq, Structural)]
pub enum PreferenceAction {
    StartMonitoring,
    StopMonitoring,
    Nothing,
}

/// Start when enabled and not running, stop when disabled and running.
pub fn preference_action(enabled: bool, monitoring: bool) -> (r: PreferenceAction)
    ensures
        r == (if enabled && !monitoring {
            PreferenceAction::StartMonitoring
        } else if !enabled && monitoring {
            PreferenceAction::StopMonitoring
        } else {
            PreferenceAction::Nothing
        }),
{
    if enabled {
        if !monitoring {
            PreferenceAction::StartMonitoring
        } else {
            PreferenceAction::Nothing
        }
    } else if monitoring {
        PreferenceAction::StopMonitoring
    } else {
        PreferenceAction::Nothing
    }
}

// ─── Input device ───────────────────────────────────────────────────────────

/// Which input device monitoring opens.
#[derive(Debug, Clone, Copy, PartialEq, Eq, Structural)]
pub enum InputDeviceChoice {
    /// The host's default input device.
    Default,
    /// The device at this position of the host's input devices.
    Listed(usize),
}

/// Selects listed devices whose name could be read and is `name`.
pub open spec fn device_named(name: Seq<char>) -> spec_fn(Option<String>) -> bool {
    |d: Option<String>| d matches Some(n) && n@ == name
}

/// The message for a requested input device that is not listed.
pub open spec fn device_not_found_message(name: Seq<char>) -> Seq<char> {
    "Input device not found: "@ + name
}

/// Chooses the input device to monitor. `device_names` are the names of the
/// host's input devices in order (`None` where a name could not be read;
/// empty when they could not be listed), `has_default` whether the host has
/// a default input device. A requested name picks the first device of that
/// name; no request picks the default device.
pub fn choose_input_device(
    requested: Option<&str>,
    device_names: &Vec<Option<String>>,
    has_default: bool,
) -> (r: Result<InputDeviceChoice, String>)
    ensures
        requested is None && has_default ==> r == Ok::<InputDeviceChoice, String>(
            InputDeviceChoice::Default,
        ),
        requested is None && !has_default ==> (r matches Err(m) && m@
            == "No default input device available"@),
        requested matches Some(n) ==> (if first_index(device_names@, device_named(n@)) >= 0 {
            r == Ok::<InputDeviceChoice, String>(
                InputDeviceChoice::Listed(first_index(device_names@, device_named(n@)) as usize),
            )
        } else {
            r matches Err(m) && m@ == device_not_found_message(n@)
        }),
{
    let name = match requested {
        None => {
            if has_default {
                return Ok(InputDeviceChoice::Default);
            } else {
                return Err(owned("No default input device available"));
            }
        },
        Some(n) => n,
    };
    let mut i: usize = 0;
    while i < device_names.len()
        invariant
            i <= device_names.len(),
            requested == Some(name),
            forall|j: int| 0 <= j < i ==> !#[trigger] device_named(name@)(device_names@[j]),
        decreases device_names.len() - i,
    {
        let found = match &device_names[i] {
            Some(d) => str_eq(d.as_str(), name),
            None => false,
        };
        if found {
            proof {
                lemma_first_index_found(device_names@, device_named(name@), i as int);
            }
            return Ok(InputDeviceChoice::Listed(i));
        }
        i = i + 1;
    }
    proof {
        lemma_first_index_absent(device_names@, device_named(name@));
    }
    Err(concat("Input device not found: ", name))
}

/// The name reported for the monitored device: its name, or `unknown` when
/// it could not be read.
pub fn monitored_device_name(name: Option<String>) -> (r: String)
    ensures
        r@ == match name {
            Some(n) => n@,
            None => "unknown"@,
        },
{
    match name {
        Some(n) => n,
        None => owned("unknown"),
    }
}

// ─── Meeting detection state machine ────────────────────────────────────────

/// What one emitter tick reports.
#[derive(Debug, Clone, Copy, PartialEq, Eq, Structural)]
pub enum MicTickAction {
    /// Nothing to report.
    Nothing,
    /// A meeting was detected: sustained microphone activity.
    MeetingDetected,
    /// The detected meeting ended: sustained silence.
    MeetingStopped,
}

/// The detection flags of the monitor that a tick reads and writes.
pub struct DetectionFlags {
    pub meeting_detected: bool,
    pub detection_dismissed: bool,
    pub dismiss_timestamp_ms: u64,
}

/// The counters of one emitter run.
pub struct CounterView {
    pub consecutive_active: u32,
    pub consecutive_silent: u32,
    pub started_at_ms: u64,
}

/// The detection flags of `s`.
pub open spec fn flags_of(s: MicMonitorState) -> DetectionFlags {
    DetectionFlags {
        meeting_detected: s.meeting_detected,
        detection_dismissed: s.detection_dismissed,
        dismiss_timestamp_ms: s.dismiss_timestamp_ms,
    }
}

/// The tick reaches the cooldown comparison against the dismissal time.
pub open spec fn tick_checks_cooldown(c: CounterView, f: DetectionFlags, is_active: bool, now_ms: u64) -> bool {
    &&& now_ms - c.started_at_ms >= STARTUP_GRACE_PERIOD_MS
    &&& is_active
    &&& !f.meeting_detected
    &&& c.consecutive_active + 1 >= MEETING_DETECTION_THRESHOLD
    &&& f.dismiss_timestamp_ms != 0
}

/// The inputs on which a tick is defined: the clock is not earlier than the
/// run's start (nor than the dismissal time, where that is compared), and the
/// counter to be incremented has room.
pub open spec fn tick_defined(c: CounterView, f: DetectionFlags, is_active: bool, now_ms: u64) -> bool {
    &&& now_ms >= c.started_at_ms
    &&& tick_checks_cooldown(c, f, is_active, now_ms) ==> now_ms >= f.dismiss_timestamp_ms
    &&& now_ms - c.started_at_ms >= STARTUP_GRACE_PERIOD_MS ==> if is_active {
        c.consecutive_active < u32::MAX
    } else {
        c.consecutive_silent < u32::MAX
    }
}

/// No dismissal holds detection back at `now_ms`: detection was never
/// dismissed, or the cooldown after the last dismissal has passed.
pub open spec fn cooldown_expired(f: DetectionFlags, now_ms: u64) -> bool {
    f.dismiss_timestamp_ms == 0 || now_ms - f.dismiss_timestamp_ms >= DETECTION_COOLDOWN_MS
}

/// One emitter tick: whether the microphone `is_active` at `now_ms`. A
/// dismissal blocks detection only during its cooldown; a new detection
/// clears it.
pub open spec fn mic_tick(c: CounterView, f: DetectionFlags, is_active: bool, now_ms: u64) -> (
    CounterView,
    DetectionFlags,
    MicTickAction,
) {
    if now_ms - c.started_at_ms < STARTUP_GRACE_PERIOD_MS {
        (CounterView { consecutive_active: 0, consecutive_silent: 0, ..c }, f, MicTickAction::Nothing)
    } else if is_active {
        let c2 = CounterView {
            consecutive_active: (c.consecutive_active + 1) as u32,
            consecutive_silent: 0,
            ..c
        };
        if !f.meeting_detected && c2.consecutive_active >= MEETING_DETECTION_THRESHOLD {
            if cooldown_expired(f, now_ms) {
                (
                    c2,
                    DetectionFlags { meeting_detected: true, detection_dismissed: false, ..f },
                    MicTickAction::MeetingDetected,
                )
            } else {
                (c2, f, MicTickAction::Nothing)
            }
        } else {
            (c2, f, MicTickAction::Nothing)
        }
    } else {
        let c2 = CounterView {
            consecutive_active: 0,
            consecutive_silent: (c.consecutive_silent + 1) as u32,
            ..c
        };
        if f.meeting_detected && c2.consecutive_silent >= MEETING_ENDED_THRESHOLD {
            (
                c2,
                DetectionFlags { meeting_detected: false, detection_dismissed: false, ..f },
                MicTickAction::MeetingStopped,
            )
        } else {
            (c2, f, MicTickAction::Nothing)
        }
    }
}

/// The counters of one emitter run of the meeting detector.
pub struct MeetingDetector {
    pub consecutive_active: u32,
    pub consecutive_silent: u32,
    pub started_at_ms: u64,
}

impl MeetingDetector {
    /// The counters as a mathematical value.
    pub open spec fn counters(self) -> CounterView {
        CounterView {
            consecutive_active: self.consecutive_active,
            consecutive_silent: self.consecutive_silent,
            started_at_ms: self.started_at_ms,
        }
    }

    /// A run that started at `started_at_ms` with no activity counted.
    pub fn new(started_at_ms: u64) -> (r: Self)
        ensures
            r.consecutive_active == 0,
            r.consecutive_silent == 0,
            r.started_at_ms == started_at_ms,
    {
        MeetingDetector { consecutive_active: 0, consecutive_silent: 0, started_at_ms }
    }

    /// One emitter tick: the microphone `is_active` at `now_ms`. Updates the
    /// counters and the monitor's detection flags, and reports what to emit.
    pub fn tick(&mut self, state: &mut MicMonitorState, is_active: bool, now_ms: u64) -> (r:
        MicTickAction)
        requires
            tick_defined(old(self).counters(), flags_of(*old(state)), is_active, now_ms),
        ensures
            (final(self).counters(), flags_of(*final(state)), r) == mic_tick(
                old(self).counters(),
                flags_of(*old(state)),
                is_active,
                now_ms,
            ),
            final(state).monitoring == old(state).monitoring,
            final(state).stream_open == old(state).stream_open,
            final(state).device_name == old(state).device_name,
    {
        let elapsed_since_start = now_ms - self.started_at_ms;
        if elapsed_since_start < STARTUP_GRACE_PERIOD_MS {
            self.consecutive_active = 0;
            self.consecutive_silent = 0;
            return MicTickAction::Nothing;
        }
        let currently_detected = state.meeting_detected;
        if is_active {
            self.consecutive_active = self.consecutive_active + 1;
            self.consecutive_silent = 0;
            if !currently_detected && self.consecutive_active >= MEETING_DETECTION_THRESHOLD {
                let dismiss_time = state.dismiss_timestamp_ms;
                let cooldown_expired = dismiss_time == 0 || (now_ms - dismiss_time)
                    >= DETECTION_COOLDOWN_MS;
                if cooldown_expired {
                    state.meeting_detected = true;
                    state.detection_dismissed = false;
                    return MicTickAction::MeetingDetected;
                }
            }
        } else {
            self.consecutive_silent = self.consecutive_silent + 1;
            self.consecutive_active = 0;
            if currently_detected && self.consecutive_silent >= MEETING_ENDED_THRESHOLD {
                state.meeting_detected = false;
                state.detection_dismissed = false;
                return MicTickAction::MeetingStopped;
            }
        }
        MicTickAction::Nothing
    }
}

// ─── Laws of the meeting detector ───────────────────────────────────────────

/// During the start-up grace period a tick reports nothing, clears both
/// counters and leaves the detection flags alone.
pub proof fn lemma_grace_period_is_silent(c: CounterView, f: DetectionFlags, is_active: bool, now_ms: u64)
    requires
        now_ms >= c.started_at_ms,
        now_ms - c.started_at_ms < STARTUP_GRACE_PERIOD_MS,
    ensures
        mic_tick(c, f, is_active, now_ms).2 == MicTickAction::Nothing,
        mic_tick(c, f, is_active, now_ms).0.consecutive_active == 0,
        mic_tick(c, f, is_active, now_ms).0.consecutive_silent == 0,
        mic_tick(c, f, is_active, now_ms).1 == f,
{
}

/// A meeting is reported only on an active tick after the grace period that
/// completes a run of at least `MEETING_DETECTION_THRESHOLD` active ticks,
/// when no meeting was detected and no dismissal's cooldown is running; it
/// clears the dismissal.
pub proof fn lemma_detection_needs_sustained_activity(
    c: CounterView,
    f: DetectionFlags,
    is_active: bool,
    now_ms: u64,
)
    requires
        tick_defined(c, f, is_active, now_ms),
        mic_tick(c, f, is_active, now_ms).2 == MicTickAction::MeetingDetected,
    ensures
        is_active,
        now_ms - c.started_at_ms >= STARTUP_GRACE_PERIOD_MS,
        c.consecutive_active + 1 >= MEETING_DETECTION_THRESHOLD,
        !f.meeting_detected,
        cooldown_expired(f, now_ms),
        mic_tick(c, f, is_active, now_ms).1.meeting_detected,
        !mic_tick(c, f, is_active, now_ms).1.detection_dismissed,
{
}

/// The end of a meeting is reported only on a silent tick, for a detected
/// meeting, completing at least `MEETING_ENDED_THRESHOLD` silent ticks; it
/// clears both the detection and its dismissal.
pub proof fn lemma_stop_needs_sustained_silence(
    c: CounterView,
    f: DetectionFlags,
    is_active: bool,
    now_ms: u64,
)
    requires
        tick_defined(c, f, is_active, now_ms),
        mic_tick(c, f, is_active, now_ms).2 == MicTickAction::MeetingStopped,
    ensures
        !is_active,
        f.meeting_detected,
        c.consecutive_silent + 1 >= MEETING_ENDED_THRESHOLD,
        !mic_tick(c, f, is_active, now_ms).1.meeting_detected,
        !mic_tick(c, f, is_active, now_ms).1.detection_dismissed,
{
}

/// While the cooldown after a dismissal runs (and no meeting is detected),
/// every tick keeps the detection flags and reports nothing.
pub proof fn lemma_dismissal_cooldown(c: CounterView, f: DetectionFlags, is_active: bool, now_ms: u64)
    requires
        tick_defined(c, f, is_active, now_ms),
        !f.meeting_detected,
        !cooldown_expired(f, now_ms),
    ensures
        mic_tick(c, f, is_active, now_ms).1 == f,
        mic_tick(c, f, is_active, now_ms).2 == MicTickAction::Nothing,
{
}

/// The state and reports after the ticks `events` (activity, time), in order.
pub open spec fn run_ticks(c: CounterView, f: DetectionFlags, events: Seq<(bool, u64)>) -> (
    CounterView,
    DetectionFlags,
    Seq<MicTickAction>,
)
    decreases events.len(),
{
    if events.len() == 0 {
        (c, f, Seq::empty())
    } else {
        let (c1, f1, a) = mic_tick(c, f, events[0].0, events[0].1);
        let (c2, f2, rest) = run_ticks(c1, f1, events.drop_first());
        (c2, f2, seq![a] + rest)
    }
}

/// `m` active ticks at `now_ms`.
pub open spec fn active_ticks(m: nat, now_ms: u64) -> Seq<(bool, u64)> {
    Seq::new(m, |i: int| (true, now_ms))
}

/// A run of `m` active ticks after the grace period, with no detection and
/// no dismissal cooldown running, counts each tick and reports a meeting
/// exactly on the tick that reaches the threshold.
pub proof fn lemma_active_run(c: CounterView, f: DetectionFlags, m: nat, now_ms: u64)
    requires
        now_ms >= c.started_at_ms,
        now_ms - c.started_at_ms >= STARTUP_GRACE_PERIOD_MS,
        !f.meeting_detected,
        cooldown_expired(f, now_ms),
        c.consecutive_active < MEETING_DETECTION_THRESHOLD,
        c.consecutive_active + m <= MEETING_DETECTION_THRESHOLD,
    ensures
        run_ticks(c, f, active_ticks(m, now_ms)).2.len() == m,
        run_ticks(c, f, active_ticks(m, now_ms)).0.consecutive_active == c.consecutive_active + m,
        run_ticks(c, f, active_ticks(m, now_ms)).0.started_at_ms == c.started_at_ms,
        run_ticks(c, f, active_ticks(m, now_ms)).1.meeting_detected == (c.consecutive_active + m
            == MEETING_DETECTION_THRESHOLD),
        c.consecutive_active + m == MEETING_DETECTION_THRESHOLD ==> !run_ticks(
            c,
            f,
            active_ticks(m, now_ms),
        ).1.detection_dismissed,
        forall|i: int|
            0 <= i < m ==> #[trigger] run_ticks(c, f, active_ticks(m, now_ms)).2[i] == if c.consecutive_active
                + i + 1 == MEETING_DETECTION_THRESHOLD {
                MicTickAction::MeetingDetected
            } else {
                MicTickAction::Nothing
            },
    decreases m,
{
    let ev = active_ticks(m, now_ms);
    if m > 0 {
        let (c1, f1, a) = mic_tick(c, f, true, now_ms);
        assert(ev.drop_first() =~= active_ticks((m - 1) as nat, now_ms));
        if c1.consecutive_active < MEETING_DETECTION_THRESHOLD {
            lemma_active_run(c1, f1, (m - 1) as nat, now_ms);
        } else {
            assert(m == 1);
            assert(ev.drop_first() =~= Seq::<(bool, u64)>::empty());
            assert(run_ticks(c1, f1, ev.drop_first()).1 == f1);
            assert(f1.meeting_detected);
        }
        assert(ev[0] == (true, now_ms));
        assert(run_ticks(c, f, ev).0 == run_ticks(c1, f1, ev.drop_first()).0);
        assert(run_ticks(c, f, ev).1 == run_ticks(c1, f1, ev.drop_first()).1);
        let rest = run_ticks(c1, f1, ev.drop_first()).2;
        assert(run_ticks(c, f, ev).2 == seq![a] + rest);
        assert forall|i: int| 0 <= i < m implies #[trigger] run_ticks(c, f, ev).2[i] == if c.consecutive_active
            + i + 1 == MEETING_DETECTION_THRESHOLD {
            MicTickAction::MeetingDetected
        } else {
            MicTickAction::Nothing
        } by {
            if i > 0 {
                assert(run_ticks(c, f, ev).2[i] == rest[i - 1]);
            }
        }
    } else {
        assert(ev =~= Seq::<(bool, u64)>::empty());
    }
}

/// From a fresh run past its grace period, once no dismissal's cooldown
/// runs (never dismissed, or dismissed at least `DETECTION_COOLDOWN_MS`
/// earlier, whatever the dismissal flag says), the first
/// `MEETING_DETECTION_THRESHOLD - 1` active ticks report nothing and the next
/// one reports a meeting.
pub proof fn lemma_sustained_activity_detects(c: CounterView, f: DetectionFlags, now_ms: u64)
    requires
        now_ms >= c.started_at_ms,
        now_ms - c.started_at_ms >= STARTUP_GRACE_PERIOD_MS,
        c.consecutive_active == 0,
        !f.meeting_detected,
        cooldown_expired(f, now_ms),
    ensures
        run_ticks(c, f, active_ticks(MEETING_DETECTION_THRESHOLD as nat, now_ms)).2[MEETING_DETECTION_THRESHOLD - 1]
            == MicTickAction::MeetingDetected,
        forall|i: int|
            0 <= i < MEETING_DETECTION_THRESHOLD - 1 ==> #[trigger] run_ticks(
                c,
                f,
                active_ticks(MEETING_DETECTION_THRESHOLD as nat, now_ms),
            ).2[i] == MicTickAction::Nothing,
{
    lemma_active_run(c, f, MEETING_DETECTION_THRESHOLD as nat, now_ms);
}

/// A dismissed detection fires again: once `DETECTION_COOLDOWN_MS` have
/// passed since the dismissal at `dismissed_at_ms`, a fresh run of active
/// ticks past the grace period reports a meeting on its
/// `MEETING_DETECTION_THRESHOLD`-th tick, and not before.
pub proof fn lemma_detection_refires_after_dismissal(
    c: CounterView,
    f: DetectionFlags,
    dismissed_at_ms: u64,
    now_ms: u64,
)
    requires
        now_ms >= c.started_at_ms,
        now_ms - c.started_at_ms >= STARTUP_GRACE_PERIOD_MS,
        c.consecutive_active == 0,
        f.detection_dismissed,
        !f.meeting_detected,
        f.dismiss_timestamp_ms == dismissed_at_ms,
        now_ms >= dismissed_at_ms + DETECTION_COOLDOWN_MS,
    ensures
        run_ticks(c, f, active_ticks(MEETING_DETECTION_THRESHOLD as nat, now_ms)).2[MEETING_DETECTION_THRESHOLD - 1]
            == MicTickAction::MeetingDetected,
        forall|i: int|
            0 <= i < MEETING_DETECTION_THRESHOLD - 1 ==> #[trigger] run_ticks(
                c,
                f,
                active_ticks(MEETING_DETECTION_THRESHOLD as nat, now_ms),
            ).2[i] == MicTickAction::Nothing,
        !run_ticks(c, f, active_ticks(MEETING_DETECTION_THRESHOLD as nat, now_ms)).1.detection_dismissed,
{
    lemma_active_run(c, f, MEETING_DETECTION_THRESHOLD as nat, now_ms);
}

/// Active ticks at the times `times`, in order.
pub open spec fn active_ticks_at(times: Seq<u64>) -> Seq<(bool, u64)> {
    times.map_values(|t: u64| (true, t))
}

/// Tick `i` of an active run from `c` and `f` meets the clock and count
/// conditions for a detection: no dismissal's cooldown runs at its time, and
/// it completes at least `MEETING_DETECTION_THRESHOLD` active ticks.
pub open spec fn run_ready(c: CounterView, f: DetectionFlags, times: Seq<u64>, i: int) -> bool {
    cooldown_expired(f, times[i]) && c.consecutive_active + i + 1 >= MEETING_DETECTION_THRESHOLD
}

/// Tick `i` is the first of the run that meets the conditions for a
/// detection.
pub open spec fn first_ready(c: CounterView, f: DetectionFlags, times: Seq<u64>, i: int) -> bool {
    run_ready(c, f, times, i) && forall|j: int| 0 <= j < i ==> !#[trigger] run_ready(c, f, times, j)
}

/// The run's ticks are all past the grace period and not earlier than the
/// dismissal time, and the active count has room for all of them.
pub open spec fn active_run_defined(c: CounterView, f: DetectionFlags, times: Seq<u64>) -> bool {
    &&& forall|i: int|
        0 <= i < times.len() ==> #[trigger] times[i] >= c.started_at_ms && times[i]
            - c.started_at_ms >= STARTUP_GRACE_PERIOD_MS && times[i] >= f.dismiss_timestamp_ms
    &&& c.consecutive_active + times.len() <= u32::MAX
}

/// What each tick of an active run reports: a meeting on the first tick that
/// meets the conditions for a detection, when none was detected before the
/// run; nothing on every other tick.
proof fn lemma_active_run_at(c: CounterView, f: DetectionFlags, times: Seq<u64>)
    requires
        active_run_defined(c, f, times),
    ensures
        run_ticks(c, f, active_ticks_at(times)).2.len() == times.len(),
        forall|i: int|
            0 <= i < times.len() ==> #[trigger] run_ticks(c, f, active_ticks_at(times)).2[i] == if !f.meeting_detected
                && first_ready(c, f, times, i) {
                MicTickAction::MeetingDetected
            } else {
                MicTickAction::Nothing
            },
    decreases times.len(),
{
    let ev = active_ticks_at(times);
    if times.len() == 0 {
        assert(ev =~= Seq::<(bool, u64)>::empty());
    } else {
        assert(times[0] >= c.started_at_ms);
        let (c1, f1, a) = mic_tick(c, f, true, times[0]);
        let tail = times.drop_first();
        assert(ev.drop_first() =~= active_ticks_at(tail));
        assert(ev[0] == (true, times[0]));
        assert forall|i: int| 0 <= i < tail.len() implies #[trigger] tail[i] >= c1.started_at_ms
            && tail[i] - c1.started_at_ms >= STARTUP_GRACE_PERIOD_MS && tail[i]
            >= f1.dismiss_timestamp_ms by {
            assert(tail[i] == times[i + 1]);
        }
        lemma_active_run_at(c1, f1, tail);
        let rest = run_ticks(c1, f1, active_ticks_at(tail)).2;
        assert(run_ticks(c, f, ev).2 == seq![a] + rest);
        assert(a == if !f.meeting_detected && run_ready(c, f, times, 0) {
            MicTickAction::MeetingDetected
        } else {
            MicTickAction::Nothing
        });
        assert forall|i: int| 1 <= i < times.len() implies run_ready(c1, f1, tail, i - 1)
            == run_ready(c, f, times, i) by {
            assert(tail[i - 1] == times[i]);
        }
        assert forall|i: int| 0 <= i < times.len() implies #[trigger] run_ticks(
            c,
            f,
            ev,
        ).2[i] == if !f.meeting_detected && first_ready(c, f, times, i) {
            MicTickAction::MeetingDetected
        } else {
            MicTickAction::Nothing
        } by {
            if i > 0 {
                assert(run_ticks(c, f, ev).2[i] == rest[i - 1]);
                if !f.meeting_detected && !run_ready(c, f, times, 0) {
                    assert(f1 == f);
                    assert(first_ready(c1, f1, tail, i - 1) == first_ready(c, f, times, i)) by {
                        if first_ready(c, f, times, i) {
                            assert forall|j: int| 0 <= j < i - 1 implies !#[trigger] run_ready(
                                c1,
                                f1,
                                tail,
                                j,
                            ) by {
                                assert(!run_ready(c, f, times, j + 1));
                            }
                        }
                        if first_ready(c1, f1, tail, i - 1) {
                            assert forall|j: int| 0 <= j < i implies !#[trigger] run_ready(
                                c,
                                f,
                                times,
                                j,
                            ) by {
                                if j > 0 {
                                    assert(!run_ready(c1, f1, tail, j - 1));
                                }
                            }
                        }
                    }
                } else {
                    assert(f1.meeting_detected);
                    assert(!(!f.meeting_detected && first_ready(c, f, times, i)));
                }
            }
        }
    }
}

/// A tick that meets the conditions for a detection has, at or before it,
/// a first such tick.
proof fn lemma_first_ready_exists(c: CounterView, f: DetectionFlags, times: Seq<u64>, i: int)
    requires
        0 <= i < times.len(),
        run_ready(c, f, times, i),
    ensures
        exists|k: int| 0 <= k <= i && #[trigger] first_ready(c, f, times, k),
    decreases i,
{
    if exists|j: int| 0 <= j < i && #[trigger] run_ready(c, f, times, j) {
        let j = choose|j: int| 0 <= j < i && #[trigger] run_ready(c, f, times, j);
        lemma_first_ready_exists(c, f, times, j);
    } else {
        assert(first_ready(c, f, times, i));
    }
}

/// A dismissal holds across a run of active ticks: after a dismissal at
/// time `T` (a real clock time, not 0), while monitoring runs past its grace
/// period and the microphone stays active, no tick before
/// `T + DETECTION_COOLDOWN_MS` reports anything; a meeting is reported
/// exactly on the first tick at or after the cooldown that completes at
/// least `MEETING_DETECTION_THRESHOLD` active ticks (counting the ticks held
/// during the cooldown), and every other tick reports nothing. So once the
/// cooldown has passed and the count has reached the threshold, a meeting is
/// reported on that tick or an earlier one.
pub proof fn lemma_dismissal_run(c: CounterView, f: DetectionFlags, times: Seq<u64>)
    requires
        !f.meeting_detected,
        f.detection_dismissed,
        f.dismiss_timestamp_ms > 0,
        active_run_defined(c, f, times),
    ensures
        run_ticks(c, f, active_ticks_at(times)).2.len() == times.len(),
        forall|i: int|
            0 <= i < times.len() && times[i] < f.dismiss_timestamp_ms + DETECTION_COOLDOWN_MS
                ==> #[trigger] run_ticks(c, f, active_ticks_at(times)).2[i] == MicTickAction::Nothing,
        forall|i: int|
            0 <= i < times.len() ==> (#[trigger] run_ticks(c, f, active_ticks_at(times)).2[i]
                == MicTickAction::MeetingDetected) == (times[i] >= f.dismiss_timestamp_ms
                + DETECTION_COOLDOWN_MS && c.consecutive_active + i + 1
                >= MEETING_DETECTION_THRESHOLD && forall|j: int|
                0 <= j < i ==> !#[trigger] run_ready(c, f, times, j)),
        forall|i: int|
            0 <= i < times.len() && run_ticks(c, f, active_ticks_at(times)).2[i]
                != MicTickAction::MeetingDetected ==> #[trigger] run_ticks(
                c,
                f,
                active_ticks_at(times),
            ).2[i] == MicTickAction::Nothing,
        forall|i: int|
            0 <= i < times.len() && times[i] >= f.dismiss_timestamp_ms + DETECTION_COOLDOWN_MS
                && c.consecutive_active + i + 1 >= MEETING_DETECTION_THRESHOLD ==> exists|k: int|
                0 <= k <= i && #[trigger] run_ticks(c, f, active_ticks_at(times)).2[k]
                    == MicTickAction::MeetingDetected,
{
    lemma_active_run_at(c, f, times);
    assert forall|i: int|
        0 <= i < times.len() && times[i] >= f.dismiss_timestamp_ms + DETECTION_COOLDOWN_MS
            && c.consecutive_active + i + 1 >= MEETING_DETECTION_THRESHOLD implies exists|k: int|
        0 <= k <= i && #[trigger] run_ticks(c, f, active_ticks_at(times)).2[k]
            == MicTickAction::MeetingDetected by {
        assert(run_ready(c, f, times, i));
        lemma_first_ready_exists(c, f, times, i);
        let k = choose|k: int| 0 <= k <= i && #[trigger] first_ready(c, f, times, k);
        assert(run_ticks(c, f, active_ticks_at(times)).2[k] == MicTickAction::MeetingDetected);
    }
}

/// After the grace period an active tick counts one more active tick and
/// clears the run of silent ticks; a silent tick counts one more silent tick
/// and clears the run of active ticks.
pub proof fn lemma_tick_counts(c: CounterView, f: DetectionFlags, is_active: bool, now_ms: u64)
    requires
        now_ms >= c.started_at_ms,
        now_ms - c.started_at_ms >= STARTUP_GRACE_PERIOD_MS,
        c.consecutive_active < u32::MAX,
        c.consecutive_silent < u32::MAX,
    ensures
        is_active ==> mic_tick(c, f, is_active, now_ms).0.consecutive_silent == 0
            && mic_tick(c, f, is_active, now_ms).0.consecutive_active == c.consecutive_active + 1,
        !is_active ==> mic_tick(c, f, is_active, now_ms).0.consecutive_active == 0
            && mic_tick(c, f, is_active, now_ms).0.consecutive_silent == c.consecutive_silent + 1,
        mic_tick(c, f, is_active, now_ms).0.started_at_ms == c.started_at_ms,
        is_active ==> mic_tick(c, f, is_active, now_ms).2 != MicTickAction::MeetingStopped,
        !is_active ==> mic_tick(c, f, is_active, now_ms).2 != MicTickAction::MeetingDetected,
{
}

/// The number of ticks at the end of `events` whose activity is `active`.
pub open spec fn trailing_ticks(events: Seq<(bool, u64)>, active: bool) -> nat
    decreases events.len(),
{
    if events.len() == 0 || events.last().0 != active {
        0
    } else {
        1 + trailing_ticks(events.drop_last(), active)
    }
}

/// The ticks `s` then the ticks `t`: the state after `t` from the state
/// after `s`, and the reports of `s` then those of `t`.
proof fn lemma_run_ticks_append(
    c: CounterView,
    f: DetectionFlags,
    s: Seq<(bool, u64)>,
    t: Seq<(bool, u64)>,
)
    ensures
        run_ticks(c, f, s + t).0 == run_ticks(run_ticks(c, f, s).0, run_ticks(c, f, s).1, t).0,
        run_ticks(c, f, s + t).1 == run_ticks(run_ticks(c, f, s).0, run_ticks(c, f, s).1, t).1,
        run_ticks(c, f, s + t).2 == run_ticks(c, f, s).2 + run_ticks(
            run_ticks(c, f, s).0,
            run_ticks(c, f, s).1,
            t,
        ).2,
        run_ticks(c, f, s).2.len() == s.len(),
    decreases s.len(),
{
    if s.len() == 0 {
        assert(s + t =~= t);
        assert(run_ticks(c, f, s).2 =~= Seq::<MicTickAction>::empty());
    } else {
        let (c1, f1, a) = mic_tick(c, f, s[0].0, s[0].1);
        assert((s + t)[0] == s[0]);
        assert((s + t).drop_first() =~= s.drop_first() + t);
        lemma_run_ticks_append(c1, f1, s.drop_first(), t);
        let rs = run_ticks(c1, f1, s.drop_first());
        let rt = run_ticks(rs.0, rs.1, t);
        assert(seq![a] + (rs.2 + rt.2) =~= (seq![a] + rs.2) + rt.2);
    }
}

/// A run that starts with no active and no silent ticks counted holds no
/// more active (silent) ticks than the active (silent) ticks that end it.
proof fn lemma_counts_trail(c: CounterView, f: DetectionFlags, events: Seq<(bool, u64)>)
    requires
        c.consecutive_active == 0,
        c.consecutive_silent == 0,
        events.len() < u32::MAX,
    ensures
        run_ticks(c, f, events).0.consecutive_silent <= trailing_ticks(events, false),
        run_ticks(c, f, events).0.consecutive_active <= trailing_ticks(events, true),
        trailing_ticks(events, false) <= events.len(),
        trailing_ticks(events, true) <= events.len(),
    decreases events.len(),
{
    if events.len() > 0 {
        let s = events.drop_last();
        let e = events.last();
        assert(s + seq![e] =~= events);
        lemma_counts_trail(c, f, s);
        lemma_run_ticks_append(c, f, s, seq![e]);
        let st = run_ticks(c, f, s);
        let (c1, f1, a) = mic_tick(st.0, st.1, e.0, e.1);
        assert(seq![e][0] == e);
        assert(seq![e].drop_first() =~= Seq::<(bool, u64)>::empty());
        assert(run_ticks(c1, f1, seq![e].drop_first()).0 == c1);
        assert(run_ticks(st.0, st.1, seq![e]).0 == c1);
        assert(run_ticks(c, f, events).0 == c1);
    }
}

/// The last `m` ticks of `events` have activity `active` when at least `m`
/// such ticks end it.
proof fn lemma_trailing_ticks(events: Seq<(bool, u64)>, active: bool, m: nat)
    requires
        m <= trailing_ticks(events, active),
    ensures
        m <= events.len(),
        forall|j: int| events.len() - m <= j < events.len() ==> (#[trigger] events[j]).0 == active,
    decreases events.len(),
{
    if m > 0 {
        let s = events.drop_last();
        lemma_trailing_ticks(s, active, (m - 1) as nat);
        assert forall|j: int| events.len() - m <= j < events.len() implies (
        #[trigger] events[j]).0 == active by {
            if j < events.len() - 1 {
                assert(events[j] == s[j]);
            }
        }
    }
}

/// The report of tick `i` of a run is what that tick gives from the state
/// the earlier ticks left.
proof fn lemma_run_tick_at(c: CounterView, f: DetectionFlags, events: Seq<(bool, u64)>, i: int)
    requires
        0 <= i < events.len(),
    ensures
        run_ticks(c, f, events).2[i] == mic_tick(
            run_ticks(c, f, events.take(i)).0,
            run_ticks(c, f, events.take(i)).1,
            events[i].0,
            events[i].1,
        ).2,
{
    let pre = events.take(i);
    let post = events.skip(i);
    assert(pre + post =~= events);
    lemma_run_ticks_append(c, f, pre, post);
    let st = run_ticks(c, f, pre);
    assert(post[0] == events[i]);
    let (c1, f1, a) = mic_tick(st.0, st.1, post[0].0, post[0].1);
    assert(run_ticks(st.0, st.1, post).2[0] == a);
}

/// The end of a meeting needs unbroken silence: in a run of ticks from
/// fresh counters, a tick that reports the meeting stopped is silent and is
/// preceded by at least `MEETING_ENDED_THRESHOLD - 1` silent ticks, with no
/// active tick between them; a single active tick starts the count over.
pub proof fn lemma_stop_needs_unbroken_silence(
    c: CounterView,
    f: DetectionFlags,
    events: Seq<(bool, u64)>,
    i: int,
)
    requires
        c.consecutive_active == 0,
        c.consecutive_silent == 0,
        events.len() < u32::MAX,
        0 <= i < events.len(),
        run_ticks(c, f, events).2[i] == MicTickAction::MeetingStopped,
    ensures
        i + 1 >= MEETING_ENDED_THRESHOLD,
        forall|j: int| i + 1 - MEETING_ENDED_THRESHOLD <= j <= i ==> !(#[trigger] events[j]).0,
{
    let pre = events.take(i);
    lemma_run_tick_at(c, f, events, i);
    lemma_counts_trail(c, f, pre);
    let st = run_ticks(c, f, pre);
    assert(!events[i].0);
    assert(st.0.consecutive_silent + 1 >= MEETING_ENDED_THRESHOLD);
    lemma_trailing_ticks(pre, false, (MEETING_ENDED_THRESHOLD - 1) as nat);
    assert forall|j: int| i + 1 - MEETING_ENDED_THRESHOLD <= j <= i implies !(
    #[trigger] events[j]).0 by {
        if j < i {
            assert(events[j] == pre[j]);
        }
    }
}

/// A meeting needs unbroken activity: in a run of ticks from fresh
/// counters, a tick that reports a meeting is active and is preceded by at
/// least `MEETING_DETECTION_THRESHOLD - 1` active ticks, with no silent
/// tick between them; a single silent tick starts the count over.
pub proof fn lemma_detection_needs_unbroken_activity(
    c: CounterView,
    f: DetectionFlags,
    events: Seq<(bool, u64)>,
    i: int,
)
    requires
        c.consecutive_active == 0,
        c.consecutive_silent == 0,
        events.len() < u32::MAX,
        0 <= i < events.len(),
        run_ticks(c, f, events).2[i] == MicTickAction::MeetingDetected,
    ensures
        i + 1 >= MEETING_DETECTION_THRESHOLD,
        forall|j: int| i + 1 - MEETING_DETECTION_THRESHOLD <= j <= i ==> (#[trigger] events[j]).0,
{
    let pre = events.take(i);
    lemma_run_tick_at(c, f, events, i);
    lemma_counts_trail(c, f, pre);
    let st = run_ticks(c, f, pre);
    assert(events[i].0);
    assert(st.0.consecutive_active + 1 >= MEETING_DETECTION_THRESHOLD);
    lemma_trailing_ticks(pre, true, (MEETING_DETECTION_THRESHOLD - 1) as nat);
    assert forall|j: int| i + 1 - MEETING_DETECTION_THRESHOLD <= j <= i implies (
    #[trigger] events[j]).0 by {
        if j < i {
            assert(events[j] == pre[j]);
        }
    }
}

} // verus!
