//! System-audio (meeting app) detection.
//!
//! The platform listeners and process enumeration run outside this module;
//! here are the decisions they drive: which process names are meeting apps
//! and how they are displayed, the debounce of the macOS "device is running"
//! signal, and the polling state machine that turns successive snapshots of
//! running meeting apps into start/stop events.
use vstd::prelude::*;

use crate::decimal::{decimal_text, u64_to_decimal};
use crate::text::{concat, contains, seq_contains, str_eq, str_to_lowercase, to_lowercase};

verus! {

/// Event types for system audio detection.
#[derive(Debug, Clone)]
pub enum SystemAudioEvent {
    /// Meeting apps started using system audio (the apps' display names).
    SystemAudioStarted(Vec<String>),
    /// System audio use stopped.
    SystemAudioStopped,
}

/// A callback that receives system audio events.
pub struct SystemAudioCallback<F> {
    pub handler: F,
}

/// Wraps `f` as a system audio callback.
pub fn new_system_audio_callback<F: Fn(SystemAudioEvent)>(f: F) -> (r: SystemAudioCallback<F>)
    ensures
        r.handler == f,
{
    SystemAudioCallback { handler: f }
}

/// The detector used on platforms without system audio detection: starting and
/// stopping it have no effect.
pub struct PlatformSystemAudioDetector;

impl PlatformSystemAudioDetector {
    /// Creates the detector.
    pub fn new() -> (r: Self) {
        PlatformSystemAudioDetector
    }

    /// System audio detection is not supported here; the callback is never invoked.
    pub fn start<F: Fn(SystemAudioEvent)>(&mut self, _callback: SystemAudioCallback<F>) {
    }

    /// Nothing runs, so nothing is stopped.
    pub fn stop(&mut self) {
    }
}

// ─── Process names ──────────────────────────────────────────────────────────

/// Executable-name fragments of known meeting / communication applications
/// (lowercase). Of the browsers, which are almost always running, only
/// Chrome is listed.
pub open spec fn meeting_executables() -> Seq<Seq<char>> {
    seq![
        "teams.exe"@,
        "ms-teams.exe"@,
        "zoom.exe"@,
        "webex.exe"@,
        "ciscowebex.exe"@,
        "slack.exe"@,
        "discord.exe"@,
        "skype.exe"@,
        "facetime"@,
        "googlemeetdesktop.exe"@,
        "chrome.exe"@,
    ]
}

/// The (lowercase) executable name `exe` contains a known meeting executable name.
pub open spec fn spec_is_meeting_app(exe: Seq<char>) -> bool {
    exists|i: int| 0 <= i < meeting_executables().len() && seq_contains(exe, #[trigger] meeting_executables()[i])
}

/// Whether the lowercase executable name `exe_lower` is a known meeting app.
pub fn is_meeting_app(exe_lower: &str) -> (r: bool)
    ensures
        r == spec_is_meeting_app(exe_lower@),
{
    let names: [&str; 11] = [
        "teams.exe",
        "ms-teams.exe",
        "zoom.exe",
        "webex.exe",
        "ciscowebex.exe",
        "slack.exe",
        "discord.exe",
        "skype.exe",
        "facetime",
        "googlemeetdesktop.exe",
        "chrome.exe",
    ];
    let ghost table = meeting_executables();
    assert(forall|k: int| 0 <= k < 11 ==> #[trigger] names@[k]@ == table[k]);
    let mut i: usize = 0;
    while i < 11
        invariant
            i <= 11,
            table == meeting_executables(),
            forall|k: int| 0 <= k < 11 ==> #[trigger] names@[k]@ == table[k],
            forall|k: int| 0 <= k < i ==> !seq_contains(exe_lower@, #[trigger] table[k]),
        decreases 11 - i,
    {
        if contains(exe_lower, names[i]) {
            assert(seq_contains(exe_lower@, table[i as int]));
            return true;
        }
        i = i + 1;
    }
    false
}

/// The known meeting apps: a lowercase executable name is a meeting app
/// exactly when it contains the executable name of Microsoft Teams (classic
/// or new), Zoom, Webex, Slack, Discord, Skype, FaceTime, the Google Meet
/// desktop app or Chrome.
pub proof fn lemma_known_meeting_apps(exe: Seq<char>)
    ensures
        spec_is_meeting_app(exe) <==> (seq_contains(exe, "teams.exe"@) || seq_contains(
            exe,
            "ms-teams.exe"@,
        ) || seq_contains(exe, "zoom.exe"@) || seq_contains(exe, "webex.exe"@) || seq_contains(
            exe,
            "ciscowebex.exe"@,
        ) || seq_contains(exe, "slack.exe"@) || seq_contains(exe, "discord.exe"@)
            || seq_contains(exe, "skype.exe"@) || seq_contains(exe, "facetime"@) || seq_contains(
            exe,
            "googlemeetdesktop.exe"@,
        ) || seq_contains(exe, "chrome.exe"@)),
{
    let t = meeting_executables();
    assert(t[0] == "teams.exe"@);
    assert(t[1] == "ms-teams.exe"@);
    assert(t[2] == "zoom.exe"@);
    assert(t[3] == "webex.exe"@);
    assert(t[4] == "ciscowebex.exe"@);
    assert(t[5] == "slack.exe"@);
    assert(t[6] == "discord.exe"@);
    assert(t[7] == "skype.exe"@);
    assert(t[8] == "facetime"@);
    assert(t[9] == "googlemeetdesktop.exe"@);
    assert(t[10] == "chrome.exe"@);
    assert(t.len() == 11);
    if spec_is_meeting_app(exe) {
        let i = choose|i: int| 0 <= i < t.len() && seq_contains(exe, #[trigger] t[i]);
        assert(0 <= i < 11);
    }
}

/// The display name of executable `exe` whose lowercase form is `lower`.
pub open spec fn friendly_name_for(lower: Seq<char>, exe: Seq<char>) -> Seq<char> {
    if lower == "teams.exe"@ || lower == "ms-teams.exe"@ {
        "Microsoft Teams"@
    } else if lower == "zoom.exe"@ {
        "Zoom"@
    } else if lower == "webex.exe"@ || lower == "ciscowebex.exe"@ {
        "Webex"@
    } else if lower == "slack.exe"@ {
        "Slack"@
    } else if lower == "discord.exe"@ {
        "Discord"@
    } else if lower == "skype.exe"@ {
        "Skype"@
    } else if lower == "chrome.exe"@ {
        "Google Chrome"@
    } else if lower == "msedge.exe"@ {
        "Microsoft Edge"@
    } else if lower == "firefox.exe"@ {
        "Firefox"@
    } else if lower == "brave.exe"@ {
        "Brave Browser"@
    } else if lower == "opera.exe"@ {
        "Opera"@
    } else if lower == "arc.exe"@ {
        "Arc"@
    } else {
        exe
    }
}

/// The display name of executable `exe`, given its lowercase form `lower`:
/// a known application's name, or `exe` itself.
pub fn friendly_name_of_lowercase<'a>(lower: &str, exe: &'a str) -> (r: &'a str)
    ensures
        r@ == friendly_name_for(lower@, exe@),
{
    if str_eq(lower, "teams.exe") || str_eq(lower, "ms-teams.exe") {
        "Microsoft Teams"
    } else if str_eq(lower, "zoom.exe") {
        "Zoom"
    } else if str_eq(lower, "webex.exe") || str_eq(lower, "ciscowebex.exe") {
        "Webex"
    } else if str_eq(lower, "slack.exe") {
        "Slack"
    } else if str_eq(lower, "discord.exe") {
        "Discord"
    } else if str_eq(lower, "skype.exe") {
        "Skype"
    } else if str_eq(lower, "chrome.exe") {
        "Google Chrome"
    } else if str_eq(lower, "msedge.exe") {
        "Microsoft Edge"
    } else if str_eq(lower, "firefox.exe") {
        "Firefox"
    } else if str_eq(lower, "brave.exe") {
        "Brave Browser"
    } else if str_eq(lower, "opera.exe") {
        "Opera"
    } else if str_eq(lower, "arc.exe") {
        "Arc"
    } else {
        exe
    }
}

/// The display name of executable `exe` (matched case-insensitively).
pub fn friendly_name<'a>(exe: &'a str) -> (r: &'a str)
    ensures
        r@ == friendly_name_for(str_to_lowercase(exe@), exe@),
{
    let lower = to_lowercase(exe);
    friendly_name_of_lowercase(lower.as_str(), exe)
}

/// The characters of each string of `v`.
pub open spec fn names_of(v: Seq<String>) -> Seq<Seq<char>> {
    v.map_values(|s: String| s@)
}

/// The fold behind `meeting_apps_from_processes` over the first `n` process
/// names: the lowercase names already taken, and the display names produced.
pub open spec fn meeting_apps_fold(names: Seq<Seq<char>>, n: nat) -> (Seq<Seq<char>>, Seq<
    Seq<char>,
>)
    decreases n,
{
    if n == 0 || n > names.len() {
        (Seq::empty(), Seq::empty())
    } else {
        let (seen, out) = meeting_apps_fold(names, (n - 1) as nat);
        let lower = str_to_lowercase(names[n - 1]);
        if spec_is_meeting_app(lower) && !seen.contains(lower) {
            (seen.push(lower), out.push(friendly_name_for(str_to_lowercase(lower), lower)))
        } else {
            (seen, out)
        }
    }
}

/// The display names of the meeting apps among running process names: each
/// process name is lowercased, kept if it is a meeting app not seen before
/// (by lowercase name), and mapped to its display name, in process order.
pub open spec fn spec_meeting_apps(names: Seq<Seq<char>>) -> Seq<Seq<char>> {
    meeting_apps_fold(names, names.len()).1
}

/// Whether `v` holds a string equal to `s`.
pub fn contains_string(v: &Vec<String>, s: &str) -> (r: bool)
    ensures
        r == names_of(v@).contains(s@),
{
    let mut i: usize = 0;
    while i < v.len()
        invariant
            i <= v.len(),
            forall|k: int| 0 <= k < i ==> #[trigger] v@[k]@ != s@,
        decreases v.len() - i,
    {
        if str_eq(v[i].as_str(), s) {
            assert(names_of(v@)[i as int] == s@);
            return true;
        }
        i = i + 1;
    }
    assert forall|k: int| 0 <= k < names_of(v@).len() implies #[trigger] names_of(v@)[k] != s@ by {
        assert(names_of(v@)[k] == v@[k]@);
    }
    false
}

/// The display names of the meeting apps among the running processes' names.
pub fn meeting_apps_from_processes(process_names: &Vec<String>) -> (r: Vec<String>)
    ensures
        names_of(r@) == spec_meeting_apps(names_of(process_names@)),
{
    let ghost names = names_of(process_names@);
    let mut seen: Vec<String> = Vec::new();
    let mut out: Vec<String> = Vec::new();
    let mut i: usize = 0;
    while i < process_names.len()
        invariant
            i <= process_names.len(),
            names == names_of(process_names@),
            (names_of(seen@), names_of(out@)) == meeting_apps_fold(names, i as nat),
        decreases process_names.len() - i,
    {
        let lower = to_lowercase(process_names[i].as_str());
        assert(names[i as int] == process_names@[i as int]@);
        if is_meeting_app(lower.as_str()) && !contains_string(&seen, lower.as_str()) {
            let display = crate::text::owned(friendly_name(lower.as_str()));
            proof {
                assert(names_of(seen@.push(lower)) =~= names_of(seen@).push(lower@));
                assert(names_of(out@.push(display)) =~= names_of(out@).push(display@));
            }
            seen.push(lower);
            out.push(display);
        }
        i = i + 1;
    }
    out
}

// ─── Debounce of the "device is running somewhere" signal ───────────────────

/// Debounce state of the system-audio signal: a change is reported only when
/// it differs from the last reported state and at least `debounce_ms` have
/// passed since the last reported change.
pub struct DetectorState {
    pub last_state: bool,
    pub last_change_ms: u64,
    pub debounce_ms: u64,
}

impl DetectorState {
    /// A state that last reported "inactive" at `now_ms`, debouncing over 500 ms.
    pub fn new(now_ms: u64) -> (r: Self)
        ensures
            r.last_state == false,
            r.last_change_ms == now_ms,
            r.debounce_ms == 500,
    {
        DetectorState { last_state: false, last_change_ms: now_ms, debounce_ms: 500 }
    }

    /// The time since the last reported change, zero when `now_ms` is earlier.
    pub open spec fn elapsed(self, now_ms: u64) -> int {
        if now_ms >= self.last_change_ms {
            now_ms - self.last_change_ms
        } else {
            0
        }
    }

    /// Whether the signal's new value `new_state` at `now_ms` is reported as a change.
    pub open spec fn spec_should_trigger(self, new_state: bool, now_ms: u64) -> bool {
        new_state != self.last_state && self.elapsed(now_ms) >= self.debounce_ms
    }

    /// Reports whether `new_state` observed at `now_ms` is a change to act on,
    /// and records it as the last reported change when it is.
    pub fn should_trigger(&mut self, new_state: bool, now_ms: u64) -> (r: bool)
        ensures
            r == old(self).spec_should_trigger(new_state, now_ms),
            r ==> final(self).last_state == new_state && final(self).last_change_ms == now_ms,
            !r ==> final(self).last_state == old(self).last_state && final(self).last_change_ms
                == old(self).last_change_ms,
            final(self).debounce_ms == old(self).debounce_ms,
    {
        if new_state == self.last_state {
            return false;
        }
        let elapsed = now_ms.saturating_sub(self.last_change_ms);
        if elapsed < self.debounce_ms {
            return false;
        }
        self.last_state = new_state;
        self.last_change_ms = now_ms;
        true
    }
}

/// Which signal of the output device was observed.
#[derive(Debug, Clone, Copy, PartialEq, Eq, Structural)]
pub enum DeviceSignal {
    /// The default output device's "running somewhere" property changed.
    RunningChanged,
    /// The default output device was replaced by another one.
    DefaultDeviceChanged,
}

/// What an observed device signal leads to.
#[derive(Debug, Clone, Copy, PartialEq, Eq, Structural)]
pub enum DeviceAction {
    /// List the apps using system audio and report that it started.
    ReportStarted,
    /// Report that system audio stopped.
    ReportStopped,
    /// Nothing to report.
    Nothing,
}

/// The action for the device signal `signal` showing the device `active` at
/// `now_ms`: a debounced change to active is reported as a start; a change
/// to inactive is reported as a stop only when the running state itself
/// changed (a device switch reports starts only).
pub open spec fn spec_device_action(
    s: DetectorState,
    active: bool,
    now_ms: u64,
    signal: DeviceSignal,
) -> DeviceAction {
    if s.spec_should_trigger(active, now_ms) {
        if active {
            DeviceAction::ReportStarted
        } else if signal == DeviceSignal::RunningChanged {
            DeviceAction::ReportStopped
        } else {
            DeviceAction::Nothing
        }
    } else {
        DeviceAction::Nothing
    }
}

impl DetectorState {
    /// Records the device's running state when the listener is installed,
    /// without reporting anything.
    pub fn set_initial_state(&mut self, active: bool)
        ensures
            final(self).last_state == active,
            final(self).last_change_ms == old(self).last_change_ms,
            final(self).debounce_ms == old(self).debounce_ms,
    {
        self.last_state = active;
    }

    /// Handles a device signal (see `spec_device_action`); a debounced change
    /// is recorded whether or not it is reported.
    pub fn on_device_signal(&mut self, active: bool, now_ms: u64, signal: DeviceSignal) -> (r:
        DeviceAction)
        ensures
            r == spec_device_action(*old(self), active, now_ms, signal),
            old(self).spec_should_trigger(active, now_ms) ==> final(self).last_state == active
                && final(self).last_change_ms == now_ms,
            !old(self).spec_should_trigger(active, now_ms) ==> *final(self) == *old(self),
    {
        if self.should_trigger(active, now_ms) {
            if active {
                DeviceAction::ReportStarted
            } else if signal == DeviceSignal::RunningChanged {
                DeviceAction::ReportStopped
            } else {
                DeviceAction::Nothing
            }
        } else {
            DeviceAction::Nothing
        }
    }
}

/// The text of a signed integer.
pub open spec fn signed_text(i: int) -> Seq<char> {
    if i < 0 {
        "-"@ + decimal_text((-i) as nat)
    } else {
        decimal_text(i as nat)
    }
}

/// The name shown for an app using system audio: its localized name, or
/// `Process <pid>` when it has none.
pub fn audio_app_name(localized_name: Option<String>, pid: i32) -> (r: String)
    ensures
        r@ == match localized_name {
            Some(n) => n@,
            None => "Process "@ + signed_text(pid as int),
        },
{
    match localized_name {
        Some(n) => n,
        None => {
            let digits = if pid < 0 {
                let magnitude = (0i64 - pid as i64) as u64;
                let d = u64_to_decimal(magnitude);
                concat("-", d.as_str())
            } else {
                u64_to_decimal(pid as u64)
            };
            let r = concat("Process ", digits.as_str());
            assert(r@ =~= "Process "@ + signed_text(pid as int));
            r
        },
    }
}

// ─── Polling state machine (process snapshots) ──────────────────────────────

/// Polling interval between snapshots, in milliseconds.
pub const POLL_INTERVAL_MS: u64 = 1500;

/// Consecutive snapshots without meeting apps before a meeting counts as stopped.
pub const STOP_DEBOUNCE_COUNT: u32 = 3;

/// Start-up period during which snapshots only set the baseline, in milliseconds.
pub const STARTUP_GRACE_PERIOD_MS: u64 = 15_000;

/// What one snapshot causes.
#[derive(Debug, Clone, Copy, PartialEq, Eq, Structural)]
pub enum PollAction {
    Nothing,
    Started,
    Stopped,
}

/// The mathematical state of the poller.
pub struct PollerView {
    pub previous: Seq<Seq<char>>,
    pub meeting_was_active: bool,
    pub consecutive_silent: u32,
    pub grace_period_ended: bool,
}

/// Some app of `current` is not in `previous`.
pub open spec fn has_new_app(current: Seq<Seq<char>>, previous: Seq<Seq<char>>) -> bool {
    exists|i: int| 0 <= i < current.len() && !previous.contains(#[trigger] current[i])
}

/// One snapshot `current` taken `elapsed_ms` after the poller started.
pub open spec fn poll_step(s: PollerView, current: Seq<Seq<char>>, elapsed_ms: u64) -> (
    PollerView,
    PollAction,
) {
    if !s.grace_period_ended {
        if elapsed_ms < STARTUP_GRACE_PERIOD_MS {
            (PollerView { previous: current, ..s }, PollAction::Nothing)
        } else {
            (PollerView { previous: current, grace_period_ended: true, ..s }, PollAction::Nothing)
        }
    } else if current.len() > 0 {
        if has_new_app(current, s.previous) {
            (
                PollerView {
                    previous: current,
                    meeting_was_active: true,
                    consecutive_silent: 0,
                    grace_period_ended: true,
                },
                PollAction::Started,
            )
        } else {
            (PollerView { previous: current, consecutive_silent: 0, ..s }, PollAction::Nothing)
        }
    } else if s.meeting_was_active {
        if s.consecutive_silent + 1 >= STOP_DEBOUNCE_COUNT {
            (
                PollerView {
                    previous: current,
                    meeting_was_active: false,
                    consecutive_silent: 0,
                    grace_period_ended: true,
                },
                PollAction::Stopped,
            )
        } else {
            (
                PollerView {
                    previous: current,
                    consecutive_silent: (s.consecutive_silent + 1) as u32,
                    ..s
                },
                PollAction::Nothing,
            )
        }
    } else {
        (PollerView { previous: current, ..s }, PollAction::Nothing)
    }
}

/// Turns successive snapshots of running meeting apps into start/stop events.
pub struct MeetingAppPoller {
    previous_apps: Vec<String>,
    meeting_was_active: bool,
    consecutive_silent: u32,
    grace_period_ended: bool,
}

impl View for MeetingAppPoller {
    type V = PollerView;

    closed spec fn view(&self) -> PollerView {
        PollerView {
            previous: names_of(self.previous_apps@),
            meeting_was_active: self.meeting_was_active,
            consecutive_silent: self.consecutive_silent,
            grace_period_ended: self.grace_period_ended,
        }
    }
}

/// `apps` lists, without repetition, exactly the names of `current`.
pub open spec fn lists_each_once(apps: Seq<Seq<char>>, current: Seq<Seq<char>>) -> bool {
    &&& apps.no_duplicates()
    &&& forall|x: Seq<char>| apps.contains(x) <==> current.contains(x)
}

impl MeetingAppPoller {
    #[verifier::type_invariant]
    closed spec fn silent_bounded(self) -> bool {
        self.consecutive_silent < STOP_DEBOUNCE_COUNT
    }

    /// A poller that has seen nothing and is in its start-up period.
    pub fn new() -> (r: Self)
        ensures
            r@.previous == Seq::<Seq<char>>::empty(),
            !r@.meeting_was_active,
            r@.consecutive_silent == 0,
            !r@.grace_period_ended,
    {
        let r = MeetingAppPoller {
            previous_apps: Vec::new(),
            meeting_was_active: false,
            consecutive_silent: 0,
            grace_period_ended: false,
        };
        assert(names_of(r.previous_apps@) =~= Seq::<Seq<char>>::empty());
        r
    }

    /// Takes the snapshot `current_apps` (display names of running meeting apps)
    /// made `elapsed_ms` after the poller started, and returns the event it causes.
    pub fn tick(&mut self, current_apps: Vec<String>, elapsed_ms: u64) -> (r: Option<
        SystemAudioEvent,
    >)
        ensures
            (final(self)@, match r {
                None => PollAction::Nothing,
                Some(SystemAudioEvent::SystemAudioStarted(_)) => PollAction::Started,
                Some(SystemAudioEvent::SystemAudioStopped) => PollAction::Stopped,
            }) == poll_step(old(self)@, names_of(current_apps@), elapsed_ms),
            r matches Some(SystemAudioEvent::SystemAudioStarted(apps)) ==> lists_each_once(
                names_of(apps@),
                names_of(current_apps@),
            ),
            final(self)@.consecutive_silent < STOP_DEBOUNCE_COUNT,
    {
        proof {
            use_type_invariant(&*self);
        }
        let ghost current = names_of(current_apps@);
        let mut event: Option<SystemAudioEvent> = None;
        if !self.grace_period_ended {
            if elapsed_ms >= STARTUP_GRACE_PERIOD_MS {
                self.grace_period_ended = true;
            }
        } else if current_apps.len() > 0 {
            self.consecutive_silent = 0;
            if has_app_not_in(&current_apps, &self.previous_apps) {
                let apps = distinct_strings(&current_apps);
                event = Some(SystemAudioEvent::SystemAudioStarted(apps));
                self.meeting_was_active = true;
            }
        } else if self.meeting_was_active {
            if self.consecutive_silent + 1 >= STOP_DEBOUNCE_COUNT {
                event = Some(SystemAudioEvent::SystemAudioStopped);
                self.meeting_was_active = false;
                self.consecutive_silent = 0;
            } else {
                self.consecutive_silent = self.consecutive_silent + 1;
            }
        }
        self.previous_apps = current_apps;
        proof {
            use_type_invariant(&*self);
        }
        event
    }
}

/// Whether some string of `current` is not in `previous`.
fn has_app_not_in(current: &Vec<String>, previous: &Vec<String>) -> (r: bool)
    ensures
        r == has_new_app(names_of(current@), names_of(previous@)),
{
    let ghost cur = names_of(current@);
    let mut i: usize = 0;
    while i < current.len()
        invariant
            i <= current.len(),
            cur == names_of(current@),
            forall|k: int| 0 <= k < i ==> names_of(previous@).contains(#[trigger] cur[k]),
        decreases current.len() - i,
    {
        assert(cur[i as int] == current@[i as int]@);
        if !contains_string(previous, current[i].as_str()) {
            return true;
        }
        i = i + 1;
    }
    false
}

/// The strings of `v` without repetition, in first-occurrence order.
fn distinct_strings(v: &Vec<String>) -> (r: Vec<String>)
    ensures
        lists_each_once(names_of(r@), names_of(v@)),
{
    let ghost vn = names_of(v@);
    let mut r: Vec<String> = Vec::new();
    let mut i: usize = 0;
    while i < v.len()
        invariant
            i <= v.len(),
            vn == names_of(v@),
            names_of(r@).no_duplicates(),
            forall|x: Seq<char>| names_of(r@).contains(x) <==> vn.take(i as int).contains(x),
        decreases v.len() - i,
    {
        let ghost before = names_of(r@);
        assert(vn[i as int] == v@[i as int]@);
        assert(vn.take(i + 1) =~= vn.take(i as int).push(vn[i as int]));
        if !contains_string(&r, v[i].as_str()) {
            let s = crate::text::owned(v[i].as_str());
            proof {
                assert(names_of(r@.push(s)) =~= before.push(s@));
                assert forall|x: Seq<char>| before.push(s@).contains(x) <==> vn.take(i + 1).contains(x) by {
                    if before.push(s@).contains(x) {
                        let k = choose|k: int| 0 <= k < before.push(s@).len() && #[trigger] before.push(s@)[k] == x;
                        if k < before.len() {
                            assert(before.contains(x));
                            let m = choose|m: int| 0 <= m < i && #[trigger] vn.take(i as int)[m] == x;
                            assert(vn.take(i + 1)[m] == x);
                        } else {
                            assert(vn.take(i + 1)[i as int] == x);
                        }
                    }
                    if vn.take(i + 1).contains(x) {
                        let k = choose|k: int| 0 <= k <= i && #[trigger] vn.take(i + 1)[k] == x;
                        if k < i {
                            assert(vn.take(i as int)[k] == x);
                            assert(before.contains(x));
                            let m = choose|m: int| 0 <= m < before.len() && #[trigger] before[m] == x;
                            assert(before.push(s@)[m] == x);
                        } else {
                            assert(before.push(s@)[before.len() as int] == x);
                        }
                    }
                }
            }
            r.push(s);
        } else {
            proof {
                assert forall|x: Seq<char>| before.contains(x) <==> vn.take(i + 1).contains(x) by {
                    if before.contains(x) {
                        let m = choose|m: int| 0 <= m < i && #[trigger] vn.take(i as int)[m] == x;
                        assert(vn.take(i + 1)[m] == x);
                    }
                    if vn.take(i + 1).contains(x) {
                        let k = choose|k: int| 0 <= k <= i && #[trigger] vn.take(i + 1)[k] == x;
                        if k < i {
                            assert(vn.take(i as int)[k] == x);
                        }
                    }
                }
            }
        }
        i = i + 1;
    }
    assert(vn.take(v.len() as int) =~= vn);
    r
}

// ─── Laws of the poller ─────────────────────────────────────────────────────

/// Before the grace period has ended, a snapshot only becomes the baseline:
/// no event is reported.
pub proof fn lemma_poll_grace_reports_nothing(s: PollerView, current: Seq<Seq<char>>, elapsed_ms: u64)
    requires
        !s.grace_period_ended,
    ensures
        poll_step(s, current, elapsed_ms).1 == PollAction::Nothing,
        poll_step(s, current, elapsed_ms).0.previous == current,
        poll_step(s, current, elapsed_ms).0.grace_period_ended == (elapsed_ms
            >= STARTUP_GRACE_PERIOD_MS),
{
}

/// A start is reported only after the grace period, for a snapshot holding
/// an app that the previous snapshot did not hold.
pub proof fn lemma_poll_start_needs_new_app(s: PollerView, current: Seq<Seq<char>>, elapsed_ms: u64)
    requires
        poll_step(s, current, elapsed_ms).1 == PollAction::Started,
    ensures
        s.grace_period_ended,
        current.len() > 0,
        has_new_app(current, s.previous),
        poll_step(s, current, elapsed_ms).0.meeting_was_active,
{
}

/// A stop is reported only for an empty snapshot after a reported start, once
/// the silent snapshots reach `STOP_DEBOUNCE_COUNT`.
pub proof fn lemma_poll_stop_needs_silence(s: PollerView, current: Seq<Seq<char>>, elapsed_ms: u64)
    requires
        poll_step(s, current, elapsed_ms).1 == PollAction::Stopped,
    ensures
        s.grace_period_ended,
        current.len() == 0,
        s.meeting_was_active,
        s.consecutive_silent + 1 >= STOP_DEBOUNCE_COUNT,
        !poll_step(s, current, elapsed_ms).0.meeting_was_active,
{
}

/// After a start, three consecutive empty snapshots report nothing, nothing,
/// then a stop.
pub proof fn lemma_three_empty_polls_stop(s: PollerView, t1: u64, t2: u64, t3: u64)
    requires
        s.grace_period_ended,
        s.meeting_was_active,
        s.consecutive_silent == 0,
    ensures
        ({
            let empty = Seq::<Seq<char>>::empty();
            let (s1, a1) = poll_step(s, empty, t1);
            let (s2, a2) = poll_step(s1, empty, t2);
            let (s3, a3) = poll_step(s2, empty, t3);
            a1 == PollAction::Nothing && a2 == PollAction::Nothing && a3 == PollAction::Stopped
                && !s3.meeting_was_active && s3.consecutive_silent == 0
        }),
{
}

/// The poller as `MeetingAppPoller::new` makes it.
pub open spec fn fresh_poller() -> PollerView {
    PollerView {
        previous: Seq::empty(),
        meeting_was_active: false,
        consecutive_silent: 0,
        grace_period_ended: false,
    }
}

/// The poller and its actions after the polls `polls` (snapshot, time since
/// start), in order.
pub open spec fn poll_run(s: PollerView, polls: Seq<(Seq<Seq<char>>, u64)>) -> (PollerView, Seq<
    PollAction,
>)
    decreases polls.len(),
{
    if polls.len() == 0 {
        (s, Seq::empty())
    } else {
        let (s1, acts) = poll_run(s, polls.drop_last());
        let (s2, a) = poll_step(s1, polls.last().0, polls.last().1);
        (s2, acts.push(a))
    }
}

/// Some poll before the `i`-th came at least the grace period after start.
pub open spec fn grace_over_before(polls: Seq<(Seq<Seq<char>>, u64)>, i: int) -> bool {
    exists|j: int| 0 <= j < i && #[trigger] polls[j].1 >= STARTUP_GRACE_PERIOD_MS
}

/// No action strictly between the `j`-th and the `i`-th is a stop.
pub open spec fn no_stop_between(acts: Seq<PollAction>, j: int, i: int) -> bool {
    forall|k: int| j < k < i ==> #[trigger] acts[k] != PollAction::Stopped
}

/// The state facts that hold after a run of polls from a fresh poller.
pub open spec fn poll_run_state(polls: Seq<(Seq<Seq<char>>, u64)>) -> bool {
    let (v, acts) = poll_run(fresh_poller(), polls);
    let n = polls.len() as int;
    &&& acts.len() == n
    &&& v.grace_period_ended == grace_over_before(polls, n)
    &&& (n > 0 ==> v.previous == polls[n - 1].0)
    &&& v.consecutive_silent < STOP_DEBOUNCE_COUNT
    &&& v.consecutive_silent <= n
    &&& (!v.meeting_was_active ==> v.consecutive_silent == 0)
    &&& (!v.grace_period_ended ==> !v.meeting_was_active)
    &&& forall|m: int| 0 <= m < v.consecutive_silent ==> (#[trigger] polls[n - 1 - m]).0.len() == 0
}

/// A run of polls, seen as its last poll after the run of the others.
proof fn lemma_poll_run_last(polls: Seq<(Seq<Seq<char>>, u64)>)
    requires
        polls.len() > 0,
    ensures
        ({
            let prev = polls.drop_last();
            let (v1, acts1) = poll_run(fresh_poller(), prev);
            let (v2, a) = poll_step(v1, polls.last().0, polls.last().1);
            poll_run(fresh_poller(), polls) == (v2, acts1.push(a))
        }),
        forall|j: int| 0 <= j < polls.len() - 1 ==> #[trigger] polls.drop_last()[j] == polls[j],
        forall|i: int|
            0 <= i < polls.len() ==> grace_over_before(polls, i) == grace_over_before(
                polls.drop_last(),
                i,
            ),
        grace_over_before(polls, polls.len() as int) == (grace_over_before(
            polls.drop_last(),
            polls.len() - 1,
        ) || polls.last().1 >= STARTUP_GRACE_PERIOD_MS),
{
    let n = polls.len() as int;
    let prev = polls.drop_last();
    assert forall|i: int| 0 <= i < n implies grace_over_before(polls, i) == grace_over_before(
        prev,
        i,
    ) by {
        if grace_over_before(polls, i) {
            let j = choose|j: int| 0 <= j < i && #[trigger] polls[j].1 >= STARTUP_GRACE_PERIOD_MS;
            assert(prev[j] == polls[j]);
        }
        if grace_over_before(prev, i) {
            let j = choose|j: int| 0 <= j < i && #[trigger] prev[j].1 >= STARTUP_GRACE_PERIOD_MS;
            assert(prev[j] == polls[j]);
        }
    }
    if polls.last().1 >= STARTUP_GRACE_PERIOD_MS {
        assert(polls[n - 1].1 >= STARTUP_GRACE_PERIOD_MS);
    }
    if grace_over_before(polls, n) {
        let j = choose|j: int| 0 <= j < n && #[trigger] polls[j].1 >= STARTUP_GRACE_PERIOD_MS;
        if j < n - 1 {
            assert(prev[j] == polls[j]);
        }
    }
    if grace_over_before(prev, n - 1) {
        let j = choose|j: int| 0 <= j < n - 1 && #[trigger] prev[j].1 >= STARTUP_GRACE_PERIOD_MS;
        assert(prev[j] == polls[j]);
    }
}

/// The state facts of a run of polls.
pub proof fn lemma_poll_run_state(polls: Seq<(Seq<Seq<char>>, u64)>)
    ensures
        poll_run_state(polls),
    decreases polls.len(),
{
    let n = polls.len() as int;
    if n == 0 {
        assert(!grace_over_before(polls, 0));
    } else {
        let prev = polls.drop_last();
        lemma_poller_run_state_step(polls);
    }
}

#[verifier::spinoff_prover]
proof fn lemma_poller_run_state_step(polls: Seq<(Seq<Seq<char>>, u64)>)
    requires
        polls.len() > 0,
    ensures
        poll_run_state(polls),
    decreases polls.len(), 0nat,
{
    let n = polls.len() as int;
    let prev = polls.drop_last();
    lemma_poll_run_state(prev);
    lemma_poll_run_last(polls);
    let (v1, acts1) = poll_run(fresh_poller(), prev);
    let (v2, a) = poll_step(v1, polls.last().0, polls.last().1);
    assert forall|m: int| 0 <= m < v2.consecutive_silent implies (#[trigger] polls[n - 1
        - m]).0.len() == 0 by {
        if m > 0 {
            assert(prev[(n - 1) - 1 - (m - 1)] == polls[n - 1 - m]);
            assert(0 <= m - 1 < v1.consecutive_silent);
        }
    }
}

/// The actions of a run of polls.
pub open spec fn poll_run_actions(polls: Seq<(Seq<Seq<char>>, u64)>) -> bool {
    let (v, acts) = poll_run(fresh_poller(), polls);
    let n = polls.len() as int;
    &&& v.meeting_was_active ==> exists|j: int|
        0 <= j < n && #[trigger] acts[j] == PollAction::Started && no_stop_between(acts, j, n)
    &&& forall|i: int|
        0 <= i < n && !grace_over_before(polls, i) ==> #[trigger] acts[i] == PollAction::Nothing
    &&& forall|i: int|
        1 <= i < n ==> (#[trigger] acts[i] == PollAction::Started <==> (grace_over_before(polls, i)
            && polls[i].0.len() > 0 && has_new_app(polls[i].0, polls[i - 1].0)))
    &&& forall|i: int|
        0 <= i < n && #[trigger] acts[i] == PollAction::Stopped ==> {
            &&& i >= 2
            &&& polls[i].0.len() == 0
            &&& polls[i - 1].0.len() == 0
            &&& polls[i - 2].0.len() == 0
            &&& exists|j: int|
                0 <= j < i && #[trigger] acts[j] == PollAction::Started && no_stop_between(acts, j, i)
        }
}

/// Over any run of polls from a fresh poller: nothing is reported before a
/// poll has come the grace period after start, nor on that first poll (it
/// records the baseline); a later poll reports a start exactly when it
/// sees an app that the poll before it did not; a stop comes only on the
/// third empty poll in a row, after a start with no stop since.
pub proof fn lemma_poller_run(polls: Seq<(Seq<Seq<char>>, u64)>)
    ensures
        poll_run_state(polls),
        poll_run_actions(polls),
    decreases polls.len(),
{
    lemma_poll_run_state(polls);
    if polls.len() > 0 {
        lemma_poller_run(polls.drop_last());
        lemma_poll_run_state(polls.drop_last());
        lemma_poll_run_last(polls);
        lemma_poller_run_active(polls);
        lemma_poller_run_quiet(polls);
        lemma_poller_run_starts(polls);
        lemma_poller_run_stops(polls);
    } else {
        assert(!grace_over_before(polls, 0));
    }
}

#[verifier::spinoff_prover]
proof fn lemma_poller_run_active(polls: Seq<(Seq<Seq<char>>, u64)>)
    requires
        polls.len() > 0,
        poll_run_actions(polls.drop_last()),
        poll_run_state(polls.drop_last()),
    ensures
        ({
            let (v, acts) = poll_run(fresh_poller(), polls);
            v.meeting_was_active ==> exists|j: int|
                0 <= j < polls.len() && #[trigger] acts[j] == PollAction::Started
                    && no_stop_between(acts, j, polls.len() as int)
        }),
{
    let n = polls.len() as int;
    let prev = polls.drop_last();
    lemma_poll_run_last(polls);
    let (v1, acts1) = poll_run(fresh_poller(), prev);
    let (v2, a) = poll_step(v1, polls.last().0, polls.last().1);
    let acts = acts1.push(a);
    if v2.meeting_was_active {
        if a != PollAction::Started {
            assert(v1.meeting_was_active);
        }
        if a == PollAction::Started {
            assert(acts[n - 1] == PollAction::Started);
            assert(no_stop_between(acts, n - 1, n));
        } else {
            let j = choose|j: int|
                0 <= j < n - 1 && #[trigger] acts1[j] == PollAction::Started && no_stop_between(
                    acts1,
                    j,
                    n - 1,
                );
            assert(acts[j] == PollAction::Started);
            assert forall|k: int| j < k < n implies #[trigger] acts[k] != PollAction::Stopped by {
                if k < n - 1 {
                    assert(acts1[k] != PollAction::Stopped);
                }
            }
            assert(no_stop_between(acts, j, n));
        }
    }
    assert(poll_run(fresh_poller(), polls).1 == acts);
    assert(poll_run(fresh_poller(), polls).0 == v2);
}

#[verifier::spinoff_prover]
proof fn lemma_poller_run_quiet(polls: Seq<(Seq<Seq<char>>, u64)>)
    requires
        polls.len() > 0,
        poll_run_actions(polls.drop_last()),
        poll_run_state(polls.drop_last()),
    ensures
        ({
            let (v, acts) = poll_run(fresh_poller(), polls);
            forall|i: int|
                0 <= i < polls.len() && !grace_over_before(polls, i) ==> #[trigger] acts[i]
                    == PollAction::Nothing
        }),
{
    let n = polls.len() as int;
    let prev = polls.drop_last();
    lemma_poll_run_last(polls);
    let (v1, acts1) = poll_run(fresh_poller(), prev);
    let (v2, a) = poll_step(v1, polls.last().0, polls.last().1);
    let acts = acts1.push(a);
    assert forall|i: int| 0 <= i < n && !grace_over_before(polls, i) implies #[trigger] acts[i]
        == PollAction::Nothing by {
        if i < n - 1 {
            assert(acts[i] == acts1[i]);
        }
    }
}

#[verifier::spinoff_prover]
proof fn lemma_poller_run_starts(polls: Seq<(Seq<Seq<char>>, u64)>)
    requires
        polls.len() > 0,
        poll_run_actions(polls.drop_last()),
        poll_run_state(polls.drop_last()),
    ensures
        ({
            let (v, acts) = poll_run(fresh_poller(), polls);
            forall|i: int|
                1 <= i < polls.len() ==> (#[trigger] acts[i] == PollAction::Started <==> (
                grace_over_before(polls, i) && polls[i].0.len() > 0 && has_new_app(
                    polls[i].0,
                    polls[i - 1].0,
                )))
        }),
{
    let n = polls.len() as int;
    let prev = polls.drop_last();
    lemma_poll_run_last(polls);
    let (v1, acts1) = poll_run(fresh_poller(), prev);
    let (v2, a) = poll_step(v1, polls.last().0, polls.last().1);
    let acts = acts1.push(a);
    assert forall|i: int| 1 <= i < n implies (#[trigger] acts[i] == PollAction::Started <==> (
    grace_over_before(polls, i) && polls[i].0.len() > 0 && has_new_app(polls[i].0, polls[i - 1].0)))
        by {
        if i < n - 1 {
            assert(acts[i] == acts1[i]);
            assert(acts1[i] == PollAction::Started <==> (grace_over_before(prev, i) && prev[i].0.len()
                > 0 && has_new_app(prev[i].0, prev[i - 1].0)));
            assert(prev[i] == polls[i]);
            assert(prev[i - 1] == polls[i - 1]);
        } else {
            assert(acts[i] == a);
            assert(v1.previous == prev[n - 2].0);
            assert(prev[n - 2] == polls[n - 2]);
        }
    }
}

#[verifier::spinoff_prover]
proof fn lemma_poller_run_stops(polls: Seq<(Seq<Seq<char>>, u64)>)
    requires
        polls.len() > 0,
        poll_run_actions(polls.drop_last()),
        poll_run_state(polls.drop_last()),
    ensures
        ({
            let (v, acts) = poll_run(fresh_poller(), polls);
            forall|i: int|
                0 <= i < polls.len() && #[trigger] acts[i] == PollAction::Stopped ==> {
                    &&& i >= 2
                    &&& polls[i].0.len() == 0
                    &&& polls[i - 1].0.len() == 0
                    &&& polls[i - 2].0.len() == 0
                    &&& exists|j: int|
                        0 <= j < i && #[trigger] acts[j] == PollAction::Started && no_stop_between(
                            acts,
                            j,
                            i,
                        )
                }
        }),
{
    let n = polls.len() as int;
    let prev = polls.drop_last();
    lemma_poll_run_last(polls);
    let (v1, acts1) = poll_run(fresh_poller(), prev);
    let (v2, a) = poll_step(v1, polls.last().0, polls.last().1);
    let acts = acts1.push(a);
    assert forall|i: int| 0 <= i < n && #[trigger] acts[i] == PollAction::Stopped implies {
        &&& i >= 2
        &&& polls[i].0.len() == 0
        &&& polls[i - 1].0.len() == 0
        &&& polls[i - 2].0.len() == 0
        &&& exists|j: int|
            0 <= j < i && #[trigger] acts[j] == PollAction::Started && no_stop_between(acts, j, i)
    } by {
        if i < n - 1 {
            assert(acts[i] == acts1[i]);
            let j = choose|j: int|
                0 <= j < i && #[trigger] acts1[j] == PollAction::Started && no_stop_between(
                    acts1,
                    j,
                    i,
                );
            assert(acts[j] == PollAction::Started);
            assert forall|k: int| j < k < i implies #[trigger] acts[k] != PollAction::Stopped by {
                assert(acts[k] == acts1[k]);
            }
            assert(prev[i] == polls[i]);
            assert(prev[i - 1] == polls[i - 1]);
            assert(prev[i - 2] == polls[i - 2]);
        } else {
            assert(acts[i] == a);
            assert(v1.meeting_was_active);
            assert(v1.consecutive_silent >= 2);
            assert((prev[(n - 1) - 1 - 0]).0.len() == 0);
            assert((prev[(n - 1) - 1 - 1]).0.len() == 0);
            assert(prev[n - 2] == polls[n - 2]);
            assert(prev[n - 3] == polls[n - 3]);
            let j = choose|j: int|
                0 <= j < n - 1 && #[trigger] acts1[j] == PollAction::Started && no_stop_between(
                    acts1,
                    j,
                    n - 1,
                );
            assert(acts[j] == PollAction::Started);
            assert forall|k: int| j < k < i implies #[trigger] acts[k] != PollAction::Stopped by {
                assert(acts[k] == acts1[k]);
            }
        }
    }
}

/// One device signal (active, time, kind): the debounce state after it,
/// and the action it leads to.
pub open spec fn device_step(s: DetectorState, sig: (bool, u64, DeviceSignal)) -> (DetectorState, DeviceAction) {
    if s.spec_should_trigger(sig.0, sig.1) {
        (
            DetectorState { last_state: sig.0, last_change_ms: sig.1, ..s },
            spec_device_action(s, sig.0, sig.1, sig.2),
        )
    } else {
        (s, DeviceAction::Nothing)
    }
}

/// The debounce state and the actions after the signals `sigs`, in order.
pub open spec fn device_run(s: DetectorState, sigs: Seq<(bool, u64, DeviceSignal)>) -> (DetectorState, Seq<
    DeviceAction,
>)
    decreases sigs.len(),
{
    if sigs.len() == 0 {
        (s, Seq::empty())
    } else {
        let (s1, acts) = device_run(s, sigs.drop_last());
        let (s2, a) = device_step(s1, sigs.last());
        (s2, acts.push(a))
    }
}

/// The debounce state just before the `i`-th signal.
pub open spec fn state_before(s: DetectorState, sigs: Seq<(bool, u64, DeviceSignal)>, i: int) -> DetectorState {
    device_run(s, sigs.take(i)).0
}

/// What holds of a run of device signals.
pub open spec fn device_run_facts(s: DetectorState, sigs: Seq<(bool, u64, DeviceSignal)>) -> bool {
    let (f, acts) = device_run(s, sigs);
    let n = sigs.len() as int;
    &&& acts.len() == n
    &&& f.debounce_ms == s.debounce_ms
    &&& f.last_change_ms >= s.last_change_ms
    &&& forall|i: int| 0 <= i < n && #[trigger] acts[i] != DeviceAction::Nothing ==> f.last_change_ms >= sigs[i].1
    &&& forall|i: int|
        0 <= i < n && #[trigger] acts[i] == DeviceAction::ReportStarted ==> sigs[i].0
            && !state_before(s, sigs, i).last_state
    &&& forall|i: int|
        0 <= i < n && #[trigger] acts[i] == DeviceAction::ReportStopped ==> !sigs[i].0
            && state_before(s, sigs, i).last_state && sigs[i].2 == DeviceSignal::RunningChanged
    &&& forall|i: int|
        0 <= i < n && #[trigger] acts[i] != DeviceAction::Nothing ==> sigs[i].1 >= s.last_change_ms
            + s.debounce_ms
    &&& forall|i: int, j: int|
        0 <= i < j < n && #[trigger] acts[i] != DeviceAction::Nothing && #[trigger] acts[j]
            != DeviceAction::Nothing ==> sigs[j].1 >= sigs[i].1 + s.debounce_ms
}

/// Over any run of device signals: a start is reported only when the
/// recorded state turns from inactive to active, a stop only when it turns
/// from active to inactive through the running-state signal, and reported
/// changes come at least the debounce interval after the recorded start
/// state and after each other. (With a zero interval a clock that went
/// back could report a change earlier than the one before.)
pub proof fn lemma_device_run(s: DetectorState, sigs: Seq<(bool, u64, DeviceSignal)>)
    requires
        s.debounce_ms > 0,
    ensures
        device_run_facts(s, sigs),
    decreases sigs.len(),
{
    let n = sigs.len() as int;
    if n > 0 {
        let prev = sigs.drop_last();
        lemma_device_run(s, prev);
        let (s1, acts1) = device_run(s, prev);
        let (s2, a) = device_step(s1, sigs.last());
        let acts = acts1.push(a);
        assert(device_run(s, sigs) == (s2, acts));
        assert forall|i: int| 0 <= i < n - 1 implies #[trigger] prev[i] == sigs[i] && acts[i]
            == acts1[i] && state_before(s, sigs, i) == state_before(s, prev, i) by {
            assert(prev.take(i) =~= sigs.take(i));
        }
        assert(state_before(s, sigs, n - 1) == s1) by {
            assert(sigs.take(n - 1) =~= prev);
        }
        assert(acts[n - 1] == a);
        assert(sigs[n - 1] == sigs.last());
        assert forall|i: int, j: int|
            0 <= i < j < n && #[trigger] acts[i] != DeviceAction::Nothing && #[trigger] acts[j]
                != DeviceAction::Nothing implies sigs[j].1 >= sigs[i].1 + s.debounce_ms by {
            assert(prev[i] == sigs[i]);
            assert(acts[i] == acts1[i]);
            if j < n - 1 {
                assert(prev[j] == sigs[j]);
                assert(acts[j] == acts1[j]);
            }
        }
        assert forall|i: int| 0 <= i < n && #[trigger] acts[i] != DeviceAction::Nothing implies s2.last_change_ms
            >= sigs[i].1 by {
            if i < n - 1 {
                assert(prev[i] == sigs[i]);
                assert(acts[i] == acts1[i]);
            }
        }
        assert forall|i: int| 0 <= i < n && #[trigger] acts[i] == DeviceAction::ReportStarted implies sigs[i].0
            && !state_before(s, sigs, i).last_state by {
            if i < n - 1 {
                assert(prev[i] == sigs[i]);
                assert(acts[i] == acts1[i]);
                assert(state_before(s, sigs, i) == state_before(s, prev, i));
            }
        }
        assert forall|i: int| 0 <= i < n && #[trigger] acts[i] == DeviceAction::ReportStopped implies !sigs[i].0
            && state_before(s, sigs, i).last_state && sigs[i].2 == DeviceSignal::RunningChanged by {
            if i < n - 1 {
                assert(prev[i] == sigs[i]);
                assert(acts[i] == acts1[i]);
                assert(state_before(s, sigs, i) == state_before(s, prev, i));
            }
        }
        assert forall|i: int| 0 <= i < n && #[trigger] acts[i] != DeviceAction::Nothing implies sigs[i].1
            >= s.last_change_ms + s.debounce_ms by {
            if i < n - 1 {
                assert(prev[i] == sigs[i]);
                assert(acts[i] == acts1[i]);
            }
        }
    }
}

} // verus!
