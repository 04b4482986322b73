//! Communication-ducking opt-out.
//!
//! On platforms other than Windows the three operations are no-ops. On
//! Windows the COM calls run outside this module; `DuckingGuard` holds the
//! process-wide "ducking disabled" flag and decides, around those calls,
//! when they are needed and what their outcome does to the flag.
use vstd::prelude::*;

use crate::text::{concat, string_from_chars};

verus! {

/// Disabling ducking needs nothing here: succeeds without effect.
pub fn disable_communication_ducking() -> (r: Result<(), String>)
    ensures
        r is Ok,
{
    Ok(())
}

/// Ducking is never disabled here.
pub fn is_ducking_disabled() -> (r: bool)
    ensures
        !r,
{
    false
}

/// Restoring ducking needs nothing here: succeeds without effect.
pub fn restore_communication_ducking() -> (r: Result<(), String>)
    ensures
        r is Ok,
{
    Ok(())
}

/// The process-wide "ducking disabled" flag of the Windows implementation.
pub struct DuckingGuard {
    disabled: bool,
}

impl View for DuckingGuard {
    type V = bool;

    closed spec fn view(&self) -> bool {
        self.disabled
    }
}

impl DuckingGuard {
    /// Ducking has not been disabled.
    pub fn new() -> (r: Self)
        ensures
            !r@,
    {
        DuckingGuard { disabled: false }
    }

    /// Whether ducking is currently disabled for the process.
    pub fn is_ducking_disabled(&self) -> (r: bool)
        ensures
            r == self@,
    {
        self.disabled
    }

    /// Claims the flag before disabling ducking. Returns whether it was already
    /// set, in which case the caller succeeds at once without the COM calls.
    pub fn begin_disable(&mut self) -> (already: bool)
        ensures
            already == old(self)@,
            final(self)@,
    {
        let already = self.disabled;
        self.disabled = true;
        already
    }

    /// Finishes disabling ducking with the outcome of the COM calls: a failure
    /// clears the flag again and is returned unchanged.
    pub fn complete_disable(&mut self, outcome: Result<(), String>) -> (r: Result<(), String>)
        ensures
            r == outcome,
            final(self)@ == (outcome is Ok && old(self)@),
    {
        if outcome.is_err() {
            self.disabled = false;
        }
        outcome
    }

    /// Whether restoring ducking needs the COM calls (only while disabled).
    pub fn restore_needed(&self) -> (r: bool)
        ensures
            r == self@,
    {
        self.disabled
    }

    /// Finishes restoring ducking with the outcome of the COM calls: success
    /// clears the flag; a failure leaves it and is returned unchanged.
    pub fn complete_restore(&mut self, outcome: Result<(), String>) -> (r: Result<(), String>)
        ensures
            r == outcome,
            final(self)@ == (outcome is Err && old(self)@),
    {
        if outcome.is_ok() {
            self.disabled = false;
        }
        outcome
    }
}

impl DuckingGuard {
    /// Disables ducking for the process: when it is already disabled this
    /// succeeds at once without running `session_call` (which then need not
    /// be callable at all); otherwise it runs
    /// `session_call` (the audio-session calls that opt the process out of
    /// ducking), returns its outcome, and keeps the flag set only on success.
    pub fn disable<F: FnOnce() -> Result<(), String>>(&mut self, session_call: F) -> (r: Result<
        (),
        String,
    >)
        requires
            !old(self)@ ==> call_requires(session_call, ()),
        ensures
            old(self)@ ==> r is Ok && final(self)@,
            !old(self)@ ==> call_ensures(session_call, (), r) && final(self)@ == (r is Ok),
    {
        if self.begin_disable() {
            return Ok(());
        }
        let outcome = session_call();
        self.complete_disable(outcome)
    }

    /// Restores ducking for the process: when it is not disabled this
    /// succeeds at once without running `session_call` (which then need not
    /// be callable at all); otherwise it runs
    /// `session_call` (the calls that restore the default preference),
    /// returns its outcome, and clears the flag only on success.
    pub fn restore<F: FnOnce() -> Result<(), String>>(&mut self, session_call: F) -> (r: Result<
        (),
        String,
    >)
        requires
            old(self)@ ==> call_requires(session_call, ()),
        ensures
            !old(self)@ ==> r is Ok && !final(self)@,
            old(self)@ ==> call_ensures(session_call, (), r) && final(self)@ == (r is Err),
    {
        if !self.restore_needed() {
            return Ok(());
        }
        let outcome = session_call();
        self.complete_restore(outcome)
    }
}

/// The uppercase hexadecimal digit of `d < 16`.
pub open spec fn hex_digit(d: nat) -> char {
    if d < 10 {
        (d + 48) as char
    } else {
        (d + 55) as char
    }
}

/// The eight uppercase hexadecimal digits of `x`, as `{:08X}` writes them.
pub open spec fn hex8(x: u32) -> Seq<char> {
    seq![
        hex_digit(((x / 0x10000000) % 16) as nat),
        hex_digit(((x / 0x1000000) % 16) as nat),
        hex_digit(((x / 0x100000) % 16) as nat),
        hex_digit(((x / 0x10000) % 16) as nat),
        hex_digit(((x / 0x1000) % 16) as nat),
        hex_digit(((x / 0x100) % 16) as nat),
        hex_digit(((x / 0x10) % 16) as nat),
        hex_digit((x % 16) as nat),
    ]
}

fn hex_char(d: u32) -> (c: char)
    requires
        d < 16,
    ensures
        c == hex_digit(d as nat),
{
    if d < 10 {
        ((48 + d) as u8) as char
    } else {
        ((55 + d) as u8) as char
    }
}

/// The failure of initialising COM with result `hresult`: none when the
/// result is a success code (`S_OK`, or `S_FALSE` when COM was already
/// initialised); otherwise the message naming the result in hexadecimal.
pub fn com_init_failure(hresult: i32) -> (r: Option<String>)
    ensures
        hresult >= 0 ==> r is None,
        hresult < 0 ==> (r matches Some(m) && m@ == "COM initialization failed: HRESULT 0x"@ + hex8(
            hresult as u32,
        )),
{
    if hresult >= 0 {
        return None;
    }
    let code = hresult as u32;
    let mut digits: Vec<char> = Vec::new();
    digits.push(hex_char((code / 0x10000000) % 16));
    digits.push(hex_char((code / 0x1000000) % 16));
    digits.push(hex_char((code / 0x100000) % 16));
    digits.push(hex_char((code / 0x10000) % 16));
    digits.push(hex_char((code / 0x1000) % 16));
    digits.push(hex_char((code / 0x100) % 16));
    digits.push(hex_char((code / 0x10) % 16));
    digits.push(hex_char(code % 16));
    assert(digits@ =~= hex8(code));
    let hex = string_from_chars(&digits);
    Some(concat("COM initialization failed: HRESULT 0x", hex.as_str()))
}

} // verus!
