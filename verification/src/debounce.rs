//! Debounced digital input: a noisy raw level becomes a stable logical
//! level that only changes after the line has been left alone for the
//! settle duration.
//!
//! The raw line and the clock are platform resources, so every poll takes
//! the current time and the freshly sampled raw level as plain values; the
//! caller reads both from the hardware each time it polls.

use vstd::prelude::*;

verus! {

/// The abstract state of a debounced input: the time of the last accepted
/// level change and the stable level accepted then.
pub struct DebounceState {
    pub last_accepted: u64,
    pub level: bool,
}

/// A poll is suppressed while the time since the last accepted change is
/// within the settle duration; outside it, a raw level that differs from
/// the stable level is accepted.
pub open spec fn db_accepts(st: DebounceState, settle: u64, now: u64, raw: bool) -> bool {
    now > st.last_accepted + settle && raw != st.level
}

/// The state after one poll: unchanged unless the poll accepts the raw
/// level, in which case the raw level becomes stable and the clock of the
/// settle window restarts at the poll time.
pub open spec fn db_step(st: DebounceState, settle: u64, now: u64, raw: bool) -> DebounceState {
    if db_accepts(st, settle, now, raw) {
        DebounceState { last_accepted: now, level: raw }
    } else {
        st
    }
}

/// A debounced input with settle duration `MS` time-units. Polls must hand
/// in a monotone clock: time never runs backwards between polls.
pub struct Debounce<const MS: u64> {
    last_change: u64,
    last_value: bool,
}

impl<const MS: u64> View for Debounce<MS> {
    type V = DebounceState;

    closed spec fn view(&self) -> DebounceState {
        DebounceState { last_accepted: self.last_change, level: self.last_value }
    }
}

impl<const MS: u64> Debounce<MS> {
    /// Wrap a raw input: the level sampled at creation time is taken as
    /// the initial stable level.
    pub fn new(now: u64, raw: bool) -> (d: Self)
        ensures
            d@ == (DebounceState { last_accepted: now, level: raw }),
    {
        Debounce { last_change: now, last_value: raw }
    }

    /// One debouncing pass: report whether this poll accepted a new stable
    /// level, and step the state exactly as `db_step` says.
    fn update(&mut self, now: u64, raw: bool) -> (changed: bool)
        requires
            old(self)@.last_accepted <= now,
        ensures
            changed == db_accepts(old(self)@, MS, now, raw),
            final(self)@ == db_step(old(self)@, MS, now, raw),
    {
        if now - self.last_change > MS {
            if raw != self.last_value {
                self.last_value = raw;
                self.last_change = now;
                return true;
            }
        }
        false
    }

    /// True iff this poll accepted a change and the new stable level is high.
    pub fn raising_edge(&mut self, now: u64, raw: bool) -> (r: bool)
        requires
            old(self)@.last_accepted <= now,
        ensures
            final(self)@ == db_step(old(self)@, MS, now, raw),
            r == (db_accepts(old(self)@, MS, now, raw) && raw),
    {
        let changed = self.update(now, raw);
        changed && self.last_value
    }

    /// True iff this poll accepted a change and the new stable level is low.
    pub fn falling_edge(&mut self, now: u64, raw: bool) -> (r: bool)
        requires
            old(self)@.last_accepted <= now,
        ensures
            final(self)@ == db_step(old(self)@, MS, now, raw),
            r == (db_accepts(old(self)@, MS, now, raw) && !raw),
    {
        let changed = self.update(now, raw);
        changed && !self.last_value
    }

    /// The stable level after this poll's debouncing pass, low side.
    pub fn is_low(&mut self, now: u64, raw: bool) -> (r: bool)
        requires
            old(self)@.last_accepted <= now,
        ensures
            final(self)@ == db_step(old(self)@, MS, now, raw),
            r == !final(self)@.level,
    {
        self.update(now, raw);
        !self.last_value
    }

    /// The stable level after this poll's debouncing pass, high side.
    pub fn is_high(&mut self, now: u64, raw: bool) -> (r: bool)
        requires
            old(self)@.last_accepted <= now,
        ensures
            final(self)@ == db_step(old(self)@, MS, now, raw),
            r == final(self)@.level,
    {
        self.update(now, raw);
        self.last_value
    }
}

/// Debounce suppression: any polls made within the settle window after the
/// last accepted change leave the state untouched and report no edge,
/// whatever the raw line does in between — in particular, a raw level that
/// flips and flips back inside the window is never seen.
pub proof fn lemma_debounce_suppression(
    st: DebounceState,
    settle: u64,
    t1: u64,
    t2: u64,
    raw1: bool,
    raw2: bool,
)
    requires
        t1 <= st.last_accepted + settle,
        t2 <= st.last_accepted + settle,
    ensures
        !db_accepts(st, settle, t1, raw1),
        db_step(st, settle, t1, raw1) == st,
        !db_accepts(db_step(st, settle, t1, raw1), settle, t2, raw2),
        db_step(db_step(st, settle, t1, raw1), settle, t2, raw2) == st,
{
}

/// A sustained flip is accepted exactly once: the first poll past the
/// settle window accepts the flipped level and reports the one edge; while
/// the raw level then stays put, no later poll accepts or reports anything
/// more.
pub proof fn lemma_debounce_single_edge(
    st: DebounceState,
    settle: u64,
    t1: u64,
    t2: u64,
    raw: bool,
)
    requires
        t1 > st.last_accepted + settle,
        raw != st.level,
    ensures
        db_accepts(st, settle, t1, raw),
        db_step(st, settle, t1, raw) == (DebounceState { last_accepted: t1, level: raw }),
        !db_accepts(db_step(st, settle, t1, raw), settle, t2, raw),
        db_step(db_step(st, settle, t1, raw), settle, t2, raw) == db_step(st, settle, t1, raw),
{
}

/// Debounce idempotence: a poll that sees the stable level again, or that
/// falls inside the settle window, changes nothing and reports no edge, so
/// repeated level queries keep returning the same answer.
pub proof fn lemma_debounce_idempotent(st: DebounceState, settle: u64, now: u64, raw: bool)
    requires
        raw == st.level || now <= st.last_accepted + settle,
    ensures
        !db_accepts(st, settle, now, raw),
        db_step(st, settle, now, raw) == st,
{
}

} // verus!
