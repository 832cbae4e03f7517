//! The status/error bus: a single-slot, bounded-lifetime user-facing
//! message. Posting overwrites whatever is pending; a message expires once
//! its age exceeds a fixed threshold; nothing is ever queued.

use vstd::prelude::*;
use crate::clock::now_unix_seconds;
use crate::model::Severity;

verus! {

/// How many time units a posted message stays visible beyond the instant it
/// was posted.
pub const STATUS_LIFETIME: u64 = 5;

/// A pending user-facing message.
pub struct StatusMessage {
    pub text: String,
    pub severity: Severity,
    /// The time the message was posted, on the same scale `tick` is fed.
    pub posted_at: u64,
}

/// Mathematical image of a [`StatusMessage`].
#[verifier::ext_equal]
pub ghost struct StatusView {
    pub text: Seq<char>,
    pub severity: Severity,
    pub posted_at: u64,
}

impl View for StatusMessage {
    type V = StatusView;

    open spec fn view(&self) -> StatusView {
        StatusView { text: self.text@, severity: self.severity, posted_at: self.posted_at }
    }
}

/// True once a message posted at `posted_at` is no longer shown at `now`:
/// strictly more than [`STATUS_LIFETIME`] time units have passed.
pub open spec fn expired(posted_at: u64, now: u64) -> bool {
    now > posted_at + STATUS_LIFETIME
}

/// True when the slot holds a message with this text and severity.
pub open spec fn posted_with(slot: Option<StatusView>, text: Seq<char>, severity: Severity) -> bool {
    match slot {
        Option::Some(m) => m.text == text && m.severity == severity,
        Option::None => false,
    }
}

/// The single-slot status bus.
pub struct StatusBus {
    slot: Option<StatusMessage>,
}

impl View for StatusBus {
    type V = Option<StatusView>;

    closed spec fn view(&self) -> Option<StatusView> {
        match self.slot {
            Option::Some(m) => Option::Some(m@),
            Option::None => Option::None,
        }
    }
}

/// The slot after the bus is advanced to `now`: an expired message is
/// dropped, anything else is kept.
pub open spec fn ticked(slot: Option<StatusView>, now: u64) -> Option<StatusView> {
    match slot {
        Option::Some(m) => if expired(m.posted_at, now) {
            Option::None
        } else {
            Option::Some(m)
        },
        Option::None => Option::None,
    }
}

impl StatusBus {
    /// An empty bus: no message pending.
    pub fn new() -> (r: StatusBus)
        ensures
            r@ == Option::None::<StatusView>,
    {
        StatusBus { slot: None }
    }

    /// Posts a message at time `now`, overwriting whatever was pending.
    pub fn post(&mut self, text: String, severity: Severity, now: u64)
        ensures
            final(self)@ == Option::Some(
                StatusView { text: text@, severity, posted_at: now },
            ),
    {
        self.slot = Some(StatusMessage { text, severity, posted_at: now });
    }

    /// Posts a message stamped with the wall clock.
    pub fn post_now(&mut self, text: String, severity: Severity)
        ensures
            posted_with(final(self)@, text@, severity),
    {
        let now = now_unix_seconds();
        self.post(text, severity, now);
    }

    /// Drops the pending message, if any.
    pub fn dismiss(&mut self)
        ensures
            final(self)@ == Option::None::<StatusView>,
    {
        self.slot = None;
    }

    /// Advances the bus to time `now`: the pending message is dropped
    /// exactly when its age exceeds [`STATUS_LIFETIME`], and kept with all
    /// its fields otherwise.
    pub fn tick(&mut self, now: u64)
        ensures
            final(self)@ == ticked(old(self)@, now),
    {
        let drop_it: bool = match &self.slot {
            Some(m) => now > m.posted_at && now - m.posted_at > STATUS_LIFETIME,
            None => false,
        };
        if drop_it {
            self.slot = None;
        }
    }

    /// Advances the bus by the wall clock: the pending message is either
    /// kept unchanged or expired, never altered or replaced.
    pub fn tick_now(&mut self)
        ensures
            final(self)@ == old(self)@ || final(self)@ == Option::None::<StatusView>,
    {
        let now = now_unix_seconds();
        self.tick(now);
    }

    /// The pending message at time `now` as (text, severity, age), without
    /// advancing the bus; a message older than the clock reads as age zero.
    pub fn current(&self, now: u64) -> (r: Option<(String, Severity, u64)>)
        ensures
            match self@ {
                Option::Some(m) => match r {
                    Option::Some(c) => c.0@ == m.text && c.1 == m.severity && c.2 == (
                    if now >= m.posted_at {
                        (now - m.posted_at) as u64
                    } else {
                        0
                    }),
                    Option::None => false,
                },
                Option::None => r is None,
            },
    {
        match &self.slot {
            Some(m) => {
                let age: u64 = if now >= m.posted_at {
                    now - m.posted_at
                } else {
                    0
                };
                Some((m.text.clone(), m.severity, age))
            },
            None => None,
        }
    }
}

} // verus!
