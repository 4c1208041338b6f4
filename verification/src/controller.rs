use crate::config::Config;
use vstd::prelude::*;

verus! {

/// The controller's output alphabet.
#[derive(Debug, Clone, PartialEq, Eq)]
pub enum Event {
    Up,
    Down,
    Select,
    UpLong,
    DownLong,
    SelectLong,
}

/// The three physical push-buttons.
#[derive(Debug, Clone, Copy, PartialEq, Eq)]
pub enum Button {
    Up,
    Down,
    Select,
}

/// Classifies one held duration, in milliseconds: shorter than the minimum
/// threshold is spurious (`None`), otherwise below the long threshold is a
/// short press (`Some(false)`), and at or above it a long press
/// (`Some(true)`).
pub open spec fn classify(min_ms: u64, long_ms: u64, held_ms: u64) -> Option<bool> {
    if held_ms < min_ms {
        None
    } else if held_ms < long_ms {
        Some(false)
    } else {
        Some(true)
    }
}

/// The event a button press maps to before the flip is applied.
pub open spec fn base_event(b: Button, long: bool) -> Event {
    match b {
        Button::Up => if long {
            Event::UpLong
        } else {
            Event::Up
        },
        Button::Down => if long {
            Event::DownLong
        } else {
            Event::Down
        },
        Button::Select => if long {
            Event::SelectLong
        } else {
            Event::Select
        },
    }
}

/// The global flip swaps the up and down roles (and their long variants)
/// after classification; select is never affected.
pub open spec fn flip_event(e: Event, flipped: bool) -> Event {
    if !flipped {
        e
    } else {
        match e {
            Event::Up => Event::Down,
            Event::Down => Event::Up,
            Event::UpLong => Event::DownLong,
            Event::DownLong => Event::UpLong,
            other => other,
        }
    }
}

/// What a release at `now_ms` of a press started at `t` produces.
pub open spec fn release_event(
    min_ms: u64,
    long_ms: u64,
    flipped: bool,
    b: Button,
    t: u64,
    now_ms: u64,
) -> Option<Event> {
    let held: u64 = if now_ms >= t {
        (now_ms - t) as u64
    } else {
        0u64
    };
    match classify(min_ms, long_ms, held) {
        None => None,
        Some(long) => Some(flip_event(base_event(b, long), flipped)),
    }
}

/// One independent press/release state machine per button, classifying raw
/// switch edges into discrete events under the configured thresholds.
pub struct Controller {
    pub min_press_ms: u64,
    pub long_press_ms: u64,
    pub up_started: Option<u64>,
    pub down_started: Option<u64>,
    pub select_started: Option<u64>,
    pub flipped: bool,
}

impl Controller {
    /// The pending press timestamp of one button.
    pub open spec fn started_of(&self, b: Button) -> Option<u64> {
        match b {
            Button::Up => self.up_started,
            Button::Down => self.down_started,
            Button::Select => self.select_started,
        }
    }

    /// A controller with the configured thresholds, no press pending on
    /// any button, and the flip off.
    pub fn new(config: &Config) -> (r: Controller)
        ensures
            r.min_press_ms == config.ui.min_button_press_ms,
            r.long_press_ms == config.ui.button_long_press_ms,
            r.up_started is None,
            r.down_started is None,
            r.select_started is None,
            !r.flipped,
    {
        Controller {
            min_press_ms: config.ui.min_button_press_ms,
            long_press_ms: config.ui.button_long_press_ms,
            up_started: None,
            down_started: None,
            select_started: None,
            flipped: false,
        }
    }

    /// Toggles the global axis flip; nothing else changes.
    pub fn flip_controls(&mut self)
        ensures
            final(self).flipped == !old(self).flipped,
            final(self).min_press_ms == old(self).min_press_ms,
            final(self).long_press_ms == old(self).long_press_ms,
            final(self).up_started == old(self).up_started,
            final(self).down_started == old(self).down_started,
            final(self).select_started == old(self).select_started,
    {
        self.flipped = !self.flipped;
    }

    /// Feeds one raw switch edge (`pressed` true for the press edge, false
    /// for the release edge) observed at `now_ms`.  A press records its
    /// timestamp and emits nothing; a release with a matching press
    /// classifies the held duration and emits at most one event; a release
    /// with no matching press is dropped.
    pub fn handle_edge(&mut self, button: Button, pressed: bool, now_ms: u64) -> (r: Option<
        Event,
    >)
        ensures
            final(self).min_press_ms == old(self).min_press_ms,
            final(self).long_press_ms == old(self).long_press_ms,
            final(self).flipped == old(self).flipped,
            forall|b2: Button| b2 != button ==> final(self).started_of(b2) == old(
                self,
            ).started_of(b2),
            pressed ==> r is None,
            pressed ==> final(self).started_of(button) == (match old(self).started_of(button) {
                Some(t) => Some(t),
                None => Some(now_ms),
            }),
            !pressed ==> final(self).started_of(button) is None,
            !pressed ==> r == (match old(self).started_of(button) {
                None => None::<Event>,
                Some(t) => release_event(
                    old(self).min_press_ms,
                    old(self).long_press_ms,
                    old(self).flipped,
                    button,
                    t,
                    now_ms,
                ),
            }),
    {
        let started = match button {
            Button::Up => self.up_started,
            Button::Down => self.down_started,
            Button::Select => self.select_started,
        };
        if pressed {
            let new_started = match started {
                Some(t) => Some(t),
                None => Some(now_ms),
            };
            match button {
                Button::Up => {
                    self.up_started = new_started;
                },
                Button::Down => {
                    self.down_started = new_started;
                },
                Button::Select => {
                    self.select_started = new_started;
                },
            }
            None
        } else {
            match button {
                Button::Up => {
                    self.up_started = None;
                },
                Button::Down => {
                    self.down_started = None;
                },
                Button::Select => {
                    self.select_started = None;
                },
            }
            match started {
                None => None,
                Some(t) => {
                    let held: u64 = if now_ms >= t {
                        now_ms - t
                    } else {
                        0
                    };
                    if held < self.min_press_ms {
                        None
                    } else {
                        let long = held >= self.long_press_ms;
                        let base = match button {
                            Button::Up => if long {
                                Event::UpLong
                            } else {
                                Event::Up
                            },
                            Button::Down => if long {
                                Event::DownLong
                            } else {
                                Event::Down
                            },
                            Button::Select => if long {
                                Event::SelectLong
                            } else {
                                Event::Select
                            },
                        };
                        if self.flipped {
                            Some(
                                match base {
                                    Event::Up => Event::Down,
                                    Event::Down => Event::Up,
                                    Event::UpLong => Event::DownLong,
                                    Event::DownLong => Event::UpLong,
                                    other => other,
                                },
                            )
                        } else {
                            Some(base)
                        }
                    }
                },
            }
        }
    }
}

/// A press held for `held_ms` produces exactly one event when the duration
/// reaches the minimum threshold, and none otherwise; the event is the
/// long variant exactly when the duration reaches the long threshold.
pub proof fn lemma_one_event_per_cycle(
    min_ms: u64,
    long_ms: u64,
    flipped: bool,
    b: Button,
    t: u64,
    now_ms: u64,
)
    requires
        t <= now_ms,
    ensures
        release_event(min_ms, long_ms, flipped, b, t, now_ms) is Some <==> now_ms - t >= min_ms,
        now_ms - t >= long_ms && now_ms - t >= min_ms ==> release_event(
            min_ms,
            long_ms,
            flipped,
            b,
            t,
            now_ms,
        ) == Some(flip_event(base_event(b, true), flipped)),
        min_ms <= now_ms - t < long_ms ==> release_event(
            min_ms,
            long_ms,
            flipped,
            b,
            t,
            now_ms,
        ) == Some(flip_event(base_event(b, false), flipped)),
{
}

} // verus!
