//! The debounce monitor of one button, as a state machine.
//!
//! The monitor never blocks by itself. It says what it is waiting for
//! ([`Monitor::awaiting`]); whoever drives it performs that wait and reports
//! what happened on the line with [`Monitor::step`]. Signals that arrive
//! while the monitor is not armed for them are contact chatter and change
//! nothing.

use vstd::prelude::*;
use crate::event::{ButtonEvent, Mode};

verus! {

/// Length of the quiet interval that follows every confirmed edge.
pub const QUIET_INTERVAL_MS: u64 = 50;

/// Where a monitor stands in its cycle.
#[derive(Clone, Copy, Debug, PartialEq, Eq, Structural)]
pub enum Phase {
    /// Released and stable: the next rising edge counts as a press.
    ArmedForPress,
    /// A press was confirmed; its quiet interval is running.
    DebouncingPressed,
    /// Pressed and stable: the next falling edge counts as a release.
    ArmedForRelease,
    /// A release was confirmed; its quiet interval is running.
    DebouncingReleased,
}

/// What may happen on the input line of a monitor.
#[derive(Clone, Copy, Debug, PartialEq, Eq, Structural)]
pub enum Signal {
    /// The level went from low to high.
    RisingEdge,
    /// The level went from high to low.
    FallingEdge,
    /// The quiet interval that the monitor asked for has elapsed.
    QuietElapsed,
}

/// What a monitor is suspended on.
#[derive(Clone, Copy, Debug, PartialEq, Eq, Structural)]
pub enum Wait {
    /// Until the level goes from low to high.
    RisingEdge,
    /// Until the level goes from high to low.
    FallingEdge,
    /// For this many milliseconds.
    Quiet { millis: u64 },
}

/// The debounce monitor of one button.
#[derive(Clone, Copy, Debug, PartialEq, Eq, Structural)]
pub struct Monitor {
    /// The button that is watched.
    pub button: u8,
    /// Its emission policy, fixed when the monitor is made.
    pub mode: Mode,
    /// The current phase of the cycle.
    pub phase: Phase,
}

/// The phase that follows `phase` when `signal` arrives.
pub open spec fn next_phase(phase: Phase, signal: Signal) -> Phase {
    match (phase, signal) {
        (Phase::ArmedForPress, Signal::RisingEdge) => Phase::DebouncingPressed,
        (Phase::DebouncingPressed, Signal::QuietElapsed) => Phase::ArmedForRelease,
        (Phase::ArmedForRelease, Signal::FallingEdge) => Phase::DebouncingReleased,
        (Phase::DebouncingReleased, Signal::QuietElapsed) => Phase::ArmedForPress,
        _ => phase,
    }
}

/// The event, if any, that a monitor of `button` in `mode` emits when
/// `signal` arrives in `phase`.
pub open spec fn emission(
    button: u8,
    mode: Mode,
    phase: Phase,
    signal: Signal,
) -> Option<ButtonEvent> {
    match (phase, signal, mode) {
        (Phase::ArmedForPress, Signal::RisingEdge, Mode::Momentary) => Some(
            ButtonEvent::MomentaryPressed { button },
        ),
        (Phase::ArmedForRelease, Signal::FallingEdge, Mode::Momentary) => Some(
            ButtonEvent::MomentaryReleased { button },
        ),
        (Phase::ArmedForRelease, Signal::FallingEdge, Mode::Scene { .. }) => Some(
            ButtonEvent::ScenePressed { button },
        ),
        _ => None,
    }
}

/// `events`, with `emitted` behind it where there is one.
pub open spec fn with_emission(
    events: Seq<ButtonEvent>,
    emitted: Option<ButtonEvent>,
) -> Seq<ButtonEvent> {
    match emitted {
        Some(e) => events.push(e),
        None => events,
    }
}

/// Whether every signal of `signals` is an edge of the raw level.
pub open spec fn only_edges(signals: Seq<Signal>) -> bool {
    forall|i: int| 0 <= i < signals.len() ==> #[trigger] signals[i] != Signal::QuietElapsed
}

/// Whether no signal of `signals` is a falling edge.
pub open spec fn never_falls(signals: Seq<Signal>) -> bool {
    forall|i: int| 0 <= i < signals.len() ==> #[trigger] signals[i] != Signal::FallingEdge
}

impl Monitor {
    /// The monitor after `signal`.
    pub open spec fn spec_step(self, signal: Signal) -> Monitor {
        Monitor { button: self.button, mode: self.mode, phase: next_phase(self.phase, signal) }
    }

    /// What the monitor emits on `signal`.
    pub open spec fn spec_emit(self, signal: Signal) -> Option<ButtonEvent> {
        emission(self.button, self.mode, self.phase, signal)
    }

    /// The monitor after all of `signals`, in order.
    pub open spec fn after(self, signals: Seq<Signal>) -> Monitor
        decreases signals.len(),
    {
        if signals.len() == 0 {
            self
        } else {
            self.after(signals.drop_last()).spec_step(signals.last())
        }
    }

    /// Everything the monitor emits over `signals`, in order.
    pub open spec fn emitted(self, signals: Seq<Signal>) -> Seq<ButtonEvent>
        decreases signals.len(),
    {
        if signals.len() == 0 {
            Seq::empty()
        } else {
            with_emission(
                self.emitted(signals.drop_last()),
                self.after(signals.drop_last()).spec_emit(signals.last()),
            )
        }
    }

    /// The last level that the monitor took as authoritative.
    pub open spec fn spec_stable_level(self) -> bool {
        self.phase == Phase::DebouncingPressed || self.phase == Phase::ArmedForRelease
    }

    /// What the monitor is suspended on.
    pub open spec fn spec_awaiting(self) -> Wait {
        match self.phase {
            Phase::ArmedForPress => Wait::RisingEdge,
            Phase::ArmedForRelease => Wait::FallingEdge,
            Phase::DebouncingPressed => Wait::Quiet { millis: QUIET_INTERVAL_MS },
            Phase::DebouncingReleased => Wait::Quiet { millis: QUIET_INTERVAL_MS },
        }
    }

    /// A monitor for `button`, released and armed for a press.
    pub fn new(button: u8, mode: Mode) -> (m: Monitor)
        ensures
            m == (Monitor { button, mode, phase: Phase::ArmedForPress }),
    {
        Monitor { button, mode, phase: Phase::ArmedForPress }
    }

    /// The last level that the monitor took as authoritative: `true` from a
    /// confirmed press until the release that follows it is confirmed.
    pub fn stable_level(&self) -> (level: bool)
        ensures
            level == self.spec_stable_level(),
    {
        match self.phase {
            Phase::DebouncingPressed => true,
            Phase::ArmedForRelease => true,
            _ => false,
        }
    }

    /// What the driver has to wait for before the next call of `step`.
    pub fn awaiting(&self) -> (w: Wait)
        ensures
            w == self.spec_awaiting(),
    {
        match self.phase {
            Phase::ArmedForPress => Wait::RisingEdge,
            Phase::ArmedForRelease => Wait::FallingEdge,
            Phase::DebouncingPressed => Wait::Quiet { millis: QUIET_INTERVAL_MS },
            Phase::DebouncingReleased => Wait::Quiet { millis: QUIET_INTERVAL_MS },
        }
    }

    /// Takes one signal: moves to the next phase and hands out the event to
    /// send, if the signal is a confirmed edge that the mode reports.
    pub fn step(&mut self, signal: Signal) -> (event: Option<ButtonEvent>)
        ensures
            *final(self) == old(self).spec_step(signal),
            event == old(self).spec_emit(signal),
    {
        let button: u8 = self.button;
        match (self.phase, signal) {
            (Phase::ArmedForPress, Signal::RisingEdge) => {
                self.phase = Phase::DebouncingPressed;
                match self.mode {
                    Mode::Momentary => Some(ButtonEvent::MomentaryPressed { button }),
                    Mode::Scene { .. } => None,
                }
            },
            (Phase::DebouncingPressed, Signal::QuietElapsed) => {
                self.phase = Phase::ArmedForRelease;
                None
            },
            (Phase::ArmedForRelease, Signal::FallingEdge) => {
                self.phase = Phase::DebouncingReleased;
                match self.mode {
                    Mode::Momentary => Some(ButtonEvent::MomentaryReleased { button }),
                    Mode::Scene { .. } => Some(ButtonEvent::ScenePressed { button }),
                }
            },
            (Phase::DebouncingReleased, Signal::QuietElapsed) => {
                self.phase = Phase::ArmedForPress;
                None
            },
            _ => None,
        }
    }

    /// Takes a whole trace of signals and collects what is emitted.
    pub fn feed(&mut self, signals: &Vec<Signal>) -> (events: Vec<ButtonEvent>)
        ensures
            *final(self) == old(self).after(signals@),
            events@ == old(self).emitted(signals@),
    {
        let mut events: Vec<ButtonEvent> = Vec::new();
        let mut i: usize = 0;
        while i < signals.len()
            invariant
                i <= signals.len(),
                *self == old(self).after(signals@.take(i as int)),
                events@ == old(self).emitted(signals@.take(i as int)),
            decreases signals.len() - i,
        {
            proof {
                assert(signals@.take(i + 1).drop_last() =~= signals@.take(i as int));
            }
            match self.step(signals[i]) {
                Some(e) => {
                    events.push(e);
                },
                None => {},
            }
            i += 1;
        }
        proof {
            assert(signals@.take(signals.len() as int) =~= signals@);
        }
        events
    }
}

/// The gesture of one press and one release: the rising edge, the chatter
/// that follows it, the end of the quiet interval, then the same for the
/// falling edge.
pub open spec fn tap(press_chatter: Seq<Signal>, release_chatter: Seq<Signal>) -> Seq<Signal> {
    seq![Signal::RisingEdge] + press_chatter + seq![Signal::QuietElapsed, Signal::FallingEdge]
        + release_chatter + seq![Signal::QuietElapsed]
}

/// Running a monitor over one trace and then over another is running it
/// over the two joined.
pub proof fn lemma_traces_join(m: Monitor, first: Seq<Signal>, second: Seq<Signal>)
    ensures
        m.after(first + second) == m.after(first).after(second),
        m.emitted(first + second) == m.emitted(first) + m.after(first).emitted(second),
    decreases second.len(),
{
    if second.len() == 0 {
        assert(first + second =~= first);
        assert(m.emitted(first) + Seq::<ButtonEvent>::empty() =~= m.emitted(first));
    } else {
        lemma_traces_join(m, first, second.drop_last());
        assert((first + second).drop_last() =~= first + second.drop_last());
        assert((first + second).last() == second.last());
        let e = m.after(first + second.drop_last()).spec_emit(second.last());
        assert(with_emission(
            m.emitted(first) + m.after(first).emitted(second.drop_last()),
            e,
        ) =~= m.emitted(first) + with_emission(m.after(first).emitted(second.drop_last()), e));
    }
}

/// A monitor taken over a single signal.
pub proof fn lemma_single_signal(m: Monitor, signal: Signal)
    ensures
        m.after(seq![signal]) == m.spec_step(signal),
        m.emitted(seq![signal]) == with_emission(Seq::empty(), m.spec_emit(signal)),
{
    let s = seq![signal];
    assert(s.drop_last() =~= Seq::<Signal>::empty());
    assert(s.last() == signal);
    assert(m.after(s.drop_last()) == m);
    assert(m.emitted(s.drop_last()) =~= Seq::<ButtonEvent>::empty());
}

/// Debounce: while a quiet interval runs, edges of the raw level, however
/// many, neither move the monitor nor make it emit anything.
pub proof fn law_chatter_is_absorbed(m: Monitor, chatter: Seq<Signal>)
    requires
        m.phase == Phase::DebouncingPressed || m.phase == Phase::DebouncingReleased,
        only_edges(chatter),
    ensures
        m.after(chatter) == m,
        m.emitted(chatter) == Seq::<ButtonEvent>::empty(),
    decreases chatter.len(),
{
    if chatter.len() > 0 {
        assert(chatter.last() == chatter[chatter.len() - 1]);
        assert forall|i: int| 0 <= i < chatter.drop_last().len() implies #[trigger] chatter.drop_last()[i]
            != Signal::QuietElapsed by {
            assert(chatter.drop_last()[i] == chatter[i]);
        }
        law_chatter_is_absorbed(m, chatter.drop_last());
    }
}

/// What a monitor that is armed for a press does over one tap: it emits
/// what the confirmed rising edge and the confirmed falling edge give, the
/// chatter gives nothing, and the monitor is armed for a press again.
pub proof fn lemma_tap(m: Monitor, press_chatter: Seq<Signal>, release_chatter: Seq<Signal>)
    requires
        m.phase == Phase::ArmedForPress,
        only_edges(press_chatter),
        only_edges(release_chatter),
    ensures
        m.after(tap(press_chatter, release_chatter)) == m,
        m.emitted(tap(press_chatter, release_chatter)) == with_emission(
            with_emission(Seq::empty(), m.spec_emit(Signal::RisingEdge)),
            emission(m.button, m.mode, Phase::ArmedForRelease, Signal::FallingEdge),
        ),
{
    let a = seq![Signal::RisingEdge];
    let c = seq![Signal::QuietElapsed, Signal::FallingEdge];
    let c1 = seq![Signal::QuietElapsed];
    let c2 = seq![Signal::FallingEdge];
    assert(c =~= c1 + c2);
    let m1 = m.spec_step(Signal::RisingEdge);
    let m2 = m1.spec_step(Signal::QuietElapsed);
    let m3 = m2.spec_step(Signal::FallingEdge);
    lemma_single_signal(m, Signal::RisingEdge);
    law_chatter_is_absorbed(m1, press_chatter);
    lemma_traces_join(m, a, press_chatter);
    lemma_single_signal(m1, Signal::QuietElapsed);
    lemma_single_signal(m2, Signal::FallingEdge);
    lemma_traces_join(m1, c1, c2);
    lemma_traces_join(m, a + press_chatter, c);
    law_chatter_is_absorbed(m3, release_chatter);
    lemma_traces_join(m, a + press_chatter + c, release_chatter);
    lemma_single_signal(m3, Signal::QuietElapsed);
    lemma_traces_join(m, a + press_chatter + c + release_chatter, c1);
    assert(m.emitted(a + press_chatter) =~= m.emitted(a));
    assert(m.emitted(a + press_chatter + c) =~= m.emitted(a) + m1.emitted(c));
    assert(m1.emitted(c) =~= m1.emitted(c1) + m2.emitted(c2));
    assert(m.emitted(a + press_chatter + c + release_chatter) =~= m.emitted(a) + m1.emitted(c));
    assert(m.emitted(tap(press_chatter, release_chatter)) =~= m.emitted(a) + m2.emitted(c2));
}

/// A Momentary button that is pressed and released once emits exactly a
/// press and then a release, whatever chatter follows either edge, and its
/// monitor is then armed for the next press.
pub proof fn law_momentary_tap(m: Monitor, press_chatter: Seq<Signal>, release_chatter: Seq<Signal>)
    requires
        m.mode is Momentary,
        m.phase == Phase::ArmedForPress,
        only_edges(press_chatter),
        only_edges(release_chatter),
    ensures
        m.emitted(tap(press_chatter, release_chatter)) == seq![
            ButtonEvent::MomentaryPressed { button: m.button },
            ButtonEvent::MomentaryReleased { button: m.button },
        ],
        m.after(tap(press_chatter, release_chatter)) == m,
{
    lemma_tap(m, press_chatter, release_chatter);
    assert(m.emitted(tap(press_chatter, release_chatter)) =~= seq![
        ButtonEvent::MomentaryPressed { button: m.button },
        ButtonEvent::MomentaryReleased { button: m.button },
    ]);
}

/// The events of a Momentary button are never out of step: whatever
/// arrives on the line, what its monitor emits from rest is a press, then a
/// release, then a press, and so on, and the monitor holds the level high
/// exactly when the last event was a press.
pub proof fn law_momentary_alternates(m: Monitor, signals: Seq<Signal>)
    requires
        m.mode is Momentary,
        m.phase == Phase::ArmedForPress,
    ensures
        forall|i: int|
            0 <= i < m.emitted(signals).len() ==> #[trigger] m.emitted(signals)[i] == if i % 2
                == 0 {
                ButtonEvent::MomentaryPressed { button: m.button }
            } else {
                ButtonEvent::MomentaryReleased { button: m.button }
            },
        m.after(signals).spec_stable_level() == (m.emitted(signals).len() % 2 == 1),
    decreases signals.len(),
{
    if signals.len() > 0 {
        law_momentary_alternates(m, signals.drop_last());
        lemma_mode_is_fixed(m, signals.drop_last());
    }
}

/// A Scene button that is pressed and released once emits exactly one
/// activation, whatever chatter follows either edge, and its monitor is
/// then armed for the next press.
pub proof fn law_scene_tap(m: Monitor, press_chatter: Seq<Signal>, release_chatter: Seq<Signal>)
    requires
        m.mode is Scene,
        m.phase == Phase::ArmedForPress,
        only_edges(press_chatter),
        only_edges(release_chatter),
    ensures
        m.emitted(tap(press_chatter, release_chatter)) == seq![
            ButtonEvent::ScenePressed { button: m.button },
        ],
        m.after(tap(press_chatter, release_chatter)) == m,
{
    lemma_tap(m, press_chatter, release_chatter);
    assert(m.emitted(tap(press_chatter, release_chatter)) =~= seq![
        ButtonEvent::ScenePressed { button: m.button },
    ]);
}

/// A Scene button that is never released emits nothing, in whatever phase
/// its monitor starts and however long it is held.
pub proof fn law_scene_hold_is_silent(m: Monitor, signals: Seq<Signal>)
    requires
        m.mode is Scene,
        never_falls(signals),
    ensures
        m.emitted(signals) == Seq::<ButtonEvent>::empty(),
    decreases signals.len(),
{
    if signals.len() > 0 {
        assert(signals.last() == signals[signals.len() - 1]);
        assert forall|i: int| 0 <= i < signals.drop_last().len() implies #[trigger] signals.drop_last()[i]
            != Signal::FallingEdge by {
            assert(signals.drop_last()[i] == signals[i]);
        }
        law_scene_hold_is_silent(m, signals.drop_last());
        lemma_mode_is_fixed(m, signals.drop_last());
    }
}

/// A monitor keeps its button and its mode over every trace.
pub proof fn lemma_mode_is_fixed(m: Monitor, signals: Seq<Signal>)
    ensures
        m.after(signals).button == m.button,
        m.after(signals).mode == m.mode,
    decreases signals.len(),
{
    if signals.len() > 0 {
        lemma_mode_is_fixed(m, signals.drop_last());
    }
}

} // verus!
