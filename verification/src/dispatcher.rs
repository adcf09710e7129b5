//! The indicator dispatcher: sole owner of the indicator bank, and the
//! update rule that each button event applies to it.

use vstd::prelude::*;
use crate::channel::EventChannel;
use crate::config::{bindings_distinct, binding_repeats_at, ConfigError, IndicatorEntry, ModeTable};
use crate::event::{ButtonEvent, Mode};

verus! {

/// Whether the indicator at `i` is bound to `button`.
pub open spec fn bound_at(entries: Seq<IndicatorEntry>, i: int, button: u8) -> bool {
    0 <= i < entries.len() && entries[i].button == Some(button)
}

/// The indicator that is bound to `button`, if there is one.
pub open spec fn slot_of(entries: Seq<IndicatorEntry>, button: u8) -> Option<int> {
    if exists|i: int| bound_at(entries, i, button) {
        Some(choose|i: int| bound_at(entries, i, button))
    } else {
        None
    }
}

/// The bank after the indicator at `k` was activated in Scene group
/// `group`: of the group's members it alone is lit; the rest of the bank is
/// as before.
pub open spec fn scene_activated(
    entries: Seq<IndicatorEntry>,
    lit: Seq<bool>,
    group: u8,
    k: int,
) -> Seq<bool> {
    Seq::new(
        lit.len(),
        |i: int|
            if entries[i].mode == (Mode::Scene { group }) {
                i == k
            } else {
                lit[i]
            },
    )
}

/// The bank after `event`.
///
/// An event whose button is bound to no indicator, or to one of the other
/// kind of mode, changes nothing.
pub open spec fn next_lit(
    entries: Seq<IndicatorEntry>,
    lit: Seq<bool>,
    event: ButtonEvent,
) -> Seq<bool> {
    match slot_of(entries, event.spec_button()) {
        None => lit,
        Some(k) => match (event, entries[k].mode) {
            (ButtonEvent::ScenePressed { .. }, Mode::Scene { group }) => scene_activated(
                entries,
                lit,
                group,
                k,
            ),
            (ButtonEvent::MomentaryPressed { .. }, Mode::Momentary) => lit.update(k, true),
            (ButtonEvent::MomentaryReleased { .. }, Mode::Momentary) => lit.update(k, false),
            _ => lit,
        },
    }
}

/// The bank after all of `events`, in order.
pub open spec fn replay(
    entries: Seq<IndicatorEntry>,
    lit: Seq<bool>,
    events: Seq<ButtonEvent>,
) -> Seq<bool>
    decreases events.len(),
{
    if events.len() == 0 {
        lit
    } else {
        next_lit(entries, replay(entries, lit, events.drop_last()), events.last())
    }
}

/// In every Scene group at most one indicator is lit.
pub open spec fn exclusive(entries: Seq<IndicatorEntry>, lit: Seq<bool>) -> bool {
    forall|i: int, j: int|
        0 <= i < lit.len() && 0 <= j < lit.len() && i != j && entries[i].mode is Scene
            && entries[i].mode == entries[j].mode && #[trigger] lit[i] ==> !#[trigger] lit[j]
}

/// Writes one flag of a bank.
fn put(bank: &mut Vec<bool>, i: usize, flag: bool)
    requires
        i < old(bank)@.len(),
    ensures
        final(bank)@ == old(bank)@.update(i as int, flag),
    no_unwind
{
    bank[i] = flag;
}

/// The single consumer of button events.
#[derive(Debug)]
pub struct Dispatcher {
    entries: Vec<IndicatorEntry>,
    lit: Vec<bool>,
}

impl View for Dispatcher {
    type V = Seq<bool>;

    /// The indicator bank: one lit flag per indicator.
    closed spec fn view(&self) -> Seq<bool> {
        self.lit@
    }
}

impl Dispatcher {
    /// The indicator entries that the dispatcher was made with.
    pub closed spec fn bindings(&self) -> Seq<IndicatorEntry> {
        self.entries@
    }

    /// Kept by every operation, and checked wherever a dispatcher is made
    /// or changed.
    #[verifier::type_invariant]
    spec fn inv(self) -> bool {
        &&& self.lit@.len() == self.entries@.len()
        &&& bindings_distinct(self.entries@)
        &&& exclusive(self.entries@, self.lit@)
    }

    /// What holds of a dispatcher at all times: one flag per indicator, no
    /// button bound twice, and at most one indicator lit per Scene group.
    pub open spec fn wf(&self) -> bool {
        &&& self@.len() == self.bindings().len()
        &&& bindings_distinct(self.bindings())
        &&& exclusive(self.bindings(), self@)
    }

    /// A dispatcher for a valid table, with every indicator unlit. A table
    /// that is not valid is refused with its first fault.
    pub fn new(table: ModeTable) -> (r: Result<Dispatcher, ConfigError>)
        ensures
            match r {
                Ok(d) => {
                    &&& table.valid()
                    &&& d.wf()
                    &&& d.bindings() == table.indicators@
                    &&& d@ == Seq::new(table.indicators@.len(), |i: int| false)
                },
                Err(e) => table.first_fault(e) && !table.valid(),
            },
    {
        match table.validate() {
            Err(e) => {
                return Err(e);
            },
            Ok(_) => {},
        }
        let mut lit: Vec<bool> = Vec::new();
        let mut i: usize = 0;
        while i < table.indicators.len()
            invariant
                i <= table.indicators.len(),
                lit@.len() == i,
                forall|h: int| 0 <= h < i ==> !#[trigger] lit@[h],
            decreases table.indicators.len() - i,
        {
            lit.push(false);
            i += 1;
        }
        proof {
            assert(lit@ =~= Seq::new(table.indicators@.len(), |i: int| false));
        }
        Ok(Dispatcher { entries: table.indicators, lit })
    }

    /// The number of indicators.
    pub fn len(&self) -> (n: usize)
        ensures
            n == self@.len(),
    {
        self.lit.len()
    }

    /// Whether the indicator at `i` is lit.
    pub fn is_lit(&self, i: usize) -> (lit: bool)
        requires
            i < self@.len(),
        ensures
            lit == self@[i as int],
    {
        self.lit[i]
    }

    /// The position of the indicator that is bound to `button`.
    fn find_slot(&self, button: u8) -> (found: Option<usize>)
        ensures
            match found {
                Some(k) => slot_of(self.bindings(), button) == Some(k as int) && k < self@.len(),
                None => slot_of(self.bindings(), button) is None,
            },
    {
        proof {
            use_type_invariant(self);
        }
        let mut i: usize = 0;
        while i < self.entries.len()
            invariant
                i <= self.entries.len(),
                self.wf(),
                forall|h: int| 0 <= h < i ==> !bound_at(self.entries@, h, button),
            decreases self.entries.len() - i,
        {
            match self.entries[i].button {
                Some(b) => {
                    if b == button {
                        proof {
                            lemma_slot_is_unique(self.entries@, button, i as int);
                        }
                        return Some(i);
                    }
                },
                None => {},
            }
            i += 1;
        }
        None
    }

    /// Applies one event to the bank.
    ///
    /// `ScenePressed` lights the Scene indicator bound to the button and
    /// clears the other members of its group; `MomentaryPressed` and
    /// `MomentaryReleased` light and clear the Momentary indicator bound to
    /// the button. An event for a button without such an indicator is
    /// ignored.
    pub fn dispatch(&mut self, event: ButtonEvent)
        ensures
            final(self).wf(),
            final(self).bindings() == old(self).bindings(),
            final(self)@ == next_lit(old(self).bindings(), old(self)@, event),
    {
        proof {
            use_type_invariant(&*self);
            law_exclusion_is_kept(self.entries@, self.lit@, event);
        }
        let k: usize = match self.find_slot(event.button()) {
            Some(k) => k,
            None => {
                return ;
            },
        };
        match (event, self.entries[k].mode) {
            (ButtonEvent::ScenePressed { .. }, Mode::Scene { group }) => {
                // Clear the whole group first, then light the one member:
                // at no point are two of them lit.
                let ghost before = self.lit@;
                let mut i: usize = 0;
                while i < self.lit.len()
                    invariant
                        i <= self.lit.len(),
                        k < self.lit.len(),
                        self.lit@.len() == before.len(),
                        self.entries@ == old(self).entries@,
                        self.entries@.len() == before.len(),
                        forall|h: int|
                            0 <= h < before.len() ==> #[trigger] self.lit@[h] == if h < i
                                && self.entries@[h].mode == (Mode::Scene { group }) {
                                false
                            } else {
                                before[h]
                            },
                    decreases self.lit.len() - i,
                {
                    proof {
                        use_type_invariant(&*self);
                    }
                    match self.entries[i].mode {
                        Mode::Scene { group: g } => {
                            if g == group {
                                put(&mut self.lit, i, false);
                            }
                        },
                        Mode::Momentary => {},
                    }
                    i += 1;
                }
                proof {
                    use_type_invariant(&*self);
                }
                put(&mut self.lit, k, true);
                proof {
                    assert(self.lit@ =~= scene_activated(self.entries@, before, group, k as int));
                }
            },
            (ButtonEvent::MomentaryPressed { .. }, Mode::Momentary) => {
                put(&mut self.lit, k, true);
            },
            (ButtonEvent::MomentaryReleased { .. }, Mode::Momentary) => {
                put(&mut self.lit, k, false);
            },
            _ => {},
        }
    }

    /// Applies a run of events, in order.
    pub fn dispatch_all(&mut self, events: &Vec<ButtonEvent>)
        ensures
            final(self).wf(),
            final(self).bindings() == old(self).bindings(),
            final(self)@ == replay(old(self).bindings(), old(self)@, events@),
    {
        proof {
            use_type_invariant(&*self);
        }
        let mut i: usize = 0;
        while i < events.len()
            invariant
                i <= events.len(),
                self.wf(),
                self.bindings() == old(self).bindings(),
                self@ == replay(old(self).bindings(), old(self)@, events@.take(i as int)),
            decreases events.len() - i,
        {
            proof {
                assert(events@.take(i + 1).drop_last() =~= events@.take(i as int));
            }
            self.dispatch(events[i]);
            i += 1;
        }
        proof {
            assert(events@.take(events.len() as int) =~= events@);
        }
    }

    /// Takes every waiting event out of `channel`, oldest first, and
    /// applies each to the bank. Returns how many there were.
    pub fn drain(&mut self, channel: &mut EventChannel) -> (taken: usize)
        ensures
            final(self).wf(),
            final(self).bindings() == old(self).bindings(),
            final(self)@ == replay(old(self).bindings(), old(self)@, old(channel)@),
            final(channel)@ == Seq::<ButtonEvent>::empty(),
            taken == old(channel)@.len(),
    {
        proof {
            use_type_invariant(&*self);
        }
        let waiting: usize = channel.len();
        let ghost mut done: Seq<ButtonEvent> = Seq::empty();
        let mut taken: usize = 0;
        proof {
            assert(done + channel@ =~= old(channel)@);
        }
        while taken < waiting
            invariant
                self.wf(),
                self.bindings() == old(self).bindings(),
                taken <= waiting,
                waiting == old(channel)@.len(),
                done.len() == taken,
                done + channel@ == old(channel)@,
                self@ == replay(old(self).bindings(), old(self)@, done),
            decreases waiting - taken,
        {
            let ghost before = channel@;
            match channel.try_receive() {
                Some(event) => {
                    self.dispatch(event);
                    proof {
                        assert(done.push(event).drop_last() =~= done);
                        assert(done.push(event) + channel@ =~= done + before);
                        done = done.push(event);
                    }
                },
                None => {
                    proof {
                        assert((done + before).len() == done.len() + before.len());
                    }
                },
            }
            taken += 1;
        }
        proof {
            assert((done + channel@).len() == done.len() + channel@.len());
            assert(channel@ =~= Seq::<ButtonEvent>::empty());
            assert(done + channel@ =~= done);
        }
        taken
    }
}

/// Replaying one run of events and then another is replaying the two
/// joined.
pub proof fn lemma_replay_join(
    entries: Seq<IndicatorEntry>,
    lit: Seq<bool>,
    first: Seq<ButtonEvent>,
    second: Seq<ButtonEvent>,
)
    ensures
        replay(entries, lit, first + second) == replay(
            entries,
            replay(entries, lit, first),
            second,
        ),
    decreases second.len(),
{
    if second.len() == 0 {
        assert(first + second =~= first);
    } else {
        lemma_replay_join(entries, lit, first, second.drop_last());
        assert((first + second).drop_last() =~= first + second.drop_last());
        assert((first + second).last() == second.last());
    }
}

/// With no button bound twice, the indicator bound to a button is the only
/// one.
pub proof fn lemma_slot_is_unique(entries: Seq<IndicatorEntry>, button: u8, k: int)
    requires
        bindings_distinct(entries),
        bound_at(entries, k, button),
    ensures
        slot_of(entries, button) == Some(k),
{
    let c = choose|i: int| bound_at(entries, i, button);
    if c < k {
        assert(entries[c].button == entries[k].button);
        assert(binding_repeats_at(entries, k));
    } else if k < c {
        assert(entries[k].button == entries[c].button);
        assert(binding_repeats_at(entries, c));
    }
}

/// Mutual exclusion is an invariant of the update rule: if at most one
/// indicator is lit in every Scene group before an event, the same holds
/// after it, whatever the event.
pub proof fn law_exclusion_is_kept(entries: Seq<IndicatorEntry>, lit: Seq<bool>, event: ButtonEvent)
    requires
        entries.len() == lit.len(),
        exclusive(entries, lit),
    ensures
        next_lit(entries, lit, event).len() == lit.len(),
        exclusive(entries, next_lit(entries, lit, event)),
{
}

/// Mutual exclusion holds at all times: from a bank with every indicator
/// unlit, whatever events arrive and in whatever order, no Scene group ever
/// has two indicators lit.
pub proof fn law_exclusion_holds_always(entries: Seq<IndicatorEntry>, events: Seq<ButtonEvent>)
    ensures
        replay(entries, Seq::new(entries.len(), |i: int| false), events).len() == entries.len(),
        exclusive(entries, replay(entries, Seq::new(entries.len(), |i: int| false), events)),
    decreases events.len(),
{
    let unlit = Seq::new(entries.len(), |i: int| false);
    if events.len() > 0 {
        law_exclusion_holds_always(entries, events.drop_last());
        law_exclusion_is_kept(entries, replay(entries, unlit, events.drop_last()), events.last());
    }
}

/// Right after a Scene button is activated, the indicator bound to it is
/// the one lit member of its group.
pub proof fn law_scene_press_selects(
    entries: Seq<IndicatorEntry>,
    lit: Seq<bool>,
    button: u8,
    k: int,
    i: int,
)
    requires
        entries.len() == lit.len(),
        bindings_distinct(entries),
        bound_at(entries, k, button),
        entries[k].mode is Scene,
        0 <= i < entries.len(),
        entries[i].mode == entries[k].mode,
    ensures
        next_lit(entries, lit, ButtonEvent::ScenePressed { button })[i] == (i == k),
{
    lemma_slot_is_unique(entries, button, k);
}

/// A Scene activation leaves every indicator outside the group as it was.
pub proof fn law_scene_press_spares_others(
    entries: Seq<IndicatorEntry>,
    lit: Seq<bool>,
    button: u8,
    k: int,
    i: int,
)
    requires
        entries.len() == lit.len(),
        bindings_distinct(entries),
        bound_at(entries, k, button),
        0 <= i < entries.len(),
        entries[i].mode != entries[k].mode,
    ensures
        next_lit(entries, lit, ButtonEvent::ScenePressed { button })[i] == lit[i],
{
    lemma_slot_is_unique(entries, button, k);
}

/// A Momentary indicator mirrors its button: lit after the press, unlit
/// after the release.
pub proof fn law_momentary_mirrors(entries: Seq<IndicatorEntry>, lit: Seq<bool>, button: u8, k: int)
    requires
        entries.len() == lit.len(),
        bindings_distinct(entries),
        bound_at(entries, k, button),
        entries[k].mode is Momentary,
    ensures
        next_lit(entries, lit, ButtonEvent::MomentaryPressed { button })[k],
        !next_lit(
            entries,
            next_lit(entries, lit, ButtonEvent::MomentaryPressed { button }),
            ButtonEvent::MomentaryReleased { button },
        )[k],
        !next_lit(entries, lit, ButtonEvent::MomentaryReleased { button })[k],
{
    lemma_slot_is_unique(entries, button, k);
}

/// Events of other buttons, however many and in whatever order, do not
/// touch a Momentary indicator.
pub proof fn law_momentary_is_undisturbed(
    entries: Seq<IndicatorEntry>,
    lit: Seq<bool>,
    others: Seq<ButtonEvent>,
    button: u8,
    k: int,
)
    requires
        entries.len() == lit.len(),
        bindings_distinct(entries),
        bound_at(entries, k, button),
        entries[k].mode is Momentary,
        forall|i: int| 0 <= i < others.len() ==> (#[trigger] others[i]).spec_button() != button,
    ensures
        replay(entries, lit, others).len() == lit.len(),
        replay(entries, lit, others)[k] == lit[k],
    decreases others.len(),
{
    if others.len() > 0 {
        let front = others.drop_last();
        law_momentary_is_undisturbed(entries, lit, front, button, k);
        let mid = replay(entries, lit, front);
        let e = others.last();
        match slot_of(entries, e.spec_button()) {
            Some(j) => {
                assert(bound_at(entries, j, e.spec_button()));
                assert(j != k);
            },
            None => {},
        }
    }
}

/// Replaying a single event is applying it.
pub proof fn lemma_replay_one(entries: Seq<IndicatorEntry>, lit: Seq<bool>, event: ButtonEvent)
    ensures
        replay(entries, lit, seq![event]) == next_lit(entries, lit, event),
{
    let s = seq![event];
    assert(s.drop_last() =~= Seq::<ButtonEvent>::empty());
    assert(s.last() == event);
    assert(replay(entries, lit, s.drop_last()) == lit);
}

/// A Momentary indicator stays lit from the press of its button, through
/// whatever happens on other buttons, until the release of its button
/// clears it.
pub proof fn law_momentary_press_lasts(
    entries: Seq<IndicatorEntry>,
    lit: Seq<bool>,
    others: Seq<ButtonEvent>,
    button: u8,
    k: int,
)
    requires
        entries.len() == lit.len(),
        bindings_distinct(entries),
        bound_at(entries, k, button),
        entries[k].mode is Momentary,
        forall|i: int| 0 <= i < others.len() ==> (#[trigger] others[i]).spec_button() != button,
    ensures
        replay(entries, lit, seq![ButtonEvent::MomentaryPressed { button }] + others)[k],
        !replay(
            entries,
            lit,
            seq![ButtonEvent::MomentaryPressed { button }] + others + seq![
                ButtonEvent::MomentaryReleased { button },
            ],
        )[k],
{
    let press = ButtonEvent::MomentaryPressed { button };
    let release = ButtonEvent::MomentaryReleased { button };
    let pressed = next_lit(entries, lit, press);
    lemma_slot_is_unique(entries, button, k);
    lemma_replay_one(entries, lit, press);
    lemma_replay_join(entries, lit, seq![press], others);
    law_momentary_is_undisturbed(entries, pressed, others, button, k);
    let held = replay(entries, pressed, others);
    lemma_replay_join(entries, lit, seq![press] + others, seq![release]);
    lemma_replay_one(entries, held, release);
}

/// An event for a button that is bound to no indicator changes nothing.
pub proof fn law_unknown_button_is_ignored(
    entries: Seq<IndicatorEntry>,
    lit: Seq<bool>,
    event: ButtonEvent,
)
    requires
        forall|i: int| !bound_at(entries, i, event.spec_button()),
    ensures
        next_lit(entries, lit, event) == lit,
{
}

} // verus!
