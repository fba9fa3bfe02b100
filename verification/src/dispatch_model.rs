//! The dispatcher as a mathematical state machine.
//!
//! A state names the URLs of the batch, its rate, where each URL stands, how
//! many fetches have started, and whether a pause is owed. An event takes a
//! state to the next one; an event that does not fit the state leaves it as
//! it is. The URLs start in input order, so the fetches that have started are
//! always those of the first URLs.

use crate::dispatch::Action;
use crate::outcome::{law_outcome_has_snippet_or_error, outcome_of, OutcomeView, ResponseView};
use crate::pacing::spec_pacing_delay_ms;
use vstd::prelude::*;

verus! {

/// Where one URL of the batch stands, in the model.
pub enum SlotState {
    /// Its fetch has not started.
    Waiting,
    /// Its fetch has started and has not completed.
    InFlight,
    /// Its fetch has completed with this outcome.
    Done(OutcomeView),
}

/// What a driver reports to the dispatcher.
pub enum Event {
    /// The fetch that the dispatcher offered has started.
    Started,
    /// The fetch of the URL at `index` came back with `response`.
    Completed { index: int, response: ResponseView },
    /// The pause that the dispatcher asked for has elapsed.
    PauseElapsed,
}

/// The state of a dispatcher, as a mathematical value.
pub struct DispatchState {
    /// The URLs of the batch, in input order.
    pub urls: Seq<Seq<char>>,
    /// How many fetches may be in flight at once.
    pub rate: nat,
    /// Where each URL stands, by position.
    pub slots: Seq<SlotState>,
    /// How many fetches have started; they are those of the first URLs.
    pub started: nat,
    /// True from a start until the pause after it has elapsed.
    pub cooling: bool,
}

/// How many of `slots` are in flight.
pub open spec fn count_in_flight(slots: Seq<SlotState>) -> nat
    decreases slots.len(),
{
    if slots.len() == 0 {
        0
    } else {
        count_in_flight(slots.drop_last()) + if slots.last() is InFlight {
            1nat
        } else {
            0nat
        }
    }
}

impl DispatchState {
    /// The state of a batch before anything has happened.
    pub open spec fn initial(urls: Seq<Seq<char>>, rate: nat) -> DispatchState {
        DispatchState {
            urls,
            rate,
            slots: Seq::new(urls.len(), |i: int| SlotState::Waiting),
            started: 0,
            cooling: false,
        }
    }

    /// How many fetches are in flight.
    pub open spec fn in_flight(self) -> nat {
        count_in_flight(self.slots)
    }

    /// The pause between two starts, in milliseconds.
    pub open spec fn pause_millis(self) -> nat {
        spec_pacing_delay_ms(self.rate)
    }

    /// The states that a batch can be in.
    pub open spec fn well_formed(self) -> bool {
        &&& self.rate >= 1
        &&& self.slots.len() == self.urls.len()
        &&& self.started <= self.slots.len()
        &&& forall|i: int|
            0 <= i < self.slots.len() ==> ((#[trigger] self.slots[i]) is Waiting <==> i
                >= self.started)
        &&& forall|i: int|
            0 <= i < self.slots.len() ==> ((#[trigger] self.slots[i]) matches SlotState::Done(o)
                ==> o.url == self.urls[i] && o.well_formed())
        &&& self.in_flight() <= self.rate
    }

    /// True when the next fetch may start now: a URL is left, no pause is
    /// owed, and a slot is free.
    pub open spec fn may_start(self) -> bool {
        self.started < self.urls.len() && !self.cooling && self.in_flight() < self.rate
    }

    /// True when the fetch of the URL at `index` is in flight.
    pub open spec fn awaits(self, index: int) -> bool {
        0 <= index < self.slots.len() && self.slots[index] is InFlight
    }

    /// True when every URL has its outcome.
    pub open spec fn finished(self) -> bool {
        self.started == self.urls.len() && self.in_flight() == 0
    }

    /// What the driver is to do in this state.
    pub open spec fn next_action(self) -> Action {
        if self.started < self.urls.len() {
            if self.cooling {
                Action::Pause { millis: self.pause_millis() as u64 }
            } else if self.in_flight() < self.rate {
                Action::Start { index: self.started as usize }
            } else {
                Action::AwaitCompletion
            }
        } else if self.in_flight() > 0 {
            Action::AwaitCompletion
        } else {
            Action::Finished
        }
    }

    /// The state after the next fetch has started. Where none may start, the
    /// state stays as it is.
    pub open spec fn start(self) -> DispatchState {
        if self.may_start() {
            DispatchState {
                slots: self.slots.update(self.started as int, SlotState::InFlight),
                started: self.started + 1,
                cooling: true,
                ..self
            }
        } else {
            self
        }
    }

    /// The state after the fetch of the URL at `index` has come back with
    /// `response`. Where that fetch is not in flight, the state stays as it
    /// is.
    pub open spec fn complete(self, index: int, response: ResponseView) -> DispatchState {
        if self.awaits(index) {
            DispatchState {
                slots: self.slots.update(
                    index,
                    SlotState::Done(outcome_of(self.urls[index], response)),
                ),
                ..self
            }
        } else {
            self
        }
    }

    /// The state after a pause has elapsed.
    pub open spec fn pause_elapsed(self) -> DispatchState {
        DispatchState { cooling: false, ..self }
    }

    /// The state after one event.
    pub open spec fn step(self, event: Event) -> DispatchState {
        match event {
            Event::Started => self.start(),
            Event::Completed { index, response } => self.complete(index, response),
            Event::PauseElapsed => self.pause_elapsed(),
        }
    }

    /// The state after a sequence of events, taken in order.
    pub open spec fn run(self, events: Seq<Event>) -> DispatchState
        decreases events.len(),
    {
        if events.len() == 0 {
            self
        } else {
            self.run(events.drop_last()).step(events.last())
        }
    }

    /// A bound on what is left to do: it is zero when the batch is finished,
    /// and every action that the dispatcher asks for, once carried out and
    /// reported, brings it down.
    pub open spec fn remaining_work(self) -> nat {
        4 * ((self.urls.len() - self.started) as nat) + 2 * self.in_flight() + if self.cooling
            && self.started < self.urls.len() {
            1nat
        } else {
            0nat
        }
    }

    /// The outcome filed under position `index`.
    pub open spec fn outcome_at(self, index: int) -> OutcomeView
        recommends
            0 <= index < self.slots.len(),
            self.slots[index] is Done,
    {
        self.slots[index]->Done_0
    }

    /// The outcomes of the batch, by position.
    pub open spec fn outcomes(self) -> Seq<OutcomeView>
        recommends
            self.finished(),
    {
        Seq::new(self.slots.len(), |i: int| self.outcome_at(i))
    }
}

/// Putting `slot` at `index` changes the number of slots in flight by what
/// the old and the new slot at `index` count for.
pub proof fn lemma_count_in_flight_update(slots: Seq<SlotState>, index: int, slot: SlotState)
    requires
        0 <= index < slots.len(),
    ensures
        count_in_flight(slots.update(index, slot)) + (if slots[index] is InFlight {
            1nat
        } else {
            0nat
        }) == count_in_flight(slots) + (if slot is InFlight {
            1nat
        } else {
            0nat
        }),
    decreases slots.len(),
{
    let updated = slots.update(index, slot);
    if index == slots.len() - 1 {
        assert(updated.drop_last() =~= slots.drop_last());
    } else {
        assert(updated.drop_last() =~= slots.drop_last().update(index, slot));
        lemma_count_in_flight_update(slots.drop_last(), index, slot);
    }
}

/// Slots of which none is in flight count zero.
pub proof fn lemma_count_in_flight_none(slots: Seq<SlotState>)
    requires
        forall|i: int| 0 <= i < slots.len() ==> !((#[trigger] slots[i]) is InFlight),
    ensures
        count_in_flight(slots) == 0,
    decreases slots.len(),
{
    if slots.len() > 0 {
        let front = slots.drop_last();
        assert forall|i: int| 0 <= i < front.len() implies !((#[trigger] front[i]) is InFlight) by {
            assert(front[i] == slots[i]);
        }
        lemma_count_in_flight_none(front);
    }
}

/// Where no slot counts as in flight, none is in flight.
pub proof fn lemma_count_in_flight_zero(slots: Seq<SlotState>, index: int)
    requires
        count_in_flight(slots) == 0,
        0 <= index < slots.len(),
    ensures
        !(slots[index] is InFlight),
    decreases slots.len(),
{
    if index < slots.len() - 1 {
        assert(slots.drop_last()[index] == slots[index]);
        lemma_count_in_flight_zero(slots.drop_last(), index);
    }
}

/// A batch starts in a state that it can be in.
pub proof fn lemma_initial_well_formed(urls: Seq<Seq<char>>, rate: nat)
    requires
        rate >= 1,
    ensures
        DispatchState::initial(urls, rate).well_formed(),
        DispatchState::initial(urls, rate).in_flight() == 0,
{
    lemma_count_in_flight_none(DispatchState::initial(urls, rate).slots);
}

/// No event leads out of the states that a batch can be in.
pub proof fn lemma_step_well_formed(state: DispatchState, event: Event)
    requires
        state.well_formed(),
    ensures
        state.step(event).well_formed(),
{
    match event {
        Event::Started => {
            if state.may_start() {
                lemma_count_in_flight_update(
                    state.slots,
                    state.started as int,
                    SlotState::InFlight,
                );
            }
        },
        Event::Completed { index, response } => {
            if state.awaits(index) {
                law_outcome_has_snippet_or_error(state.urls[index], response);
                lemma_count_in_flight_update(
                    state.slots,
                    index,
                    SlotState::Done(outcome_of(state.urls[index], response)),
                );
            }
        },
        Event::PauseElapsed => {},
    }
}

/// No sequence of events leads out of the states that a batch can be in.
pub proof fn lemma_run_well_formed(state: DispatchState, events: Seq<Event>)
    requires
        state.well_formed(),
    ensures
        state.run(events).well_formed(),
        state.run(events).urls == state.urls,
        state.run(events).rate == state.rate,
    decreases events.len(),
{
    if events.len() > 0 {
        lemma_run_well_formed(state, events.drop_last());
        lemma_step_well_formed(state.run(events.drop_last()), events.last());
    }
}

/// Where slots count as in flight, one of them is.
pub proof fn lemma_some_in_flight(slots: Seq<SlotState>) -> (index: int)
    requires
        count_in_flight(slots) > 0,
    ensures
        0 <= index < slots.len(),
        slots[index] is InFlight,
    decreases slots.len(),
{
    if slots.last() is InFlight {
        slots.len() - 1
    } else {
        let index = lemma_some_in_flight(slots.drop_last());
        assert(slots.drop_last()[index] == slots[index]);
        index
    }
}

} // verus!
