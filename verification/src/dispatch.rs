//! The dispatcher of one batch: which fetch may start, when to pause, and
//! where each outcome is kept.
//!
//! The dispatcher performs no fetch and keeps no clock. A driver asks it for
//! the next action, carries the action out, and reports back: that a fetch has
//! started, that one has completed with some response, or that a pause has
//! elapsed. The dispatcher starts URLs in input order, never has more fetches
//! in flight than the rate of the batch, asks for one pause after every start
//! before it offers the next, and files each outcome under the position of its
//! URL, in whatever order the fetches complete.
//!
//! `Dispatcher` is the executable value; its view is the state of the
//! mathematical model, `DispatchState`, over which its contracts are stated.

use crate::dispatch_model::{lemma_count_in_flight_update, lemma_count_in_flight_zero,
    lemma_initial_well_formed, lemma_step_well_formed, DispatchState, Event, SlotState};
use crate::outcome::{classify, FetchOutcome, FetchResponse, OutcomeView};
use crate::pacing::{effective_rate, pacing_delay_ms, spec_effective_rate};
use vstd::prelude::*;

verus! {

/// What the driver of a batch is to do next.
#[derive(Clone, Copy, Debug, PartialEq, Eq, Structural)]
pub enum Action {
    /// Start the fetch of the URL at `index`, then report the start.
    Start { index: usize },
    /// Let `millis` milliseconds pass, then report that they have.
    Pause { millis: u64 },
    /// Wait until a fetch in flight completes, then report it.
    AwaitCompletion,
    /// Every URL has its outcome: collect the outcomes.
    Finished,
}

/// The texts of a list of strings.
pub open spec fn texts(strings: Seq<String>) -> Seq<Seq<char>> {
    Seq::new(strings.len(), |i: int| strings[i]@)
}

/// The values of a list of outcomes.
pub open spec fn outcome_views(outcomes: Seq<FetchOutcome>) -> Seq<OutcomeView> {
    Seq::new(outcomes.len(), |i: int| outcomes[i]@)
}

/// What a driver reports to a `Dispatcher`.
#[derive(Debug)]
pub enum Report {
    /// The fetch that the dispatcher offered has started.
    Started,
    /// The fetch of the URL at `index` came back with `response`.
    Completed { index: usize, response: FetchResponse },
    /// The pause that the dispatcher asked for has elapsed.
    PauseElapsed,
}

impl View for Report {
    type V = Event;

    open spec fn view(&self) -> Event {
        match *self {
            Report::Started => Event::Started,
            Report::Completed { index, response } => Event::Completed {
                index: index as int,
                response: response@,
            },
            Report::PauseElapsed => Event::PauseElapsed,
        }
    }
}

/// Where one URL of the batch stands.
enum Slot {
    Waiting,
    InFlight,
    Done(FetchOutcome),
}

impl View for Slot {
    type V = SlotState;

    closed spec fn view(&self) -> SlotState {
        match *self {
            Slot::Waiting => SlotState::Waiting,
            Slot::InFlight => SlotState::InFlight,
            Slot::Done(outcome) => SlotState::Done(outcome@),
        }
    }
}

/// The dispatcher of one batch.
pub struct Dispatcher {
    urls: Vec<String>,
    slots: Vec<Slot>,
    rate: usize,
    pause_millis: u64,
    started: usize,
    in_flight: usize,
    cooling: bool,
}

impl View for Dispatcher {
    type V = DispatchState;

    closed spec fn view(&self) -> DispatchState {
        DispatchState {
            urls: texts(self.urls@),
            rate: self.rate as nat,
            slots: Seq::new(self.slots@.len(), |i: int| self.slots@[i]@),
            started: self.started as nat,
            cooling: self.cooling,
        }
    }
}

impl Dispatcher {
    /// What holds of every dispatcher: its state is one that a batch can be
    /// in, and what it keeps beside that state agrees with it.
    pub closed spec fn inv(&self) -> bool {
        &&& self@.well_formed()
        &&& self.in_flight as nat == self@.in_flight()
        &&& self.pause_millis as nat == self@.pause_millis()
    }

    /// The state of every dispatcher is one that a batch can be in, so that
    /// what is proved of those states holds of it.
    pub proof fn lemma_inv_well_formed(&self)
        requires
            self.inv(),
        ensures
            self@.well_formed(),
            self@.in_flight() <= self@.rate,
            self@.slots.len() == self@.urls.len(),
    {
    }

    /// The dispatcher of a batch of `urls` at the rate that `rate_limit`
    /// resolves to, before anything has happened.
    pub fn new(urls: Vec<String>, rate_limit: Option<u32>) -> (dispatcher: Dispatcher)
        ensures
            dispatcher.inv(),
            dispatcher@ == DispatchState::initial(texts(urls@), spec_effective_rate(rate_limit)),
    {
        let rate = effective_rate(rate_limit);
        let pause_millis = pacing_delay_ms(rate);
        let mut slots: Vec<Slot> = Vec::new();
        while slots.len() < urls.len()
            invariant
                slots.len() <= urls.len(),
                forall|i: int| 0 <= i < slots.len() ==> (#[trigger] slots@[i]) is Waiting,
            decreases urls.len() - slots.len(),
        {
            slots.push(Slot::Waiting);
        }
        let dispatcher = Dispatcher {
            urls,
            slots,
            rate,
            pause_millis,
            started: 0,
            in_flight: 0,
            cooling: false,
        };
        proof {
            let model = DispatchState::initial(texts(urls@), spec_effective_rate(rate_limit));
            assert(dispatcher@.slots =~= model.slots);
            lemma_initial_well_formed(model.urls, model.rate);
        }
        dispatcher
    }

    /// How many URLs the batch has.
    pub fn len(&self) -> (n: usize)
        requires
            self.inv(),
        ensures
            n == self@.urls.len(),
    {
        self.urls.len()
    }

    /// The URL at `index`, where the batch has one there.
    pub fn url(&self, index: usize) -> (url: Option<&String>)
        requires
            self.inv(),
        ensures
            url is Some <==> index < self@.urls.len(),
            url matches Some(u) ==> u@ == self@.urls[index as int],
    {
        if index < self.urls.len() {
            Some(&self.urls[index])
        } else {
            None
        }
    }

    /// How many fetches may be in flight at once.
    pub fn rate(&self) -> (rate: usize)
        requires
            self.inv(),
        ensures
            rate == self@.rate,
            rate >= 1,
    {
        self.rate
    }

    /// How many fetches are in flight.
    pub fn in_flight(&self) -> (n: usize)
        requires
            self.inv(),
        ensures
            n == self@.in_flight(),
            n <= self@.rate,
    {
        self.in_flight
    }

    /// The pause between two starts, in milliseconds.
    pub fn pause_millis(&self) -> (millis: u64)
        requires
            self.inv(),
        ensures
            millis == self@.pause_millis(),
    {
        self.pause_millis
    }

    /// Tells whether every URL has its outcome.
    pub fn is_finished(&self) -> (done: bool)
        requires
            self.inv(),
        ensures
            done == self@.finished(),
    {
        self.started == self.urls.len() && self.in_flight == 0
    }

    /// What the driver is to do now.
    pub fn next_action(&self) -> (action: Action)
        requires
            self.inv(),
        ensures
            action == self@.next_action(),
    {
        if self.started < self.urls.len() {
            if self.cooling {
                Action::Pause { millis: self.pause_millis }
            } else if self.in_flight < self.rate {
                Action::Start { index: self.started }
            } else {
                Action::AwaitCompletion
            }
        } else if self.in_flight > 0 {
            Action::AwaitCompletion
        } else {
            Action::Finished
        }
    }

    /// Records that the next fetch has started, and returns the position of
    /// its URL. Where no fetch may start, nothing changes.
    pub fn start(&mut self) -> (index: Option<usize>)
        requires
            old(self).inv(),
        ensures
            final(self).inv(),
            final(self)@ == old(self)@.start(),
            index == if old(self)@.may_start() {
                Some(old(self)@.started as usize)
            } else {
                None
            },
    {
        if self.started < self.urls.len() && !self.cooling && self.in_flight < self.rate {
            let index = self.started;
            proof {
                lemma_count_in_flight_update(self@.slots, index as int, SlotState::InFlight);
                lemma_step_well_formed(self@, Event::Started);
            }
            self.slots.set(index, Slot::InFlight);
            self.started = index + 1;
            self.in_flight = self.in_flight + 1;
            self.cooling = true;
            assert(self@.slots =~= old(self)@.start().slots);
            Some(index)
        } else {
            None
        }
    }

    /// Files the outcome of the fetch of the URL at `index`, which came back
    /// with `response`, and frees its slot. Where that fetch is not in
    /// flight, nothing changes and the answer is `false`.
    pub fn complete(&mut self, index: usize, response: FetchResponse) -> (accepted: bool)
        requires
            old(self).inv(),
        ensures
            final(self).inv(),
            final(self)@ == old(self)@.complete(index as int, response@),
            accepted == old(self)@.awaits(index as int),
    {
        if index >= self.slots.len() {
            return false;
        }
        let waiting = match &self.slots[index] {
            Slot::InFlight => true,
            _ => false,
        };
        if !waiting {
            return false;
        }
        let outcome = classify(self.urls[index].clone(), response);
        proof {
            lemma_count_in_flight_update(self@.slots, index as int, SlotState::Done(outcome@));
            lemma_step_well_formed(
                self@,
                Event::Completed { index: index as int, response: response@ },
            );
        }
        self.slots.set(index, Slot::Done(outcome));
        self.in_flight = self.in_flight - 1;
        assert(self@.slots =~= old(self)@.complete(index as int, response@).slots);
        true
    }

    /// Records that the pause after a start has elapsed.
    pub fn pause_elapsed(&mut self)
        requires
            old(self).inv(),
        ensures
            final(self).inv(),
            final(self)@ == old(self)@.pause_elapsed(),
    {
        self.cooling = false;
    }

    /// Takes one report of the driver, and answers with what it is to do
    /// next.
    pub fn step(&mut self, report: Report) -> (action: Action)
        requires
            old(self).inv(),
        ensures
            final(self).inv(),
            final(self)@ == old(self)@.step(report@),
            action == final(self)@.next_action(),
    {
        match report {
            Report::Started => {
                let _ = self.start();
            },
            Report::Completed { index, response } => {
                let _ = self.complete(index, response);
            },
            Report::PauseElapsed => {
                self.pause_elapsed();
            },
        }
        self.next_action()
    }

    /// Hands out the outcomes of the batch, in the order of its URLs, once
    /// every URL has one; before that, nothing.
    pub fn into_outcomes(self) -> (outcomes: Option<Vec<FetchOutcome>>)
        requires
            self.inv(),
        ensures
            outcomes is Some <==> self@.finished(),
            outcomes matches Some(list) ==> outcome_views(list@) == self@.outcomes(),
    {
        if !self.is_finished() {
            return None;
        }
        let ghost state = self@;
        let mut slots = self.slots;
        let mut reversed: Vec<FetchOutcome> = Vec::new();
        let ghost total = slots@.len();
        while slots.len() > 0
            invariant
                total == state.slots.len(),
                slots@.len() + reversed@.len() == total,
                state.well_formed(),
                state.finished(),
                forall|i: int| 0 <= i < slots@.len() ==> (#[trigger] slots@[i])@ == state.slots[i],
                forall|j: int|
                    0 <= j < reversed@.len() ==> (#[trigger] reversed@[j])@ == state.outcome_at(
                        total - 1 - j,
                    ),
            decreases slots@.len(),
        {
            proof {
                lemma_count_in_flight_zero(state.slots, slots@.len() - 1);
            }
            match slots.pop() {
                Some(Slot::Done(outcome)) => {
                    reversed.push(outcome);
                },
                _ => {},
            }
        }
        let mut list: Vec<FetchOutcome> = Vec::new();
        while reversed.len() > 0
            invariant
                list@.len() + reversed@.len() == total,
                total == state.slots.len(),
                forall|j: int|
                    0 <= j < reversed@.len() ==> (#[trigger] reversed@[j])@ == state.outcome_at(
                        total - 1 - j,
                    ),
                forall|i: int| 0 <= i < list@.len() ==> (#[trigger] list@[i])@ == state.outcome_at(i),
            decreases reversed@.len(),
        {
            match reversed.pop() {
                Some(outcome) => {
                    list.push(outcome);
                },
                None => {},
            }
        }
        assert(outcome_views(list@) =~= state.outcomes());
        Some(list)
    }
}

} // verus!
