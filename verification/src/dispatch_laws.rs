//! What holds of every batch, whatever its driver reports and in whatever
//! order: the concurrency bound, the pacing of starts, the order of the
//! outcomes, and that a batch runs to its end.

use crate::dispatch::Action;
use crate::dispatch_model::{lemma_count_in_flight_update, lemma_count_in_flight_zero,
    lemma_initial_well_formed, lemma_run_well_formed, lemma_some_in_flight,
    lemma_step_well_formed, DispatchState, Event, SlotState};
use crate::outcome::{failed, law_transport_failure_is_recorded, outcome_of,
    transport_error_text, OutcomeView, ResponseView};
use vstd::prelude::*;

verus! {

/// Running one event more is running the events before it and then taking
/// that step.
pub proof fn lemma_run_one_more(state: DispatchState, events: Seq<Event>, upto: int)
    requires
        0 <= upto < events.len(),
    ensures
        state.run(events.take(upto + 1)) == state.run(events.take(upto)).step(events[upto]),
{
    assert(events.take(upto + 1).drop_last() =~= events.take(upto));
}

/// Once a start has been recorded, a pause stays owed through every event
/// but the one that reports the pause.
pub proof fn lemma_pause_stays_owed(state: DispatchState, events: Seq<Event>, from: int, to: int)
    requires
        0 <= from <= to <= events.len(),
        state.run(events.take(from)).cooling,
        forall|k: int| from <= k < to ==> !((#[trigger] events[k]) is PauseElapsed),
    ensures
        state.run(events.take(to)).cooling,
    decreases to - from,
{
    if from < to {
        lemma_pause_stays_owed(state, events, from, to - 1);
        lemma_run_one_more(state, events, to - 1);
    }
}

/// Order is kept: a batch that has run to its end has exactly one outcome
/// for each URL, filed under the position of that URL and naming it,
/// whatever the order in which the fetches completed.
pub proof fn law_outcomes_keep_input_order(urls: Seq<Seq<char>>, rate: nat, events: Seq<Event>)
    requires
        rate >= 1,
        DispatchState::initial(urls, rate).run(events).finished(),
    ensures
        DispatchState::initial(urls, rate).run(events).outcomes().len() == urls.len(),
        forall|i: int|
            0 <= i < urls.len() ==> {
                &&& DispatchState::initial(urls, rate).run(events).slots[i] is Done
                &&& (#[trigger] DispatchState::initial(urls, rate).run(events).outcomes()[i]).url
                    == urls[i]
            },
{
    let start = DispatchState::initial(urls, rate);
    let end = start.run(events);
    lemma_initial_well_formed(urls, rate);
    lemma_run_well_formed(start, events);
    assert forall|i: int| 0 <= i < urls.len() implies end.slots[i] is Done && (
    #[trigger] end.outcomes()[i]).url == urls[i] by {
        lemma_count_in_flight_zero(end.slots, i);
    }
}

/// No outcome is made up or mixed up: the outcome that a batch has filed
/// for a URL is that of a response which was reported for that very URL while
/// its fetch was in flight. The position of that report is returned.
pub proof fn law_outcome_comes_from_its_completion(
    urls: Seq<Seq<char>>,
    rate: nat,
    events: Seq<Event>,
    index: int,
) -> (at: int)
    requires
        rate >= 1,
        0 <= index < urls.len(),
        DispatchState::initial(urls, rate).run(events).slots[index] is Done,
    ensures
        0 <= at < events.len(),
        DispatchState::initial(urls, rate).run(events.take(at)).awaits(index),
        events[at] matches Event::Completed { index: reported, response } && reported == index
            && DispatchState::initial(urls, rate).run(events).outcome_at(index) == outcome_of(
            urls[index],
            response,
        ),
    decreases events.len(),
{
    let start = DispatchState::initial(urls, rate);
    lemma_initial_well_formed(urls, rate);
    if events.len() == 0 {
        assert(start.slots[index] is Waiting);
        0
    } else {
        let before = events.drop_last();
        let last = events.len() - 1;
        lemma_run_well_formed(start, before);
        let previous = start.run(before);
        assert(events.take(last) =~= before);
        if previous.slots[index] is Done {
            let at = law_outcome_comes_from_its_completion(urls, rate, before, index);
            assert(before.take(at) =~= events.take(at));
            at
        } else {
            last
        }
    }
}

/// Every outcome that a batch files has exactly one of snippet and error:
/// the snippet when it succeeded, the error when it did not; and an error
/// is never the empty text.
pub proof fn law_outcomes_have_snippet_or_error(
    urls: Seq<Seq<char>>,
    rate: nat,
    events: Seq<Event>,
    index: int,
)
    requires
        rate >= 1,
        0 <= index < urls.len(),
        DispatchState::initial(urls, rate).run(events).slots[index] is Done,
    ensures
        ({
            let outcome = DispatchState::initial(urls, rate).run(events).outcome_at(index);
            &&& outcome.success <==> outcome.snippet is Some
            &&& outcome.success <==> outcome.error is None
            &&& outcome.error matches Some(reason) ==> reason.len() > 0
        }),
{
    let start = DispatchState::initial(urls, rate);
    lemma_initial_well_formed(urls, rate);
    lemma_run_well_formed(start, events);
    assert(start.run(events).slots[index] is Done);
}

/// The concurrency bound: whatever a driver reports, and in whatever order,
/// the number of fetches in flight never exceeds the rate of the batch.
pub proof fn law_in_flight_never_exceeds_rate(urls: Seq<Seq<char>>, rate: nat, events: Seq<Event>)
    requires
        rate >= 1,
    ensures
        DispatchState::initial(urls, rate).run(events).in_flight() <= rate,
{
    lemma_initial_well_formed(urls, rate);
    lemma_run_well_formed(DispatchState::initial(urls, rate), events);
}

/// Pacing: between any two starts that the dispatcher records, a pause has
/// been reported as elapsed.
pub proof fn law_starts_are_paced(
    urls: Seq<Seq<char>>,
    rate: nat,
    events: Seq<Event>,
    first: int,
    second: int,
)
    requires
        rate >= 1,
        0 <= first < second < events.len(),
        events[first] is Started,
        DispatchState::initial(urls, rate).run(events.take(first)).may_start(),
        events[second] is Started,
        DispatchState::initial(urls, rate).run(events.take(second)).may_start(),
    ensures
        exists|k: int| first < k < second && (#[trigger] events[k]) is PauseElapsed,
{
    let start = DispatchState::initial(urls, rate);
    if !(exists|k: int| first < k < second && (#[trigger] events[k]) is PauseElapsed) {
        lemma_run_one_more(start, events, first);
        lemma_pause_stays_owed(start, events, first + 1, second);
    }
}

/// The pause that a dispatcher asks for lasts one second divided by the
/// rate of the batch, and it asks for one whenever a pause is owed and a URL
/// is left.
pub proof fn law_pause_length(state: DispatchState)
    requires
        state.well_formed(),
    ensures
        state.next_action() matches Action::Pause { millis } ==> millis == 1000nat / state.rate,
        state.cooling && state.started < state.urls.len() ==> state.next_action() is Pause,
        state.next_action() is Start ==> !state.cooling,
{
    assert(1000int / (state.rate as int) <= 1000) by (nonlinear_arith)
        requires
            state.rate >= 1,
    ;
}

/// A batch without URLs is finished before anything happens: no fetch is
/// offered, and its list of outcomes is empty.
pub proof fn law_empty_batch(rate: nat)
    requires
        rate >= 1,
    ensures
        DispatchState::initial(Seq::empty(), rate).next_action() == Action::Finished,
        DispatchState::initial(Seq::empty(), rate).finished(),
        DispatchState::initial(Seq::empty(), rate).outcomes() == Seq::<OutcomeView>::empty(),
{
    let start = DispatchState::initial(Seq::empty(), rate);
    lemma_initial_well_formed(Seq::empty(), rate);
    assert(start.outcomes() =~= Seq::<OutcomeView>::empty());
}

/// A completion touches the slot of its own URL and no other: what one fetch
/// came back with, a failure included, changes the outcome of no other URL.
pub proof fn law_completion_touches_one_slot(
    state: DispatchState,
    index: int,
    response: ResponseView,
    other: int,
)
    requires
        state.well_formed(),
        0 <= other < state.urls.len(),
        other != index,
    ensures
        state.complete(index, response).slots[other] == state.slots[other],
        state.awaits(index) ==> state.complete(index, response).slots[index] == SlotState::Done(
            outcome_of(state.urls[index], response),
        ),
        state.awaits(index) ==> state.complete(index, response).in_flight() + 1
            == state.in_flight(),
{
    if state.awaits(index) {
        lemma_count_in_flight_update(
            state.slots,
            index,
            SlotState::Done(outcome_of(state.urls[index], response)),
        );
    }
}

/// A transport failure stays with its URL: reported for a fetch in flight,
/// it is filed as a failure of that URL with an error text that is not
/// empty, the message of the transport where it has one. It frees the slot,
/// changes the outcome of no other URL, and leaves the batch in a state from
/// which it runs on to a whole list of outcomes.
pub proof fn law_transport_failure_is_isolated(
    state: DispatchState,
    index: int,
    message: Seq<char>,
)
    requires
        state.well_formed(),
        state.awaits(index),
    ensures
        ({
            let after = state.complete(index, ResponseView::TransportFailure { message });
            &&& after.well_formed()
            &&& after.outcome_at(index) == failed(state.urls[index], transport_error_text(message))
            &&& transport_error_text(message).len() > 0
            &&& message.len() > 0 ==> after.outcome_at(index).error == Some(message)
            &&& after.in_flight() + 1 == state.in_flight()
            &&& after.slots.len() == state.slots.len()
            &&& forall|other: int|
                0 <= other < state.slots.len() && other != index ==> #[trigger] after.slots[other]
                    == state.slots[other]
        }),
{
    let response = ResponseView::TransportFailure { message };
    law_transport_failure_is_recorded(state.urls[index], message);
    lemma_step_well_formed(state, Event::Completed { index, response });
    lemma_count_in_flight_update(
        state.slots,
        index,
        SlotState::Done(outcome_of(state.urls[index], response)),
    );
}

/// A batch runs to its end: the dispatcher says that it is finished exactly
/// when every URL has its outcome, and until then it asks for something that
/// can be done and that, once reported, leaves less to do.
pub proof fn law_batch_makes_progress(state: DispatchState)
    requires
        state.well_formed(),
    ensures
        state.next_action() is Finished <==> state.finished(),
        state.finished() <==> state.remaining_work() == 0,
        state.next_action() is Start ==> state.may_start() && state.start().remaining_work()
            < state.remaining_work(),
        state.next_action() is Pause ==> state.pause_elapsed().remaining_work()
            < state.remaining_work(),
        state.next_action() is AwaitCompletion ==> exists|index: int| #[trigger]
            state.awaits(index),
        forall|index: int, response: ResponseView| #[trigger]
            state.awaits(index) ==> (#[trigger] state.complete(index, response)).remaining_work()
                < state.remaining_work(),
{
    if state.may_start() {
        lemma_count_in_flight_update(state.slots, state.started as int, SlotState::InFlight);
    }
    if state.in_flight() > 0 {
        let index = lemma_some_in_flight(state.slots);
        assert(state.awaits(index));
    }
    assert forall|index: int, response: ResponseView| #[trigger]
        state.awaits(index) implies (#[trigger] state.complete(index, response)).remaining_work()
        < state.remaining_work() by {
        lemma_count_in_flight_update(
            state.slots,
            index,
            SlotState::Done(outcome_of(state.urls[index], response)),
        );
    }
}

} // verus!
