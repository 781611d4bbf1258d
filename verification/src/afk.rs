//! Away-from-keyboard events: what the screen saver and the sleep signals
//! mean, and the filter that forwards only changes of state.

use vstd::prelude::*;

verus! {

/// A change of presence: the user left (screen locked, system asleep) or
/// came back.
#[derive(Debug, Clone, Copy, PartialEq, Eq, Structural)]
pub enum AfkEvent {
    Pause,
    Resume,
}

/// The event a presence signal stands for. The screen saver's
/// `ActiveChanged(active)` and logind's `PrepareForSleep(start)` both carry
/// one flag: set, the user is away (`Pause`); clear, back (`Resume`).
pub fn event_for_signal(flag: bool) -> (event: AfkEvent)
    ensures
        event == (if flag {
            AfkEvent::Pause
        } else {
            AfkEvent::Resume
        }),
{
    if flag {
        AfkEvent::Pause
    } else {
        AfkEvent::Resume
    }
}

/// Whether an event is forwarded after `last`, the last event forwarded:
/// only when it differs.
pub open spec fn forwards(last: Option<AfkEvent>, event: AfkEvent) -> bool {
    last != Some(event)
}

/// Merges the events of all signal sources into one stream of state
/// changes: an event equal to the last one forwarded is dropped.
pub struct AfkEventFilter {
    current_state: Option<AfkEvent>,
}

impl AfkEventFilter {
    /// The last event forwarded, if any.
    pub closed spec fn last_forwarded(&self) -> Option<AfkEvent> {
        self.current_state
    }

    /// A filter that has forwarded nothing yet.
    pub fn new() -> (filter: AfkEventFilter)
        ensures
            filter.last_forwarded() == None::<AfkEvent>,
    {
        AfkEventFilter { current_state: None }
    }

    /// Takes in `event`; answers whether to forward it. Afterwards `event`
    /// is the last event forwarded, either way.
    pub fn accept(&mut self, event: AfkEvent) -> (forward: bool)
        ensures
            forward == forwards(old(self).last_forwarded(), event),
            forward <==> old(self).last_forwarded() != Some(event),
            old(self).last_forwarded() is None ==> forward,
            final(self).last_forwarded() == Some(event),
    {
        if self.current_state != Some(event) {
            self.current_state = Some(event);
            true
        } else {
            false
        }
    }
}

/// The events that a filter whose last forwarded event is `last` forwards,
/// in order, when it takes in `events` one after another.
pub open spec fn forwarded_events(last: Option<AfkEvent>, events: Seq<AfkEvent>) -> Seq<AfkEvent>
    decreases events.len(),
{
    if events.len() == 0 {
        Seq::empty()
    } else if forwards(last, events[0]) {
        seq![events[0]] + forwarded_events(Some(events[0]), events.drop_first())
    } else {
        forwarded_events(Some(events[0]), events.drop_first())
    }
}

/// Whatever the signals, the forwarded stream never repeats a state: no
/// two consecutive forwarded events are equal, and the first differs from
/// the last one forwarded before.
pub proof fn lemma_forwarded_events_alternate(last: Option<AfkEvent>, events: Seq<AfkEvent>)
    ensures
        forall|i: int|
            0 <= i < forwarded_events(last, events).len() - 1 ==> #[trigger] forwarded_events(
                last,
                events,
            )[i] != forwarded_events(last, events)[i + 1],
        forwarded_events(last, events).len() > 0 ==> last != Some(
            forwarded_events(last, events)[0],
        ),
    decreases events.len(),
{
    if events.len() > 0 {
        let e = events[0];
        let rest = events.drop_first();
        lemma_forwarded_events_alternate(Some(e), rest);
        lemma_forwarded_starts_after(e, rest);
    }
}

/// After `e`, the first event forwarded differs from `e`.
proof fn lemma_forwarded_starts_after(e: AfkEvent, events: Seq<AfkEvent>)
    ensures
        forwarded_events(Some(e), events).len() > 0 ==> forwarded_events(Some(e), events)[0] != e,
    decreases events.len(),
{
    if events.len() > 0 && events[0] == e {
        lemma_forwarded_starts_after(e, events.drop_first());
    }
}

/// The last event forwarded by a filter that started with `last` and then
/// took in `events` (`accept` leaves the event it took in as the last one,
/// forwarded or not).
pub open spec fn last_after(last: Option<AfkEvent>, events: Seq<AfkEvent>) -> Option<AfkEvent> {
    if events.len() == 0 {
        last
    } else {
        Some(events.last())
    }
}

/// `forwarded_events` is what a run of `accept` calls forwards: taking in
/// one more event `e` after `events`, the filter's last forwarded event is
/// `last_after(last, events)` (by `accept`'s contract, call by call), and
/// the forwarded stream grows by `e` exactly when `accept` answers true for
/// it. So the events delivered by successive calls are `forwarded_events`
/// of the events taken in, which never repeats a state
/// (`lemma_forwarded_events_alternate`).
pub proof fn lemma_accept_extends_forwarded_events(
    last: Option<AfkEvent>,
    events: Seq<AfkEvent>,
    e: AfkEvent,
)
    ensures
        last_after(last, events.push(e)) == Some(e),
        forwarded_events(last, events.push(e)) == forwarded_events(last, events) + if forwards(
            last_after(last, events),
            e,
        ) {
            seq![e]
        } else {
            Seq::<AfkEvent>::empty()
        },
    decreases events.len(),
{
    if events.len() == 0 {
        assert(events.push(e).drop_first() =~= Seq::<AfkEvent>::empty());
        assert(forwarded_events(Some(e), Seq::<AfkEvent>::empty()) =~= Seq::<AfkEvent>::empty());
        if forwards(last, e) {
            assert(forwarded_events(last, events.push(e)) =~= seq![e]);
        }
        assert(forwarded_events(last, events) =~= Seq::<AfkEvent>::empty());
    } else {
        let rest = events.drop_first();
        assert(events.push(e).drop_first() =~= rest.push(e));
        assert(events.push(e)[0] == events[0]);
        lemma_accept_extends_forwarded_events(Some(events[0]), rest, e);
        if rest.len() > 0 {
            assert(rest.last() == events.last());
        }
        assert(last_after(Some(events[0]), rest) == last_after(last, events));
        let tail = if forwards(last_after(last, events), e) {
            seq![e]
        } else {
            Seq::<AfkEvent>::empty()
        };
        if forwards(last, events[0]) {
            assert(forwarded_events(last, events.push(e)) =~= seq![events[0]] + (
            forwarded_events(Some(events[0]), rest) + tail));
        } else {
            assert(forwarded_events(last, events.push(e)) =~= forwarded_events(
                Some(events[0]),
                rest,
            ) + tail);
        }
    }
}

/// What the filter forwards, in terms of the events alone: a filter that
/// has taken nothing in forwards the first event, whichever it is; after
/// an event, it forwards the other event and drops the same one again.
pub proof fn lemma_forwarding_depends_only_on_change(first: AfkEvent, second: AfkEvent)
    ensures
        forwards(None, first),
        forwards(Some(first), second) <==> first != second,
        forwards(Some(AfkEvent::Pause), AfkEvent::Resume),
        forwards(Some(AfkEvent::Resume), AfkEvent::Pause),
        !forwards(Some(first), first),
        forwarded_events(None, seq![first]) == seq![first],
{
    let rest = seq![first].drop_first();
    assert(rest =~= Seq::<AfkEvent>::empty());
    assert(forwarded_events(Some(first), rest) =~= Seq::<AfkEvent>::empty());
    assert(forwarded_events(None, seq![first]) =~= seq![first] + forwarded_events(Some(first), rest));
}

} // verus!
