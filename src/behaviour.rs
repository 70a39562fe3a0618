//! Guarantees of the keystroke handler over whole runs of events.
use vstd::prelude::*;
use crate::handler::{
    after_event, bounded, check_after, edits_buffer, elapsed, fire, flushed_by,
    is_activity, is_idle, next_generation, push_bounded, HandlerState, IdleCheck, InputEvent,
    MAX_TRIGGER_LENGTH,
};
use crate::keys::key_char;
use crate::matcher::{best_match, ends_with, has_match, lemma_best_match_exists};

verus! {

/// An input event with the time it arrived and the idle window in force.
#[derive(Clone, Copy, Debug, PartialEq, Eq, Structural)]
pub struct TimedEvent {
    pub event: InputEvent,
    pub now_ms: u64,
    pub delay_ms: u64,
}

/// The state after a run of events.
pub open spec fn run(s: HandlerState, evs: Seq<TimedEvent>) -> HandlerState
    decreases evs.len(),
{
    if evs.len() == 0 {
        s
    } else {
        let e = evs.last();
        after_event(run(s, evs.drop_last()), e.event, e.now_ms, e.delay_ms)
    }
}

/// The last `n` items of `x`, or all of them if there are fewer.
pub open spec fn keep_last(x: Seq<char>, n: nat) -> Seq<char> {
    if x.len() > n {
        x.subrange(x.len() - n, x.len() as int)
    } else {
        x
    }
}

/// The characters that a run of printable keystrokes types.
pub open spec fn typed_chars(evs: Seq<TimedEvent>) -> Seq<char>
    decreases evs.len(),
{
    if evs.len() == 0 {
        Seq::empty()
    } else {
        let c = match evs.last().event {
            InputEvent::KeyRelease(k) => match key_char(k) {
                Some(c) => seq![c],
                None => Seq::empty(),
            },
            InputEvent::ButtonPress => Seq::empty(),
        };
        typed_chars(evs.drop_last()) + c
    }
}

/// Each event is a printable keystroke that arrives within the idle window of
/// the one before it (of the last change to `s`, for the first).
pub open spec fn steady_typing(s: HandlerState, evs: Seq<TimedEvent>) -> bool {
    forall|i: int|
        0 <= i < evs.len() ==> {
            &&& #[trigger] evs[i].event matches InputEvent::KeyRelease(k) && key_char(k) is Some
            &&& elapsed(
                evs[i].now_ms,
                if i == 0 {
                    s.last_key_time
                } else {
                    evs[i - 1].now_ms
                },
            ) < evs[i].delay_ms
        }
}

/// The buffer never exceeds its maximum: every event, and every idle check,
/// keeps a bounded state bounded.
pub proof fn lemma_step_stays_bounded(
    s: HandlerState,
    ev: InputEvent,
    now_ms: u64,
    delay_ms: u64,
    ticket: u64,
    triggers: Seq<Seq<char>>,
)
    requires
        bounded(s),
    ensures
        bounded(after_event(s, ev, now_ms, delay_ms)),
        bounded(fire(s, ticket, triggers).0),
{
}

/// The buffer stays within its maximum after every event of any run.
pub proof fn lemma_run_stays_bounded(s: HandlerState, evs: Seq<TimedEvent>)
    requires
        bounded(s),
    ensures
        forall|k: int| 0 <= k <= evs.len() ==> bounded(#[trigger] run(s, evs.take(k))),
    decreases evs.len(),
{
    if evs.len() > 0 {
        lemma_run_stays_bounded(s, evs.drop_last());
        assert forall|k: int| 0 <= k <= evs.len() implies bounded(#[trigger] run(s, evs.take(k))) by {
            if k < evs.len() {
                assert(evs.take(k) =~= evs.drop_last().take(k));
            } else {
                assert(evs.take(k) =~= evs);
                assert(evs.drop_last().take(k - 1) =~= evs.drop_last());
                let e = evs.last();
                lemma_step_stays_bounded(run(s, evs.drop_last()), e.event, e.now_ms, e.delay_ms, 0, Seq::empty());
            }
        }
    }
}

/// Typing without pause keeps the most recent characters: the buffer holds the
/// last `MAX_TRIGGER_LENGTH` characters of what it held followed by what was
/// typed, the oldest dropped first.
pub proof fn lemma_typing_keeps_latest(s: HandlerState, evs: Seq<TimedEvent>)
    requires
        bounded(s),
        steady_typing(s, evs),
    ensures
        run(s, evs).buffer == keep_last(s.buffer + typed_chars(evs), MAX_TRIGGER_LENGTH as nat),
        evs.len() > 0 ==> run(s, evs).last_key_time == evs.last().now_ms,
    decreases evs.len(),
{
    if evs.len() > 0 {
        let pre = evs.drop_last();
        assert(steady_typing(s, pre)) by {
            assert forall|i: int| 0 <= i < pre.len() implies {
                &&& #[trigger] pre[i].event matches InputEvent::KeyRelease(k) && key_char(k) is Some
                &&& elapsed(
                    pre[i].now_ms,
                    if i == 0 {
                        s.last_key_time
                    } else {
                        pre[i - 1].now_ms
                    },
                ) < pre[i].delay_ms
            } by {
                assert(pre[i] == evs[i]);
                if i > 0 {
                    assert(pre[i - 1] == evs[i - 1]);
                }
            }
        }
        lemma_typing_keeps_latest(s, pre);
        let n = evs.len() - 1;
        let e = evs[n];
        assert(e.event matches InputEvent::KeyRelease(k) && key_char(k) is Some);
        let c = match e.event {
            InputEvent::KeyRelease(k) => key_char(k)->0,
            InputEvent::ButtonPress => ' ',
        };
        let mid = run(s, pre);
        lemma_run_stays_bounded(s, pre);
        assert(pre.take(pre.len() as int) =~= pre);
        assert(!is_idle(mid, e.now_ms, e.delay_ms));
        assert(typed_chars(evs) =~= typed_chars(pre).push(c));
        let all = s.buffer + typed_chars(pre);
        assert(s.buffer + typed_chars(evs) =~= all.push(c));
        assert(push_bounded(keep_last(all, MAX_TRIGGER_LENGTH as nat), c) =~= keep_last(
            all.push(c),
            MAX_TRIGGER_LENGTH as nat,
        ));
    }
}

/// Without a matching trigger nothing is replaced: an idle check leaves the
/// state as it is, and a buffer flushed by the next keystroke finds no snippet.
pub proof fn lemma_no_match_no_replacement(
    s: HandlerState,
    ticket: u64,
    ev: InputEvent,
    now_ms: u64,
    delay_ms: u64,
    triggers: Seq<Seq<char>>,
)
    requires
        forall|i: int| 0 <= i < triggers.len() ==> !ends_with(s.buffer, #[trigger] triggers[i]),
    ensures
        fire(s, ticket, triggers) == (s, None::<int>),
        best_match(flushed_by(s, ev, now_ms, delay_ms), triggers) is None,
{
    lemma_best_match_exists(s.buffer, triggers);
    lemma_best_match_exists(Seq::empty(), triggers);
}

/// A buffer that ends with a trigger is replaced exactly once: the current
/// idle check returns the match and empties the buffer, after which no check,
/// whatever its ticket, replaces anything.
pub proof fn lemma_match_replaces_once(s: HandlerState, triggers: Seq<Seq<char>>, later: u64)
    requires
        has_match(s.buffer, triggers),
    ensures
        fire(s, s.generation, triggers).1 is Some,
        fire(s, s.generation, triggers).1 == best_match(s.buffer, triggers),
        fire(s, s.generation, triggers).0.buffer.len() == 0,
        fire(fire(s, s.generation, triggers).0, later, triggers).1 is None,
{
    lemma_best_match_exists(s.buffer, triggers);
    lemma_best_match_exists(Seq::empty(), triggers);
}

/// Once typing or erasing leaves a buffer that ends with a trigger, the idle
/// check it schedules replaces it when it fires, with no further keystroke.
pub proof fn lemma_idle_check_fires(
    s: HandlerState,
    ev: InputEvent,
    now_ms: u64,
    delay_ms: u64,
    triggers: Seq<Seq<char>>,
)
    requires
        edits_buffer(ev),
        has_match(after_event(s, ev, now_ms, delay_ms).buffer, triggers),
    ensures
        check_after(s, ev, now_ms, delay_ms) == Some(
            IdleCheck { ticket: after_event(s, ev, now_ms, delay_ms).generation, delay_ms },
        ),
        fire(after_event(s, ev, now_ms, delay_ms), after_event(s, ev, now_ms, delay_ms).generation, triggers).1
            == best_match(after_event(s, ev, now_ms, delay_ms).buffer, triggers),
        best_match(after_event(s, ev, now_ms, delay_ms).buffer, triggers) is Some,
{
    lemma_best_match_exists(after_event(s, ev, now_ms, delay_ms).buffer, triggers);
}

/// A check scheduled by one keystroke does nothing once another change has
/// come in before it fires.
pub proof fn lemma_stale_check_is_noop(
    s: HandlerState,
    first: TimedEvent,
    second: TimedEvent,
    triggers: Seq<Seq<char>>,
)
    requires
        edits_buffer(first.event),
        is_activity(second.event),
    ensures
        ({
            let s1 = after_event(s, first.event, first.now_ms, first.delay_ms);
            let c = check_after(s, first.event, first.now_ms, first.delay_ms)->0;
            let s2 = after_event(s1, second.event, second.now_ms, second.delay_ms);
            fire(s2, c.ticket, triggers) == (s2, None::<int>)
        }),
{
    let s1 = after_event(s, first.event, first.now_ms, first.delay_ms);
    let s2 = after_event(s1, second.event, second.now_ms, second.delay_ms);
    assert(s2.generation == next_generation(s1.generation));
}

} // verus!
