use vstd::prelude::*;
use crate::keys::{is_terminator, is_terminator_key, key_char, key_to_char, Key};
use crate::matcher::{as_index, best_match, find_replacement, triggers_of};
use crate::snippet::Snippet;
use crate::text::string_of;

verus! {

/// The most characters the buffer holds; older ones are dropped first.
pub const MAX_TRIGGER_LENGTH: usize = 100;

/// An event from the operating system's input source.
#[derive(Clone, Copy, Debug, PartialEq, Eq, Structural)]
pub enum InputEvent {
    KeyRelease(Key),
    ButtonPress,
}

/// A deferred re-check of the buffer: after `delay_ms`, ask the handler
/// whether `ticket` is still current.
#[derive(Clone, Copy, Debug, PartialEq, Eq, Structural)]
pub struct IdleCheck {
    pub ticket: u64,
    pub delay_ms: u64,
}

/// What the caller must do after an input event.
pub struct KeyOutcome {
    /// The buffer that went idle before this keystroke, already cleared from
    /// the handler, to be looked up for a trigger; empty when there is none.
    pub flushed: Vec<char>,
    /// The idle check to schedule, if this event changed the buffer by typing
    /// or erasing.
    pub idle_check: Option<IdleCheck>,
}

/// The handler's state: the typed characters, the time of the last change,
/// and a counter that every change advances.
pub struct HandlerState {
    pub buffer: Seq<char>,
    pub last_key_time: u64,
    pub generation: u64,
}

/// Watches keystrokes and decides when the typed text is looked up for a
/// trigger.
pub struct KeyboardHandler {
    buffer: Vec<char>,
    last_key_time: u64,
    generation: u64,
}

impl View for KeyboardHandler {
    type V = HandlerState;

    closed spec fn view(&self) -> HandlerState {
        HandlerState {
            buffer: self.buffer@,
            last_key_time: self.last_key_time,
            generation: self.generation,
        }
    }
}

/// Milliseconds from `since` to `now`; 0 if the clock reads earlier.
pub open spec fn elapsed(now: u64, since: u64) -> int {
    if now >= since {
        now - since
    } else {
        0
    }
}

/// The counter after one more change, wrapping at the top.
pub open spec fn next_generation(g: u64) -> u64 {
    if g == u64::MAX {
        0
    } else {
        (g + 1) as u64
    }
}

/// `c` appended, dropping the oldest character if the buffer would exceed
/// its maximum.
pub open spec fn push_bounded(buf: Seq<char>, c: char) -> Seq<char> {
    let b = buf.push(c);
    if b.len() > MAX_TRIGGER_LENGTH {
        b.drop_first()
    } else {
        b
    }
}

/// The buffer is non-empty and untouched for at least `delay` milliseconds.
pub open spec fn is_idle(s: HandlerState, now: u64, delay: u64) -> bool {
    s.buffer.len() > 0 && elapsed(now, s.last_key_time) >= delay
}

/// The buffer holds no more than its maximum.
pub open spec fn bounded(s: HandlerState) -> bool {
    s.buffer.len() <= MAX_TRIGGER_LENGTH
}

/// The state after a change to the buffer at time `now`.
pub open spec fn changed(buffer: Seq<char>, now: u64, s: HandlerState) -> HandlerState {
    HandlerState { buffer, last_key_time: now, generation: next_generation(s.generation) }
}

/// Typing or erasing a character: these schedule an idle check.
pub open spec fn edits_buffer(ev: InputEvent) -> bool {
    match ev {
        InputEvent::KeyRelease(k) => key_char(k) is Some || k == Key::Backspace,
        InputEvent::ButtonPress => false,
    }
}

/// Events that change the handler's state: typing, erasing, terminators and
/// pointer clicks. Other keys are ignored.
pub open spec fn is_activity(ev: InputEvent) -> bool {
    match ev {
        InputEvent::KeyRelease(k) => key_char(k) is Some || k == Key::Backspace || is_terminator(k),
        InputEvent::ButtonPress => true,
    }
}

/// The state after an input event at time `now`, with idle window `delay`.
pub open spec fn after_event(s: HandlerState, ev: InputEvent, now: u64, delay: u64) -> HandlerState {
    match ev {
        InputEvent::ButtonPress => changed(Seq::empty(), now, s),
        InputEvent::KeyRelease(k) => match key_char(k) {
            Some(c) => {
                let base = if is_idle(s, now, delay) {
                    Seq::empty()
                } else {
                    s.buffer
                };
                changed(push_bounded(base, c), now, s)
            },
            None => {
                if k == Key::Backspace {
                    let b = if s.buffer.len() > 0 {
                        s.buffer.drop_last()
                    } else {
                        s.buffer
                    };
                    changed(b, now, s)
                } else if is_terminator(k) {
                    changed(Seq::empty(), now, s)
                } else {
                    s
                }
            },
        },
    }
}

/// The idle buffer that a printable keystroke flushes for lookup.
pub open spec fn flushed_by(s: HandlerState, ev: InputEvent, now: u64, delay: u64) -> Seq<char> {
    match ev {
        InputEvent::KeyRelease(k) => if key_char(k) is Some && is_idle(s, now, delay) {
            s.buffer
        } else {
            Seq::empty()
        },
        InputEvent::ButtonPress => Seq::empty(),
    }
}

/// The idle check an event schedules: for typing and erasing, one that carries
/// the new counter and the current delay.
pub open spec fn check_after(s: HandlerState, ev: InputEvent, now: u64, delay: u64) -> Option<
    IdleCheck,
> {
    if edits_buffer(ev) {
        Some(IdleCheck { ticket: after_event(s, ev, now, delay).generation, delay_ms: delay })
    } else {
        None
    }
}

/// A scheduled check firing: if no change happened since it was scheduled and
/// a trigger matches, the buffer is cleared and the trigger's index returned;
/// otherwise nothing changes.
pub open spec fn fire(s: HandlerState, ticket: u64, triggers: Seq<Seq<char>>) -> (
    HandlerState,
    Option<int>,
) {
    if ticket == s.generation {
        match best_match(s.buffer, triggers) {
            Some(i) => (
                HandlerState {
                    buffer: Seq::empty(),
                    last_key_time: s.last_key_time,
                    generation: next_generation(s.generation),
                },
                Some(i),
            ),
            None => (s, None),
        }
    } else {
        (s, None)
    }
}

/// The characters of `v` from `from` up to `to`.
fn copy_range(v: &Vec<char>, from: usize, to: usize) -> (r: Vec<char>)
    requires
        from <= to <= v@.len(),
    ensures
        r@ == v@.subrange(from as int, to as int),
{
    let mut out: Vec<char> = Vec::new();
    let mut i: usize = from;
    while i < to
        invariant
            from <= i <= to <= v@.len(),
            out@ == v@.subrange(from as int, i as int),
        decreases to - i,
    {
        out.push(v[i]);
        i = i + 1;
        assert(out@ =~= v@.subrange(from as int, i as int));
    }
    out
}

impl KeyboardHandler {
    #[verifier::type_invariant]
    spec fn inv(&self) -> bool {
        self.buffer@.len() <= MAX_TRIGGER_LENGTH
    }

    /// A handler with an empty buffer.
    pub fn new() -> (r: Self)
        ensures
            r@.buffer.len() == 0,
            r@.generation == 0,
            bounded(r@),
    {
        KeyboardHandler { buffer: Vec::new(), last_key_time: 0, generation: 0 }
    }

    fn advance(&mut self, now_ms: u64)
        ensures
            final(self).buffer == old(self).buffer,
            final(self).last_key_time == now_ms,
            final(self).generation == next_generation(old(self).generation),
    {
        proof { use_type_invariant(&*self); }
        self.last_key_time = now_ms;
        self.generation = if self.generation == u64::MAX {
            0
        } else {
            self.generation + 1
        };
    }

    /// Handles one input event at time `now_ms` with idle window `delay_ms`.
    ///
    /// A click or terminator key clears the buffer. Backspace removes the last
    /// character. A printable key first flushes a buffer idle for `delay_ms` or
    /// more, then appends its character, dropping the oldest past the maximum.
    /// Other keys change nothing.
    pub fn handle_event(&mut self, event: InputEvent, now_ms: u64, delay_ms: u64) -> (r: KeyOutcome)
        ensures
            final(self)@ == after_event(old(self)@, event, now_ms, delay_ms),
            r.flushed@ == flushed_by(old(self)@, event, now_ms, delay_ms),
            r.idle_check == check_after(old(self)@, event, now_ms, delay_ms),
            bounded(final(self)@),
    {
        proof { use_type_invariant(&*self); }
        let len = self.buffer.len();
        match event {
            InputEvent::ButtonPress => {
                self.buffer = Vec::new();
                self.advance(now_ms);
                assert(self.buffer@ =~= Seq::<char>::empty());
                KeyOutcome { flushed: Vec::new(), idle_check: None }
            },
            InputEvent::KeyRelease(key) => {
                match key_to_char(&key) {
                    Some(c) => {
                        let since = if now_ms >= self.last_key_time {
                            now_ms - self.last_key_time
                        } else {
                            0
                        };
                        let idle = len > 0 && since >= delay_ms;
                        let flushed = if idle {
                            copy_range(&self.buffer, 0, len)
                        } else {
                            Vec::new()
                        };
                        let start = if idle {
                            len
                        } else if len == MAX_TRIGGER_LENGTH {
                            1
                        } else {
                            0
                        };
                        let mut next = copy_range(&self.buffer, start, len);
                        next.push(c);
                        proof {
                            let base = if is_idle(old(self)@, now_ms, delay_ms) {
                                Seq::<char>::empty()
                            } else {
                                old(self)@.buffer
                            };
                            assert(next@ =~= push_bounded(base, c));
                            assert(flushed@ =~= flushed_by(old(self)@, event, now_ms, delay_ms));
                        }
                        self.buffer = next;
                        self.advance(now_ms);
                        KeyOutcome {
                            flushed,
                            idle_check: Some(IdleCheck { ticket: self.generation, delay_ms }),
                        }
                    },
                    None => {
                        if key == Key::Backspace {
                            let keep = if len > 0 {
                                len - 1
                            } else {
                                0
                            };
                            self.buffer = copy_range(&self.buffer, 0, keep);
                            self.advance(now_ms);
                            assert(len > 0 ==> self.buffer@ =~= old(self)@.buffer.drop_last());
                            assert(len == 0 ==> self.buffer@ =~= old(self)@.buffer);
                            KeyOutcome {
                                flushed: Vec::new(),
                                idle_check: Some(IdleCheck { ticket: self.generation, delay_ms }),
                            }
                        } else if is_terminator_key(&key) {
                            self.buffer = Vec::new();
                            self.advance(now_ms);
                            assert(self.buffer@ =~= Seq::<char>::empty());
                            KeyOutcome { flushed: Vec::new(), idle_check: None }
                        } else {
                            KeyOutcome { flushed: Vec::new(), idle_check: None }
                        }
                    },
                }
            },
        }
    }

    /// Whether an idle check with this ticket would still act: no change to
    /// the buffer happened since it was scheduled.
    pub fn is_current(&self, ticket: u64) -> (r: bool)
        ensures
            r == (ticket == self@.generation),
    {
        ticket == self.generation
    }

    /// Runs a scheduled idle check against the current snippets. A stale
    /// ticket does nothing. A current one looks the buffer up; on a match it
    /// clears the buffer and returns the matching snippet's position.
    pub fn idle_check(&mut self, ticket: u64, snippets: &Vec<Snippet>) -> (r: Option<usize>)
        ensures
            (final(self)@, as_index(r)) == fire(old(self)@, ticket, triggers_of(snippets@)),
            bounded(final(self)@),
    {
        proof { use_type_invariant(&*self); }
        if ticket != self.generation {
            return None;
        }
        let found = find_replacement(&self.buffer, snippets);
        match found {
            Some(i) => {
                self.buffer = Vec::new();
                assert(self.buffer@ =~= Seq::<char>::empty());
                let g = self.generation;
                self.generation = if g == u64::MAX {
                    0
                } else {
                    g + 1
                };
                Some(i)
            },
            None => None,
        }
    }

    /// The buffered characters as a string.
    pub fn get_buffer(&self) -> (r: String)
        ensures
            r@ == self@.buffer,
    {
        string_of(&self.buffer)
    }

    /// Empties the buffer; a pending idle check becomes stale.
    pub fn clear_buffer(&mut self)
        ensures
            final(self)@.buffer.len() == 0,
            final(self)@.last_key_time == old(self)@.last_key_time,
            final(self)@.generation == next_generation(old(self)@.generation),
    {
        self.buffer = Vec::new();
        let g = self.generation;
        self.generation = if g == u64::MAX {
            0
        } else {
            g + 1
        };
    }
}

} // verus!
