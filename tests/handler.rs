use lemme_do_it::executor::{Modifier, Platform, ReplacementRun, Step};
use lemme_do_it::handler::{InputEvent, KeyboardHandler, KeyOutcome, MAX_TRIGGER_LENGTH};
use lemme_do_it::keys::Key;
use lemme_do_it::snippet::Snippet;

fn snippet(trigger: &str, content: &str, is_html: bool) -> Snippet {
    Snippet::new(trigger.to_string(), content.to_string(), None, vec![], is_html)
}

fn key_for(c: char) -> Key {
    match c {
        'a' => Key::KeyA,
        'b' => Key::KeyB,
        'e' => Key::KeyE,
        'h' => Key::KeyH,
        'i' => Key::KeyI,
        'l' => Key::KeyL,
        'o' => Key::KeyO,
        't' => Key::KeyT,
        'w' => Key::KeyW,
        'x' => Key::KeyX,
        '2' => Key::Num2,
        ' ' => Key::Other,
        _ => panic!("no key for {c}"),
    }
}

/// Types `text` one key every `step_ms` from `start_ms`; returns the last outcome.
fn type_text(h: &mut KeyboardHandler, text: &str, start_ms: u64, step_ms: u64, delay_ms: u64) -> KeyOutcome {
    let mut last = None;
    for (i, c) in text.chars().enumerate() {
        let now = start_ms + step_ms * i as u64;
        last = Some(h.handle_event(InputEvent::KeyRelease(key_for(c)), now, delay_ms));
    }
    last.expect("text is not empty")
}

#[test]
fn typing_then_pausing_expands_plain_snippet_once() {
    let snippets = vec![snippet("btw", "by the way", false), snippet("@@", "<a>link</a>", true)];
    let mut h = KeyboardHandler::new();
    let mut check = None;
    for (i, c) in "hello btw".chars().enumerate() {
        let out = h.handle_event(InputEvent::KeyRelease(key_for(c)), 1000 + 20 * i as u64, 200);
        assert!(out.flushed.is_empty());
        if out.idle_check.is_some() {
            check = out.idle_check;
        }
    }
    assert_eq!(h.get_buffer(), "hellobtw");
    let check = check.unwrap();
    assert_eq!(check.delay_ms, 200);
    let hit = h.idle_check(check.ticket, &snippets);
    assert_eq!(hit, Some(0));
    assert_eq!(h.get_buffer(), "");
    assert_eq!(h.idle_check(check.ticket, &snippets), None);

    let s = &snippets[0];
    let mut run = ReplacementRun::new(&s.trigger, s.content.clone(), s.id.clone(), s.is_html, Platform::Linux);
    assert_eq!(run.get_content(), "by the way");
    assert_eq!(run.get_snippet_id(), &s.id);
    let mut steps = Vec::new();
    while let Some(step) = run.next_step(true) {
        steps.push(step);
    }
    assert_eq!(steps.iter().filter(|s| **s == Step::Backspace).count(), 3);
    assert_eq!(steps.iter().filter(|s| **s == Step::SetClipboardText).count(), 1);
    assert_eq!(steps.iter().filter(|s| **s == Step::SetClipboardHtml).count(), 0);
    assert_eq!(steps.iter().filter(|s| **s == Step::RecordUsage).count(), 1);
    let paste = steps.iter().position(|s| *s == Step::ClickPasteKey).unwrap();
    let clear = steps.iter().position(|s| *s == Step::ClearClipboard).unwrap();
    assert!(paste < clear);
    assert_eq!(steps.last(), Some(&Step::RecordUsage));

    let mut used = snippets[0].clone();
    let before = used.usage_count;
    used._increment_usage();
    assert_eq!(used.usage_count, before + 1);
}

#[test]
fn enter_before_timeout_drops_pending_check() {
    let snippets = vec![snippet("btw", "by the way", false), snippet("@@", "<a>link</a>", true), snippet("22", "two", false)];
    let mut h = KeyboardHandler::new();
    // '@' is Shift+2: the modifier is ignored and the digit key is buffered.
    h.handle_event(InputEvent::KeyRelease(Key::Other), 0, 200);
    let first = h.handle_event(InputEvent::KeyRelease(Key::Num2), 10, 200);
    h.handle_event(InputEvent::KeyRelease(Key::Other), 20, 200);
    let second = h.handle_event(InputEvent::KeyRelease(Key::Num2), 30, 200);
    assert_eq!(h.get_buffer(), "22");
    let out = h.handle_event(InputEvent::KeyRelease(Key::Return), 50, 200);
    assert!(out.idle_check.is_none());
    assert!(out.flushed.is_empty());
    assert_eq!(h.get_buffer(), "");
    assert_eq!(h.idle_check(first.idle_check.unwrap().ticket, &snippets), None);
    assert_eq!(h.idle_check(second.idle_check.unwrap().ticket, &snippets), None);
    assert_eq!(snippets[1].usage_count, 0);
}

#[test]
fn delay_change_applies_to_next_check() {
    let mut h = KeyboardHandler::new();
    let a = h.handle_event(InputEvent::KeyRelease(Key::KeyA), 100, 200);
    assert_eq!(a.idle_check.unwrap().delay_ms, 200);
    // With no idle window the buffer is idle at once: each key flushes the one before.
    let b = h.handle_event(InputEvent::KeyRelease(Key::KeyB), 150, 0);
    assert_eq!(b.idle_check.unwrap().delay_ms, 0);
    assert_eq!(b.flushed, vec!['a']);
    let c = h.handle_event(InputEvent::KeyRelease(Key::KeyX), 150, 0);
    assert_eq!(c.flushed, vec!['b']);
    assert_eq!(h.get_buffer(), "x");
}

#[test]
fn buffer_keeps_latest_characters_on_overflow() {
    let mut h = KeyboardHandler::new();
    let text: String = "abhilotwex".repeat(15);
    type_text(&mut h, &text, 0, 1, 1000);
    let buf = h.get_buffer();
    assert_eq!(buf.chars().count(), MAX_TRIGGER_LENGTH);
    assert_eq!(buf, text[text.len() - MAX_TRIGGER_LENGTH..]);
}

#[test]
fn no_trigger_suffix_means_no_replacement() {
    let snippets = vec![snippet("btw", "by the way", false), snippet("xyz", "!", false)];
    let mut h = KeyboardHandler::new();
    let out = type_text(&mut h, "hello", 0, 10, 200);
    let ticket = out.idle_check.unwrap().ticket;
    assert!(h.is_current(ticket));
    assert_eq!(h.idle_check(ticket, &snippets), None);
    assert_eq!(h.get_buffer(), "hello");
}

#[test]
fn idle_check_fires_without_another_key() {
    let snippets = vec![snippet("hi", "A", false), snippet("ohi", "B", false)];
    let mut h = KeyboardHandler::new();
    let out = type_text(&mut h, "ohi", 0, 10, 200);
    let ticket = out.idle_check.unwrap().ticket;
    assert_eq!(h.idle_check(ticket, &snippets), Some(1));
    assert_eq!(h.get_buffer(), "");
}

#[test]
fn newer_keystroke_makes_check_stale() {
    let snippets = vec![snippet("hi", "A", false)];
    let mut h = KeyboardHandler::new();
    let out = type_text(&mut h, "hi", 0, 10, 200);
    let old_ticket = out.idle_check.unwrap().ticket;
    let newer = h.handle_event(InputEvent::KeyRelease(Key::Backspace), 30, 200);
    assert!(!h.is_current(old_ticket));
    assert_eq!(h.idle_check(old_ticket, &snippets), None);
    assert_eq!(h.get_buffer(), "h");
    let fresh = newer.idle_check.unwrap().ticket;
    assert!(h.is_current(fresh));
    assert_eq!(h.idle_check(fresh, &snippets), None);
}

#[test]
fn idle_keystroke_flushes_and_starts_fresh() {
    let mut h = KeyboardHandler::new();
    type_text(&mut h, "btw", 0, 10, 200);
    let out = h.handle_event(InputEvent::KeyRelease(Key::KeyH), 20 + 200, 200);
    assert_eq!(out.flushed, vec!['b', 't', 'w']);
    assert_eq!(h.get_buffer(), "h");
    // Just under the window nothing is flushed.
    let out = h.handle_event(InputEvent::KeyRelease(Key::KeyI), 220 + 199, 200);
    assert!(out.flushed.is_empty());
    assert_eq!(h.get_buffer(), "hi");
}

#[test]
fn click_and_terminators_clear_the_buffer() {
    let mut h = KeyboardHandler::new();
    type_text(&mut h, "ab", 0, 10, 200);
    let out = h.handle_event(InputEvent::ButtonPress, 20, 200);
    assert!(out.idle_check.is_none());
    assert_eq!(h.get_buffer(), "");
    for key in [Key::Tab, Key::Escape, Key::LeftArrow, Key::Home, Key::PageDown, Key::Delete] {
        type_text(&mut h, "ab", 30, 1, 200);
        h.handle_event(InputEvent::KeyRelease(key), 40, 200);
        assert_eq!(h.get_buffer(), "");
    }
}

#[test]
fn backspace_erases_and_unmapped_keys_are_ignored() {
    let mut h = KeyboardHandler::new();
    let typed = type_text(&mut h, "abe", 0, 10, 200);
    let ticket = typed.idle_check.unwrap().ticket;
    let out = h.handle_event(InputEvent::KeyRelease(Key::Other), 25, 200);
    assert!(out.idle_check.is_none());
    assert!(h.is_current(ticket));
    assert_eq!(h.get_buffer(), "abe");
    let out = h.handle_event(InputEvent::KeyRelease(Key::Backspace), 30, 200);
    assert!(out.idle_check.is_some());
    assert_eq!(h.get_buffer(), "ab");
    h.handle_event(InputEvent::KeyRelease(Key::Backspace), 31, 200);
    h.handle_event(InputEvent::KeyRelease(Key::Backspace), 32, 200);
    let out = h.handle_event(InputEvent::KeyRelease(Key::Backspace), 33, 200);
    assert!(out.idle_check.is_some());
    assert_eq!(h.get_buffer(), "");
}

#[test]
fn clear_buffer_makes_pending_check_stale() {
    let snippets = vec![snippet("ab", "x", false)];
    let mut h = KeyboardHandler::new();
    let out = type_text(&mut h, "ab", 0, 10, 200);
    h.clear_buffer();
    assert_eq!(h.get_buffer(), "");
    assert_eq!(h.idle_check(out.idle_check.unwrap().ticket, &snippets), None);
}

#[test]
fn paste_chord_uses_meta_on_macos() {
    let mut run = ReplacementRun::new("hi", "x".to_string(), "id".to_string(), true, Platform::MacOs);
    let mut steps = Vec::new();
    while let Some(step) = run.next_step(true) {
        steps.push(step);
    }
    assert!(steps.contains(&Step::PressModifier(Modifier::Meta)));
    assert!(steps.contains(&Step::ReleaseModifier(Modifier::Meta)));
    assert!(!steps.contains(&Step::PressModifier(Modifier::Control)));
    assert!(steps.contains(&Step::SetClipboardHtml));
}
