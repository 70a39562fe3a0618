use lemme_do_it::executor::{replacement_steps, Modifier, Platform, ReplacementRun, Step};

#[test]
fn plan_for_three_characters() {
    let steps = replacement_steps(3, false, Platform::Linux);
    let expected = vec![
        Step::Pause(100),
        Step::Backspace,
        Step::Pause(5),
        Step::Backspace,
        Step::Pause(5),
        Step::Backspace,
        Step::Pause(5),
        Step::Pause(50),
        Step::SetClipboardText,
        Step::Pause(10),
        Step::PressModifier(Modifier::Control),
        Step::Pause(10),
        Step::ClickPasteKey,
        Step::Pause(10),
        Step::ReleaseModifier(Modifier::Control),
        Step::Pause(50),
        Step::ClearClipboard,
        Step::Pause(50),
        Step::RecordUsage,
    ];
    assert_eq!(steps, expected);
}

#[test]
fn every_tenth_backspace_gets_a_longer_pause() {
    let steps = replacement_steps(20, true, Platform::Windows);
    assert_eq!(steps.len(), 1 + 2 * 20 + 2 + 12);
    assert_eq!(&steps[19..22], &[Step::Backspace, Step::Pause(5), Step::Pause(10)]);
    assert_eq!(&steps[40..43], &[Step::Backspace, Step::Pause(5), Step::Pause(10)]);
    assert_eq!(steps[44], Step::SetClipboardHtml);
    assert_eq!(steps[46], Step::PressModifier(Modifier::Control));
}

#[test]
fn empty_trigger_erases_nothing() {
    let steps = replacement_steps(0, false, Platform::MacOs);
    assert_eq!(steps.len(), 13);
    assert!(!steps.contains(&Step::Backspace));
    assert_eq!(steps[4], Step::PressModifier(Modifier::Meta));
}

#[test]
fn failed_keystroke_aborts_the_rest() {
    let mut run = ReplacementRun::new("ab", "text".to_string(), "id".to_string(), false, Platform::Linux);
    assert_eq!(run.next_step(true), Some(Step::Pause(100)));
    assert_eq!(run.next_step(true), Some(Step::Backspace));
    assert_eq!(run.next_step(false), None);
    assert_eq!(run.next_step(true), None);
}

#[test]
fn failed_clipboard_write_aborts_the_rest() {
    let mut run = ReplacementRun::new("a", "text".to_string(), "id".to_string(), false, Platform::Linux);
    let mut step = run.next_step(true);
    while step != Some(Step::SetClipboardText) {
        step = run.next_step(true);
    }
    assert_eq!(run.next_step(false), None);
}

#[test]
fn failed_clear_and_usage_are_not_fatal() {
    let mut run = ReplacementRun::new("a", "text".to_string(), "id".to_string(), false, Platform::Linux);
    let mut step = run.next_step(true);
    while step != Some(Step::ClearClipboard) {
        step = run.next_step(true);
    }
    assert_eq!(run.next_step(false), Some(Step::Pause(50)));
    assert_eq!(run.next_step(true), Some(Step::RecordUsage));
    assert_eq!(run.next_step(false), None);
}

#[test]
fn failed_pause_report_is_ignored() {
    let mut run = ReplacementRun::new("a", "text".to_string(), "id".to_string(), false, Platform::Linux);
    assert_eq!(run.next_step(true), Some(Step::Pause(100)));
    assert_eq!(run.next_step(false), Some(Step::Backspace));
}
