use vstd::prelude::*;

verus! {

/// The operating system, chosen once at start-up; it decides the paste chord.
#[derive(Clone, Copy, Debug, PartialEq, Eq, Structural)]
pub enum Platform {
    Windows,
    MacOs,
    Linux,
}

/// The modifier held for the paste chord.
#[derive(Clone, Copy, Debug, PartialEq, Eq, Structural)]
pub enum Modifier {
    Control,
    Meta,
}

/// One step of replacing a typed trigger with a snippet's content.
#[derive(Clone, Copy, Debug, PartialEq, Eq, Structural)]
pub enum Step {
    /// Wait this many milliseconds.
    Pause(u64),
    /// Click Backspace once.
    Backspace,
    /// Put the content on the clipboard as plain text.
    SetClipboardText,
    /// Put the content on the clipboard as HTML.
    SetClipboardHtml,
    /// Hold the modifier down.
    PressModifier(Modifier),
    /// Click the paste key (V).
    ClickPasteKey,
    /// Let the modifier go.
    ReleaseModifier(Modifier),
    /// Clear the clipboard, best effort.
    ClearClipboard,
    /// Count one more use of the snippet, best effort.
    RecordUsage,
}

/// The modifier of the paste chord: Command on macOS, Control elsewhere.
pub open spec fn paste_modifier(p: Platform) -> Modifier {
    match p {
        Platform::MacOs => Modifier::Meta,
        _ => Modifier::Control,
    }
}

/// A failure of this step ends the replacement; the remaining steps are
/// dropped. Failures of the other steps are only reported.
pub open spec fn is_critical(s: Step) -> bool {
    match s {
        Step::Backspace | Step::SetClipboardText | Step::SetClipboardHtml | Step::PressModifier(_)
        | Step::ClickPasteKey | Step::ReleaseModifier(_) => true,
        _ => false,
    }
}

/// `n` Backspace clicks, each followed by a 5 ms pause, with 10 ms more after
/// every tenth.
pub open spec fn erase_steps(n: nat) -> Seq<Step>
    decreases n,
{
    if n == 0 {
        Seq::empty()
    } else {
        let tail = if n % 10 == 0 {
            seq![Step::Backspace, Step::Pause(5), Step::Pause(10)]
        } else {
            seq![Step::Backspace, Step::Pause(5)]
        };
        erase_steps((n - 1) as nat) + tail
    }
}

/// The content goes on the clipboard in the form its flag gives.
pub open spec fn stage_step(is_html: bool) -> Step {
    if is_html {
        Step::SetClipboardHtml
    } else {
        Step::SetClipboardText
    }
}

/// The steps after the trigger is erased: stage the content, paste it, clear
/// the clipboard, count the use.
pub open spec fn paste_steps(is_html: bool, p: Platform) -> Seq<Step> {
    seq![
        Step::Pause(50),
        stage_step(is_html),
        Step::Pause(10),
        Step::PressModifier(paste_modifier(p)),
        Step::Pause(10),
        Step::ClickPasteKey,
        Step::Pause(10),
        Step::ReleaseModifier(paste_modifier(p)),
        Step::Pause(50),
        Step::ClearClipboard,
        Step::Pause(50),
        Step::RecordUsage,
    ]
}

/// All steps that replace a trigger of `n` characters: a settle pause, the
/// erasing, then the paste.
pub open spec fn replacement_plan(n: nat, is_html: bool, p: Platform) -> Seq<Step> {
    seq![Step::Pause(100)] + erase_steps(n) + paste_steps(is_html, p)
}

/// The state of a replacement in progress: its steps, how many were handed
/// out, and whether a failure ended it.
pub struct RunState {
    pub plan: Seq<Step>,
    pub next: nat,
    pub aborted: bool,
}

/// The state after the caller reports how the last handed-out step went and
/// asks for the next one, and the step handed out.
pub open spec fn advance_run(r: RunState, previous_ok: bool) -> (RunState, Option<Step>) {
    let aborted = r.aborted || (r.next > 0 && !previous_ok && is_critical(r.plan[r.next - 1]));
    if aborted || r.next >= r.plan.len() {
        (RunState { aborted, ..r }, None)
    } else {
        (RunState { next: r.next + 1, ..r }, Some(r.plan[r.next as int]))
    }
}

/// How many Backspace clicks a list of steps holds.
pub open spec fn backspaces(steps: Seq<Step>) -> nat
    decreases steps.len(),
{
    if steps.len() == 0 {
        0
    } else {
        backspaces(steps.drop_last()) + if steps.last() == Step::Backspace {
            1nat
        } else {
            0nat
        }
    }
}

proof fn lemma_backspaces_concat(a: Seq<Step>, b: Seq<Step>)
    ensures
        backspaces(a + b) == backspaces(a) + backspaces(b),
    decreases b.len(),
{
    if b.len() > 0 {
        lemma_backspaces_concat(a, b.drop_last());
        assert((a + b).drop_last() =~= a + b.drop_last());
    }
}

proof fn lemma_backspaces_push(a: Seq<Step>, x: Step)
    ensures
        backspaces(a.push(x)) == backspaces(a) + if x == Step::Backspace {
            1nat
        } else {
            0nat
        },
{
    assert(a.push(x).drop_last() =~= a);
}

proof fn lemma_erase_backspaces(n: nat)
    ensures
        backspaces(erase_steps(n)) == n,
    decreases n,
{
    if n > 0 {
        lemma_erase_backspaces((n - 1) as nat);
        let pre = erase_steps((n - 1) as nat);
        let two = pre.push(Step::Backspace).push(Step::Pause(5));
        lemma_backspaces_push(pre, Step::Backspace);
        lemma_backspaces_push(pre.push(Step::Backspace), Step::Pause(5));
        if n % 10 == 0 {
            lemma_backspaces_push(two, Step::Pause(10));
            assert(erase_steps(n) =~= two.push(Step::Pause(10)));
        } else {
            assert(erase_steps(n) =~= two);
        }
    }
}

/// A replacement erases the trigger with exactly one Backspace per character,
/// stages the content once in the form its flag gives, pastes it, then clears
/// the clipboard and finally counts the use.
pub proof fn lemma_plan_shape(n: nat, is_html: bool, p: Platform)
    ensures
        ({
            let plan = replacement_plan(n, is_html, p);
            let k = plan.len() - 12;
            &&& backspaces(plan) == n
            &&& plan[k + 1] == stage_step(is_html)
            &&& plan[k + 3] == Step::PressModifier(paste_modifier(p))
            &&& plan[k + 5] == Step::ClickPasteKey
            &&& plan[k + 7] == Step::ReleaseModifier(paste_modifier(p))
            &&& plan[k + 9] == Step::ClearClipboard
            &&& plan.last() == Step::RecordUsage
            &&& forall|i: int| 0 <= i < k ==> #[trigger] plan[i] != stage_step(is_html)
        }),
{
    let first = seq![Step::Pause(100)];
    let head = first + erase_steps(n);
    let tail = paste_steps(is_html, p);
    let plan = replacement_plan(n, is_html, p);
    assert(plan == head + tail);
    lemma_erase_backspaces(n);
    lemma_backspaces_push(Seq::empty(), Step::Pause(100));
    assert(Seq::<Step>::empty().push(Step::Pause(100)) =~= first);
    lemma_backspaces_concat(first, erase_steps(n));
    lemma_no_backspace_prefix(tail, 12);
    assert(tail.subrange(0, 12) =~= tail);
    lemma_backspaces_concat(head, tail);
    lemma_erase_has_no_stage(n, is_html);
    let k = plan.len() - 12;
    assert(k == head.len());
    assert forall|i: int| 0 <= i < k implies #[trigger] plan[i] != stage_step(is_html) by {
        assert(plan[i] == head[i]);
        if i > 0 {
            assert(head[i] == erase_steps(n)[i - 1]);
        }
    }
}

proof fn lemma_no_backspace_prefix(t: Seq<Step>, k: int)
    requires
        0 <= k <= t.len(),
        forall|i: int| 0 <= i < t.len() ==> #[trigger] t[i] != Step::Backspace,
    ensures
        backspaces(t.subrange(0, k)) == 0,
    decreases k,
{
    if k > 0 {
        lemma_no_backspace_prefix(t, k - 1);
        assert(t.subrange(0, k).drop_last() =~= t.subrange(0, k - 1));
    }
}

proof fn lemma_erase_has_no_stage(n: nat, is_html: bool)
    ensures
        forall|i: int|
            0 <= i < erase_steps(n).len() ==> #[trigger] erase_steps(n)[i] != stage_step(is_html),
        forall|i: int|
            0 <= i < erase_steps(n).len() ==> #[trigger] erase_steps(n)[i] != Step::ClearClipboard,
    decreases n,
{
    if n > 0 {
        lemma_erase_has_no_stage((n - 1) as nat, is_html);
    }
}

/// Builds the steps that replace a trigger of `trigger_len` characters.
pub fn replacement_steps(trigger_len: usize, is_html: bool, platform: Platform) -> (r: Vec<Step>)
    ensures
        r@ == replacement_plan(trigger_len as nat, is_html, platform),
{
    let mut steps: Vec<Step> = Vec::new();
    steps.push(Step::Pause(100));
    let mut i: usize = 0;
    while i < trigger_len
        invariant
            i <= trigger_len,
            steps@ == seq![Step::Pause(100)] + erase_steps(i as nat),
        decreases trigger_len - i,
    {
        steps.push(Step::Backspace);
        steps.push(Step::Pause(5));
        if (i + 1) % 10 == 0 {
            steps.push(Step::Pause(10));
        }
        i = i + 1;
        assert(steps@ =~= seq![Step::Pause(100)] + erase_steps(i as nat));
    }
    let modifier = match platform {
        Platform::MacOs => Modifier::Meta,
        _ => Modifier::Control,
    };
    steps.push(Step::Pause(50));
    steps.push(if is_html { Step::SetClipboardHtml } else { Step::SetClipboardText });
    steps.push(Step::Pause(10));
    steps.push(Step::PressModifier(modifier));
    steps.push(Step::Pause(10));
    steps.push(Step::ClickPasteKey);
    steps.push(Step::Pause(10));
    steps.push(Step::ReleaseModifier(modifier));
    steps.push(Step::Pause(50));
    steps.push(Step::ClearClipboard);
    steps.push(Step::Pause(50));
    steps.push(Step::RecordUsage);
    assert(steps@ =~= replacement_plan(trigger_len as nat, is_html, platform));
    steps
}

/// A replacement in progress: erases the typed trigger and pastes the
/// snippet's content, one step at a time.
pub struct ReplacementRun {
    content: String,
    snippet_id: String,
    plan: Vec<Step>,
    next: usize,
    aborted: bool,
}

impl View for ReplacementRun {
    type V = RunState;

    closed spec fn view(&self) -> RunState {
        RunState { plan: self.plan@, next: self.next as nat, aborted: self.aborted }
    }
}

impl ReplacementRun {
    #[verifier::type_invariant]
    spec fn inv(&self) -> bool {
        self.next <= self.plan@.len()
    }

    /// Starts replacing `trigger` with `content` (HTML when `is_html`), for
    /// the snippet `snippet_id`.
    pub fn new(
        trigger: &str,
        content: String,
        snippet_id: String,
        is_html: bool,
        platform: Platform,
    ) -> (r: Self)
        ensures
            r@.plan == replacement_plan(trigger@.len(), is_html, platform),
            r@.next == 0,
            !r@.aborted,
            r.content() == content,
            r.snippet_id() == snippet_id,
    {
        let n = trigger.unicode_len();
        ReplacementRun {
            content,
            snippet_id,
            plan: replacement_steps(n, is_html, platform),
            next: 0,
            aborted: false,
        }
    }

    /// The text that goes on the clipboard.
    pub closed spec fn content(&self) -> String {
        self.content
    }

    /// The snippet whose use is counted.
    pub closed spec fn snippet_id(&self) -> String {
        self.snippet_id
    }

    /// The text that goes on the clipboard.
    pub fn get_content(&self) -> (r: &String)
        ensures
            *r == self.content(),
    {
        &self.content
    }

    /// The snippet whose use is counted.
    pub fn get_snippet_id(&self) -> (r: &String)
        ensures
            *r == self.snippet_id(),
    {
        &self.snippet_id
    }

    /// Reports whether the step handed out last succeeded and hands out the
    /// next one. A failed critical step ends the run; `None` means the run is
    /// over.
    pub fn next_step(&mut self, previous_ok: bool) -> (r: Option<Step>)
        ensures
            (final(self)@, r) == advance_run(old(self)@, previous_ok),
            final(self).content() == old(self).content(),
            final(self).snippet_id() == old(self).snippet_id(),
    {
        proof { use_type_invariant(&*self); }
        if self.next > 0 && !previous_ok {
            let last = self.plan[self.next - 1];
            let critical = match last {
                Step::Backspace | Step::SetClipboardText | Step::SetClipboardHtml
                | Step::PressModifier(_) | Step::ClickPasteKey | Step::ReleaseModifier(_) => true,
                _ => false,
            };
            if critical {
                self.aborted = true;
            }
        }
        if self.aborted || self.next >= self.plan.len() {
            return None;
        }
        let s = self.plan[self.next];
        self.next = self.next + 1;
        Some(s)
    }
}

} // verus!
