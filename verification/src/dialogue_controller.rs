//! Dialogue flow: takes dialogue lines from the scene, runs the typewriter
//! animation for each, and turns player clicks into "skip the animation",
//! "show the next queued line" or "ask the script for more".
use std::collections::VecDeque;
use vstd::prelude::*;

use crate::typewriter::{
    advanced, model_wf, reset_to, skipped_model, Typewriter, TypewriterModel, TypewriterSpeed,
};

verus! {

/// Lifecycle stage of the current dialogue line.
#[derive(Debug, Clone, Copy, PartialEq, Eq, Structural)]
pub enum DialogueState {
    /// No line is active.
    Idle,
    /// The line is being revealed.
    Typewriting,
    /// The whole line is shown; waiting for a click.
    WaitingForAdvance,
    /// The player clicked past the last line; the script must continue.
    Completed,
}

/// What a click asks of the scene.
#[derive(Debug, Clone, Copy, PartialEq, Eq, Structural)]
pub enum DialogueAction {
    /// Nothing: the animation was skipped or the next queued line started.
    NoOp,
    /// Continue the script: the last line is done and the queue is empty.
    Advance,
}

/// One line of dialogue.
#[derive(Debug, Clone, PartialEq, Eq)]
pub struct DialogueLine {
    /// Speaker name; empty for narration.
    pub speaker: String,
    /// Body text.
    pub text: String,
    /// Voice clip identifier, if any.
    pub voice_id: Option<String>,
}

/// Abstract state of a [`DialogueController`].
pub struct DialogueModel {
    pub state: DialogueState,
    pub queue: Seq<DialogueLine>,
    pub speaker: Seq<char>,
    pub text: Seq<char>,
    pub typewriter: TypewriterModel,
}

/// Whether a line is on screen (being revealed or waiting for a click).
pub open spec fn is_active(s: DialogueState) -> bool {
    s == DialogueState::Typewriting || s == DialogueState::WaitingForAdvance
}

/// The invariant every reachable controller state satisfies.
pub open spec fn dialogue_wf(m: DialogueModel) -> bool {
    &&& model_wf(m.typewriter)
    &&& m.typewriter.total == m.text.len()
    &&& (m.state == DialogueState::WaitingForAdvance ==> m.typewriter.complete)
    &&& (m.queue.len() > 0 ==> is_active(m.state))
}

/// State right after `line` starts being shown.
pub open spec fn started(m: DialogueModel, line: DialogueLine) -> DialogueModel {
    DialogueModel {
        state: DialogueState::Typewriting,
        queue: m.queue,
        speaker: line.speaker@,
        text: line.text@,
        typewriter: reset_to(m.typewriter, line.text@.len()),
    }
}

/// State after a push.
pub open spec fn pushed(m: DialogueModel, line: DialogueLine) -> DialogueModel {
    if is_active(m.state) {
        DialogueModel { queue: m.queue.push(line), ..m }
    } else {
        started(m, line)
    }
}

/// State after `delta` nanoseconds.
pub open spec fn updated(m: DialogueModel, delta: nat) -> DialogueModel {
    if m.state != DialogueState::Typewriting {
        m
    } else {
        let tw = advanced(m.typewriter, delta);
        DialogueModel {
            typewriter: tw,
            state: if tw.complete {
                DialogueState::WaitingForAdvance
            } else {
                DialogueState::Typewriting
            },
            ..m
        }
    }
}

/// State and action after a click.
pub open spec fn clicked(m: DialogueModel) -> (DialogueModel, DialogueAction) {
    match m.state {
        DialogueState::Typewriting => (
            DialogueModel {
                typewriter: skipped_model(m.typewriter),
                state: DialogueState::WaitingForAdvance,
                ..m
            },
            DialogueAction::NoOp,
        ),
        DialogueState::WaitingForAdvance => if m.queue.len() > 0 {
            (
                started(DialogueModel { queue: m.queue.drop_first(), ..m }, m.queue[0]),
                DialogueAction::NoOp,
            )
        } else {
            (DialogueModel { state: DialogueState::Completed, ..m }, DialogueAction::Advance)
        },
        _ => (m, DialogueAction::NoOp),
    }
}

/// Dialogue flow manager.
#[derive(Debug)]
pub struct DialogueController {
    state: DialogueState,
    queue: VecDeque<DialogueLine>,
    current_speaker: String,
    current_text: String,
    typewriter: Typewriter,
}

impl View for DialogueController {
    type V = DialogueModel;

    closed spec fn view(&self) -> DialogueModel {
        DialogueModel {
            state: self.state,
            queue: self.queue@,
            speaker: self.current_speaker@,
            text: self.current_text@,
            typewriter: self.typewriter@,
        }
    }
}

impl DialogueController {
    /// Well-formedness of the concrete state.
    pub open spec fn wf(&self) -> bool {
        dialogue_wf(self@)
    }

    /// An idle controller with an empty queue.
    pub fn new(speed: TypewriterSpeed) -> (dc: Self)
        ensures
            dc.wf(),
            dc@.state == DialogueState::Idle,
            dc@.queue.len() == 0,
            dc@.speaker.len() == 0,
            dc@.text.len() == 0,
            dc@.typewriter == (TypewriterModel {
                speed,
                total: 0,
                visible: 0,
                elapsed: 0,
                complete: true,
                skipped: false,
            }),
    {
        DialogueController {
            state: DialogueState::Idle,
            queue: VecDeque::new(),
            current_speaker: String::new(),
            current_text: String::new(),
            typewriter: Typewriter::new(speed),
        }
    }

    /// Shows `line` at once when no line is active, otherwise queues it.
    pub fn push(&mut self, line: DialogueLine)
        requires
            old(self).wf(),
        ensures
            final(self).wf(),
            final(self)@ == pushed(old(self)@, line),
    {
        match self.state {
            DialogueState::Idle | DialogueState::Completed => {
                self.start_line(line);
            },
            DialogueState::Typewriting | DialogueState::WaitingForAdvance => {
                self.queue.push_back(line);
            },
        }
    }

    /// Advances the animation by `delta_nanos`; returns the resulting state.
    pub fn update(&mut self, delta_nanos: u64) -> (s: DialogueState)
        requires
            old(self).wf(),
        ensures
            final(self).wf(),
            final(self)@ == updated(old(self)@, delta_nanos as nat),
            s == final(self)@.state,
    {
        if self.state != DialogueState::Typewriting {
            return self.state;
        }
        self.typewriter.update(delta_nanos);
        if self.typewriter.is_complete() {
            self.state = DialogueState::WaitingForAdvance;
        }
        self.state
    }

    /// Handles a click: skips a running animation, or moves past a finished line.
    pub fn on_click(&mut self) -> (action: DialogueAction)
        requires
            old(self).wf(),
        ensures
            final(self).wf(),
            (final(self)@, action) == clicked(old(self)@),
    {
        match self.state {
            DialogueState::Typewriting => {
                self.typewriter.skip();
                self.state = DialogueState::WaitingForAdvance;
                DialogueAction::NoOp
            },
            DialogueState::WaitingForAdvance => {
                if let Some(next_line) = self.queue.pop_front() {
                    self.start_line(next_line);
                    DialogueAction::NoOp
                } else {
                    self.state = DialogueState::Completed;
                    DialogueAction::Advance
                }
            },
            _ => DialogueAction::NoOp,
        }
    }

    /// Back to idle: empty queue, no text, typewriter emptied (speed kept).
    pub fn reset(&mut self)
        requires
            old(self).wf(),
        ensures
            final(self).wf(),
            final(self)@.state == DialogueState::Idle,
            final(self)@.queue.len() == 0,
            final(self)@.speaker.len() == 0,
            final(self)@.text.len() == 0,
            final(self)@.typewriter == reset_to(old(self)@.typewriter, 0),
    {
        self.state = DialogueState::Idle;
        self.queue.clear();
        self.current_speaker = String::new();
        self.current_text = String::new();
        proof {
            reveal_strlit("");
        }
        self.typewriter.reset("");
    }

    /// Current state.
    pub fn state(&self) -> (s: DialogueState)
        ensures
            s == self@.state,
    {
        self.state
    }

    /// Speaker of the current line (empty for narration).
    pub fn current_speaker(&self) -> (s: &str)
        ensures
            s@ == self@.speaker,
    {
        self.current_speaker.as_str()
    }

    /// Full text of the current line.
    pub fn current_text(&self) -> (s: &str)
        ensures
            s@ == self@.text,
    {
        self.current_text.as_str()
    }

    /// Number of characters of the current line shown so far.
    pub fn current_visible_chars(&self) -> (n: usize)
        ensures
            n as nat == self@.typewriter.visible,
    {
        self.typewriter.visible_chars()
    }

    /// Typewriter speed.
    pub fn speed(&self) -> (s: TypewriterSpeed)
        ensures
            s == self@.typewriter.speed,
    {
        self.typewriter.speed()
    }

    /// Changes the typewriter speed.
    pub fn set_speed(&mut self, speed: TypewriterSpeed)
        requires
            old(self).wf(),
        ensures
            final(self).wf(),
            final(self)@ == (DialogueModel {
                typewriter: TypewriterModel { speed, ..old(self)@.typewriter },
                ..old(self)@
            }),
    {
        self.typewriter.set_speed(speed);
    }

    /// Number of queued lines.
    pub fn queue_len(&self) -> (n: usize)
        ensures
            n as nat == self@.queue.len(),
    {
        self.queue.len()
    }

    fn start_line(&mut self, line: DialogueLine)
        requires
            model_wf(old(self)@.typewriter),
        ensures
            final(self)@ == started(old(self)@, line),
            model_wf(final(self)@.typewriter),
    {
        self.current_speaker = line.speaker;
        self.current_text = line.text;
        self.typewriter.reset(self.current_text.as_str());
        self.state = DialogueState::Typewriting;
    }
}

/// While lines wait in the queue, a line is always on screen.
pub proof fn law_queue_implies_active(m: DialogueModel)
    requires
        dialogue_wf(m),
    ensures
        m.queue.len() > 0 ==> is_active(m.state),
{
}

/// Lines are shown in the order they were pushed: pushing `a` then `b` onto an
/// idle controller shows `a` first, and the click that finishes `a` shows `b`.
pub proof fn law_fifo(m: DialogueModel, a: DialogueLine, b: DialogueLine)
    requires
        dialogue_wf(m),
        !is_active(m.state),
    ensures
        ({
            let m1 = pushed(pushed(m, a), b);
            let m2 = skipped_then_clicked(m1);
            &&& m1.speaker == a.speaker@
            &&& m1.text == a.text@
            &&& m2.0.speaker == b.speaker@
            &&& m2.0.text == b.text@
            &&& m2.0.queue.len() == 0
            &&& m2.1 == DialogueAction::NoOp
        }),
{
    assert(m.queue.len() == 0);
    let m1 = pushed(pushed(m, a), b);
    assert(m1.queue =~= seq![b]);
    let m2 = clicked(clicked(m1).0);
    assert(m2.0.queue =~= Seq::<DialogueLine>::empty());
}

/// The two clicks needed to leave a line that is still being revealed.
pub open spec fn skipped_then_clicked(m: DialogueModel) -> (DialogueModel, DialogueAction) {
    clicked(clicked(m).0)
}

/// A click never asks the script to continue while a line is being revealed or
/// another line is queued; it does exactly when the shown line is finished and
/// the queue is empty.
pub proof fn law_advance_only_when_drained(m: DialogueModel)
    requires
        dialogue_wf(m),
    ensures
        (clicked(m).1 == DialogueAction::Advance) <==> (m.state == DialogueState::WaitingForAdvance
            && m.queue.len() == 0),
        dialogue_wf(clicked(m).0),
{
}

/// The queue is first in, first out: a line pushed while another is on
/// screen joins the end of the queue, and the click that finishes a line
/// shows the line at the head of the queue and removes it.
pub proof fn law_queue_first_in_first_out(m: DialogueModel, line: DialogueLine)
    requires
        dialogue_wf(m),
    ensures
        is_active(m.state) ==> pushed(m, line).queue == m.queue.push(line),
        (m.state == DialogueState::WaitingForAdvance && m.queue.len() > 0) ==> {
            &&& clicked(m).0.speaker == m.queue[0].speaker@
            &&& clicked(m).0.text == m.queue[0].text@
            &&& clicked(m).0.queue == m.queue.drop_first()
            &&& clicked(m).0.state == DialogueState::Typewriting
        },
{
}

} // verus!
