//! The decisions of the engine's top level, apart from the window and the
//! GPU they act on: when to draw, what a resize does, how a failed frame is
//! handled, how long a frame step is, and what an input action does to the
//! run.  The caller performs each decision (resizing the surface, drawing,
//! leaving the event loop) and hands back what happened.
use std::time::Instant;
use vstd::prelude::*;

use crate::input_manager::{
    duration_between, duration_nanos, instant_now, processed, ElementState, GameAction, InputEvent,
    InputManager,
};
use crate::strings::str_equal;

verus! {

/// Frame rate aimed at.
pub const DEFAULT_TARGET_FPS: u32 = 60;

/// Longest frame step: 100 ms, in nanoseconds (longer gaps, such as after a
/// debugger pause, are cut to this).
pub const MAX_FRAME_DELTA_NANOS: u64 = 100_000_000;

/// Frame step used for the first frame: 16 ms, in nanoseconds.
pub const FIRST_FRAME_DELTA_NANOS: u64 = 16_000_000;

/// Why a frame could not be acquired from the surface.
#[derive(Debug, Clone, Copy, PartialEq, Eq, Structural)]
pub enum FrameFailure {
    /// The surface was briefly unavailable (common while resizing).
    Timeout,
    /// The surface no longer matches the window size.
    Outdated,
    /// The surface was lost.
    Lost,
    /// The GPU ran out of memory.
    OutOfMemory,
    /// Any other failure.
    Other,
}

/// State of the scene being played, as far as advancing reads it.
#[derive(Debug, Clone, Copy, PartialEq, Eq, Structural)]
pub enum SceneStatus {
    Playing,
    Paused,
    AtMenu,
    Ended,
    /// Any other state (loading, idle).
    Other,
}

/// What the event loop does after an input action.
#[derive(Debug, Clone, Copy, PartialEq, Eq, Structural)]
pub enum LoopStep {
    /// Advance the scene (see [`AppState::advance`]).
    AdvanceScene,
    /// The run ended: leave the event loop.
    Exit,
    /// Nothing to do.
    Nothing,
}

/// What to do for one frame.
#[derive(Debug, Clone, Copy)]
pub struct FramePlan {
    /// New surface size to apply before drawing, if any.
    pub resize: Option<(u32, u32)>,
    /// Time step for animations, in nanoseconds.
    pub delta_nanos: u64,
}

/// Abstract state of an [`AppState`].
pub struct AppStateModel {
    pub is_running: bool,
    pub is_minimized: bool,
    pub target_fps: u32,
    pub resize_pending: Option<(u32, u32)>,
    pub clock_started: bool,
}

/// Run flags of the engine and the clock of its frames.
pub struct AppState {
    is_running: bool,
    is_minimized: bool,
    target_fps: u32,
    resize_pending: Option<(u32, u32)>,
    last_frame: Option<Instant>,
}

impl View for AppState {
    type V = AppStateModel;

    closed spec fn view(&self) -> AppStateModel {
        AppStateModel {
            is_running: self.is_running,
            is_minimized: self.is_minimized,
            target_fps: self.target_fps,
            resize_pending: self.resize_pending,
            clock_started: self.last_frame is Some,
        }
    }
}

/// The state after a resize to `width`×`height`, and the size to apply to
/// the surface: none (and minimized) when a side is 0.
pub open spec fn resized(m: AppStateModel, width: u32, height: u32) -> (AppStateModel, Option<(u32, u32)>) {
    if width == 0 || height == 0 {
        (AppStateModel { is_minimized: true, ..m }, None)
    } else {
        (AppStateModel { is_minimized: false, ..m }, Some((width, height)))
    }
}

/// The frame step for a gap of `elapsed` nanoseconds since the last frame
/// (none for the first frame).
pub open spec fn frame_delta(elapsed: Option<u128>) -> u64 {
    match elapsed {
        None => FIRST_FRAME_DELTA_NANOS,
        Some(e) => if e <= MAX_FRAME_DELTA_NANOS as u128 {
            e as u64
        } else {
            MAX_FRAME_DELTA_NANOS
        },
    }
}

/// The digits of a key's text: the text without a leading `+`.
pub open spec fn menu_body(text: Seq<char>) -> Seq<char> {
    if text.len() > 0 && text[0] == '+' {
        text.drop_first()
    } else {
        text
    }
}

/// All characters but the last are `0`.
pub open spec fn zeros_before_last(body: Seq<char>) -> bool {
    forall|i: int| 0 <= i < body.len() - 1 ==> #[trigger] body[i] == '0'
}

/// The key pressed selects menu choice `n` (0-based) when its text reads as
/// a whole number from 1 to 9: an optional `+`, then digits that are all `0`
/// but the last.
pub open spec fn menu_digit(text: Seq<char>) -> Option<usize> {
    let body = menu_body(text);
    if body.len() > 0 && zeros_before_last(body) && '1' <= body.last() && body.last() <= '9' {
        Some((body.last() as u32 - '1' as u32) as usize)
    } else {
        None
    }
}

/// Time step for a gap of `elapsed` nanoseconds since the last frame: the
/// gap, at most [`MAX_FRAME_DELTA_NANOS`]; [`FIRST_FRAME_DELTA_NANOS`] for the
/// first frame.
pub fn clamp_frame_delta(elapsed: Option<u128>) -> (d: u64)
    ensures
        d == frame_delta(elapsed),
{
    match elapsed {
        None => FIRST_FRAME_DELTA_NANOS,
        Some(e) => if e <= MAX_FRAME_DELTA_NANOS as u128 {
            e as u64
        } else {
            MAX_FRAME_DELTA_NANOS
        },
    }
}

/// The menu choice (0-based) a pressed key with text `text` selects: digits 1
/// to 9 select choices 0 to 8; a released key selects nothing.
pub fn menu_choice_from_key(pressed: bool, text: &str) -> (choice: Option<usize>)
    ensures
        choice == (if pressed {
            menu_digit(text@)
        } else {
            None
        }),
{
    if !pressed {
        return None;
    }
    let n = text.unicode_len();
    let start: usize = if n > 0 && text.get_char(0) == '+' {
        1
    } else {
        0
    };
    let ghost body = menu_body(text@);
    assert(body =~= text@.subrange(start as int, n as int));
    if start >= n {
        return None;
    }
    let mut i: usize = start;
    while i + 1 < n
        invariant
            start <= i < n,
            n == text@.len(),
            body == text@.subrange(start as int, n as int),
            body == menu_body(text@),
            forall|j: int| start <= j < i ==> text@[j] == '0',
        decreases n - i,
    {
        if text.get_char(i) != '0' {
            assert(body[i - start] != '0');
            assert(0 <= i - start < body.len() - 1);
            assert(!zeros_before_last(body));
            assert(menu_digit(text@) is None);
            return None;
        }
        i = i + 1;
    }
    let last = text.get_char(n - 1);
    assert(body.last() == last);
    assert(forall|j: int| 0 <= j < body.len() - 1 ==> body[j] == text@[j + start]);
    if '1' <= last && last <= '9' {
        Some(((last as u32) - ('1' as u32)) as usize)
    } else {
        None
    }
}

impl AppState {
    /// Running, not minimized, at [`DEFAULT_TARGET_FPS`], nothing pending,
    /// clock not started.
    pub fn new() -> (s: Self)
        ensures
            s@ == (AppStateModel {
                is_running: true,
                is_minimized: false,
                target_fps: DEFAULT_TARGET_FPS,
                resize_pending: None,
                clock_started: false,
            }),
    {
        AppState {
            is_running: true,
            is_minimized: false,
            target_fps: DEFAULT_TARGET_FPS,
            resize_pending: None,
            last_frame: None,
        }
    }

    /// Whether the run goes on.
    pub fn is_running(&self) -> (b: bool)
        ensures
            b == self@.is_running,
    {
        self.is_running
    }

    /// Whether the window is minimized (drawing is skipped).
    pub fn is_minimized(&self) -> (b: bool)
        ensures
            b == self@.is_minimized,
    {
        self.is_minimized
    }

    /// Frame rate aimed at.
    pub fn target_fps(&self) -> (f: u32)
        ensures
            f == self@.target_fps,
    {
        self.target_fps
    }

    /// Ends the run (window closed).
    pub fn stop(&mut self)
        ensures
            final(self)@ == (AppStateModel { is_running: false, ..old(self)@ }),
    {
        self.is_running = false;
    }

    /// A resize to `width`×`height`: a side of 0 minimizes and nothing is
    /// resized; otherwise the window is restored and that size must be applied
    /// to the surface and the renderer.
    pub fn handle_resize(&mut self, width: u32, height: u32) -> (apply: Option<(u32, u32)>)
        ensures
            (final(self)@, apply) == resized(old(self)@, width, height),
    {
        if width == 0 || height == 0 {
            self.is_minimized = true;
            return None;
        }
        self.is_minimized = false;
        Some((width, height))
    }

    /// Takes the resize scheduled by an outdated surface, if any.
    pub fn take_pending_resize(&mut self) -> (r: Option<(u32, u32)>)
        ensures
            r == old(self)@.resize_pending,
            final(self)@ == (AppStateModel { resize_pending: None, ..old(self)@ }),
    {
        let r = self.resize_pending;
        self.resize_pending = None;
        r
    }

    /// A frame could not be acquired: a timeout skips the frame; an outdated
    /// surface schedules a resize to the window's current size (when there is
    /// a window); anything else ends the run.
    pub fn frame_failed(&mut self, failure: FrameFailure, window_size: Option<(u32, u32)>)
        ensures
            final(self)@ == (match failure {
                FrameFailure::Timeout => old(self)@,
                FrameFailure::Outdated => match window_size {
                    Some(wh) => AppStateModel { resize_pending: Some(wh), ..old(self)@ },
                    None => old(self)@,
                },
                _ => AppStateModel { is_running: false, ..old(self)@ },
            }),
    {
        match failure {
            FrameFailure::Timeout => {},
            FrameFailure::Outdated => {
                if let Some(wh) = window_size {
                    self.resize_pending = Some(wh);
                }
            },
            _ => {
                self.is_running = false;
            },
        }
    }

    /// Starts the frame clock (when the GPU is ready).
    pub fn start_clock(&mut self)
        ensures
            final(self)@ == (AppStateModel { clock_started: true, ..old(self)@ }),
    {
        self.last_frame = Some(instant_now());
    }

    /// Reads the clock and returns the time step since the last frame (see
    /// [`clamp_frame_delta`]); the clock is then started.
    pub fn frame_step(&mut self) -> (d: u64)
        ensures
            final(self)@ == (AppStateModel { clock_started: true, ..old(self)@ }),
            d <= MAX_FRAME_DELTA_NANOS,
            !old(self)@.clock_started ==> d == FIRST_FRAME_DELTA_NANOS,
            exists|e: Option<u128>| (e is None <==> !old(self)@.clock_started) && d == #[trigger] frame_delta(e),
    {
        let now = instant_now();
        let elapsed = match &self.last_frame {
            Some(t) => Some(duration_nanos(&duration_between(&now, t))),
            None => None,
        };
        self.last_frame = Some(now);
        clamp_frame_delta(elapsed)
    }

    /// Plans a frame: nothing while minimized; otherwise the resize scheduled
    /// earlier is applied first (see [`AppState::handle_resize`]) and the
    /// clock gives the time step.
    pub fn begin_frame(&mut self) -> (plan: Option<FramePlan>)
        ensures
            old(self)@.is_minimized ==> plan is None && final(self)@ == old(self)@,
            !old(self)@.is_minimized ==> (plan matches Some(p) && {
                let m1 = AppStateModel { resize_pending: None, ..old(self)@ };
                let (m2, apply) = match old(self)@.resize_pending {
                    Some((w, h)) => resized(m1, w, h),
                    None => (m1, None),
                };
                &&& p.resize == apply
                &&& final(self)@ == AppStateModel { clock_started: true, ..m2 }
                &&& p.delta_nanos <= MAX_FRAME_DELTA_NANOS
                &&& !old(self)@.clock_started ==> p.delta_nanos == FIRST_FRAME_DELTA_NANOS
            }),
    {
        if self.is_minimized {
            return None;
        }
        let resize = match self.take_pending_resize() {
            Some((w, h)) => self.handle_resize(w, h),
            None => None,
        };
        let delta_nanos = self.frame_step();
        Some(FramePlan { resize, delta_nanos })
    }

    /// What an input action does: advancing goes to the scene; quitting and
    /// opening the menu end the run; other actions do nothing yet.
    pub fn on_action(&mut self, action: GameAction) -> (step: LoopStep)
        ensures
            step == (match action {
                GameAction::Advance => LoopStep::AdvanceScene,
                GameAction::Quit | GameAction::OpenMenu => LoopStep::Exit,
                _ => LoopStep::Nothing,
            }),
            final(self)@ == (if step == LoopStep::Exit {
                AppStateModel { is_running: false, ..old(self)@ }
            } else {
                old(self)@
            }),
    {
        match action {
            GameAction::Advance => LoopStep::AdvanceScene,
            GameAction::Quit | GameAction::OpenMenu => {
                self.is_running = false;
                LoopStep::Exit
            },
            _ => LoopStep::Nothing,
        }
    }

    /// Advancing in scene state `status`: a playing or paused scene takes the
    /// click (`true`); an ended scene ends the run; otherwise nothing happens.
    pub fn advance(&mut self, status: SceneStatus) -> (click: bool)
        ensures
            click == (status == SceneStatus::Playing || status == SceneStatus::Paused),
            final(self)@ == (if status == SceneStatus::Ended {
                AppStateModel { is_running: false, ..old(self)@ }
            } else {
                old(self)@
            }),
    {
        match status {
            SceneStatus::Playing | SceneStatus::Paused => true,
            SceneStatus::Ended => {
                self.is_running = false;
                false
            },
            _ => false,
        }
    }
}


/// What the command line asks for.
#[derive(Debug, Clone, PartialEq, Eq)]
pub enum CliRequest {
    /// Run the project at this path (`--project <path>` or `-p <path>`).
    Project(String),
    /// Print the usage (`--help` or `-h`).
    Help,
    /// No project given: run the default project.
    UseDefault,
}

/// [`CliRequest`] with its path as a character sequence.
pub enum CliModel {
    Project(Seq<char>),
    Help,
    UseDefault,
}

/// The request of the command-line words from position `i` on: the first
/// `--project`/`-p` followed by a word names the project (a trailing one is
/// ignored), the first `--help`/`-h` asks for help, other words are skipped.
pub open spec fn cli_request_from(args: Seq<Seq<char>>, i: int) -> CliModel
    decreases args.len() - i,
{
    if i < 0 || i >= args.len() {
        CliModel::UseDefault
    } else if args[i] == "--project"@ || args[i] == "-p"@ {
        if i + 1 < args.len() {
            CliModel::Project(args[i + 1])
        } else {
            CliModel::UseDefault
        }
    } else if args[i] == "--help"@ || args[i] == "-h"@ {
        CliModel::Help
    } else {
        cli_request_from(args, i + 1)
    }
}

/// The model of a request.
pub open spec fn cli_model(r: CliRequest) -> CliModel {
    match r {
        CliRequest::Project(p) => CliModel::Project(p@),
        CliRequest::Help => CliModel::Help,
        CliRequest::UseDefault => CliModel::UseDefault,
    }
}

/// The words' views.
pub open spec fn arg_views(args: Seq<String>) -> Seq<Seq<char>> {
    args.map_values(|a: String| a@)
}

/// Reads the command line (`args[0]` is the program): see [`cli_request_from`].
pub fn parse_args(args: &Vec<String>) -> (r: CliRequest)
    ensures
        cli_model(r) == cli_request_from(arg_views(args@), 1),
{
    proof {
        reveal_strlit("--project");
        reveal_strlit("-p");
        reveal_strlit("--help");
        reveal_strlit("-h");
    }
    let ghost views = arg_views(args@);
    let mut i: usize = 1;
    while i < args.len()
        invariant
            1 <= i,
            views == arg_views(args@),
            cli_request_from(views, 1) == cli_request_from(views, i as int),
        decreases args@.len() - i,
    {
        let a = args[i].as_str();
        assert(a@ == views[i as int]);
        if str_equal(a, "--project") || str_equal(a, "-p") {
            if i + 1 < args.len() {
                assert(args@[i + 1]@ == views[i + 1]);
                return CliRequest::Project(args[i + 1].clone());
            }
            return CliRequest::UseDefault;
        }
        if str_equal(a, "--help") || str_equal(a, "-h") {
            return CliRequest::Help;
        }
        i = i + 1;
    }
    CliRequest::UseDefault
}


/// A menu choice is taken only while the scene waits at a menu.
pub fn accepts_menu_choice(status: SceneStatus) -> (b: bool)
    ensures
        b == (status == SceneStatus::AtMenu),
{
    match status {
        SceneStatus::AtMenu => true,
        _ => false,
    }
}

/// Routes a window event: a pressed key whose text selects a menu choice
/// (see [`menu_digit`]) selects it and yields no action, leaving the input
/// mapping untouched; any other event goes through the input mapping.
/// `key_text` is the text of the key for keyboard events (empty otherwise).
pub fn route_input(input: &mut InputManager, event: &InputEvent, key_text: &str) -> (r: (GameAction, Option<usize>))
    requires
        old(input).wf(),
    ensures
        final(input).wf(),
        match *event {
            InputEvent::KeyboardInput { state: ElementState::Pressed, .. } if menu_digit(key_text@) is Some => {
                &&& r == (GameAction::NoOp, menu_digit(key_text@))
                &&& final(input)@ == old(input)@
            },
            _ => {
                &&& r.1 is None
                &&& exists|now: u128| (final(input)@, r.0) == #[trigger] processed(old(input)@, *event, now)
            },
        },
{
    if let InputEvent::KeyboardInput { state: ElementState::Pressed, .. } = event {
        if let Some(choice) = menu_choice_from_key(true, key_text) {
            return (GameAction::NoOp, Some(choice));
        }
    }
    (input.process_event(event), None)
}

} // verus!
