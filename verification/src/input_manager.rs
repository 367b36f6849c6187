//! Input mapping: window input events become game actions, with a per-source
//! debounce (each key and each mouse button has its own timer) so that a
//! held key or a quick double press triggers only once.
use std::time::{Duration, Instant};
use vstd::prelude::*;

verus! {

/// Semantic game action produced by an input event.
#[derive(Debug, Clone, Copy, PartialEq, Eq, Structural)]
pub enum GameAction {
    /// Advance dialogue / confirm (left click, Enter, Space).
    Advance,
    /// Open the menu (Escape).
    OpenMenu,
    Skip,
    Auto,
    QuickSave,
    QuickLoad,
    ToggleFullscreen,
    /// Quit (window close).
    Quit,
    /// No action (unmapped input, or swallowed by the debounce).
    NoOp,
}

/// Logical key of a keyboard event, as far as the bindings distinguish keys.
#[derive(Debug, Clone, Copy, PartialEq, Eq, Structural)]
pub enum InputKey {
    Enter,
    Space,
    Escape,
    /// Any other key.
    Other,
}

/// Mouse button of a mouse event.
#[derive(Debug, Clone, Copy, PartialEq, Eq, Structural)]
pub enum MouseButton {
    Left,
    Right,
    Middle,
    Back,
    Forward,
    Other(u16),
}

/// Pressed or released.
#[derive(Debug, Clone, Copy, PartialEq, Eq, Structural)]
pub enum ElementState {
    Pressed,
    Released,
}

/// A window event, as far as the input mapping reads it.
#[derive(Debug, Clone, Copy, PartialEq, Eq, Structural)]
pub enum InputEvent {
    CloseRequested,
    KeyboardInput { key: InputKey, state: ElementState, repeat: bool },
    MouseInput { state: ElementState, button: MouseButton },
    /// Any other window event.
    Other,
}

/// Default debounce interval: 200 ms, in nanoseconds.
pub const DEFAULT_DEBOUNCE_NANOS: u128 = 200_000_000;

/// Action bound to a key.
pub open spec fn key_action(key: InputKey) -> GameAction {
    match key {
        InputKey::Enter | InputKey::Space => GameAction::Advance,
        InputKey::Escape => GameAction::OpenMenu,
        InputKey::Other => GameAction::NoOp,
    }
}

/// Action bound to a mouse button.
pub open spec fn mouse_action(button: MouseButton) -> GameAction {
    match button {
        MouseButton::Left => GameAction::Advance,
        _ => GameAction::NoOp,
    }
}

/// Time since `last` (zero if the clock reads earlier) is below `interval`.
pub open spec fn within_interval(last: Option<u128>, now: u128, interval: u128) -> bool {
    match last {
        Some(t) => (if now >= t { now - t } else { 0 }) < interval,
        None => false,
    }
}

/// Last trigger time recorded for `k` in a table with unique keys.
pub open spec fn lookup<K>(table: Seq<(K, u128)>, k: K) -> Option<u128> {
    if exists|i: int| 0 <= i < table.len() && #[trigger] table[i].0 == k {
        Some(table[choose|i: int| 0 <= i < table.len() && #[trigger] table[i].0 == k].1)
    } else {
        None
    }
}

/// No key occurs twice in the table.
pub open spec fn unique_keys<K>(table: Seq<(K, u128)>) -> bool {
    forall|i: int, j: int| 0 <= i < table.len() && 0 <= j < table.len() && i != j ==> table[i].0 != table[j].0
}

/// Abstract debounce state: last trigger times per key and per button.
pub struct InputModel {
    pub keys: Seq<(InputKey, u128)>,
    pub buttons: Seq<(MouseButton, u128)>,
    pub interval: u128,
}

/// Result of an event at time `now`: the new state and the action.
pub open spec fn processed(m: InputModel, event: InputEvent, now: u128) -> (InputModel, GameAction) {
    match event {
        InputEvent::CloseRequested => (m, GameAction::Quit),
        InputEvent::KeyboardInput { key, state, repeat } => if state != ElementState::Pressed || repeat
            || key_action(key) == GameAction::NoOp || within_interval(
            lookup(m.keys, key),
            now,
            m.interval,
        ) {
            (m, GameAction::NoOp)
        } else {
            (InputModel { keys: recorded(m.keys, key, now), ..m }, key_action(key))
        },
        InputEvent::MouseInput { state, button } => if state != ElementState::Pressed || mouse_action(
            button,
        ) == GameAction::NoOp || within_interval(lookup(m.buttons, button), now, m.interval) {
            (m, GameAction::NoOp)
        } else {
            (InputModel { buttons: recorded(m.buttons, button, now), ..m }, mouse_action(button))
        },
        InputEvent::Other => (m, GameAction::NoOp),
    }
}

/// `table` with `k` now mapped to `t`: the existing entry is overwritten, or
/// a new one appended.
pub open spec fn recorded<K>(table: Seq<(K, u128)>, k: K, t: u128) -> Seq<(K, u128)> {
    if exists|i: int| 0 <= i < table.len() && #[trigger] table[i].0 == k {
        table.update(choose|i: int| 0 <= i < table.len() && #[trigger] table[i].0 == k, (k, t))
    } else {
        table.push((k, t))
    }
}

#[verifier::external_type_specification]
#[verifier::external_body]
pub struct ExInstant(Instant);

/// Reads the monotonic clock (std's `Instant::now`).  Nothing is claimed of
/// the instant returned.
#[verifier::external_body]
pub(crate) fn instant_now() -> Instant {
    Instant::now()
}

/// Time elapsed since `origin` (std's `Instant::elapsed`).  Nothing is
/// claimed of the duration returned.
#[verifier::external_body]
fn elapsed_since(origin: &Instant) -> Duration {
    origin.elapsed()
}

/// Time from `earlier` to `later`, zero when `earlier` is later (std's
/// `Instant::duration_since`).  Nothing is claimed of the duration returned.
#[verifier::external_body]
pub(crate) fn duration_between(later: &Instant, earlier: &Instant) -> Duration {
    later.duration_since(*earlier)
}

/// Whole nanoseconds of a duration (std's `Duration::as_nanos`).  Nothing is
/// claimed of the number returned.
#[verifier::external_body]
pub(crate) fn duration_nanos(d: &Duration) -> u128 {
    d.as_nanos()
}

/// Window-event to game-action mapping with per-source debounce.
pub struct InputManager {
    key_last_trigger: Vec<(InputKey, u128)>,
    mouse_last_trigger: Vec<(MouseButton, u128)>,
    debounce_interval_nanos: u128,
    clock_origin: Instant,
}

impl View for InputManager {
    type V = InputModel;

    closed spec fn view(&self) -> InputModel {
        InputModel {
            keys: self.key_last_trigger@,
            buttons: self.mouse_last_trigger@,
            interval: self.debounce_interval_nanos,
        }
    }
}

fn record_key(table: &mut Vec<(InputKey, u128)>, k: InputKey, t: u128)
    requires
        unique_keys(old(table)@),
    ensures
        unique_keys(final(table)@),
        final(table)@ == recorded(old(table)@, k, t),
{
    let mut i: usize = 0;
    while i < table.len()
        invariant
            table@ == old(table)@,
            unique_keys(table@),
            i <= table@.len(),
            forall|j: int| 0 <= j < i ==> #[trigger] table@[j].0 != k,
        decreases table@.len() - i,
    {
        if table[i].0 == k {
            proof {
                let c = choose|j: int| 0 <= j < table@.len() && #[trigger] table@[j].0 == k;
                assert(c == i);
            }
            table.set(i, (k, t));
            proof {
                assert forall|a: int, b: int|
                    0 <= a < table@.len() && 0 <= b < table@.len() && a != b implies table@[a].0
                    != table@[b].0 by {
                    assert(table@[a].0 == old(table)@[a].0);
                    assert(table@[b].0 == old(table)@[b].0);
                }
            }
            return;
        }
        i = i + 1;
    }
    table.push((k, t));
    proof {
        assert forall|a: int, b: int|
            0 <= a < table@.len() && 0 <= b < table@.len() && a != b implies table@[a].0
            != table@[b].0 by {
            if a < old(table)@.len() {
                assert(table@[a] == old(table)@[a]);
            }
            if b < old(table)@.len() {
                assert(table@[b] == old(table)@[b]);
            }
        }
    }
}

fn last_time_key(table: &Vec<(InputKey, u128)>, k: InputKey) -> (r: Option<u128>)
    requires
        unique_keys(table@),
    ensures
        r == lookup(table@, k),
{
    let mut i: usize = 0;
    while i < table.len()
        invariant
            i <= table@.len(),
            unique_keys(table@),
            forall|j: int| 0 <= j < i ==> #[trigger] table@[j].0 != k,
        decreases table@.len() - i,
    {
        if table[i].0 == k {
            proof {
                let c = choose|j: int| 0 <= j < table@.len() && #[trigger] table@[j].0 == k;
                assert(c == i);
            }
            return Some(table[i].1);
        }
        i = i + 1;
    }
    None
}

fn record_button(table: &mut Vec<(MouseButton, u128)>, k: MouseButton, t: u128)
    requires
        unique_keys(old(table)@),
    ensures
        unique_keys(final(table)@),
        final(table)@ == recorded(old(table)@, k, t),
{
    let mut i: usize = 0;
    while i < table.len()
        invariant
            table@ == old(table)@,
            unique_keys(table@),
            i <= table@.len(),
            forall|j: int| 0 <= j < i ==> #[trigger] table@[j].0 != k,
        decreases table@.len() - i,
    {
        if table[i].0 == k {
            proof {
                let c = choose|j: int| 0 <= j < table@.len() && #[trigger] table@[j].0 == k;
                assert(c == i);
            }
            table.set(i, (k, t));
            proof {
                assert forall|a: int, b: int|
                    0 <= a < table@.len() && 0 <= b < table@.len() && a != b implies table@[a].0
                    != table@[b].0 by {
                    assert(table@[a].0 == old(table)@[a].0);
                    assert(table@[b].0 == old(table)@[b].0);
                }
            }
            return;
        }
        i = i + 1;
    }
    table.push((k, t));
    proof {
        assert forall|a: int, b: int|
            0 <= a < table@.len() && 0 <= b < table@.len() && a != b implies table@[a].0
            != table@[b].0 by {
            if a < old(table)@.len() {
                assert(table@[a] == old(table)@[a]);
            }
            if b < old(table)@.len() {
                assert(table@[b] == old(table)@[b]);
            }
        }
    }
}

fn last_time_button(table: &Vec<(MouseButton, u128)>, k: MouseButton) -> (r: Option<u128>)
    requires
        unique_keys(table@),
    ensures
        r == lookup(table@, k),
{
    let mut i: usize = 0;
    while i < table.len()
        invariant
            i <= table@.len(),
            unique_keys(table@),
            forall|j: int| 0 <= j < i ==> #[trigger] table@[j].0 != k,
        decreases table@.len() - i,
    {
        if table[i].0 == k {
            proof {
                let c = choose|j: int| 0 <= j < table@.len() && #[trigger] table@[j].0 == k;
                assert(c == i);
            }
            return Some(table[i].1);
        }
        i = i + 1;
    }
    None
}

fn is_debounced(last: Option<u128>, now: u128, interval: u128) -> (b: bool)
    ensures
        b == within_interval(last, now, interval),
{
    match last {
        Some(t) => {
            let elapsed = if now >= t {
                now - t
            } else {
                0
            };
            elapsed < interval
        },
        None => false,
    }
}

impl InputManager {
    /// Both trigger tables have unique keys.
    pub open spec fn wf(&self) -> bool {
        unique_keys(self@.keys) && unique_keys(self@.buttons)
    }

    /// No input seen yet; the debounce interval is 200 ms.
    pub fn new() -> (im: Self)
        ensures
            im.wf(),
            im@.keys.len() == 0,
            im@.buttons.len() == 0,
            im@.interval == DEFAULT_DEBOUNCE_NANOS,
    {
        InputManager {
            key_last_trigger: Vec::new(),
            mouse_last_trigger: Vec::new(),
            debounce_interval_nanos: DEFAULT_DEBOUNCE_NANOS,
            clock_origin: instant_now(),
        }
    }

    /// The debounce interval in nanoseconds.
    pub fn debounce_interval_nanos(&self) -> (n: u128)
        ensures
            n == self@.interval,
    {
        self.debounce_interval_nanos
    }

    /// Maps `event`, observed `now` nanoseconds after the manager was created:
    /// window close is `Quit` (never debounced); a fresh (non-repeat) press of
    /// a bound key or button gives its action unless the same key or button
    /// fired less than the interval ago, in which case (and for everything
    /// else) the result is `NoOp`.  Only firing presses reset their timer.
    pub fn process_event_at(&mut self, event: &InputEvent, now: u128) -> (action: GameAction)
        requires
            old(self).wf(),
        ensures
            final(self).wf(),
            (final(self)@, action) == processed(old(self)@, *event, now),
    {
        match *event {
            InputEvent::CloseRequested => GameAction::Quit,
            InputEvent::KeyboardInput { key, state, repeat } => {
                if state != ElementState::Pressed {
                    return GameAction::NoOp;
                }
                if repeat {
                    return GameAction::NoOp;
                }
                let action = Self::map_key_to_action(key);
                if action == GameAction::NoOp {
                    return GameAction::NoOp;
                }
                let last = last_time_key(&self.key_last_trigger, key);
                if is_debounced(last, now, self.debounce_interval_nanos) {
                    return GameAction::NoOp;
                }
                record_key(&mut self.key_last_trigger, key, now);
                action
            },
            InputEvent::MouseInput { state, button } => {
                if state != ElementState::Pressed {
                    return GameAction::NoOp;
                }
                let action = Self::map_mouse_to_action(button);
                if action == GameAction::NoOp {
                    return GameAction::NoOp;
                }
                let last = last_time_button(&self.mouse_last_trigger, button);
                if is_debounced(last, now, self.debounce_interval_nanos) {
                    return GameAction::NoOp;
                }
                record_button(&mut self.mouse_last_trigger, button, now);
                action
            },
            InputEvent::Other => GameAction::NoOp,
        }
    }

    /// Maps `event` at the current time of the monotonic clock (see
    /// [`InputManager::process_event_at`]).
    pub fn process_event(&mut self, event: &InputEvent) -> (action: GameAction)
        requires
            old(self).wf(),
        ensures
            final(self).wf(),
            exists|now: u128| (final(self)@, action) == #[trigger] processed(old(self)@, *event, now),
    {
        let elapsed = elapsed_since(&self.clock_origin);
        let now = duration_nanos(&elapsed);
        self.process_event_at(event, now)
    }

    /// Key bindings: Enter and Space advance, Escape opens the menu.
    pub fn map_key_to_action(key: InputKey) -> (a: GameAction)
        ensures
            a == key_action(key),
    {
        match key {
            InputKey::Enter | InputKey::Space => GameAction::Advance,
            InputKey::Escape => GameAction::OpenMenu,
            InputKey::Other => GameAction::NoOp,
        }
    }

    /// Mouse bindings: the left button advances.
    pub fn map_mouse_to_action(button: MouseButton) -> (a: GameAction)
        ensures
            a == mouse_action(button),
    {
        match button {
            MouseButton::Left => GameAction::Advance,
            _ => GameAction::NoOp,
        }
    }
}

/// Two presses of the same bound key closer together than the interval fire
/// once: right after a press fires at `t`, a press of the same key at any time
/// `t2` with `t <= t2 < t + interval` gives `NoOp`.
pub proof fn law_same_key_debounced(m: InputModel, key: InputKey, t: u128, t2: u128)
    requires
        unique_keys(m.keys),
        key_action(key) != GameAction::NoOp,
        t <= t2,
        t2 - t < m.interval,
    ensures
        ({
            let ev = InputEvent::KeyboardInput { key, state: ElementState::Pressed, repeat: false };
            let (m1, _) = processed(m, ev, t);
            processed(m1, ev, t2).1 == GameAction::NoOp || processed(m, ev, t).1 == GameAction::NoOp
        }),
{
    let ev = InputEvent::KeyboardInput { key, state: ElementState::Pressed, repeat: false };
    let (m1, a1) = processed(m, ev, t);
    if a1 != GameAction::NoOp {
        let keys1 = recorded(m.keys, key, t);
        assert(m1.keys == keys1);
        if exists|i: int| 0 <= i < m.keys.len() && #[trigger] m.keys[i].0 == key {
            let c = choose|i: int| 0 <= i < m.keys.len() && #[trigger] m.keys[i].0 == key;
            assert(keys1[c].0 == key);
            let d = choose|i: int| 0 <= i < keys1.len() && #[trigger] keys1[i].0 == key;
            assert(d == c);
        } else {
            let n = m.keys.len() as int;
            assert(keys1[n].0 == key);
            let d = choose|i: int| 0 <= i < keys1.len() && #[trigger] keys1[i].0 == key;
            assert(d == n);
        }
    }
}

/// Keys and buttons are debounced independently: a firing key press leaves
/// every other key's timer and all mouse timers as they were.
pub proof fn law_sources_independent(m: InputModel, key: InputKey, other: InputKey, now: u128)
    requires
        unique_keys(m.keys),
        other != key,
    ensures
        ({
            let ev = InputEvent::KeyboardInput { key, state: ElementState::Pressed, repeat: false };
            let (m1, _) = processed(m, ev, now);
            &&& lookup(m1.keys, other) == lookup(m.keys, other)
            &&& m1.buttons == m.buttons
        }),
{
    let ev = InputEvent::KeyboardInput { key, state: ElementState::Pressed, repeat: false };
    let (m1, a1) = processed(m, ev, now);
    if a1 != GameAction::NoOp {
        let keys1 = recorded(m.keys, key, now);
        if exists|i: int| 0 <= i < m.keys.len() && #[trigger] m.keys[i].0 == key {
            let c = choose|i: int| 0 <= i < m.keys.len() && #[trigger] m.keys[i].0 == key;
            if exists|i: int| 0 <= i < m.keys.len() && #[trigger] m.keys[i].0 == other {
                let e = choose|i: int| 0 <= i < m.keys.len() && #[trigger] m.keys[i].0 == other;
                assert(keys1[e].0 == other);
                let d = choose|i: int| 0 <= i < keys1.len() && #[trigger] keys1[i].0 == other;
                assert(d != c);
                assert(unique_keys(keys1));
                assert(d == e);
            } else {
                assert forall|i: int| 0 <= i < keys1.len() implies #[trigger] keys1[i].0 != other by {
                    if i != c {
                        assert(keys1[i] == m.keys[i]);
                    }
                }
            }
        } else {
            if exists|i: int| 0 <= i < m.keys.len() && #[trigger] m.keys[i].0 == other {
                let e = choose|i: int| 0 <= i < m.keys.len() && #[trigger] m.keys[i].0 == other;
                assert(keys1[e].0 == other);
                let d = choose|i: int| 0 <= i < keys1.len() && #[trigger] keys1[i].0 == other;
                assert(d < m.keys.len());
                assert(keys1[d] == m.keys[d]);
            } else {
                assert forall|i: int| 0 <= i < keys1.len() implies #[trigger] keys1[i].0 != other by {
                    if i < m.keys.len() {
                        assert(keys1[i] == m.keys[i]);
                    }
                }
            }
        }
    }
}


/// Recording `k` at `t` keeps the keys unique, makes `t` the time found for
/// `k`, and leaves the time found for every other key as it was.
proof fn lemma_recorded_lookup<K>(table: Seq<(K, u128)>, k: K, t: u128, other: K)
    requires
        unique_keys(table),
    ensures
        unique_keys(recorded(table, k, t)),
        lookup(recorded(table, k, t), k) == Some(t),
        other != k ==> lookup(recorded(table, k, t), other) == lookup(table, other),
{
    let t1 = recorded(table, k, t);
    if exists|i: int| 0 <= i < table.len() && #[trigger] table[i].0 == k {
        let c = choose|i: int| 0 <= i < table.len() && #[trigger] table[i].0 == k;
        assert forall|i: int, j: int| 0 <= i < t1.len() && 0 <= j < t1.len() && i != j implies t1[i].0 != t1[j].0 by {
            if i != c && j != c {
                assert(t1[i] == table[i] && t1[j] == table[j]);
            } else if i == c {
                assert(t1[j] == table[j]);
            } else {
                assert(t1[i] == table[i]);
            }
        }
        assert(t1[c].0 == k);
        let d = choose|i: int| 0 <= i < t1.len() && #[trigger] t1[i].0 == k;
        assert(d == c);
        if other != k {
            if exists|i: int| 0 <= i < table.len() && #[trigger] table[i].0 == other {
                let e = choose|i: int| 0 <= i < table.len() && #[trigger] table[i].0 == other;
                assert(t1[e].0 == other);
                let f = choose|i: int| 0 <= i < t1.len() && #[trigger] t1[i].0 == other;
                assert(f == e);
            } else {
                assert forall|i: int| 0 <= i < t1.len() implies #[trigger] t1[i].0 != other by {
                    if i != c {
                        assert(t1[i] == table[i]);
                    }
                }
            }
        }
    } else {
        let n = table.len() as int;
        assert forall|i: int, j: int| 0 <= i < t1.len() && 0 <= j < t1.len() && i != j implies t1[i].0 != t1[j].0 by {
            if i < n && j < n {
                assert(t1[i] == table[i] && t1[j] == table[j]);
            } else if i < n {
                assert(t1[i] == table[i]);
            } else {
                assert(t1[j] == table[j]);
            }
        }
        assert(t1[n].0 == k);
        let d = choose|i: int| 0 <= i < t1.len() && #[trigger] t1[i].0 == k;
        assert(d == n);
        if other != k {
            if exists|i: int| 0 <= i < table.len() && #[trigger] table[i].0 == other {
                let e = choose|i: int| 0 <= i < table.len() && #[trigger] table[i].0 == other;
                assert(t1[e].0 == other);
                let f = choose|i: int| 0 <= i < t1.len() && #[trigger] t1[i].0 == other;
                assert(f < n);
                assert(t1[f] == table[f]);
            } else {
                assert forall|i: int| 0 <= i < t1.len() implies #[trigger] t1[i].0 != other by {
                    if i < n {
                        assert(t1[i] == table[i]);
                    }
                }
            }
        }
    }
}

/// Two presses of the same bound mouse button closer together than the
/// interval fire once: right after a press fires at `t`, a press of the same
/// button at any time `t2` with `t <= t2 < t + interval` gives `NoOp`.
pub proof fn law_same_button_debounced(m: InputModel, button: MouseButton, t: u128, t2: u128)
    requires
        unique_keys(m.buttons),
        t <= t2,
        t2 - t < m.interval,
    ensures
        ({
            let ev = InputEvent::MouseInput { state: ElementState::Pressed, button };
            let (m1, a1) = processed(m, ev, t);
            a1 != GameAction::NoOp ==> processed(m1, ev, t2).1 == GameAction::NoOp
        }),
{
    lemma_recorded_lookup(m.buttons, button, t, button);
}

/// Both events come from the same key or the same mouse button (close
/// requests and other events come from no source).
pub open spec fn same_source(e1: InputEvent, e2: InputEvent) -> bool {
    match (e1, e2) {
        (InputEvent::KeyboardInput { key: k1, .. }, InputEvent::KeyboardInput { key: k2, .. }) => k1 == k2,
        (InputEvent::MouseInput { button: b1, .. }, InputEvent::MouseInput { button: b2, .. }) => b1 == b2,
        _ => false,
    }
}

/// Keys and mouse buttons are debounced independently: whatever an event of
/// one source did, an event of another key or button (keyboard or mouse)
/// gets the same action as it would have got without it, at any time.
pub proof fn law_other_sources_unaffected(m: InputModel, e1: InputEvent, t1: u128, e2: InputEvent, t2: u128)
    requires
        unique_keys(m.keys),
        unique_keys(m.buttons),
        !same_source(e1, e2),
    ensures
        processed(processed(m, e1, t1).0, e2, t2).1 == processed(m, e2, t2).1,
        unique_keys(processed(m, e1, t1).0.keys),
        unique_keys(processed(m, e1, t1).0.buttons),
{
    match e1 {
        InputEvent::KeyboardInput { key, .. } => {
            match e2 {
                InputEvent::KeyboardInput { key: k2, .. } => lemma_recorded_lookup(m.keys, key, t1, k2),
                _ => lemma_recorded_lookup(m.keys, key, t1, key),
            }
        },
        InputEvent::MouseInput { button, .. } => {
            match e2 {
                InputEvent::MouseInput { button: b2, .. } => lemma_recorded_lookup(m.buttons, button, t1, b2),
                _ => lemma_recorded_lookup(m.buttons, button, t1, button),
            }
        },
        _ => {},
    }
}

} // verus!
