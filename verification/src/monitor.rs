//! Capture of keyboard activity: which input devices are watched, which of
//! their events count as activity, and when the global hook takes over.
//!
//! Opening devices and waiting for their events is left to the caller, who
//! hands each name, set of supported keys and event to the rules below and
//! sends one `MonitorEvent` for every event that a rule lets through.

use crate::text::starts_with;
use vstd::prelude::*;

verus! {

/// The signal sent for every observed unit of activity.
#[derive(Clone, Copy, Debug, PartialEq, Eq, Structural)]
pub enum MonitorEvent {
    /// A key was pressed.
    Activity,
}

/// The type of key events in the kernel's input protocol.
pub const EVENT_KEY: u16 = 1;

/// The value of a key event that reports a press; 0 is a release and 2 an
/// automatic repeat.
pub const KEY_PRESSED: i32 = 1;

/// The key code of the enter key.
pub const KEY_ENTER: u16 = 28;

/// The key code of the letter A.
pub const KEY_A: u16 = 30;

/// One event as a device reports it: its type, its code and its value.
#[derive(Clone, Copy, Debug, PartialEq, Eq, Structural)]
pub struct InputRecord {
    pub event_type: u16,
    pub code: u16,
    pub value: i32,
}

/// The start of the name of every event device node.
pub open spec fn node_prefix() -> Seq<char> {
    seq!['e', 'v', 'e', 'n', 't']
}

/// Whether the file called `name` in the input directory is an event
/// device node, the only kind that discovery opens.
pub fn is_input_node(name: &str) -> (selected: bool)
    ensures
        selected == node_prefix().is_prefix_of(name@),
{
    proof {
        reveal_strlit("event");
    }
    starts_with(name, "event")
}

/// Whether `code` is among the key codes that a device supports.
pub fn supports_key(supported: &Vec<u16>, code: u16) -> (found: bool)
    ensures
        found == supported@.contains(code),
{
    let mut i: usize = 0;
    while i < supported.len()
        invariant
            i <= supported@.len(),
            forall|k: int| 0 <= k < i ==> supported@[k] != code,
        decreases supported@.len() - i,
    {
        if supported[i] == code {
            return true;
        }
        i += 1;
    }
    false
}

/// Whether a device supports at least one of the wanted keys.
pub fn supports_any(supported: &Vec<u16>, wanted: &Vec<u16>) -> (found: bool)
    ensures
        found == exists|i: int|
            0 <= i < wanted@.len() && supported@.contains(#[trigger] wanted@[i]),
{
    let mut i: usize = 0;
    while i < wanted.len()
        invariant
            i <= wanted@.len(),
            forall|k: int| 0 <= k < i ==> !supported@.contains(#[trigger] wanted@[k]),
        decreases wanted@.len() - i,
    {
        if supports_key(supported, wanted[i]) {
            return true;
        }
        i += 1;
    }
    false
}

/// Whether a device with these supported keys passes for a keyboard: it
/// reports keys at all, and the enter key or the letter A is among them.
pub open spec fn keyboard_like(supported: Option<Seq<u16>>) -> bool {
    match supported {
        Some(keys) => keys.contains(KEY_ENTER) || keys.contains(KEY_A),
        None => false,
    }
}

/// Classifies a device by the key codes it supports, `None` standing for
/// a device that reports no keys.
pub fn is_keyboard_like(supported: &Option<Vec<u16>>) -> (keyboard: bool)
    ensures
        keyboard == keyboard_like(
            match *supported {
                Some(keys) => Some(keys@),
                None => None,
            },
        ),
{
    match supported {
        Some(keys) => supports_key(keys, KEY_ENTER) || supports_key(keys, KEY_A),
        None => false,
    }
}

/// Asks `evdev` for the kind of an event: builds the event with
/// `InputEvent::new` and tells whether `InputEvent::kind` is `Key`. The
/// kind is `Key` for events of the key type and for no others.
#[verifier::external_body]
fn kind_is_key(event_type: u16, code: u16, value: i32) -> (is_key: bool)
    ensures
        is_key == (event_type == EVENT_KEY),
{
    let event = evdev::InputEvent::new(evdev::EventType(event_type), code, value);
    matches!(event.kind(), evdev::InputEventKind::Key(_))
}

/// Whether an event is a key going down: a key event that is neither a
/// release nor an automatic repeat.
pub open spec fn key_press(event: InputRecord) -> bool {
    event.event_type == EVENT_KEY && event.value == KEY_PRESSED
}

/// Whether an event reports that a key was pressed.
pub fn is_key_press(event: &InputRecord) -> (press: bool)
    ensures
        press == key_press(*event),
{
    kind_is_key(event.event_type, event.code, event.value) && event.value == KEY_PRESSED
}

/// The signal to send for an event of a watched device: one for every key
/// press, none for anything else.
pub fn device_signal(event: &InputRecord) -> (signal: Option<MonitorEvent>)
    ensures
        signal == if key_press(*event) {
            Some(MonitorEvent::Activity)
        } else {
            None
        },
{
    if is_key_press(event) {
        Some(MonitorEvent::Activity)
    } else {
        None
    }
}

/// How activity is captured for the session.
#[derive(Clone, Copy, Debug, PartialEq, Eq, Structural)]
pub enum Backend {
    /// One worker per keyboard device.
    Devices,
    /// A single global input hook, used when no keyboard device was found.
    Fallback,
}

/// Chooses the backend from the number of keyboard devices that discovery
/// found: the hook only when there is none.
pub fn select_backend(keyboards: usize) -> (backend: Backend)
    ensures
        backend == if keyboards == 0 {
            Backend::Fallback
        } else {
            Backend::Devices
        },
{
    if keyboards == 0 {
        Backend::Fallback
    } else {
        Backend::Devices
    }
}

/// What the global hook observes.
#[derive(Clone, Copy, Debug, PartialEq, Eq, Structural)]
pub enum HookEvent {
    KeyPress,
    KeyRelease,
    ButtonPress,
    ButtonRelease,
    MouseMove,
    Wheel,
}

/// Whether the hook counts an event as activity: key presses, pointer
/// movement and button presses do.
pub open spec fn hook_counts(event: HookEvent) -> bool {
    event == HookEvent::KeyPress || event == HookEvent::MouseMove || event
        == HookEvent::ButtonPress
}

/// The signal to send for an event of the global hook.
pub fn hook_signal(event: HookEvent) -> (signal: Option<MonitorEvent>)
    ensures
        signal == if hook_counts(event) {
            Some(MonitorEvent::Activity)
        } else {
            None
        },
{
    match event {
        HookEvent::KeyPress | HookEvent::MouseMove | HookEvent::ButtonPress => Some(
            MonitorEvent::Activity,
        ),
        _ => None,
    }
}

} // verus!
