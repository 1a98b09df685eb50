//! What a keyboard event from the listener asks of the counter.
use vstd::prelude::*;

use crate::keys::{is_modifier, is_modifier_name, mac_key_label, mac_key_name, mac_modifier_is_down, modifier_down_in};
use crate::runtime::{
    PressOutcome, RuntimeState, RuntimeView, key_released, modifier_action, press_result,
    process_key_press, process_key_release, process_modifier_change, ModifierAction,
};
use crate::keys::modifiers_after;

verus! {

/// The kinds of macOS keyboard events the listener receives.
#[derive(PartialEq, Eq, Structural, Clone, Copy, Debug)]
pub enum MacEventKind {
    KeyDown,
    KeyUp,
    FlagsChanged,
    Other,
}

/// What an event asks of the counter.
pub enum ListenerStep {
    /// Count a press of the named key.
    Press(String),
    /// The named key went up.
    Release(String),
    /// The named modifier key went down (`true`) or up.
    ModifierChange(String, bool),
    /// Nothing to do.
    Ignore,
}

/// `s` is what a macOS event of `kind` for `keycode`, with flag word
/// `flags`, asks for while listening is `running`: a key going down is a
/// press only while listening, a key going up a release, and a change of
/// flags a modifier change for modifier keys.
pub open spec fn mac_step(kind: MacEventKind, keycode: u16, flags: u64, running: bool, s: ListenerStep) -> bool {
    let name = mac_key_label(keycode);
    match kind {
        MacEventKind::KeyDown => if running {
            s matches ListenerStep::Press(n) && n@ == name
        } else {
            s is Ignore
        },
        MacEventKind::KeyUp => s matches ListenerStep::Release(n) && n@ == name,
        MacEventKind::FlagsChanged => if is_modifier_name(name) {
            s matches ListenerStep::ModifierChange(n, down) && n@ == name && down
                == modifier_down_in(flags, name)
        } else {
            s is Ignore
        },
        MacEventKind::Other => s is Ignore,
    }
}

/// Decides what a macOS keyboard event asks for.
pub fn mac_listener_event(kind: MacEventKind, keycode: u16, flags: u64, running: bool) -> (s:
    ListenerStep)
    ensures
        mac_step(kind, keycode, flags, running, s),
{
    let key_name = mac_key_name(keycode);
    match kind {
        MacEventKind::KeyDown => {
            if running {
                ListenerStep::Press(key_name.to_string())
            } else {
                ListenerStep::Ignore
            }
        },
        MacEventKind::KeyUp => ListenerStep::Release(key_name.to_string()),
        MacEventKind::FlagsChanged => {
            if is_modifier(key_name) {
                ListenerStep::ModifierChange(
                    key_name.to_string(),
                    mac_modifier_is_down(flags, key_name),
                )
            } else {
                ListenerStep::Ignore
            }
        },
        MacEventKind::Other => ListenerStep::Ignore,
    }
}

/// The kinds of keyboard events the listener receives on other systems.
#[derive(PartialEq, Eq, Structural, Clone, Copy, Debug)]
pub enum KeyEventKind {
    Press,
    Release,
    Other,
}

/// `s` is what an event of `kind` for the key named `key_name` asks for
/// while listening is `running`: a press counts only while listening, a
/// release always marks the key up, and anything else is ignored.
pub open spec fn key_step(kind: KeyEventKind, key_name: Seq<char>, running: bool, s: ListenerStep) -> bool {
    match kind {
        KeyEventKind::Press => if running {
            s matches ListenerStep::Press(n) && n@ == key_name
        } else {
            s is Ignore
        },
        KeyEventKind::Release => s matches ListenerStep::Release(n) && n@ == key_name,
        KeyEventKind::Other => s is Ignore,
    }
}

/// Decides what a keyboard event for `key_name` asks for.
pub fn listener_event(kind: KeyEventKind, key_name: String, running: bool) -> (s: ListenerStep)
    ensures
        key_step(kind, key_name@, running, s),
{
    match kind {
        KeyEventKind::Press => {
            if running {
                ListenerStep::Press(key_name)
            } else {
                ListenerStep::Ignore
            }
        },
        KeyEventKind::Release => ListenerStep::Release(key_name),
        KeyEventKind::Other => ListenerStep::Ignore,
    }
}

/// Carries out what an event asks for on the running state.
pub fn apply_listener_step(rt: &mut RuntimeState, step: &ListenerStep, running: bool) -> (r:
    PressOutcome)
    requires
        old(rt).wf(),
    ensures
        final(rt).wf(),
        match step {
            ListenerStep::Press(key) => press_result(old(rt)@, key@, final(rt)@, r),
            ListenerStep::Release(key) => r == PressOutcome::NotPressed && final(rt)@ == (
            RuntimeView { modifiers: key_released(old(rt).modifiers, key@), ..old(rt)@ }),
            ListenerStep::ModifierChange(key, down) => match modifier_action(
                old(rt).modifiers,
                key@,
                *down,
                running,
            ) {
                ModifierAction::CountPress => press_result(old(rt)@, key@, final(rt)@, r),
                ModifierAction::MarkHeld => r == PressOutcome::NotPressed && final(rt)@ == (
                RuntimeView {
                    modifiers: modifiers_after(old(rt).modifiers, key@, true),
                    ..old(rt)@
                }),
                ModifierAction::Release => r == PressOutcome::NotPressed && final(rt)@ == (
                RuntimeView { modifiers: key_released(old(rt).modifiers, key@), ..old(rt)@ }),
                ModifierAction::Nothing => r == PressOutcome::NotPressed && final(rt)@ == old(rt)@,
            },
            ListenerStep::Ignore => r == PressOutcome::NotPressed && final(rt)@ == old(rt)@,
        },
{
    match step {
        ListenerStep::Press(key) => process_key_press(rt, key.as_str()),
        ListenerStep::Release(key) => {
            process_key_release(rt, key.as_str());
            PressOutcome::NotPressed
        },
        ListenerStep::ModifierChange(key, down) => process_modifier_change(
            rt,
            key.as_str(),
            *down,
            running,
        ),
        ListenerStep::Ignore => PressOutcome::NotPressed,
    }
}

/// What a request to start listening calls for.
#[derive(PartialEq, Eq, Structural, Clone, Copy, Debug)]
pub enum StartStep {
    /// A listener is already running: nothing to do.
    AlreadyStarted,
    /// Keyboard events may not be read yet: the user is to grant it.
    NeedsPermission,
    /// Start a listener.
    SpawnListener,
}

/// The step for a start request, given whether a listener was started
/// before, whether this system asks for access to keyboard events, and
/// whether that access is granted.
pub open spec fn start_step(was_started: bool, access_required: bool, access_granted: bool) -> StartStep {
    if was_started {
        StartStep::AlreadyStarted
    } else if access_required && !access_granted {
        StartStep::NeedsPermission
    } else {
        StartStep::SpawnListener
    }
}

pub fn listener_start_step(was_started: bool, access_required: bool, access_granted: bool) -> (r:
    StartStep)
    ensures
        r == start_step(was_started, access_required, access_granted),
{
    if was_started {
        StartStep::AlreadyStarted
    } else if access_required && !access_granted {
        StartStep::NeedsPermission
    } else {
        StartStep::SpawnListener
    }
}

/// The message shown where macOS has not granted Input Monitoring.
pub open spec fn permission_message() -> Seq<char> {
    "请在 macOS 系统设置 > 隐私与安全性 > 输入监控 中允许 KeyPulse。若已允许，请重启 KeyPulse 让权限生效。"@
}

/// The message shown where the listener does not report ready in time.
pub open spec fn timeout_message() -> Seq<char> {
    "监听器启动超时，请确认 KeyPulse 已获得输入监控权限后重试。"@
}

/// The message shown where the macOS event tap cannot be created.
pub open spec fn tap_failed_message() -> Seq<char> {
    "macOS event tap 创建失败，请确认已授予 Input Monitoring 或 Accessibility 权限。"@
}

pub fn permission_denied_error() -> (r: String)
    ensures
        r@ == permission_message(),
{
    "请在 macOS 系统设置 > 隐私与安全性 > 输入监控 中允许 KeyPulse。若已允许，请重启 KeyPulse 让权限生效。".to_string()
}

pub fn event_tap_error() -> (r: String)
    ensures
        r@ == tap_failed_message(),
{
    "macOS event tap 创建失败，请确认已授予 Input Monitoring 或 Accessibility 权限。".to_string()
}

/// What the starting listener reported.
pub enum ReadySignal {
    /// The listener runs.
    Ready,
    /// The listener failed with this error.
    Failed(String),
    /// Nothing came within the waiting time.
    TimedOut,
}

/// The result of starting a macOS listener from what it reported: success
/// where it runs, else its error or the time-out message. The listener
/// counts as started only on success.
pub fn listener_ready_result(signal: ReadySignal) -> (r: Result<(), String>)
    ensures
        match signal {
            ReadySignal::Ready => r is Ok,
            ReadySignal::Failed(e) => r matches Err(m) && m@ == e@,
            ReadySignal::TimedOut => r matches Err(m) && m@ == timeout_message(),
        },
{
    match signal {
        ReadySignal::Ready => Ok(()),
        ReadySignal::Failed(e) => Err(e),
        ReadySignal::TimedOut => Err("监听器启动超时，请确认 KeyPulse 已获得输入监控权限后重试。".to_string()),
    }
}

} // verus!
