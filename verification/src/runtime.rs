//! The running state of the counter: today's statistics, the days kept
//! before, the presses of the last minute and the modifiers held, and
//! what a key press, a key release and a new day do to it.
use vstd::prelude::*;
use std::collections::VecDeque;

use crate::clock::{
    LocalTime, clock_read, date_text, local_clock, local_time_ok, now_string, timestamp_text,
    today_string,
};
use crate::counts::{bump, bumped, count_of};
use crate::keys::{
    Modifiers, category_for_key, is_modifier, is_modifier_name, key_category, modifier_flag,
    modifier_is_active, modifiers_after, shortcut_label, shortcut_text, update_modifier,
};
use crate::map::{Duplicate, StringMap, lemma_pairs_with, pairs_with};
use crate::stats::{KeyStats, StatsView, fresh_stats, fresh_view, new_stats, padded_half_hours};
use crate::text::text_eq;

verus! {

/// Past days' statistics keyed by date.
pub type History = StringMap<KeyStats>;

/// The state the counter keeps while it runs.
pub struct RuntimeState {
    pub stats: KeyStats,
    pub history: History,
    /// Times, in milliseconds, of the presses of about the last minute.
    pub recent_events: VecDeque<u128>,
    pub modifiers: Modifiers,
    /// When the statistics were last handed out to be saved.
    pub last_save_ms: u128,
}

/// What the running state holds, as mathematical values.
pub struct RuntimeView {
    pub stats: StatsView,
    /// The kept days, in the order they were first recorded.
    pub history: Seq<(Seq<char>, StatsView)>,
    pub recent_events: Seq<u128>,
    pub modifiers: Modifiers,
    pub last_save_ms: u128,
}

impl View for RuntimeState {
    type V = RuntimeView;

    open spec fn view(&self) -> RuntimeView {
        RuntimeView {
            stats: self.stats@,
            history: self.history.pairs(),
            recent_events: self.recent_events@,
            modifiers: self.modifiers,
            last_save_ms: self.last_save_ms,
        }
    }
}

impl RuntimeState {
    pub open spec fn wf(&self) -> bool {
        self.stats.wf() && self.history.wf()
    }
}

/// The state with today's statistics recorded under their date.
pub open spec fn with_today_recorded(v: RuntimeView) -> RuntimeView {
    RuntimeView { history: pairs_with(v.history, v.stats.date, v.stats), ..v }
}

/// The state once the day `today` has begun at `now`: where the counted day
/// is another, it is recorded, a fresh day is started and recorded too, and
/// the presses of the last minute are forgotten.
pub open spec fn rolled_over(v: RuntimeView, today: Seq<char>, now: Seq<char>) -> RuntimeView {
    if v.stats.date == today {
        v
    } else {
        let fresh = fresh_view(today, now);
        RuntimeView {
            stats: fresh,
            history: pairs_with(pairs_with(v.history, v.stats.date, v.stats), today, fresh),
            recent_events: Seq::empty(),
            ..v
        }
    }
}

/// Records today's statistics in the history under their date.
pub fn record_today(rt: &mut RuntimeState)
    requires
        old(rt).wf(),
    ensures
        final(rt).wf(),
        final(rt)@ == with_today_recorded(old(rt)@),
{
    let ghost before = rt@;
    let key = rt.stats.date.clone();
    let copy = rt.stats.duplicate();
    rt.history.set(key, copy);
    proof {
        lemma_pairs_with(before.history, before.stats.date, before.stats);
    }
}

/// Starts the day `today` at `now` where the counted day is another.
pub fn roll_over_day(rt: &mut RuntimeState, today: &String, now: &String)
    requires
        old(rt).wf(),
    ensures
        final(rt).wf(),
        final(rt)@ == rolled_over(old(rt)@, today@, now@),
{
    if !text_eq(rt.stats.date.as_str(), today.as_str()) {
        record_today(rt);
        rt.stats = new_stats(today.clone(), now.clone());
        record_today(rt);
        rt.recent_events.clear();
    }
}

/// Starts a fresh day where the local date is no longer the counted one,
/// and answers whether the clock could be read. Where it could not,
/// nothing changes. Where it reads the counted date, nothing changes, and
/// the counted date is then a date as the clock writes it. Else the day
/// rolls over to the date read, starting at the time read.
pub fn reset_if_new_day(rt: &mut RuntimeState) -> (read: bool)
    requires
        old(rt).wf(),
    ensures
        final(rt).wf(),
        !read ==> final(rt)@ == old(rt)@,
        read ==> (final(rt)@ == old(rt)@ && date_text(old(rt)@.stats.date)) || (
        final(rt)@.stats.date != old(rt)@.stats.date && date_text(final(rt)@.stats.date)
            && timestamp_text(final(rt)@.stats.started_at) && final(rt)@ == rolled_over(
            old(rt)@,
            final(rt)@.stats.date,
            final(rt)@.stats.started_at,
        )),
{
    match today_string() {
        None => false,
        Some(today) => {
            if text_eq(rt.stats.date.as_str(), today.as_str()) {
                true
            } else {
                match now_string() {
                    None => false,
                    Some(now) => {
                        roll_over_day(rt, &today, &now);
                        true
                    },
                }
            }
        },
    }
}

/// `now` is more than a minute after `t`.
pub open spec fn older_than_minute(now: u128, t: u128) -> bool {
    now > t && now - t > 60000
}

/// The press times with those at the front that are more than a minute
/// before `now` removed.
pub open spec fn drop_stale(s: Seq<u128>, now: u128) -> Seq<u128>
    decreases s.len(),
{
    if s.len() > 0 && older_than_minute(now, s[0]) {
        drop_stale(s.drop_first(), now)
    } else {
        s
    }
}

/// The half hour of the day that `hour`:`minute` falls in.
pub open spec fn half_hour_index(hour: u32, minute: u32) -> int {
    hour * 2 + if minute >= 30 {
        1int
    } else {
        0int
    }
}

/// Milliseconds from `then` to `now`, zero where `now` is not later.
pub open spec fn elapsed(now: u128, then: u128) -> int {
    if now > then {
        now - then
    } else {
        0
    }
}

/// The statistics after one more press of `key` at local time `t`, with
/// `m` held and `in_minute` presses within the last minute.
pub open spec fn counted_press(
    s: StatsView,
    m: Modifiers,
    key: Seq<char>,
    in_minute: u64,
    t: LocalTime,
) -> StatsView {
    let half = padded_half_hours(s.half_hourly_counts);
    let h = t.hour as int;
    let hh = half_hour_index(t.hour, t.minute);
    let categories = bumped(bumped(s.category_counts, "ordinary"@), key_category(key));
    StatsView {
        total_keys: (s.total_keys + 1) as u64,
        current_minute_keys: in_minute,
        peak_per_minute: if s.peak_per_minute >= in_minute {
            s.peak_per_minute
        } else {
            in_minute
        },
        updated_at: t.timestamp@,
        hourly_counts: s.hourly_counts.update(h, (s.hourly_counts[h] + 1) as u64),
        half_hourly_counts: half.update(hh, (half[hh] + 1) as u64),
        category_counts: match shortcut_text(m, key) {
            Some(_) => bumped(categories, "shortcut"@),
            None => categories,
        },
        shortcut_counts: match shortcut_text(m, key) {
            Some(label) => bumped(s.shortcut_counts, label),
            None => s.shortcut_counts,
        },
        ..s
    }
}

/// No counter that a press of `key` raises is already at its largest value.
pub open spec fn press_fits_stats(s: StatsView, m: Modifiers, key: Seq<char>, t: LocalTime) -> bool {
    let half = padded_half_hours(s.half_hourly_counts);
    let first = bumped(s.category_counts, "ordinary"@);
    let categories = bumped(first, key_category(key));
    &&& s.total_keys < u64::MAX
    &&& s.hourly_counts[t.hour as int] < u64::MAX
    &&& half[half_hour_index(t.hour, t.minute)] < u64::MAX
    &&& count_of(s.category_counts, "ordinary"@) < u64::MAX
    &&& count_of(first, key_category(key)) < u64::MAX
    &&& (shortcut_text(m, key) matches Some(label) ==> count_of(categories, "shortcut"@)
        < u64::MAX && count_of(s.shortcut_counts, label) < u64::MAX)
}

/// The state after `key` is pressed at `now` milliseconds, local time `t`:
/// the day rolls over where the date changed, a modifier key is marked
/// held, the press joins the last minute's, the counters rise, and where
/// more than 900 ms passed since the last save the day is recorded and
/// the save time moves to `now`.
pub open spec fn key_pressed(v: RuntimeView, key: Seq<char>, now: u128, t: LocalTime) -> RuntimeView {
    let r = rolled_over(v, t.date@, t.timestamp@);
    let m = modifiers_after(r.modifiers, key, true);
    let events = drop_stale(r.recent_events.push(now), now);
    let after = RuntimeView {
        stats: counted_press(r.stats, m, key, events.len() as u64, t),
        modifiers: m,
        recent_events: events,
        ..r
    };
    if elapsed(now, r.last_save_ms) > 900 {
        RuntimeView { last_save_ms: now, ..with_today_recorded(after) }
    } else {
        after
    }
}

/// A press at `now` hands the statistics out to be saved.
pub open spec fn press_saves(v: RuntimeView, now: u128) -> bool {
    elapsed(now, v.last_save_ms) > 900
}

/// The press can be counted without a counter going past its largest value.
pub open spec fn press_fits(v: RuntimeView, key: Seq<char>, t: LocalTime) -> bool {
    let r = rolled_over(v, t.date@, t.timestamp@);
    press_fits_stats(r.stats, modifiers_after(r.modifiers, key, true), key, t)
}

/// Adds the press at `now` and forgets those more than a minute before it.
fn slide_window(events: &mut VecDeque<u128>, now: u128)
    ensures
        final(events)@ == drop_stale(old(events)@.push(now), now),
{
    events.push_back(now);
    let ghost all = events@;
    while events.len() > 0 && now > events[0] && now - events[0] > 60000
        invariant
            drop_stale(events@, now) == drop_stale(all, now),
        decreases events@.len(),
    {
        let ghost before = events@;
        events.pop_front();
        assert(events@ =~= before.drop_first());
    }
}

/// Counts one press of `key` at local time `t` into the day's statistics.
fn count_press(stats: &mut KeyStats, m: &Modifiers, key: &str, in_minute: u64, t: &LocalTime)
    requires
        old(stats).wf(),
        t.hour < 24,
        t.minute < 60,
        press_fits_stats(old(stats)@, *m, key@, *t),
    ensures
        final(stats).wf(),
        final(stats)@ == counted_press(old(stats)@, *m, key@, in_minute, *t),
{
    let ghost before = stats@;
    stats.total_keys = stats.total_keys + 1;
    stats.current_minute_keys = in_minute;
    if stats.peak_per_minute < in_minute {
        stats.peak_per_minute = in_minute;
    }
    stats.updated_at = t.timestamp.clone();
    let hour = t.hour as usize;
    let half_hour: usize = hour * 2 + if t.minute >= 30 {
        1
    } else {
        0
    };
    stats.half_hourly_counts.resize(48, 0);
    assert(stats.half_hourly_counts@ =~= padded_half_hours(before.half_hourly_counts));
    let in_hour = stats.hourly_counts[hour];
    stats.hourly_counts[hour] = in_hour + 1;
    let in_half_hour = stats.half_hourly_counts[half_hour];
    stats.half_hourly_counts.set(half_hour, in_half_hour + 1);
    let category = category_for_key(key);
    bump(&mut stats.category_counts, "ordinary");
    bump(&mut stats.category_counts, category);
    if let Some(shortcut) = shortcut_label(m, key) {
        bump(&mut stats.category_counts, "shortcut");
        bump(&mut stats.shortcut_counts, shortcut.as_str());
    }
    assert(stats@ == counted_press(before, *m, key@, in_minute, *t));
}

/// Counts a press of `key` at `now` milliseconds and local time `t`;
/// answers whether the statistics are to be saved.
pub fn apply_key_press(rt: &mut RuntimeState, key: &str, now: u128, t: &LocalTime) -> (saved: bool)
    requires
        old(rt).wf(),
        t.hour < 24,
        t.minute < 60,
        press_fits(old(rt)@, key@, *t),
    ensures
        final(rt).wf(),
        final(rt)@ == key_pressed(old(rt)@, key@, now, *t),
        saved == press_saves(old(rt)@, now),
{
    roll_over_day(rt, &t.date, &t.timestamp);
    if is_modifier(key) {
        update_modifier(&mut rt.modifiers, key, true);
    }
    slide_window(&mut rt.recent_events, now);
    let in_minute = rt.recent_events.len() as u64;
    count_press(&mut rt.stats, &rt.modifiers, key, in_minute, t);
    if now > rt.last_save_ms && now - rt.last_save_ms > 900 {
        record_today(rt);
        rt.last_save_ms = now;
        true
    } else {
        false
    }
}

/// How often `key` was counted: zero where it never was.
fn count_in(m: &StringMap<u64>, key: &str) -> (c: u64)
    requires
        m.wf(),
    ensures
        c == count_of(m.map(), key@),
{
    match m.get(key) {
        Some(v) => *v,
        None => 0,
    }
}

/// Whether a press of `key` at local time `t` fits, on the statistics and
/// modifiers it would be counted with.
fn press_fits_counters(s: &KeyStats, m: &Modifiers, key: &str, t: &LocalTime) -> (r: bool)
    requires
        s.wf(),
        t.hour < 24,
        t.minute < 60,
    ensures
        r == press_fits_stats(s@, *m, key@, *t),
{
    let ghost half = padded_half_hours(s.half_hourly_counts@);
    if s.total_keys == u64::MAX {
        return false;
    }
    let hour = t.hour as usize;
    if s.hourly_counts[hour] == u64::MAX {
        return false;
    }
    let half_hour: usize = hour * 2 + if t.minute >= 30 {
        1
    } else {
        0
    };
    if half_hour < s.half_hourly_counts.len() && s.half_hourly_counts[half_hour] == u64::MAX {
        return false;
    }
    let ordinary = count_in(&s.category_counts, "ordinary");
    if ordinary == u64::MAX {
        return false;
    }
    let category = category_for_key(key);
    let in_category = if text_eq(category, "ordinary") {
        ordinary + 1
    } else {
        count_in(&s.category_counts, category)
    };
    if in_category == u64::MAX {
        return false;
    }
    match shortcut_label(m, key) {
        Some(label) => {
            let in_shortcut = if text_eq("shortcut", category) {
                in_category + 1
            } else if text_eq("shortcut", "ordinary") {
                ordinary + 1
            } else {
                count_in(&s.category_counts, "shortcut")
            };
            in_shortcut < u64::MAX && count_in(&s.shortcut_counts, label.as_str()) < u64::MAX
        },
        None => true,
    }
}

/// Whether a press of `key` at local time `t` fits the running state.
pub fn press_fits_now(rt: &RuntimeState, key: &str, t: &LocalTime) -> (r: bool)
    requires
        rt.wf(),
        t.hour < 24,
        t.minute < 60,
    ensures
        r == press_fits(rt@, key@, *t),
{
    let mut m = rt.modifiers;
    if is_modifier(key) {
        update_modifier(&mut m, key, true);
    }
    if text_eq(rt.stats.date.as_str(), t.date.as_str()) {
        press_fits_counters(&rt.stats, &m, key, t)
    } else {
        let fresh = new_stats(t.date.clone(), t.timestamp.clone());
        press_fits_counters(&fresh, &m, key, t)
    }
}

/// Some well-formed reading of the local clock leaves the press of `key`
/// not fitting.
pub open spec fn press_can_overflow(v: RuntimeView, key: Seq<char>) -> bool {
    exists|t: LocalTime, now: u128| local_time_ok(t) && clock_read(t, now) && !press_fits(v, key, t)
}

/// `post` is `v` after a fitting press of `key` at some well-formed reading
/// of the local clock, and `saved` tells whether that press hands the
/// statistics out to be saved.
pub open spec fn pressed_at_some_time(
    v: RuntimeView,
    key: Seq<char>,
    post: RuntimeView,
    saved: bool,
) -> bool {
    exists|now: u128, t: LocalTime|
        local_time_ok(t) && clock_read(t, now) && press_fits(v, key, t) && post == key_pressed(
            v,
            key,
            now,
            t,
        ) && saved == press_saves(v, now)
}

/// What became of a key press.
#[derive(PartialEq, Eq, Structural, Clone, Copy, Debug)]
pub enum PressOutcome {
    /// The press was counted; `saved` tells whether the statistics are to be saved.
    Counted { saved: bool },
    /// A counter the press raises is at its largest value; nothing changed.
    CounterFull,
    /// No press was to be counted.
    NotPressed,
    /// The local clock could not be read; nothing changed.
    ClockUnreadable,
}

/// `post` and `r` are what counting a press of `key` now can give from `v`.
pub open spec fn press_result(v: RuntimeView, key: Seq<char>, post: RuntimeView, r: PressOutcome) -> bool {
    match r {
        PressOutcome::Counted { saved } => pressed_at_some_time(v, key, post, saved),
        PressOutcome::CounterFull => post == v && press_can_overflow(v, key),
        PressOutcome::NotPressed => false,
        PressOutcome::ClockUnreadable => post == v,
    }
}

/// The state and the answer after a press of `key` at `now` milliseconds,
/// with `reading` the local clock's reading or `None` where it could not be
/// read: nothing changes without a reading or where a counter would pass
/// its largest value; else the press is counted at that reading.
pub open spec fn pressed_with_reading(
    v: RuntimeView,
    key: Seq<char>,
    now: u128,
    reading: Option<LocalTime>,
) -> (RuntimeView, PressOutcome) {
    match reading {
        None => (v, PressOutcome::ClockUnreadable),
        Some(t) => if press_fits(v, key, t) {
            (key_pressed(v, key, now, t), PressOutcome::Counted { saved: press_saves(v, now) })
        } else {
            (v, PressOutcome::CounterFull)
        },
    }
}

/// Counts a press of `key` at `now` milliseconds and the clock reading
/// `reading`, as `pressed_with_reading` says.
pub fn press_with_reading(rt: &mut RuntimeState, key: &str, now: u128, reading: Option<LocalTime>) -> (r:
    PressOutcome)
    requires
        old(rt).wf(),
        reading matches Some(t) ==> t.hour < 24 && t.minute < 60,
    ensures
        final(rt).wf(),
        (final(rt)@, r) == pressed_with_reading(old(rt)@, key@, now, reading),
{
    match reading {
        None => PressOutcome::ClockUnreadable,
        Some(t) => {
            if press_fits_now(rt, key, &t) {
                let saved = apply_key_press(rt, key, now, &t);
                PressOutcome::Counted { saved }
            } else {
                PressOutcome::CounterFull
            }
        },
    }
}

/// Counts a press of `key` now, unless the local clock cannot be read or a
/// counter the press raises is at its largest value.
pub fn process_key_press(rt: &mut RuntimeState, key: &str) -> (r: PressOutcome)
    requires
        old(rt).wf(),
    ensures
        final(rt).wf(),
        press_result(old(rt)@, key@, final(rt)@, r),
{
    let clock = local_clock();
    let ghost before = rt@;
    let ghost read = clock;
    let (now, reading) = match clock {
        Some((t, now)) => (now, Some(t)),
        None => (0, None),
    };
    let r = press_with_reading(rt, key, now, reading);
    proof {
        if let Some((t, _)) = read {
            assert(local_time_ok(t) && clock_read(t, now));
            if press_fits(before, key@, t) {
                assert(pressed_at_some_time(before, key@, rt@, press_saves(before, now)));
            } else {
                assert(press_can_overflow(before, key@));
            }
        }
    }
    r
}

/// The modifiers after `key` is released: a modifier key is marked up.
pub open spec fn key_released(m: Modifiers, key: Seq<char>) -> Modifiers {
    if is_modifier_name(key) {
        modifiers_after(m, key, false)
    } else {
        m
    }
}

/// A release of `key`: a modifier key is no longer held.
pub fn process_key_release(rt: &mut RuntimeState, key: &str)
    requires
        old(rt).wf(),
    ensures
        final(rt).wf(),
        final(rt)@ == (RuntimeView { modifiers: key_released(old(rt).modifiers, key@), ..old(rt)@ }),
{
    if !is_modifier(key) {
        return;
    }
    update_modifier(&mut rt.modifiers, key, false);
}

/// What a change in a modifier key's state asks for.
#[derive(PartialEq, Eq, Structural, Clone, Copy, Debug)]
pub enum ModifierAction {
    /// The modifier went down while listening: count it as a press.
    CountPress,
    /// The modifier went down while not listening: only mark it held.
    MarkHeld,
    /// The modifier went up.
    Release,
    /// Nothing changed.
    Nothing,
}

/// The action for modifier `key` going down (`down`) or up, with `m`
/// held before and listening on or off.
pub open spec fn modifier_action(m: Modifiers, key: Seq<char>, down: bool, running: bool) -> ModifierAction {
    let was_down = modifier_flag(m, key);
    if down && !was_down {
        if running {
            ModifierAction::CountPress
        } else {
            ModifierAction::MarkHeld
        }
    } else if !down && was_down {
        ModifierAction::Release
    } else {
        ModifierAction::Nothing
    }
}

/// Handles modifier `key` going down (`down`) or up as the macOS event tap
/// reports it.
pub fn process_modifier_change(rt: &mut RuntimeState, key: &str, down: bool, running: bool) -> (r:
    PressOutcome)
    requires
        old(rt).wf(),
    ensures
        final(rt).wf(),
        match modifier_action(old(rt).modifiers, key@, down, running) {
            ModifierAction::CountPress => press_result(old(rt)@, key@, final(rt)@, r),
            ModifierAction::MarkHeld => r == PressOutcome::NotPressed && final(rt)@ == (RuntimeView {
                modifiers: modifiers_after(old(rt).modifiers, key@, true),
                ..old(rt)@
            }),
            ModifierAction::Release => r == PressOutcome::NotPressed && final(rt)@ == (RuntimeView {
                modifiers: key_released(old(rt).modifiers, key@),
                ..old(rt)@
            }),
            ModifierAction::Nothing => r == PressOutcome::NotPressed && final(rt)@ == old(rt)@,
        },
{
    let was_down = modifier_is_active(&rt.modifiers, key);
    if down && !was_down {
        if running {
            process_key_press(rt, key)
        } else {
            update_modifier(&mut rt.modifiers, key, true);
            PressOutcome::NotPressed
        }
    } else if !down && was_down {
        process_key_release(rt, key);
        PressOutcome::NotPressed
    } else {
        PressOutcome::NotPressed
    }
}

/// Clears today's counts: a fresh day as the clock reads it, no recent
/// presses, no modifier held, and the fresh day recorded in the history.
/// Answers whether the clock could be read; where it could not, nothing
/// changes.
pub fn reset_today(rt: &mut RuntimeState) -> (done: bool)
    requires
        old(rt).wf(),
    ensures
        final(rt).wf(),
        !done ==> final(rt)@ == old(rt)@,
        done ==> date_text(final(rt).stats.date@) && timestamp_text(final(rt).stats.started_at@)
            && final(rt)@ == with_today_recorded(
            RuntimeView {
                stats: fresh_view(final(rt).stats.date@, final(rt).stats.started_at@),
                recent_events: Seq::empty(),
                modifiers: Modifiers::none(),
                ..old(rt)@
            },
        ),
{
    match fresh_stats() {
        None => false,
        Some(fresh) => {
            rt.stats = fresh;
            rt.recent_events.clear();
            rt.modifiers = Modifiers::default();
            record_today(rt);
            true
        },
    }
}

/// Stops counting: no modifier is held any more, and today is recorded
/// in the history.
pub fn stop_listening(rt: &mut RuntimeState)
    requires
        old(rt).wf(),
    ensures
        final(rt).wf(),
        final(rt)@ == with_today_recorded((RuntimeView { modifiers: Modifiers::none(), ..old(rt)@ })),
{
    rt.modifiers = Modifiers::default();
    record_today(rt);
}

/// The state the counter starts with: the loaded day, recorded in the
/// loaded history, with no recent press, no modifier held and no save yet.
pub fn initial_runtime(stats: KeyStats, history: History) -> (rt: RuntimeState)
    requires
        stats.wf(),
        history.wf(),
    ensures
        rt.wf(),
        rt@ == with_today_recorded(
            RuntimeView {
                stats: stats@,
                history: history.pairs(),
                recent_events: Seq::empty(),
                modifiers: Modifiers::none(),
                last_save_ms: 0,
            },
        ),
{
    let mut rt = RuntimeState {
        stats,
        history,
        recent_events: VecDeque::new(),
        modifiers: Modifiers::default(),
        last_save_ms: 0,
    };
    record_today(&mut rt);
    rt
}

} // verus!
