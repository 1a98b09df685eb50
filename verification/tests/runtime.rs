use keypulse::clock::LocalTime;
use keypulse::dashboard::{history_days, permission_hint, snapshot_from_runtime, Platform};
use keypulse::keys::Modifiers;
use keypulse::map::StringMap;
use keypulse::runtime::{
    apply_key_press, initial_runtime, process_key_release, process_modifier_change, record_today,
    reset_today, stop_listening, History, PressOutcome, RuntimeState,
};
use keypulse::stats::new_stats;

fn at(date: &str, hour: u32, minute: u32) -> LocalTime {
    LocalTime {
        date: date.to_string(),
        timestamp: format!("{date}T{hour:02}:{minute:02}:00+08:00"),
        hour,
        minute,
    }
}

fn start(date: &str) -> RuntimeState {
    let history: History = StringMap::new();
    initial_runtime(new_stats(date.to_string(), format!("{date}T00:00:00+08:00")), history)
}

fn count(rt: &RuntimeState, category: &str) -> u64 {
    rt.stats.category_counts.get(category).copied().unwrap_or(0)
}

#[test]
fn start_records_today() {
    let rt = start("2024-05-01");
    assert_eq!(rt.history.len(), 1);
    assert_eq!(rt.history.key_at(0), "2024-05-01");
    assert_eq!(rt.last_save_ms, 0);
    assert!(rt.recent_events.is_empty());
}

#[test]
fn press_counts_everything_once() {
    let mut rt = start("2024-05-01");
    let saved = apply_key_press(&mut rt, "KeyA", 10_000, &at("2024-05-01", 9, 45));
    assert!(saved);
    assert_eq!(rt.last_save_ms, 10_000);
    assert_eq!(rt.stats.total_keys, 1);
    assert_eq!(rt.stats.current_minute_keys, 1);
    assert_eq!(rt.stats.peak_per_minute, 1);
    assert_eq!(rt.stats.hourly_counts[9], 1);
    assert_eq!(rt.stats.half_hourly_counts[19], 1);
    assert_eq!(rt.stats.half_hourly_counts[18], 0);
    assert_eq!(count(&rt, "ordinary"), 1);
    assert_eq!(count(&rt, "letter"), 1);
    assert_eq!(count(&rt, "shortcut"), 0);
    assert_eq!(rt.stats.shortcut_counts.len(), 0);
    assert_eq!(rt.stats.updated_at, "2024-05-01T09:45:00+08:00");
    let recorded = rt.history.get("2024-05-01").unwrap();
    assert_eq!(recorded.total_keys, 1);
}

#[test]
fn quick_presses_are_not_saved() {
    let mut rt = start("2024-05-01");
    assert!(apply_key_press(&mut rt, "KeyA", 10_000, &at("2024-05-01", 9, 0)));
    assert!(!apply_key_press(&mut rt, "KeyB", 10_500, &at("2024-05-01", 9, 0)));
    assert_eq!(rt.last_save_ms, 10_000);
    assert_eq!(rt.history.get("2024-05-01").unwrap().total_keys, 1);
    assert_eq!(rt.stats.total_keys, 2);
    assert!(apply_key_press(&mut rt, "KeyC", 11_000, &at("2024-05-01", 9, 0)));
    assert_eq!(rt.history.get("2024-05-01").unwrap().total_keys, 3);
}

#[test]
fn shortcut_with_command_held() {
    let mut rt = start("2024-05-01");
    let t = at("2024-05-01", 14, 5);
    apply_key_press(&mut rt, "MetaLeft", 1_000, &t);
    assert!(rt.modifiers.cmd);
    apply_key_press(&mut rt, "KeyC", 1_100, &t);
    assert_eq!(rt.stats.shortcut_counts.get("Cmd+C").copied(), Some(1));
    assert_eq!(count(&rt, "shortcut"), 1);
    assert_eq!(count(&rt, "modifier"), 1);
    assert_eq!(count(&rt, "letter"), 1);
    assert_eq!(count(&rt, "ordinary"), 2);
    process_key_release(&mut rt, "MetaLeft");
    assert!(!rt.modifiers.cmd);
    apply_key_press(&mut rt, "KeyC", 1_200, &t);
    assert_eq!(rt.stats.shortcut_counts.get("Cmd+C").copied(), Some(1));
    assert_eq!(rt.stats.total_keys, 3);
}

#[test]
fn minute_window_drops_old_presses() {
    let mut rt = start("2024-05-01");
    let t = at("2024-05-01", 8, 0);
    apply_key_press(&mut rt, "KeyA", 1_000, &t);
    apply_key_press(&mut rt, "KeyA", 2_000, &t);
    apply_key_press(&mut rt, "KeyA", 3_000, &t);
    assert_eq!(rt.stats.current_minute_keys, 3);
    apply_key_press(&mut rt, "KeyA", 62_500, &t);
    assert_eq!(rt.stats.current_minute_keys, 2);
    assert_eq!(rt.stats.peak_per_minute, 3);
    assert_eq!(rt.recent_events.iter().copied().collect::<Vec<_>>(), vec![3_000, 62_500]);
}

#[test]
fn new_day_keeps_yesterday() {
    let mut rt = start("2024-05-01");
    apply_key_press(&mut rt, "KeyA", 1_000, &at("2024-05-01", 23, 59));
    apply_key_press(&mut rt, "KeyB", 1_100, &at("2024-05-01", 23, 59));
    apply_key_press(&mut rt, "Return", 2_000, &at("2024-05-02", 0, 0));
    assert_eq!(rt.stats.date, "2024-05-02");
    assert_eq!(rt.stats.total_keys, 1);
    assert_eq!(rt.stats.current_minute_keys, 1);
    assert_eq!(count(&rt, "enter"), 1);
    assert_eq!(rt.history.get("2024-05-01").unwrap().total_keys, 2);
    assert_eq!(rt.history.get("2024-05-02").unwrap().total_keys, 1);
}

#[test]
fn modifier_changes() {
    let mut rt = start("2024-05-01");
    let r = process_modifier_change(&mut rt, "ShiftLeft", true, false);
    assert_eq!(r, PressOutcome::NotPressed);
    assert!(rt.modifiers.shift);
    assert_eq!(rt.stats.total_keys, 0);
    let r = process_modifier_change(&mut rt, "ShiftLeft", true, true);
    assert_eq!(r, PressOutcome::NotPressed);
    let r = process_modifier_change(&mut rt, "ShiftLeft", false, true);
    assert_eq!(r, PressOutcome::NotPressed);
    assert!(!rt.modifiers.shift);
    let r = process_modifier_change(&mut rt, "ControlLeft", false, true);
    assert_eq!(r, PressOutcome::NotPressed);
    let r = process_modifier_change(&mut rt, "ControlLeft", true, true);
    assert!(matches!(r, PressOutcome::Counted { .. }));
    assert!(rt.modifiers.ctrl);
    assert_eq!(rt.stats.total_keys, 1);
}

#[test]
fn reset_and_stop() {
    let mut rt = start("2024-05-01");
    apply_key_press(&mut rt, "MetaLeft", 1_000, &at("2024-05-01", 10, 0));
    stop_listening(&mut rt);
    assert_eq!(rt.modifiers, Modifiers::default());
    assert_eq!(rt.history.get("2024-05-01").unwrap().total_keys, 1);
    assert!(reset_today(&mut rt));
    assert_eq!(rt.stats.total_keys, 0);
    assert!(rt.recent_events.is_empty());
    assert_eq!(rt.history.get(rt.stats.date.as_str()).unwrap().total_keys, 0);
}

#[test]
fn heat_map_in_date_order() {
    let mut rt = start("2024-05-03");
    let mut older = new_stats("2024-05-01".to_string(), "t".to_string());
    older.total_keys = 7;
    rt.history.set("2024-05-01".to_string(), older);
    let mut middle = new_stats("2024-05-02".to_string(), "t".to_string());
    middle.total_keys = 9;
    rt.history.set("2024-05-02".to_string(), middle);
    apply_key_press(&mut rt, "KeyA", 5_000, &at("2024-05-03", 1, 0));
    let days = history_days(&rt);
    let dates: Vec<&str> = days.iter().map(|d| d.date.as_str()).collect();
    assert_eq!(dates, vec!["2024-05-01", "2024-05-02", "2024-05-03"]);
    assert_eq!(days[0].total_keys, 7);
    assert_eq!(days[2].total_keys, 1);
    record_today(&mut rt);
    assert_eq!(history_days(&rt).len(), 3);
}

#[test]
fn snapshot_lists_top_counts() {
    let mut rt = start("2024-05-01");
    let t = at("2024-05-01", 9, 0);
    apply_key_press(&mut rt, "KeyA", 1_000, &t);
    apply_key_press(&mut rt, "KeyB", 1_100, &t);
    apply_key_press(&mut rt, "Return", 1_200, &t);
    let snap = snapshot_from_runtime(&rt, true, "/data/today-stats.json", true, Platform::Other);
    assert!(snap.listening);
    assert!(snap.input_monitoring_granted);
    assert_eq!(snap.storage_path, "/data/today-stats.json");
    assert_eq!(snap.permission_hint, "当前平台可能需要额外的系统权限。");
    assert_eq!(snap.stats.total_keys, 3);
    let cats: Vec<(&str, u64)> =
        snap.top_categories.iter().map(|c| (c.category.as_str(), c.count)).collect();
    assert_eq!(cats, vec![("ordinary", 3), ("letter", 2), ("enter", 1)]);
    assert!(snap.top_shortcuts.is_empty());
    assert_eq!(snap.history_days.len(), 1);
}

#[test]
fn permission_hints() {
    assert!(permission_hint(Platform::MacOs).starts_with("macOS"));
    assert!(permission_hint(Platform::Windows).starts_with("Windows"));
}

#[test]
fn press_now_reads_the_clock() {
    let mut rt = RuntimeState {
        stats: keypulse::stats::fresh_stats().unwrap(),
        history: StringMap::new(),
        recent_events: std::collections::VecDeque::new(),
        modifiers: Modifiers::default(),
        last_save_ms: 0,
    };
    assert_eq!(rt.stats.date.len(), 10);
    let outcome = keypulse::runtime::process_key_press(&mut rt, "KeyA");
    assert_eq!(outcome, PressOutcome::Counted { saved: true });
    assert_eq!(rt.stats.total_keys, 1);
    assert_eq!(rt.stats.hourly_counts.iter().sum::<u64>(), 1);
    assert_eq!(rt.stats.half_hourly_counts.iter().sum::<u64>(), 1);
    assert!(rt.last_save_ms > 1_600_000_000_000);
    assert!(keypulse::clock::now_ms() >= rt.last_save_ms);
}

#[test]
fn full_counter_is_refused() {
    let mut rt = start("2024-05-01");
    rt.stats.total_keys = u64::MAX;
    rt.stats.date = keypulse::stats::fresh_stats().unwrap().date;
    let before_events = rt.recent_events.len();
    let outcome = keypulse::runtime::process_key_press(&mut rt, "KeyA");
    assert_eq!(outcome, PressOutcome::CounterFull);
    assert_eq!(rt.stats.total_keys, u64::MAX);
    assert_eq!(rt.recent_events.len(), before_events);
}

#[test]
fn stale_day_is_rolled_over() {
    let mut rt = start("2000-01-01");
    apply_key_press(&mut rt, "KeyA", 1_000, &at("2000-01-01", 12, 0));
    assert!(keypulse::runtime::reset_if_new_day(&mut rt));
    assert_ne!(rt.stats.date, "2000-01-01");
    assert_eq!(rt.stats.total_keys, 0);
    assert!(rt.recent_events.is_empty());
    assert_eq!(rt.history.get("2000-01-01").unwrap().total_keys, 1);
    let today = rt.stats.date.clone();
    assert_eq!(rt.history.get(today.as_str()).unwrap().total_keys, 0);
    assert!(keypulse::runtime::reset_if_new_day(&mut rt));
    assert_eq!(rt.stats.date, today);
}

fn entries(m: &keypulse::map::CountMap) -> Vec<(String, u64)> {
    let mut v: Vec<(String, u64)> = (0..m.len()).map(|i| (m.key_at(i).clone(), *m.value_at(i))).collect();
    v.sort();
    v
}

#[test]
fn keys_of_one_category_leave_the_same_counts() {
    let mut a = start("2024-05-01");
    let mut b = start("2024-05-01");
    let t = at("2024-05-01", 14, 10);
    apply_key_press(&mut a, "KeyA", 2_000, &t);
    apply_key_press(&mut b, "KeyQ", 2_000, &t);
    assert_eq!(a.stats.total_keys, b.stats.total_keys);
    assert_eq!(a.stats.hourly_counts, b.stats.hourly_counts);
    assert_eq!(a.stats.half_hourly_counts, b.stats.half_hourly_counts);
    assert_eq!(entries(&a.stats.category_counts), entries(&b.stats.category_counts));
    assert_eq!(entries(&a.stats.shortcut_counts), entries(&b.stats.shortcut_counts));
    assert_eq!(a.recent_events, b.recent_events);
    assert_eq!(a.last_save_ms, b.last_save_ms);
}

#[test]
fn every_press_is_counted_in_one_category() {
    let mut rt = start("2024-05-01");
    let t = at("2024-05-01", 8, 0);
    apply_key_press(&mut rt, "KeyA", 1_000, &t);
    apply_key_press(&mut rt, "Num1", 1_100, &t);
    apply_key_press(&mut rt, "MetaLeft", 1_200, &t);
    apply_key_press(&mut rt, "KeyC", 1_300, &t);
    apply_key_press(&mut rt, "F5", 1_400, &t);
    apply_key_press(&mut rt, "Space", 1_500, &t);
    let ten = [
        "letter", "number", "enter", "backspace", "tab", "escape", "arrow", "function", "modifier",
        "other",
    ];
    let in_categories: u64 = ten.iter().map(|c| count(&rt, c)).sum();
    assert_eq!(in_categories, rt.stats.total_keys);
    assert_eq!(rt.stats.total_keys, 6);
    let shortcuts: u64 = entries(&rt.stats.shortcut_counts).iter().map(|e| e.1).sum();
    assert_eq!(shortcuts, count(&rt, "shortcut"));
    assert_eq!(shortcuts, 3);
}

#[test]
fn press_with_a_reading() {
    let t = at("2024-05-01", 14, 10);
    let mut a = start("2024-05-01");
    let mut b = start("2024-05-01");
    let ra = keypulse::runtime::press_with_reading(&mut a, "KeyA", 2_000, Some(t));
    let rb = keypulse::runtime::press_with_reading(&mut b, "KeyQ", 2_000, Some(at("2024-05-01", 14, 10)));
    assert_eq!(ra, PressOutcome::Counted { saved: true });
    assert_eq!(ra, rb);
    assert_eq!(entries(&a.stats.category_counts), entries(&b.stats.category_counts));
    assert_eq!(a.stats.hourly_counts, b.stats.hourly_counts);
    let r = keypulse::runtime::press_with_reading(&mut a, "KeyA", 3_000, None);
    assert_eq!(r, PressOutcome::ClockUnreadable);
    assert_eq!(a.stats.total_keys, 1);
    a.stats.total_keys = u64::MAX;
    let r = keypulse::runtime::press_with_reading(&mut a, "KeyA", 4_000, Some(at("2024-05-01", 15, 0)));
    assert_eq!(r, PressOutcome::CounterFull);
    assert_eq!(a.stats.total_keys, u64::MAX);
}

#[test]
fn days_of_one_date_keep_their_order() {
    let mut rt = start("2024-05-03");
    let mut first = new_stats("2024-05-01".to_string(), "t".to_string());
    first.total_keys = 1;
    rt.history.set("a".to_string(), first);
    let mut second = new_stats("2024-05-01".to_string(), "t".to_string());
    second.total_keys = 2;
    rt.history.set("b".to_string(), second);
    let days = history_days(&rt);
    let seen: Vec<(&str, u64)> = days.iter().map(|d| (d.date.as_str(), d.total_keys)).collect();
    assert_eq!(seen, vec![("2024-05-01", 1), ("2024-05-01", 2), ("2024-05-03", 0)]);
    let snap = snapshot_from_runtime(&rt, false, "/x", true, Platform::Other);
    let shown: Vec<(&str, u64)> =
        snap.history_days.iter().map(|d| (d.date.as_str(), d.total_keys)).collect();
    assert_eq!(shown, seen);
}
