use keypulse::counts::{bump, default_category_counts, sorted_counts};
use keypulse::map::{CountMap, StringMap};
use keypulse::stats::{default_half_hourly_counts, default_hourly_counts, new_stats, normalize_stats};
use keypulse::storage::{accept_loaded_stats, history_path, stats_path};

fn counts(items: &[(&str, u64)]) -> CountMap {
    let mut m: CountMap = StringMap::new();
    for (k, v) in items {
        m.set(k.to_string(), *v);
    }
    m
}

fn count(m: &CountMap, key: &str) -> Option<u64> {
    m.get(key).copied()
}

#[test]
fn default_categories_are_zero() {
    let m = default_category_counts();
    assert_eq!(m.len(), 12);
    for name in [
        "ordinary", "letter", "number", "enter", "backspace", "tab", "escape", "arrow", "function",
        "modifier", "shortcut", "other",
    ] {
        assert_eq!(count(&m, name), Some(0));
    }
    assert_eq!(count(&m, "space"), None);
}

#[test]
fn bump_counts_from_zero() {
    let mut m: CountMap = StringMap::new();
    bump(&mut m, "Cmd+C");
    bump(&mut m, "Cmd+C");
    bump(&mut m, "Ctrl+V");
    assert_eq!(count(&m, "Cmd+C"), Some(2));
    assert_eq!(count(&m, "Ctrl+V"), Some(1));
    assert_eq!(m.len(), 2);
}

#[test]
fn ranking_orders_by_count_then_name() {
    let m = counts(&[("b", 2), ("a", 2), ("z", 5), ("q", 0), ("c", 1)]);
    let r = sorted_counts(&m, 10);
    assert_eq!(
        r,
        vec![("z".to_string(), 5), ("a".to_string(), 2), ("b".to_string(), 2), ("c".to_string(), 1)]
    );
    let top2 = sorted_counts(&m, 2);
    assert_eq!(top2, vec![("z".to_string(), 5), ("a".to_string(), 2)]);
    assert!(sorted_counts(&m, 0).is_empty());
    assert!(sorted_counts(&counts(&[("x", 0)]), 5).is_empty());
}

#[test]
fn fresh_day_counts_nothing() {
    let s = new_stats("2024-05-01".to_string(), "2024-05-01T08:00:00+08:00".to_string());
    assert_eq!(s.date, "2024-05-01");
    assert_eq!(s.started_at, s.updated_at);
    assert_eq!(s.total_keys, 0);
    assert_eq!(s.peak_per_minute, 0);
    assert_eq!(s.hourly_counts, [0u64; 24]);
    assert_eq!(s.half_hourly_counts, vec![0u64; 48]);
    assert_eq!(s.category_counts.len(), 12);
    assert_eq!(s.shortcut_counts.len(), 0);
    assert_eq!(default_hourly_counts(), [0u64; 24]);
    assert_eq!(default_half_hourly_counts().len(), 48);
}

#[test]
fn normalize_fills_half_hours_from_hours() {
    let mut s = new_stats("2024-05-01".to_string(), "t".to_string());
    s.category_counts = counts(&[("letter", 7)]);
    s.hourly_counts[3] = 5;
    s.hourly_counts[10] = 4;
    s.half_hourly_counts = vec![0; 5];
    normalize_stats(&mut s);
    assert_eq!(s.half_hourly_counts.len(), 48);
    assert_eq!(s.half_hourly_counts[6], 3);
    assert_eq!(s.half_hourly_counts[7], 2);
    assert_eq!(s.half_hourly_counts[20], 2);
    assert_eq!(s.half_hourly_counts[21], 2);
    assert_eq!(s.half_hourly_counts.iter().sum::<u64>(), 9);
    assert_eq!(count(&s.category_counts, "letter"), Some(7));
    assert_eq!(count(&s.category_counts, "ordinary"), Some(0));
    assert_eq!(s.category_counts.len(), 12);
    let before = s.half_hourly_counts.clone();
    normalize_stats(&mut s);
    assert_eq!(s.half_hourly_counts, before);
}

#[test]
fn normalize_keeps_recorded_half_hours() {
    let mut s = new_stats("2024-05-01".to_string(), "t".to_string());
    s.hourly_counts[1] = 4;
    let mut half = vec![0u64; 50];
    half[3] = 4;
    half[49] = 9;
    s.half_hourly_counts = half;
    normalize_stats(&mut s);
    assert_eq!(s.half_hourly_counts.len(), 48);
    assert_eq!(s.half_hourly_counts[3], 4);
    assert_eq!(s.half_hourly_counts[2], 0);
}

#[test]
fn loaded_stats_nothing_read_is_fresh() {
    let s = accept_loaded_stats(None).unwrap();
    assert_eq!(s.total_keys, 0);
    assert_eq!(s.category_counts.len(), 12);
    assert_eq!(s.half_hourly_counts.len(), 48);
}

#[test]
fn loaded_stats_of_another_day_are_replaced() {
    let mut old = new_stats("1999-01-01".to_string(), "t".to_string());
    old.total_keys = 42;
    let s = accept_loaded_stats(Some(old)).unwrap();
    assert_ne!(s.date, "1999-01-01");
    assert_eq!(s.total_keys, 0);
}

#[test]
fn file_locations() {
    let p = stats_path("/data/keypulse");
    assert!(p.starts_with("/data/keypulse"));
    assert!(p.ends_with("today-stats.json"));
    assert!(p.len() <= "/data/keypulse".len() + 1 + "today-stats.json".len());
    let h = history_path("/data/keypulse/");
    assert_eq!(h, "/data/keypulse/stats-history.json");
}

#[test]
fn loaded_stats_of_today_are_normalized() {
    let mut s = new_stats("2024-05-01".to_string(), "t0".to_string());
    s.total_keys = 5;
    s.current_minute_keys = 4;
    s.hourly_counts[2] = 5;
    s.half_hourly_counts = Vec::new();
    s.category_counts = counts(&[("ordinary", 5)]);
    let r = keypulse::storage::loaded_stats_for(Some(s), "2024-05-01".to_string(), "t1".to_string());
    assert_eq!(r.total_keys, 5);
    assert_eq!(r.current_minute_keys, 0);
    assert_eq!(r.started_at, "t0");
    assert_eq!(r.half_hourly_counts.len(), 48);
    assert_eq!(r.half_hourly_counts[4], 3);
    assert_eq!(r.half_hourly_counts[5], 2);
    assert_eq!(r.category_counts.len(), 12);
    assert_eq!(count(&r.category_counts, "ordinary"), Some(5));
    let other = new_stats("2024-04-30".to_string(), "t0".to_string());
    let r = keypulse::storage::loaded_stats_for(Some(other), "2024-05-01".to_string(), "t1".to_string());
    assert_eq!(r.date, "2024-05-01");
    assert_eq!(r.started_at, "t1");
}

#[test]
fn fresh_day_reads_the_clock_as_text() {
    let s = keypulse::stats::fresh_stats().unwrap();
    let d = s.date.as_bytes();
    assert_eq!(d.len(), 10);
    assert_eq!(d[4], b'-');
    assert_eq!(d[7], b'-');
    assert!(s.started_at.starts_with(&format!("{}T", s.date)));
    assert_eq!(&s.started_at.as_bytes()[13..14], b":");
}

#[test]
fn shorter_top_lists_start_longer_ones() {
    let m = counts(&[("a", 3), ("b", 5), ("c", 0), ("d", 5), ("e", 1)]);
    let all = sorted_counts(&m, usize::MAX);
    assert_eq!(all.len(), 4);
    for limit in 0..6 {
        let shorter = sorted_counts(&m, limit);
        let longer = sorted_counts(&m, limit + 1);
        assert_eq!(&longer[..shorter.len()], &shorter[..]);
    }
    assert_eq!(sorted_counts(&m, 4), all);
    assert_eq!(sorted_counts(&m, 9), all);
    assert_eq!(all[0], ("b".to_string(), 5));
    assert_eq!(all[1], ("d".to_string(), 5));
}
