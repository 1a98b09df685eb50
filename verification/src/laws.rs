//! Properties of the library as a whole: what a key press keeps and
//! changes, what a new day keeps, and how the dashboard's rankings and
//! normalizing behave.
use vstd::prelude::*;

use crate::counts::{count_of, is_ranking, ranks_before, strictly_ranked, top_counts, lemma_ranks_before_asymmetric};
use crate::keys::{Modifiers, is_modifier_name, modifier_flag, modifiers_after};
use crate::counts::{default_category_map, default_category_names};
use crate::keys::{key_category, shortcut_text};
use crate::map::{distinct_keys, lemma_pairs_with, pairs_to_map};
use crate::runtime::{
    RuntimeView, drop_stale, pressed_at_some_time, pressed_with_reading, key_pressed, key_released, older_than_minute, press_fits,
    press_saves, rolled_over, with_today_recorded,
};
use crate::clock::{
    LocalTime, clock_read, day_number, days_in_month, local_parts, local_time_ok, offset_text, reading_of_instant,
    two_digits,
};
use crate::stats::{
    StatsView, any_positive, fresh_view, lemma_sum_positive, normalized, normalized_half_hours,
    padded_half_hours, seq_sum, split_hours, zeros,
};
use crate::counts::{bumped, with_default_categories};
use crate::dashboard::{HeatmapView, days_of, heatmap_of, is_day_list, lemma_on_date_found, on_date, sorted_by_date};
use crate::text::{lemma_text_lt_asymmetric, text_le};
use crate::map::{has_key, key_index, pairs_with};
use vstd::seq_lib::group_to_multiset_ensures;

verus! {

/// Setting a modifier key's state and reading it back gives that state.
pub proof fn lemma_modifier_round_trip(m: Modifiers, key: Seq<char>, down: bool)
    requires
        is_modifier_name(key),
    ensures
        modifier_flag(modifiers_after(m, key, down), key) == down,
{
}

/// A modifier key pressed and then released is no longer held.
pub proof fn lemma_press_then_release(m: Modifiers, key: Seq<char>)
    requires
        is_modifier_name(key),
    ensures
        modifier_flag(modifiers_after(m, key, true), key),
        !modifier_flag(key_released(modifiers_after(m, key, true), key), key),
{
}

/// Two lists in strict rank order with the same entries are the same list.
pub proof fn lemma_strictly_ranked_unique(l1: Seq<(Seq<char>, u64)>, l2: Seq<(Seq<char>, u64)>)
    requires
        strictly_ranked(l1),
        strictly_ranked(l2),
        forall|e: (Seq<char>, u64)| l1.contains(e) <==> l2.contains(e),
    ensures
        l1 == l2,
    decreases l1.len(),
{
    if l1.len() == 0 {
        if l2.len() > 0 {
            assert(l2.contains(l2[0]));
        }
        assert(l1 =~= l2);
    } else {
        assert(l1.contains(l1[0]));
        if l2.len() == 0 {
            assert(false);
        }
        assert(l2.contains(l2[0]));
        let a = l1[0];
        let b = l2[0];
        if a != b {
            let i = choose|i: int| 0 <= i < l1.len() && l1[i] == b;
            let j = choose|j: int| 0 <= j < l2.len() && l2[j] == a;
            assert(i > 0);
            assert(j > 0);
            assert(ranks_before(l1[0], l1[i]));
            assert(ranks_before(l2[0], l2[j]));
            lemma_ranks_before_asymmetric(a, b);
        }
        let r1 = l1.drop_first();
        let r2 = l2.drop_first();
        assert forall|e: (Seq<char>, u64)| r1.contains(e) <==> r2.contains(e) by {
            if r1.contains(e) {
                let i = choose|i: int| 0 <= i < r1.len() && r1[i] == e;
                assert(l1[i + 1] == e);
                assert(l1.contains(e));
                assert(ranks_before(l1[0], l1[i + 1]));
                lemma_ranks_before_asymmetric(l1[0], e);
                let j = choose|j: int| 0 <= j < l2.len() && l2[j] == e;
                assert(j != 0);
                assert(r2[j - 1] == e);
            }
            if r2.contains(e) {
                let j = choose|j: int| 0 <= j < r2.len() && r2[j] == e;
                assert(l2[j + 1] == e);
                assert(l2.contains(e));
                assert(ranks_before(l2[0], l2[j + 1]));
                lemma_ranks_before_asymmetric(l2[0], e);
                let i = choose|i: int| 0 <= i < l1.len() && l1[i] == e;
                assert(i != 0);
                assert(r1[i - 1] == e);
            }
        }
        assert forall|x: int, y: int| 0 <= x < y < r1.len() implies ranks_before(
            #[trigger] r1[x],
            #[trigger] r1[y],
        ) by {
            assert(ranks_before(l1[x + 1], l1[y + 1]));
        }
        assert forall|x: int, y: int| 0 <= x < y < r2.len() implies ranks_before(
            #[trigger] r2[x],
            #[trigger] r2[y],
        ) by {
            assert(ranks_before(l2[x + 1], l2[y + 1]));
        }
        lemma_strictly_ranked_unique(r1, r2);
        assert(l1 =~= seq![a] + r1);
        assert(l2 =~= seq![b] + r2);
    }
}

/// The counters of a map have one ranking only.
pub proof fn lemma_ranking_unique(m: Map<Seq<char>, u64>, l1: Seq<(Seq<char>, u64)>, l2: Seq<(Seq<char>, u64)>)
    requires
        is_ranking(m, l1),
        is_ranking(m, l2),
    ensures
        l1 == l2,
{
    assert forall|e: (Seq<char>, u64)| l1.contains(e) <==> l2.contains(e) by {
        assert(l1.contains(e) <==> (m.contains_key(e.0) && m[e.0] == e.1 && e.1 > 0));
        assert(l2.contains(e) <==> (m.contains_key(e.0) && m[e.0] == e.1 && e.1 > 0));
    }
    lemma_strictly_ranked_unique(l1, l2);
}

/// The top of the counters is determined by the counters and the limit:
/// at most `limit` of them, each counted above zero, in rank order.
pub proof fn lemma_top_counts_determined(
    m: Map<Seq<char>, u64>,
    limit: nat,
    r1: Seq<(Seq<char>, u64)>,
    r2: Seq<(Seq<char>, u64)>,
)
    requires
        top_counts(m, limit, r1),
        top_counts(m, limit, r2),
    ensures
        r1 == r2,
        r1.len() <= limit,
        strictly_ranked(r1),
        forall|i: int| 0 <= i < r1.len() ==> #[trigger] r1[i].1 > 0 && m.contains_key(r1[i].0)
            && m[r1[i].0] == r1[i].1,
{
    let l1 = choose|l: Seq<(Seq<char>, u64)>|
        is_ranking(m, l) && r1 == l.take(if limit < l.len() { limit as int } else { l.len() as int });
    let l2 = choose|l: Seq<(Seq<char>, u64)>|
        is_ranking(m, l) && r2 == l.take(if limit < l.len() { limit as int } else { l.len() as int });
    lemma_ranking_unique(m, l1, l2);
    assert forall|i: int| 0 <= i < r1.len() implies #[trigger] r1[i].1 > 0 && m.contains_key(r1[i].0)
        && m[r1[i].0] == r1[i].1 by {
        assert(r1[i] == l1[i]);
        assert(l1.contains(l1[i]));
    }
    assert forall|x: int, y: int| 0 <= x < y < r1.len() implies ranks_before(
        #[trigger] r1[x],
        #[trigger] r1[y],
    ) by {
        assert(r1[x] == l1[x]);
        assert(r1[y] == l1[y]);
    }
}

/// A longer list of top counters only adds to a shorter one: with
/// `limit1 <= limit2` the first list starts the second; and once the limit
/// reaches the number of counters above zero the list is the whole ranking.
pub proof fn lemma_top_counts_prefix(
    m: Map<Seq<char>, u64>,
    limit1: nat,
    limit2: nat,
    r1: Seq<(Seq<char>, u64)>,
    r2: Seq<(Seq<char>, u64)>,
    l: Seq<(Seq<char>, u64)>,
)
    requires
        limit1 <= limit2,
        top_counts(m, limit1, r1),
        top_counts(m, limit2, r2),
        is_ranking(m, l),
    ensures
        r1.len() <= r2.len(),
        r1 == r2.take(r1.len() as int),
        limit2 >= l.len() ==> r2 == l,
{
    let l1 = choose|x: Seq<(Seq<char>, u64)>|
        is_ranking(m, x) && r1 == x.take(if limit1 < x.len() { limit1 as int } else { x.len() as int });
    let l2 = choose|x: Seq<(Seq<char>, u64)>|
        is_ranking(m, x) && r2 == x.take(if limit2 < x.len() { limit2 as int } else { x.len() as int });
    lemma_ranking_unique(m, l1, l);
    lemma_ranking_unique(m, l2, l);
    assert(r1 =~= r2.take(r1.len() as int));
    if limit2 >= l.len() {
        assert(r2 =~= l);
    }
}

/// A key's name is kept only through its category and the shortcut it
/// makes: two keys that are not modifiers, of one category and making the
/// same shortcut with what is held, leave the same state when pressed at
/// the same time, and fit the counters alike.
pub proof fn lemma_press_depends_on_category_and_shortcut(
    v: RuntimeView,
    k1: Seq<char>,
    k2: Seq<char>,
    now: u128,
    t: LocalTime,
)
    requires
        !is_modifier_name(k1),
        !is_modifier_name(k2),
        key_category(k1) == key_category(k2),
        shortcut_text(v.modifiers, k1) == shortcut_text(v.modifiers, k2),
    ensures
        key_pressed(v, k1, now, t) == key_pressed(v, k2, now, t),
        press_fits(v, k1, t) == press_fits(v, k2, t),
{
    let r = rolled_over(v, t.date@, t.timestamp@);
    assert(r.modifiers == v.modifiers);
    assert(modifiers_after(r.modifiers, k1, true) == r.modifiers);
    assert(modifiers_after(r.modifiers, k2, true) == r.modifiers);
}

/// Two presses at the same clock reading, from the same state, of keys
/// that are not modifiers, share a category and make the same shortcut
/// with what is held, leave the same state and give the same answer,
/// whatever the reading.
pub proof fn lemma_press_with_reading_forgets_key(
    v: RuntimeView,
    k1: Seq<char>,
    k2: Seq<char>,
    now: u128,
    reading: Option<LocalTime>,
)
    requires
        !is_modifier_name(k1),
        !is_modifier_name(k2),
        key_category(k1) == key_category(k2),
        shortcut_text(v.modifiers, k1) == shortcut_text(v.modifiers, k2),
    ensures
        pressed_with_reading(v, k1, now, reading) == pressed_with_reading(v, k2, now, reading),
{
    if let Some(t) = reading {
        lemma_press_depends_on_category_and_shortcut(v, k1, k2, now, t);
    }
}

/// The day's counters agree: "ordinary" counts every press, and the hour
/// chart (24 hours) and the half-hour chart (48 half hours) add up to the
/// day's total.
pub open spec fn counts_agree(s: StatsView) -> bool {
    &&& s.hourly_counts.len() == 24
    &&& s.half_hourly_counts.len() == 48
    &&& count_of(s.category_counts, "ordinary"@) == s.total_keys
    &&& seq_sum(s.hourly_counts) == s.total_keys
    &&& seq_sum(s.half_hourly_counts) == s.total_keys
}

proof fn lemma_sum_zeros(n: nat)
    ensures
        seq_sum(zeros(n)) == 0,
    decreases n,
{
    if n > 0 {
        assert(zeros(n).drop_last() =~= zeros((n - 1) as nat));
        lemma_sum_zeros((n - 1) as nat);
    }
}

proof fn lemma_sum_update(s: Seq<u64>, i: int, v: u64)
    requires
        0 <= i < s.len(),
    ensures
        seq_sum(s.update(i, v)) == seq_sum(s) - s[i] + v,
    decreases s.len(),
{
    if i == s.len() - 1 {
        assert(s.update(i, v).drop_last() =~= s.drop_last());
    } else {
        lemma_sum_update(s.drop_last(), i, v);
        assert(s.update(i, v).drop_last() =~= s.drop_last().update(i, v));
    }
}

/// No key counts under the category "ordinary" other than through the
/// count that every press gets.
proof fn lemma_category_not_ordinary(key: Seq<char>)
    ensures
        key_category(key) != "ordinary"@,
        "shortcut"@ != "ordinary"@,
{
    reveal_strlit("ordinary");
    reveal_strlit("modifier");
    reveal_strlit("letter");
    reveal_strlit("number");
    reveal_strlit("enter");
    reveal_strlit("backspace");
    reveal_strlit("tab");
    reveal_strlit("escape");
    reveal_strlit("arrow");
    reveal_strlit("function");
    reveal_strlit("other");
    reveal_strlit("shortcut");
    assert("modifier"@[0] != "ordinary"@[0]);
    assert("number"@[0] != "ordinary"@[0]);
    assert("function"@[0] != "ordinary"@[0]);
    assert("shortcut"@[0] != "ordinary"@[0]);
    assert("backspace"@.len() != "ordinary"@.len());
}

/// A fresh day's counters agree.
pub proof fn lemma_fresh_counts_agree(date: Seq<char>, now: Seq<char>)
    ensures
        counts_agree(fresh_view(date, now)),
{
    lemma_sum_zeros(24);
    lemma_sum_zeros(48);
    assert(default_category_names()[0] == "ordinary"@);
    assert(default_category_map().contains_key("ordinary"@));
}

/// A counted key press keeps the day's counters in agreement: the total,
/// the "ordinary" category and both charts each rise by one.
pub proof fn lemma_press_keeps_counts_agree(v: RuntimeView, key: Seq<char>, now: u128, t: LocalTime)
    requires
        counts_agree(v.stats),
        t.hour < 24,
        t.minute < 60,
        press_fits(v, key, t),
    ensures
        counts_agree(key_pressed(v, key, now, t).stats),
        key_pressed(v, key, now, t).stats.total_keys == rolled_over(v, t.date@, t.timestamp@).stats.total_keys + 1,
{
    let r = rolled_over(v, t.date@, t.timestamp@);
    if v.stats.date != t.date@ {
        lemma_fresh_counts_agree(t.date@, t.timestamp@);
    }
    assert(counts_agree(r.stats));
    let s = r.stats;
    let post = key_pressed(v, key, now, t).stats;
    assert(padded_half_hours(s.half_hourly_counts) =~= s.half_hourly_counts);
    lemma_sum_update(s.hourly_counts, t.hour as int, (s.hourly_counts[t.hour as int] + 1) as u64);
    let hh = crate::runtime::half_hour_index(t.hour, t.minute);
    lemma_sum_update(s.half_hourly_counts, hh, (s.half_hourly_counts[hh] + 1) as u64);
    lemma_category_not_ordinary(key);
}

/// After a press the peak of presses per minute is at least the presses of
/// the current minute, and no lower than before the press.
pub proof fn lemma_press_peak(v: RuntimeView, key: Seq<char>, now: u128, t: LocalTime)
    ensures
        key_pressed(v, key, now, t).stats.peak_per_minute >= key_pressed(
            v,
            key,
            now,
            t,
        ).stats.current_minute_keys,
        key_pressed(v, key, now, t).stats.peak_per_minute >= rolled_over(
            v,
            t.date@,
            t.timestamp@,
        ).stats.peak_per_minute,
{
}

/// Every category that a key press counts under is one of the default
/// categories.
proof fn lemma_category_is_default(key: Seq<char>)
    ensures
        default_category_names().contains(key_category(key)),
        default_category_names().contains("ordinary"@),
        default_category_names().contains("shortcut"@),
{
    let names = default_category_names();
    assert(names[0] == "ordinary"@);
    assert(names[1] == "letter"@);
    assert(names[2] == "number"@);
    assert(names[3] == "enter"@);
    assert(names[4] == "backspace"@);
    assert(names[5] == "tab"@);
    assert(names[6] == "escape"@);
    assert(names[7] == "arrow"@);
    assert(names[8] == "function"@);
    assert(names[9] == "modifier"@);
    assert(names[10] == "shortcut"@);
    assert(names[11] == "other"@);
}

/// A key press records no key text: the only categories it adds are
/// default category names, and it adds a shortcut only where Command,
/// Control or Option is held with a key that is no modifier, under that
/// shortcut's label.
pub proof fn lemma_press_records_no_text(v: RuntimeView, key: Seq<char>, now: u128, t: LocalTime)
    ensures
        forall|k: Seq<char>| #[trigger]
            key_pressed(v, key, now, t).stats.category_counts.contains_key(k) ==> rolled_over(
                v,
                t.date@,
                t.timestamp@,
            ).stats.category_counts.contains_key(k) || default_category_names().contains(k),
        forall|k: Seq<char>| #[trigger]
            key_pressed(v, key, now, t).stats.shortcut_counts.contains_key(k) && !rolled_over(
                v,
                t.date@,
                t.timestamp@,
            ).stats.shortcut_counts.contains_key(k) ==> shortcut_text(
                modifiers_after(rolled_over(v, t.date@, t.timestamp@).modifiers, key, true),
                key,
            ) == Some(k),
        !modifiers_after(rolled_over(v, t.date@, t.timestamp@).modifiers, key, true).makes_shortcut()
            || is_modifier_name(key) ==> key_pressed(v, key, now, t).stats.shortcut_counts
            == rolled_over(v, t.date@, t.timestamp@).stats.shortcut_counts,
{
    lemma_category_is_default(key);
}

/// A new day keeps the day before: it is kept under its date, the new day
/// starts fresh and is kept under its own date, and other kept days stay.
pub proof fn lemma_new_day_keeps_previous(v: RuntimeView, today: Seq<char>, now: Seq<char>)
    requires
        distinct_keys(v.history),
        v.stats.date != today,
    ensures
        distinct_keys(rolled_over(v, today, now).history),
        rolled_over(v, today, now).stats == fresh_view(today, now),
        pairs_to_map(rolled_over(v, today, now).history) == pairs_to_map(v.history).insert(
            v.stats.date,
            v.stats,
        ).insert(today, fresh_view(today, now)),
        pairs_to_map(rolled_over(v, today, now).history)[v.stats.date] == v.stats,
{
    let once = crate::map::pairs_with(v.history, v.stats.date, v.stats);
    lemma_pairs_with(v.history, v.stats.date, v.stats);
    lemma_pairs_with(once, today, fresh_view(today, now));
}

/// The same day goes on unchanged.
pub proof fn lemma_same_day_unchanged(v: RuntimeView, now: Seq<char>)
    ensures
        rolled_over(v, v.stats.date, now) == v,
{
}

/// Recording today and reading the history back under today's date gives
/// today's statistics.
pub proof fn lemma_recorded_today(v: RuntimeView)
    requires
        distinct_keys(v.history),
    ensures
        distinct_keys(with_today_recorded(v).history),
        pairs_to_map(with_today_recorded(v).history) == pairs_to_map(v.history).insert(
            v.stats.date,
            v.stats,
        ),
{
    lemma_pairs_with(v.history, v.stats.date, v.stats);
}

/// A press that hands the statistics out to be saved first records them
/// in the history and moves the save time to the press; any other press
/// leaves the save time and the history as the day's start left them.
pub proof fn lemma_press_saving(v: RuntimeView, key: Seq<char>, now: u128, t: LocalTime)
    requires
        distinct_keys(v.history),
    ensures
        press_saves(v, now) ==> key_pressed(v, key, now, t).last_save_ms == now && pairs_to_map(
            key_pressed(v, key, now, t).history,
        )[key_pressed(v, key, now, t).stats.date] == key_pressed(v, key, now, t).stats,
        !press_saves(v, now) ==> key_pressed(v, key, now, t).last_save_ms == v.last_save_ms
            && key_pressed(v, key, now, t).history == rolled_over(
            v,
            t.date@,
            t.timestamp@,
        ).history,
{
    let r = rolled_over(v, t.date@, t.timestamp@);
    if v.stats.date != t.date@ {
        lemma_new_day_keeps_previous(v, t.date@, t.timestamp@);
    }
    assert(distinct_keys(r.history));
    let post = key_pressed(v, key, now, t);
    if press_saves(v, now) {
        lemma_pairs_with(r.history, post.stats.date, post.stats);
    }
}

/// Times in the order they happened.
pub open spec fn non_decreasing(s: Seq<u128>) -> bool {
    forall|i: int, j: int| 0 <= i < j < s.len() ==> #[trigger] s[i] <= #[trigger] s[j]
}

proof fn lemma_drop_stale_shape(s: Seq<u128>, now: u128) -> (k: int)
    ensures
        0 <= k <= s.len(),
        drop_stale(s, now) == s.skip(k),
        forall|j: int| 0 <= j < k ==> older_than_minute(now, #[trigger] s[j]),
        k < s.len() ==> !older_than_minute(now, s[k]),
    decreases s.len(),
{
    if s.len() > 0 && older_than_minute(now, s[0]) {
        let k = lemma_drop_stale_shape(s.drop_first(), now);
        assert(s.drop_first().skip(k) =~= s.skip(k + 1));
        assert forall|j: int| 0 <= j < k + 1 implies older_than_minute(now, #[trigger] s[j]) by {
            if j > 0 {
                assert(s[j] == s.drop_first()[j - 1]);
            }
        }
        k + 1
    } else {
        assert(s.skip(0) =~= s);
        0
    }
}

/// With press times in the order they happened and none after `now`, the
/// presses kept for the current minute after a press at `now` are exactly
/// those of the last 60 seconds: every earlier one is dropped, every later
/// one kept, and the press at `now` is the last.
pub proof fn lemma_recent_presses_are_last_minute(events: Seq<u128>, now: u128)
    requires
        non_decreasing(events),
        forall|i: int| 0 <= i < events.len() ==> #[trigger] events[i] <= now,
    ensures
        ({
            let all = events.push(now);
            let kept = drop_stale(all, now);
            &&& kept.len() >= 1
            &&& kept.last() == now
            &&& forall|i: int| 0 <= i < kept.len() ==> !older_than_minute(now, #[trigger] kept[i])
            &&& exists|k: int|
                0 <= k < all.len() && kept == all.skip(k) && forall|j: int|
                    0 <= j < k ==> older_than_minute(now, #[trigger] all[j])
        }),
{
    let all = events.push(now);
    let k = lemma_drop_stale_shape(all, now);
    assert(!older_than_minute(now, all[all.len() - 1]));
    assert(k < all.len());
    let kept = drop_stale(all, now);
    assert forall|i: int| 0 <= i < kept.len() implies !older_than_minute(now, #[trigger] kept[i]) by {
        assert(kept[i] == all[k + i]);
        if k + i < all.len() - 1 && k < all.len() - 1 {
            assert(all[k] == events[k]);
            assert(all[k + i] == events[k + i]);
            if i > 0 {
                assert(events[k] <= events[k + i]);
            }
        }
    }
}

/// Normalizing twice is normalizing once.
pub proof fn lemma_normalize_idempotent(s: StatsView)
    requires
        s.hourly_counts.len() == 24,
    ensures
        normalized(normalized(s)) == normalized(s),
{
    let n = normalized(s);
    assert(with_default_categories(n.category_counts) =~= n.category_counts);
    let h = s.hourly_counts;
    let first = normalized_half_hours(h, s.half_hourly_counts);
    assert(first.len() == 48);
    assert(padded_half_hours(first) =~= first);
    lemma_sum_positive(h);
    lemma_sum_positive(first);
    lemma_sum_positive(padded_half_hours(s.half_hourly_counts));
    if seq_sum(h) > 0 && seq_sum(padded_half_hours(s.half_hourly_counts)) == 0 {
        let i = choose|i: int| 0 <= i < h.len() && #[trigger] h[i] > 0;
        assert(split_hours(h)[2 * i] > 0);
        assert(any_positive(first));
    }
    assert(normalized_half_hours(h, first) =~= first);
}

proof fn lemma_split_prefix(h: Seq<u64>, n: int)
    requires
        h.len() == 24,
        0 <= n <= 24,
    ensures
        seq_sum(split_hours(h).take(2 * n)) == seq_sum(h.take(n)),
    decreases n,
{
    let sp = split_hours(h);
    if n == 0 {
        assert(sp.take(0) =~= Seq::<u64>::empty());
        assert(h.take(0) =~= Seq::<u64>::empty());
    } else {
        lemma_split_prefix(h, n - 1);
        assert(sp.take(2 * n).drop_last() =~= sp.take(2 * n - 1));
        assert(sp.take(2 * n - 1).drop_last() =~= sp.take(2 * (n - 1)));
        assert(h.take(n).drop_last() =~= h.take(n - 1));
        assert((2 * n - 2) / 2 == n - 1);
        assert((2 * n - 1) / 2 == n - 1);
        assert((2 * n - 2) % 2 == 0);
        assert((2 * n - 1) % 2 == 1);
        assert(sp[2 * n - 2] == (h[n - 1] - h[n - 1] / 2) as u64);
        assert(sp[2 * n - 1] == h[n - 1] / 2);
        assert(sp.take(2 * n).last() == sp[2 * n - 1]);
        assert(sp.take(2 * n - 1).last() == sp[2 * n - 2]);
        assert(seq_sum(sp.take(2 * n)) == seq_sum(sp.take(2 * n - 1)) + sp[2 * n - 1]);
        assert(seq_sum(sp.take(2 * n - 1)) == seq_sum(sp.take(2 * (n - 1))) + sp[2 * n - 2]);
        assert(seq_sum(h.take(n)) == seq_sum(h.take(n - 1)) + h[n - 1]);
    }
}

/// Half-hour counts made from hour counts add up to the same total.
pub proof fn lemma_split_hours_keeps_total(h: Seq<u64>)
    requires
        h.len() == 24,
    ensures
        split_hours(h).len() == 48,
        seq_sum(split_hours(h)) == seq_sum(h),
{
    lemma_split_prefix(h, 24);
    assert(split_hours(h).take(48) =~= split_hours(h));
    assert(h.take(24) =~= h);
}

/// The heat map lists today, every other kept day, and one day for each
/// date kept once today is recorded.
pub proof fn lemma_day_list_has_today(
    history: Seq<(Seq<char>, StatsView)>,
    today: StatsView,
    days: Seq<crate::dashboard::HeatmapView>,
)
    requires
        is_day_list(history, today, days),
    ensures
        days.contains(heatmap_of(today)),
        forall|i: int|
            0 <= i < history.len() && history[i].0 != today.date ==> days.contains(
                heatmap_of(#[trigger] history[i].1),
            ),
        days.len() == pairs_with(history, today.date, today).len(),
{
    broadcast use group_to_multiset_ensures;

    let p = pairs_with(history, today.date, today);
    let d = days_of(p);
    let i = if has_key(history, today.date) {
        key_index(history, today.date)
    } else {
        history.len() as int
    };
    assert(p[i] == (today.date, today));
    assert(d[i] == heatmap_of(today));
    assert(d.contains(heatmap_of(today)));
    assert(d.to_multiset().count(heatmap_of(today)) > 0);
    assert(days.to_multiset().count(heatmap_of(today)) > 0);
    assert(days.len() == days.to_multiset().len());
    assert(d.len() == d.to_multiset().len());
    assert forall|j: int|
        0 <= j < history.len() && history[j].0 != today.date implies days.contains(
        heatmap_of(#[trigger] history[j].1),
    ) by {
        if has_key(history, today.date) {
            assert(j != key_index(history, today.date));
        }
        assert(p[j] == history[j]);
        assert(d[j] == heatmap_of(history[j].1));
        assert(d.contains(heatmap_of(history[j].1)));
        assert(d.to_multiset().count(heatmap_of(history[j].1)) > 0);
        assert(days.to_multiset().count(heatmap_of(history[j].1)) > 0);
    }
}

/// A press counted at whatever time the clock gave keeps the day's
/// counters in agreement.
pub proof fn lemma_counted_press_keeps_counts_agree(
    v: RuntimeView,
    key: Seq<char>,
    post: RuntimeView,
    saved: bool,
)
    requires
        counts_agree(v.stats),
        pressed_at_some_time(v, key, post, saved),
    ensures
        counts_agree(post.stats),
{
    let (now, t) = choose|now: u128, t: LocalTime|
        t.hour < 24 && t.minute < 60 && press_fits(v, key, t) && post == key_pressed(v, key, now, t)
            && saved == press_saves(v, now);
    lemma_press_keeps_counts_agree(v, key, now, t);
}


/// The presses counted under the ten key categories, that is all
/// categories but "ordinary" and "shortcut".
pub open spec fn category_total(m: Map<Seq<char>, u64>) -> int {
    count_of(m, "letter"@) + count_of(m, "number"@) + count_of(m, "enter"@) + count_of(
        m,
        "backspace"@,
    ) + count_of(m, "tab"@) + count_of(m, "escape"@) + count_of(m, "arrow"@) + count_of(
        m,
        "function"@,
    ) + count_of(m, "modifier"@) + count_of(m, "other"@)
}

/// Adds the count of a name to a running sum.
pub open spec fn count_adder(m: Map<Seq<char>, u64>) -> spec_fn(int, Seq<char>) -> int {
    |acc: int, k: Seq<char>| acc + count_of(m, k)
}

/// The sum of the counts of the names in `s`.
pub open spec fn names_sum(s: Set<Seq<char>>, m: Map<Seq<char>, u64>) -> int {
    s.fold(0int, count_adder(m))
}

/// The sum of all counts in `m`.
pub open spec fn map_total(m: Map<Seq<char>, u64>) -> int {
    names_sum(m.dom(), m)
}

/// Every press is counted once in the total, once under "ordinary", once
/// in an hour and a half hour, and once under one of the ten key
/// categories; every shortcut once under "shortcut" and once under its
/// own name.
pub open spec fn counts_complete(s: StatsView) -> bool {
    &&& counts_agree(s)
    &&& category_total(s.category_counts) == s.total_keys
    &&& s.shortcut_counts.dom().finite()
    &&& map_total(s.shortcut_counts) == count_of(s.category_counts, "shortcut"@)
}

/// The first letter and the length of each category name, from which
/// the names are told apart.
proof fn lemma_category_literals()
    ensures
        "ordinary"@.len() == 8 && "ordinary"@[0] == 'o',
        "letter"@.len() == 6 && "letter"@[0] == 'l',
        "number"@.len() == 6 && "number"@[0] == 'n',
        "enter"@.len() == 5 && "enter"@[0] == 'e',
        "backspace"@.len() == 9,
        "tab"@.len() == 3,
        "escape"@.len() == 6 && "escape"@[0] == 'e',
        "arrow"@.len() == 5 && "arrow"@[0] == 'a',
        "function"@.len() == 8 && "function"@[0] == 'f',
        "modifier"@.len() == 8 && "modifier"@[0] == 'm',
        "shortcut"@.len() == 8 && "shortcut"@[0] == 's',
        "other"@.len() == 5 && "other"@[0] == 'o',
{
    reveal_strlit("ordinary");
    reveal_strlit("letter");
    reveal_strlit("number");
    reveal_strlit("enter");
    reveal_strlit("backspace");
    reveal_strlit("tab");
    reveal_strlit("escape");
    reveal_strlit("arrow");
    reveal_strlit("function");
    reveal_strlit("modifier");
    reveal_strlit("shortcut");
    reveal_strlit("other");
}

proof fn lemma_count_adder_commutative(m: Map<Seq<char>, u64>)
    ensures
        vstd::set::fold::is_fun_commutative(count_adder(m)),
{
    assert forall|a1: Seq<char>, a2: Seq<char>, b: int|
        #[trigger] count_adder(m)(count_adder(m)(b, a2), a1) == count_adder(m)(count_adder(m)(b, a1), a2) by {}
}

/// Sums over a set agree where the counts of its names agree.
proof fn lemma_names_sum_agree(s: Set<Seq<char>>, m1: Map<Seq<char>, u64>, m2: Map<Seq<char>, u64>)
    requires
        s.finite(),
        forall|k: Seq<char>| s.contains(k) ==> count_of(m1, k) == count_of(m2, k),
    ensures
        names_sum(s, m1) == names_sum(s, m2),
    decreases s.len(),
{
    lemma_count_adder_commutative(m1);
    lemma_count_adder_commutative(m2);
    if s.len() == 0 {
        assert(s =~= Set::empty());
        vstd::set::fold::lemma_fold_empty(0int, count_adder(m1));
        vstd::set::fold::lemma_fold_empty(0int, count_adder(m2));
    } else {
        let a = s.choose();
        let s0 = s.remove(a);
        assert(s =~= s0.insert(a));
        lemma_names_sum_agree(s0, m1, m2);
        vstd::set::fold::lemma_fold_insert(s0, 0int, count_adder(m1), a);
        vstd::set::fold::lemma_fold_insert(s0, 0int, count_adder(m2), a);
    }
}

/// Counting a name once more raises the sum of all counts by one.
proof fn lemma_map_total_bumped(m: Map<Seq<char>, u64>, k: Seq<char>)
    requires
        m.dom().finite(),
        count_of(m, k) < u64::MAX,
    ensures
        bumped(m, k).dom().finite(),
        map_total(bumped(m, k)) == map_total(m) + 1,
{
    let b = bumped(m, k);
    lemma_count_adder_commutative(m);
    lemma_count_adder_commutative(b);
    if m.contains_key(k) {
        let s0 = m.dom().remove(k);
        assert(b.dom() =~= s0.insert(k));
        assert(m.dom() =~= s0.insert(k));
        lemma_names_sum_agree(s0, m, b);
        vstd::set::fold::lemma_fold_insert(s0, 0int, count_adder(m), k);
        vstd::set::fold::lemma_fold_insert(s0, 0int, count_adder(b), k);
    } else {
        assert(b.dom() =~= m.dom().insert(k));
        lemma_names_sum_agree(m.dom(), m, b);
        vstd::set::fold::lemma_fold_insert(m.dom(), 0int, count_adder(b), k);
    }
}

/// Counting "ordinary" or "shortcut" once more leaves the ten key
/// categories alone.
proof fn lemma_category_total_other(m: Map<Seq<char>, u64>, k: Seq<char>)
    requires
        k == "ordinary"@ || k == "shortcut"@,
    ensures
        category_total(bumped(m, k)) == category_total(m),
{
    lemma_category_literals();
}

/// Counting a key's category once more raises the ten key categories by one.
proof fn lemma_category_total_key(m: Map<Seq<char>, u64>, key: Seq<char>)
    requires
        count_of(m, key_category(key)) < u64::MAX,
    ensures
        category_total(bumped(m, key_category(key))) == category_total(m) + 1,
{
    let c = key_category(key);
    assert(c == "letter"@ || c == "number"@ || c == "enter"@ || c == "backspace"@ || c == "tab"@
        || c == "escape"@ || c == "arrow"@ || c == "function"@ || c == "modifier"@ || c == "other"@);
    lemma_category_total_name(m, c);
}

/// Counting one of the ten key categories once more raises them by one.
proof fn lemma_category_total_name(m: Map<Seq<char>, u64>, c: Seq<char>)
    requires
        c == "letter"@ || c == "number"@ || c == "enter"@ || c == "backspace"@ || c == "tab"@
            || c == "escape"@ || c == "arrow"@ || c == "function"@ || c == "modifier"@ || c == "other"@,
        count_of(m, c) < u64::MAX,
    ensures
        category_total(bumped(m, c)) == category_total(m) + 1,
{
    lemma_category_literals();
}

/// A fresh day's counters are complete.
pub proof fn lemma_fresh_counts_complete(date: Seq<char>, now: Seq<char>)
    ensures
        counts_complete(fresh_view(date, now)),
{
    lemma_fresh_counts_agree(date, now);
    lemma_category_is_default("KeyA"@);
    let s = fresh_view(date, now);
    assert(s.shortcut_counts.dom() =~= Set::<Seq<char>>::empty());
    vstd::set::fold::lemma_fold_empty(0int, count_adder(s.shortcut_counts));
}

/// A counted key press keeps every count complete: the ten key categories
/// still add up to the total, and the shortcuts to "shortcut".
pub proof fn lemma_press_keeps_counts_complete(v: RuntimeView, key: Seq<char>, now: u128, t: LocalTime)
    requires
        counts_complete(v.stats),
        t.hour < 24,
        t.minute < 60,
        press_fits(v, key, t),
    ensures
        counts_complete(key_pressed(v, key, now, t).stats),
{
    let r = rolled_over(v, t.date@, t.timestamp@);
    if v.stats.date != t.date@ {
        lemma_fresh_counts_complete(t.date@, t.timestamp@);
    }
    assert(counts_complete(r.stats));
    lemma_press_keeps_counts_agree(v, key, now, t);
    lemma_category_literals();
    lemma_category_is_default(key);
    lemma_category_not_ordinary(key);
    let s = r.stats;
    let m = modifiers_after(r.modifiers, key, true);
    let first = bumped(s.category_counts, "ordinary"@);
    let cat = key_category(key);
    let categories = bumped(first, cat);
    lemma_category_total_other(s.category_counts, "ordinary"@);
    lemma_category_total_key(first, key);
    assert(count_of(categories, "shortcut"@) == count_of(s.category_counts, "shortcut"@));
    match shortcut_text(m, key) {
        Some(label) => {
            lemma_map_total_bumped(s.shortcut_counts, label);
            lemma_category_total_other(categories, "shortcut"@);
        },
        None => {},
    }
}

/// A press counted at whatever time the clock gave keeps every count
/// complete.
pub proof fn lemma_counted_press_keeps_counts_complete(
    v: RuntimeView,
    key: Seq<char>,
    post: RuntimeView,
    saved: bool,
)
    requires
        counts_complete(v.stats),
        pressed_at_some_time(v, key, post, saved),
    ensures
        counts_complete(post.stats),
{
    let (now, t) = choose|now: u128, t: LocalTime|
        t.hour < 24 && t.minute < 60 && press_fits(v, key, t) && post == key_pressed(v, key, now, t)
            && saved == press_saves(v, now);
    lemma_press_keeps_counts_complete(v, key, now, t);
}


/// Two lists in date order that hold, for every date, the same days in
/// the same order are equal.
proof fn lemma_same_days_in_date_order(a: Seq<HeatmapView>, b: Seq<HeatmapView>)
    requires
        sorted_by_date(a),
        sorted_by_date(b),
        forall|d: Seq<char>| #[trigger] on_date(a, d) == on_date(b, d),
    ensures
        a == b,
    decreases a.len() + b.len(),
{
    if a.len() == 0 && b.len() == 0 {
        assert(a =~= b);
    } else if a.len() == 0 {
        let db = b.last().date;
        assert(on_date(b, db).len() > 0);
        assert(on_date(a, db).len() == 0);
    } else if b.len() == 0 {
        let da = a.last().date;
        assert(on_date(a, da).len() > 0);
        assert(on_date(b, da).len() == 0);
    } else {
        let da = a.last().date;
        let db = b.last().date;
        assert(on_date(a, da).len() > 0);
        assert(on_date(b, db).len() > 0);
        lemma_on_date_found(b, da);
        lemma_on_date_found(a, db);
        let kb = choose|k: int| 0 <= k < b.len() && #[trigger] b[k].date == da;
        let ka = choose|k: int| 0 <= k < a.len() && #[trigger] a[k].date == db;
        if kb < b.len() - 1 {
            assert(text_le(b[kb].date, b[b.len() - 1].date));
        }
        if ka < a.len() - 1 {
            assert(text_le(a[ka].date, a[a.len() - 1].date));
        }
        assert(text_le(da, db));
        assert(text_le(db, da));
        if da != db {
            lemma_text_lt_asymmetric(da, db);
        }
        assert(a.last() == on_date(a, da).last());
        assert(b.last() == on_date(b, da).last());
        assert forall|d: Seq<char>| #[trigger] on_date(a.drop_last(), d) == on_date(b.drop_last(), d) by {
            if d == da {
                assert(on_date(a, d).drop_last() =~= on_date(a.drop_last(), d));
                assert(on_date(b, d).drop_last() =~= on_date(b.drop_last(), d));
            }
            assert(on_date(a, d) == on_date(b, d));
        }
        assert forall|i: int, j: int| 0 <= i < j < a.drop_last().len() implies text_le(
            #[trigger] a.drop_last()[i].date,
            #[trigger] a.drop_last()[j].date,
        ) by {
            assert(text_le(a[i].date, a[j].date));
        }
        assert forall|i: int, j: int| 0 <= i < j < b.drop_last().len() implies text_le(
            #[trigger] b.drop_last()[i].date,
            #[trigger] b.drop_last()[j].date,
        ) by {
            assert(text_le(b[i].date, b[j].date));
        }
        lemma_same_days_in_date_order(a.drop_last(), b.drop_last());
        assert(a =~= a.drop_last().push(a.last()));
        assert(b =~= b.drop_last().push(b.last()));
    }
}

/// The heat-map days are determined by the kept days and today: any two
/// lists that are both their day list are equal, so a snapshot holds the
/// very days that a separate reading of the day list gives.
pub proof fn lemma_day_list_unique(
    history: Seq<(Seq<char>, StatsView)>,
    today: StatsView,
    days1: Seq<HeatmapView>,
    days2: Seq<HeatmapView>,
)
    requires
        is_day_list(history, today, days1),
        is_day_list(history, today, days2),
    ensures
        days1 == days2,
{
    lemma_same_days_in_date_order(days1, days2);
}


/// Where and when a counted press was counted: `now` is the instant it is
/// recorded at, in milliseconds since the Unix epoch (the last of the
/// recent presses), `secs` that instant's whole second (some second before
/// the epoch where `now` is zero), and `off` the offset from UTC that the
/// day's update time shows; the hour and the half hour of the local time of
/// day `(secs + off) mod 86400` are the chart slots raised by one, and the
/// local day of that instant, `y`-`m`-`d`, is the day's date.
pub open spec fn counted_at_instant(
    v: RuntimeView,
    post: RuntimeView,
    now: u128,
    secs: int,
    off: int,
    y: int,
    m: int,
    d: int,
) -> bool {
    let r = rolled_over(v, post.stats.date, post.stats.updated_at);
    let tod = (secs + off) % 86400;
    let h = tod / 3600;
    let hh = tod / 1800;
    let half = padded_half_hours(r.stats.half_hourly_counts);
    let at = post.stats.updated_at;
    let date = post.stats.date;
    &&& post.recent_events.len() > 0
    &&& post.recent_events.last() == now
    &&& if secs >= 0 {
        secs == now / 1000
    } else {
        now == 0
    }
    &&& -86400 < off < 86400
    &&& at.len() >= 6
    &&& at.subrange(at.len() - 6, at.len() as int) == offset_text(off)
    &&& post.stats.hourly_counts == r.stats.hourly_counts.update(h, (r.stats.hourly_counts[h] + 1) as u64)
    &&& post.stats.half_hourly_counts == half.update(hh, (half[hh] + 1) as u64)
    &&& 1 <= m <= 12
    &&& 1 <= d <= days_in_month(y, m)
    &&& day_number(y, m, d) == (secs + off) / 86400
    &&& date.len() >= 5
    &&& date.subrange(date.len() - 5, date.len() as int) == two_digits(m as u32) + seq!['-']
        + two_digits(d as u32)
}

/// The press just made stays the last of the recent presses.
proof fn lemma_last_press_kept(events: Seq<u128>, now: u128)
    ensures
        drop_stale(events.push(now), now).len() > 0,
        drop_stale(events.push(now), now).last() == now,
{
    let all = events.push(now);
    let k = lemma_drop_stale_shape(all, now);
    assert(!older_than_minute(now, all[all.len() - 1]));
}

/// The hour and half hour of a local time of day given in seconds.
proof fn lemma_time_of_day(h: u32, mi: u32, sec: u32, tod: int)
    requires
        h < 24,
        mi < 60,
        sec < 60,
        tod == h * 3600 + mi * 60 + sec,
    ensures
        tod / 3600 == h,
        tod / 1800 == crate::runtime::half_hour_index(h, mi),
{
}

/// The last characters of `a + b` are `b`.
proof fn lemma_suffix(a: Seq<char>, b: Seq<char>)
    ensures
        (a + b).subrange((a + b).len() - b.len(), (a + b).len() as int) == b,
{
    assert((a + b).subrange((a + b).len() - b.len(), (a + b).len() as int) =~= b);
}

/// What a press at reading `t` does to the date, the update time, the
/// recent presses and the charts.
proof fn lemma_press_shape(v: RuntimeView, key: Seq<char>, now: u128, t: LocalTime)
    ensures
        ({
            let post = key_pressed(v, key, now, t);
            let r = rolled_over(v, t.date@, t.timestamp@);
            let half = padded_half_hours(r.stats.half_hourly_counts);
            let hh = crate::runtime::half_hour_index(t.hour, t.minute);
            &&& post.stats.date == t.date@
            &&& post.stats.updated_at == t.timestamp@
            &&& post.recent_events == drop_stale(r.recent_events.push(now), now)
            &&& post.stats.hourly_counts == r.stats.hourly_counts.update(
                t.hour as int,
                (r.stats.hourly_counts[t.hour as int] + 1) as u64,
            )
            &&& post.stats.half_hourly_counts == half.update(hh, (half[hh] + 1) as u64)
        }),
{
}

/// A press at reading `t` of the instant `secs` is counted at that instant.
proof fn lemma_instant_parts(
    v: RuntimeView,
    post: RuntimeView,
    now: u128,
    t: LocalTime,
    secs: int,
    off: int,
    y: int,
    m: int,
    d: int,
    yt: Seq<char>,
    sec: u32,
    frac: Seq<char>,
)
    requires
        local_time_ok(t),
        local_parts(t, secs, off, y, m, d, yt, sec, frac),
        if secs >= 0 {
            secs == now / 1000
        } else {
            now == 0
        },
        ({
            let r = rolled_over(v, t.date@, t.timestamp@);
            let half = padded_half_hours(r.stats.half_hourly_counts);
            let hh = crate::runtime::half_hour_index(t.hour, t.minute);
            &&& post.stats.date == t.date@
            &&& post.stats.updated_at == t.timestamp@
            &&& post.recent_events == drop_stale(r.recent_events.push(now), now)
            &&& post.stats.hourly_counts == r.stats.hourly_counts.update(
                t.hour as int,
                (r.stats.hourly_counts[t.hour as int] + 1) as u64,
            )
            &&& post.stats.half_hourly_counts == half.update(hh, (half[hh] + 1) as u64)
        }),
    ensures
        counted_at_instant(v, post, now, secs, off, y, m, d),
{
    let r = rolled_over(v, t.date@, t.timestamp@);
    lemma_last_press_kept(r.recent_events, now);
    lemma_time_of_day(t.hour, t.minute, sec, (secs + off) % 86400);
    let head = t.date@ + seq!['T'] + two_digits(t.hour) + seq![':'] + two_digits(t.minute) + seq![':']
        + two_digits(sec) + frac;
    lemma_suffix(head, offset_text(off));
    lemma_suffix(yt + seq!['-'], two_digits(m as u32) + seq!['-'] + two_digits(d as u32));
    assert(t.date@ == (yt + seq!['-']) + (two_digits(m as u32) + seq!['-'] + two_digits(d as u32)));
}

/// A counted press is counted at the local reading of the instant it is
/// recorded at: the hour and half hour raised, and the day counted under,
/// are those of that instant at the offset from UTC the update time shows.
pub proof fn lemma_counted_press_at_its_instant(
    v: RuntimeView,
    key: Seq<char>,
    post: RuntimeView,
    saved: bool,
)
    requires
        pressed_at_some_time(v, key, post, saved),
    ensures
        exists|now: u128, secs: int, off: int, y: int, m: int, d: int|
            #[trigger] counted_at_instant(v, post, now, secs, off, y, m, d),
{
    let (now, t) = choose|now: u128, t: LocalTime|
        local_time_ok(t) && clock_read(t, now) && press_fits(v, key, t) && post == key_pressed(
            v,
            key,
            now,
            t,
        ) && saved == press_saves(v, now);
    let secs = choose|secs: int|
        #[trigger] reading_of_instant(t, secs) && if secs >= 0 {
            secs == now / 1000
        } else {
            now == 0
        };
    let (off, y, m, d, yt, sec, frac) = choose|
        off: int,
        y: int,
        m: int,
        d: int,
        yt: Seq<char>,
        sec: u32,
        frac: Seq<char>,
    | #[trigger] local_parts(t, secs, off, y, m, d, yt, sec, frac);
    lemma_press_shape(v, key, now, t);
    lemma_instant_parts(v, post, now, t, secs, off, y, m, d, yt, sec, frac);
}

} // verus!
