//! One day's keyboard statistics: how they start, and how statistics read
//! back from storage are brought to the current shape.
use vstd::prelude::*;

use crate::clock::{date_text, now_string, timestamp_text, today_string};
use crate::counts::{add_default_categories, default_category_counts, default_category_map, with_default_categories};
use crate::map::{Duplicate, StringMap};
use crate::map::CountMap;

verus! {

/// The counters of one day.
pub struct KeyStats {
    pub date: String,
    pub started_at: String,
    pub updated_at: String,
    pub total_keys: u64,
    pub current_minute_keys: u64,
    pub peak_per_minute: u64,
    pub category_counts: CountMap,
    pub shortcut_counts: CountMap,
    /// Presses per hour of the day.
    pub hourly_counts: [u64; 24],
    /// Presses per half hour of the day; 48 entries once normalized.
    pub half_hourly_counts: Vec<u64>,
}

/// What a day's statistics hold, as mathematical values.
pub struct StatsView {
    pub date: Seq<char>,
    pub started_at: Seq<char>,
    pub updated_at: Seq<char>,
    pub total_keys: u64,
    pub current_minute_keys: u64,
    pub peak_per_minute: u64,
    pub category_counts: Map<Seq<char>, u64>,
    pub shortcut_counts: Map<Seq<char>, u64>,
    pub hourly_counts: Seq<u64>,
    pub half_hourly_counts: Seq<u64>,
}

impl View for KeyStats {
    type V = StatsView;

    open spec fn view(&self) -> StatsView {
        StatsView {
            date: self.date@,
            started_at: self.started_at@,
            updated_at: self.updated_at@,
            total_keys: self.total_keys,
            current_minute_keys: self.current_minute_keys,
            peak_per_minute: self.peak_per_minute,
            category_counts: self.category_counts.map(),
            shortcut_counts: self.shortcut_counts.map(),
            hourly_counts: self.hourly_counts@,
            half_hourly_counts: self.half_hourly_counts@,
        }
    }
}

impl KeyStats {
    pub open spec fn wf(&self) -> bool {
        self.category_counts.wf() && self.shortcut_counts.wf()
    }
}

impl Duplicate for KeyStats {
    fn duplicate(&self) -> (r: KeyStats)
        ensures
            self.wf() ==> r.wf(),
    {
        KeyStats {
            date: self.date.clone(),
            started_at: self.started_at.clone(),
            updated_at: self.updated_at.clone(),
            total_keys: self.total_keys,
            current_minute_keys: self.current_minute_keys,
            peak_per_minute: self.peak_per_minute,
            category_counts: self.category_counts.duplicate(),
            shortcut_counts: self.shortcut_counts.duplicate(),
            hourly_counts: self.hourly_counts,
            half_hourly_counts: self.half_hourly_counts.clone(),
        }
    }
}

/// `n` zeros.
pub open spec fn zeros(n: nat) -> Seq<u64> {
    Seq::new(n, |i: int| 0u64)
}

pub fn default_hourly_counts() -> (r: [u64; 24])
    ensures
        r@ == zeros(24),
{
    let r = [0u64; 24];
    assert(r@ =~= zeros(24));
    r
}

pub fn default_half_hourly_counts() -> (r: Vec<u64>)
    ensures
        r@ == zeros(48),
{
    let r = vec![0u64; 48];
    assert(r@ =~= zeros(48));
    r
}

/// A day that starts at `now` on `date`, with nothing counted yet.
pub open spec fn fresh_view(date: Seq<char>, now: Seq<char>) -> StatsView {
    StatsView {
        date,
        started_at: now,
        updated_at: now,
        total_keys: 0,
        current_minute_keys: 0,
        peak_per_minute: 0,
        category_counts: default_category_map(),
        shortcut_counts: Map::empty(),
        hourly_counts: zeros(24),
        half_hourly_counts: zeros(48),
    }
}

/// The statistics of a day that starts at `now` on `date`.
pub fn new_stats(date: String, now: String) -> (s: KeyStats)
    ensures
        s.wf(),
        s@ == fresh_view(date@, now@),
{
    let started_at = now.clone();
    KeyStats {
        date,
        started_at,
        updated_at: now,
        total_keys: 0,
        current_minute_keys: 0,
        peak_per_minute: 0,
        category_counts: default_category_counts(),
        shortcut_counts: StringMap::new(),
        hourly_counts: default_hourly_counts(),
        half_hourly_counts: default_half_hourly_counts(),
    }
}

/// The statistics of a day starting now, dated today; `None` where the
/// local clock cannot be read.
pub fn fresh_stats() -> (r: Option<KeyStats>)
    ensures
        r matches Some(s) ==> s.wf() && s@ == fresh_view(s.date@, s.started_at@) && date_text(
            s.date@,
        ) && timestamp_text(s.started_at@),
{
    match now_string() {
        None => None,
        Some(now) => match today_string() {
            None => None,
            Some(today) => Some(new_stats(today, now)),
        },
    }
}

/// The sum of the counts.
pub open spec fn seq_sum(s: Seq<u64>) -> int
    decreases s.len(),
{
    if s.len() == 0 {
        0
    } else {
        seq_sum(s.drop_last()) + s.last()
    }
}

/// Some count is above zero.
pub open spec fn any_positive(s: Seq<u64>) -> bool {
    exists|i: int| 0 <= i < s.len() && #[trigger] s[i] > 0
}

pub proof fn lemma_sum_positive(s: Seq<u64>)
    ensures
        seq_sum(s) >= 0,
        seq_sum(s) > 0 <==> any_positive(s),
    decreases s.len(),
{
    if s.len() > 0 {
        lemma_sum_positive(s.drop_last());
        if any_positive(s.drop_last()) {
            let i = choose|i: int| 0 <= i < s.drop_last().len() && #[trigger] s.drop_last()[i] > 0;
            assert(s[i] > 0);
        }
        if any_positive(s) {
            let i = choose|i: int| 0 <= i < s.len() && #[trigger] s[i] > 0;
            if i < s.len() - 1 {
                assert(s.drop_last()[i] > 0);
            }
        }
    }
}

/// The half-hour counts cut or padded with zeros to 48 entries.
pub open spec fn padded_half_hours(h: Seq<u64>) -> Seq<u64> {
    if h.len() >= 48 {
        h.take(48)
    } else {
        h + zeros((48 - h.len()) as nat)
    }
}

/// Half-hour counts made from hour counts: each hour's count split in
/// two, the first half hour taking the larger part.
pub open spec fn split_hours(hourly: Seq<u64>) -> Seq<u64> {
    Seq::new(
        48,
        |i: int|
            if i % 2 == 0 {
                (hourly[i / 2] - hourly[i / 2] / 2) as u64
            } else {
                hourly[i / 2] / 2
            },
    )
}

/// The half-hour counts after normalizing: padded to 48 entries, and made
/// from the hour counts where those count something and they count nothing.
pub open spec fn normalized_half_hours(hourly: Seq<u64>, half: Seq<u64>) -> Seq<u64> {
    let padded = padded_half_hours(half);
    if seq_sum(hourly) > 0 && seq_sum(padded) == 0 {
        split_hours(hourly)
    } else {
        padded
    }
}

/// Statistics brought to the current shape.
pub open spec fn normalized(s: StatsView) -> StatsView {
    StatsView {
        category_counts: with_default_categories(s.category_counts),
        half_hourly_counts: normalized_half_hours(s.hourly_counts, s.half_hourly_counts),
        ..s
    }
}

fn has_positive(s: &[u64]) -> (r: bool)
    ensures
        r == any_positive(s@),
{
    let n = s.len();
    let mut i: usize = 0;
    while i < n
        invariant
            n == s@.len(),
            i <= n,
            forall|j: int| 0 <= j < i ==> s@[j] == 0,
        decreases n - i,
    {
        if s[i] > 0 {
            return true;
        }
        i = i + 1;
    }
    false
}

/// Pads or cuts the half-hour counts to 48 and fills them from the hour
/// counts where those count something and they count nothing.
fn normalize_half_hours(hourly: &[u64; 24], half: &mut Vec<u64>)
    ensures
        final(half)@ == normalized_half_hours(hourly@, old(half)@),
{
    let ghost before = half@;
    half.resize(48, 0);
    half.truncate(48);
    let ghost padded = half@;
    assert(padded =~= padded_half_hours(before));
    proof {
        lemma_sum_positive(hourly@);
        lemma_sum_positive(padded);
    }
    if has_positive(hourly.as_slice()) && !has_positive(half.as_slice()) {
        let mut hour: usize = 0;
        while hour < 24
            invariant
                hour <= 24,
                half@.len() == 48,
                forall|i: int|
                    0 <= i < 2 * hour ==> half@[i] == #[trigger] split_hours(hourly@)[i],
            decreases 24 - hour,
        {
            let count = hourly[hour];
            half.set(hour * 2, count - count / 2);
            half.set(hour * 2 + 1, count / 2);
            hour = hour + 1;
        }
        assert(half@ =~= split_hours(hourly@));
    }
}

/// Adds the default categories that are missing, pads or cuts the
/// half-hour counts to 48, and fills them from the hour counts where
/// statistics kept before half hours were counted have none.
pub fn normalize_stats(stats: &mut KeyStats)
    requires
        old(stats).wf(),
    ensures
        final(stats).wf(),
        final(stats)@ == normalized(old(stats)@),
{
    add_default_categories(&mut stats.category_counts);
    normalize_half_hours(&stats.hourly_counts, &mut stats.half_hourly_counts);
}

} // verus!
