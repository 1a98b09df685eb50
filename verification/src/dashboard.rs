//! What the dashboard is shown: the days for the heat map in date order,
//! the most used shortcuts and categories, and the hint on permissions.
use vstd::prelude::*;
use vstd::seq_lib::{group_to_multiset_ensures, to_multiset_insert};

use crate::counts::{count_views, sorted_counts, top_counts};
use crate::map::{Duplicate, pairs_with};
use crate::runtime::RuntimeState;
use crate::stats::{KeyStats, StatsView};
use crate::text::{
    TextOrder, compare_text, lemma_text_le_transitive, lemma_text_lt_asymmetric, lemma_text_lt_transitive,
    text_le, text_lt,
};

verus! {

/// One day on the heat map.
pub struct HeatmapDay {
    pub date: String,
    pub total_keys: u64,
    pub hourly_counts: [u64; 24],
    pub half_hourly_counts: Vec<u64>,
}

/// What a heat-map day holds, as mathematical values.
pub struct HeatmapView {
    pub date: Seq<char>,
    pub total_keys: u64,
    pub hourly_counts: Seq<u64>,
    pub half_hourly_counts: Seq<u64>,
}

impl View for HeatmapDay {
    type V = HeatmapView;

    open spec fn view(&self) -> HeatmapView {
        HeatmapView {
            date: self.date@,
            total_keys: self.total_keys,
            hourly_counts: self.hourly_counts@,
            half_hourly_counts: self.half_hourly_counts@,
        }
    }
}

/// The heat-map day of a day's statistics.
pub open spec fn heatmap_of(s: StatsView) -> HeatmapView {
    HeatmapView {
        date: s.date,
        total_keys: s.total_keys,
        hourly_counts: s.hourly_counts,
        half_hourly_counts: s.half_hourly_counts,
    }
}

/// The heat-map days of kept days.
pub open spec fn days_of(p: Seq<(Seq<char>, StatsView)>) -> Seq<HeatmapView> {
    p.map_values(|e: (Seq<char>, StatsView)| heatmap_of(e.1))
}

/// The views of a list of heat-map days.
pub open spec fn day_views(v: Seq<HeatmapDay>) -> Seq<HeatmapView> {
    v.map_values(|d: HeatmapDay| d@)
}

/// Each day's date comes before or equals the dates of the later ones.
pub open spec fn sorted_by_date(d: Seq<HeatmapView>) -> bool {
    forall|i: int, j: int| 0 <= i < j < d.len() ==> text_le(#[trigger] d[i].date, #[trigger] d[j].date)
}

/// The days of `s` dated `d`, in the order they have in `s`.
pub open spec fn on_date(s: Seq<HeatmapView>, d: Seq<char>) -> Seq<HeatmapView>
    decreases s.len(),
{
    if s.len() == 0 {
        s
    } else if s.last().date == d {
        on_date(s.drop_last(), d).push(s.last())
    } else {
        on_date(s.drop_last(), d)
    }
}

/// `days` are the heat-map days of the kept days with today recorded,
/// each once, in date order; days that share a date keep the order in
/// which the kept days hold them.
pub open spec fn is_day_list(
    history: Seq<(Seq<char>, StatsView)>,
    today: StatsView,
    days: Seq<HeatmapView>,
) -> bool {
    let kept = days_of(pairs_with(history, today.date, today));
    &&& sorted_by_date(days)
    &&& days.to_multiset() == kept.to_multiset()
    &&& forall|d: Seq<char>| #[trigger] on_date(days, d) == on_date(kept, d)
}

pub proof fn lemma_on_date_add(a: Seq<HeatmapView>, b: Seq<HeatmapView>, d: Seq<char>)
    ensures
        on_date(a + b, d) == on_date(a, d) + on_date(b, d),
    decreases b.len(),
{
    if b.len() == 0 {
        assert(a + b =~= a);
        assert(on_date(a, d) + on_date(b, d) =~= on_date(a, d));
    } else {
        assert((a + b).drop_last() =~= a + b.drop_last());
        lemma_on_date_add(a, b.drop_last(), d);
        if b.last().date == d {
            assert(on_date(a, d) + on_date(b, d) =~= (on_date(a, d) + on_date(b.drop_last(), d)).push(b.last()));
        }
    }
}

pub proof fn lemma_on_date_none(s: Seq<HeatmapView>, d: Seq<char>)
    requires
        forall|k: int| 0 <= k < s.len() ==> #[trigger] s[k].date != d,
    ensures
        on_date(s, d) == Seq::<HeatmapView>::empty(),
    decreases s.len(),
{
    if s.len() > 0 {
        lemma_on_date_none(s.drop_last(), d);
    }
}

pub proof fn lemma_on_date_found(s: Seq<HeatmapView>, d: Seq<char>)
    requires
        on_date(s, d).len() > 0,
    ensures
        exists|k: int| 0 <= k < s.len() && #[trigger] s[k].date == d,
    decreases s.len(),
{
    if s.last().date == d {
        assert(s[s.len() - 1].date == d);
    } else {
        lemma_on_date_found(s.drop_last(), d);
        let k = choose|k: int| 0 <= k < s.drop_last().len() && #[trigger] s.drop_last()[k].date == d;
        assert(s[k].date == d);
    }
}

fn heatmap_day(s: &KeyStats) -> (d: HeatmapDay)
    ensures
        d@ == heatmap_of(s@),
{
    HeatmapDay {
        date: s.date.clone(),
        total_keys: s.total_keys,
        hourly_counts: s.hourly_counts,
        half_hourly_counts: s.half_hourly_counts.clone(),
    }
}

/// The kept days with today's statistics in place of any kept under
/// today's date, as heat-map days in date order.
pub fn history_days(runtime: &RuntimeState) -> (r: Vec<HeatmapDay>)
    requires
        runtime.wf(),
    ensures
        is_day_list(runtime.history.pairs(), runtime.stats@, day_views(r@)),
{
    broadcast use group_to_multiset_ensures;

    let mut by_date = runtime.history.duplicate();
    by_date.set(runtime.stats.date.clone(), runtime.stats.duplicate());
    let ghost src = by_date.pairs();
    assert(src == pairs_with(runtime.history.pairs(), runtime.stats@.date, runtime.stats@));
    let n = by_date.len();
    let mut days: Vec<HeatmapDay> = Vec::new();
    let mut i: usize = 0;
    assert(days_of(src.take(0)) =~= Seq::<HeatmapView>::empty());
    while i < n
        invariant
            n == src.len(),
            src == by_date.pairs(),
            i <= n,
            sorted_by_date(day_views(days@)),
            day_views(days@).to_multiset() == days_of(src.take(i as int)).to_multiset(),
            forall|d: Seq<char>|
                #[trigger] on_date(day_views(days@), d) == on_date(days_of(src.take(i as int)), d),
        decreases n - i,
    {
        let day = heatmap_day(by_date.value_at(i));
        let ghost x = day@;
        let ghost before = day_views(days@);
        let len = days.len();
        let mut pos: usize = 0;
        let mut placed = false;
        while !placed && pos < len
            invariant
                len == days@.len(),
                before == day_views(days@),
                x == day@,
                pos <= len,
                forall|j: int| 0 <= j < pos ==> text_le(#[trigger] before[j].date, x.date),
                placed ==> pos < len && text_lt(x.date, before[pos as int].date),
            decreases len - pos, if placed {
                0int
            } else {
                1int
            },
        {
            if compare_text(days[pos].date.as_str(), day.date.as_str()) == TextOrder::Greater {
                placed = true;
            } else {
                pos = pos + 1;
            }
        }
        assert forall|j: int| pos <= j < len implies text_le(x.date, #[trigger] before[j].date) by {
            if j > pos {
                assert(text_le(before[pos as int].date, before[j].date));
                lemma_text_le_transitive(x.date, before[pos as int].date, before[j].date);
            }
        }
        assert forall|j: int| pos <= j < len implies #[trigger] before[j].date != x.date by {
            if j > pos && before[pos as int].date != before[j].date {
                assert(text_le(before[pos as int].date, before[j].date));
                lemma_text_lt_transitive(x.date, before[pos as int].date, before[j].date);
            }
            lemma_text_lt_asymmetric(x.date, before[j].date);
        }
        days.insert(pos, day);
        let ghost after = day_views(days@);
        assert(after =~= before.insert(pos as int, x));
        assert forall|a: int, b: int| 0 <= a < b < after.len() implies text_le(
            #[trigger] after[a].date,
            #[trigger] after[b].date,
        ) by {
            if b < pos {
            } else if a < pos && b == pos {
            } else if a < pos {
                assert(after[b] == before[b - 1]);
                lemma_text_le_transitive(after[a].date, x.date, after[b].date);
            } else if a == pos {
                assert(after[b] == before[b - 1]);
            } else {
                assert(after[a] == before[a - 1]);
                assert(after[b] == before[b - 1]);
            }
        }
        proof {
            by_date.lemma_values();
            assert(x == heatmap_of(src[i as int].1));
            to_multiset_insert(before, pos as int, x);
            assert(after.to_multiset() == before.to_multiset().insert(x));
            assert(days_of(src.take(i + 1)) =~= days_of(src.take(i as int)).push(x));
            vstd::seq_lib::to_multiset_build(days_of(src.take(i as int)), x);
            let ghost kept = days_of(src.take(i as int));
            let ghost front = before.take(pos as int);
            let ghost back = before.skip(pos as int);
            assert(after =~= front + seq![x] + back);
            assert(before =~= front + back);
            assert(kept.push(x).drop_last() =~= kept);
            assert(seq![x].drop_last() =~= Seq::<HeatmapView>::empty());
            assert forall|d: Seq<char>| #[trigger] on_date(after, d) == on_date(kept.push(x), d) by {
                lemma_on_date_add(front + seq![x], back, d);
                lemma_on_date_add(front, seq![x], d);
                lemma_on_date_add(front, back, d);
                let e = Seq::<HeatmapView>::empty();
                assert(on_date(e, d) == e);
                if x.date == d {
                    assert forall|j: int| 0 <= j < back.len() implies #[trigger] back[j].date != d by {
                        assert(back[j] == before[pos + j]);
                    }
                    lemma_on_date_none(back, d);
                    assert(on_date(seq![x], d) =~= seq![x]);
                    assert(on_date(after, d) =~= on_date(before, d).push(x));
                } else {
                    assert(on_date(seq![x], d) =~= e);
                    assert(on_date(after, d) =~= on_date(before, d));
                }
            }
        }
        i = i + 1;
    }
    assert(src.take(n as int) =~= src);
    days
}

/// A shortcut and how often it was used.
pub struct ShortcutCount {
    pub shortcut: String,
    pub count: u64,
}

/// A category and how often it was counted.
pub struct CategoryCount {
    pub category: String,
    pub count: u64,
}

pub open spec fn shortcut_views(v: Seq<ShortcutCount>) -> Seq<(Seq<char>, u64)> {
    v.map_values(|c: ShortcutCount| (c.shortcut@, c.count))
}

pub open spec fn category_views(v: Seq<CategoryCount>) -> Seq<(Seq<char>, u64)> {
    v.map_values(|c: CategoryCount| (c.category@, c.count))
}

fn to_shortcut_counts(items: Vec<(String, u64)>) -> (r: Vec<ShortcutCount>)
    ensures
        shortcut_views(r@) == count_views(items@),
{
    let mut r: Vec<ShortcutCount> = Vec::new();
    let n = items.len();
    let mut i: usize = 0;
    while i < n
        invariant
            n == items@.len(),
            i <= n,
            r@.len() == i,
            shortcut_views(r@) == count_views(items@).take(i as int),
        decreases n - i,
    {
        let name = items[i].0.clone();
        r.push(ShortcutCount { shortcut: name, count: items[i].1 });
        assert(shortcut_views(r@) =~= count_views(items@).take(i + 1));
        i = i + 1;
    }
    assert(count_views(items@).take(n as int) =~= count_views(items@));
    r
}

fn to_category_counts(items: Vec<(String, u64)>) -> (r: Vec<CategoryCount>)
    ensures
        category_views(r@) == count_views(items@),
{
    let mut r: Vec<CategoryCount> = Vec::new();
    let n = items.len();
    let mut i: usize = 0;
    while i < n
        invariant
            n == items@.len(),
            i <= n,
            r@.len() == i,
            category_views(r@) == count_views(items@).take(i as int),
        decreases n - i,
    {
        let name = items[i].0.clone();
        r.push(CategoryCount { category: name, count: items[i].1 });
        assert(category_views(r@) =~= count_views(items@).take(i + 1));
        i = i + 1;
    }
    assert(count_views(items@).take(n as int) =~= count_views(items@));
    r
}

/// The system the app runs on, as far as the permission hint tells them apart.
#[derive(PartialEq, Eq, Structural, Clone, Copy, Debug)]
pub enum Platform {
    MacOs,
    Windows,
    Other,
}

/// The hint on the permissions that listening to the keyboard needs.
pub open spec fn hint_text(p: Platform) -> Seq<char> {
    match p {
        Platform::MacOs => "macOS 需要在 系统设置 > 隐私与安全性 > 输入监控 中允许 KeyPulse；授权后请重启应用，重新安装后可能需要关闭再打开一次授权。"@,
        Platform::Windows => "Windows 首次运行可能需要安全软件允许 KeyPulse 监听全局键盘事件。"@,
        Platform::Other => "当前平台可能需要额外的系统权限。"@,
    }
}

pub fn permission_hint(platform: Platform) -> (r: String)
    ensures
        r@ == hint_text(platform),
{
    match platform {
        Platform::MacOs => "macOS 需要在 系统设置 > 隐私与安全性 > 输入监控 中允许 KeyPulse；授权后请重启应用，重新安装后可能需要关闭再打开一次授权。".to_string(),
        Platform::Windows => "Windows 首次运行可能需要安全软件允许 KeyPulse 监听全局键盘事件。".to_string(),
        Platform::Other => "当前平台可能需要额外的系统权限。".to_string(),
    }
}

/// Everything the dashboard shows at one moment.
pub struct StatsSnapshot {
    pub listening: bool,
    pub input_monitoring_granted: bool,
    pub permission_hint: String,
    pub storage_path: String,
    pub stats: KeyStats,
    pub history_days: Vec<HeatmapDay>,
    pub top_shortcuts: Vec<ShortcutCount>,
    pub top_categories: Vec<CategoryCount>,
}

/// The dashboard's view of the running state: today's statistics, the
/// days in date order, the eight most used shortcuts and the twelve most
/// counted categories.
pub fn snapshot_from_runtime(
    runtime: &RuntimeState,
    running: bool,
    storage_path: &str,
    input_monitoring_granted: bool,
    platform: Platform,
) -> (s: StatsSnapshot)
    requires
        runtime.wf(),
    ensures
        s.listening == running,
        s.input_monitoring_granted == input_monitoring_granted,
        s.permission_hint@ == hint_text(platform),
        s.storage_path@ == storage_path@,
        s.stats@ == runtime.stats@,
        s.stats.wf(),
        is_day_list(runtime.history.pairs(), runtime.stats@, day_views(s.history_days@)),
        top_counts(runtime.stats.shortcut_counts.map(), 8, shortcut_views(s.top_shortcuts@)),
        top_counts(runtime.stats.category_counts.map(), 12, category_views(s.top_categories@)),
{
    StatsSnapshot {
        listening: running,
        input_monitoring_granted,
        permission_hint: permission_hint(platform),
        storage_path: storage_path.to_string(),
        stats: runtime.stats.duplicate(),
        history_days: history_days(runtime),
        top_shortcuts: to_shortcut_counts(sorted_counts(&runtime.stats.shortcut_counts, 8)),
        top_categories: to_category_counts(sorted_counts(&runtime.stats.category_counts, 12)),
    }
}

} // verus!
