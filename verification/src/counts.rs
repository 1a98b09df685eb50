//! Named counters: the default categories, counting one more, and the
//! ranking of the counters that the dashboard lists.
use vstd::prelude::*;

use crate::map::{CountMap, StringMap, distinct_keys, keep_or_insert, lemma_pairs_to_map_index};
use crate::text::{compare_text, text_lt, TextOrder, lemma_text_lt_asymmetric, lemma_text_lt_transitive};

verus! {

/// The categories that every day's statistics start with, each at zero.
pub open spec fn default_category_names() -> Seq<Seq<char>> {
    seq![
        "ordinary"@,
        "letter"@,
        "number"@,
        "enter"@,
        "backspace"@,
        "tab"@,
        "escape"@,
        "arrow"@,
        "function"@,
        "modifier"@,
        "shortcut"@,
        "other"@,
    ]
}

/// The default categories, each counted zero times.
pub open spec fn default_category_map() -> Map<Seq<char>, u64> {
    Map::new(|k: Seq<char>| default_category_names().contains(k), |k: Seq<char>| 0u64)
}

pub fn default_category_counts() -> (m: CountMap)
    ensures
        m.wf(),
        m.map() == default_category_map(),
{
    let mut m: CountMap = StringMap::new();
    add_default_categories(&mut m);
    assert(m.map() =~= default_category_map());
    m
}

/// The categories with every default category added at zero where missing.
pub open spec fn with_default_categories(m: Map<Seq<char>, u64>) -> Map<Seq<char>, u64> {
    Map::new(
        |k: Seq<char>| m.contains_key(k) || default_category_names().contains(k),
        |k: Seq<char>|
            if m.contains_key(k) {
                m[k]
            } else {
                0u64
            },
    )
}

/// `m` with each of `names` added at zero where missing, in order.
pub open spec fn add_zeros(m: Map<Seq<char>, u64>, names: Seq<Seq<char>>) -> Map<Seq<char>, u64>
    decreases names.len(),
{
    if names.len() == 0 {
        m
    } else {
        keep_or_insert(add_zeros(m, names.drop_last()), names.last(), 0u64)
    }
}

proof fn lemma_add_zeros(m: Map<Seq<char>, u64>, names: Seq<Seq<char>>)
    ensures
        add_zeros(m, names) == Map::new(
            |k: Seq<char>| m.contains_key(k) || names.contains(k),
            |k: Seq<char>|
                if m.contains_key(k) {
                    m[k]
                } else {
                    0u64
                },
        ),
    decreases names.len(),
{
    let target = Map::new(
        |k: Seq<char>| m.contains_key(k) || names.contains(k),
        |k: Seq<char>|
            if m.contains_key(k) {
                m[k]
            } else {
                0u64
            },
    );
    if names.len() == 0 {
        assert(add_zeros(m, names) =~= target);
    } else {
        let init = names.drop_last();
        lemma_add_zeros(m, init);
        assert forall|k: Seq<char>| names.contains(k) <==> (init.contains(k) || k == names.last()) by {
            if names.contains(k) {
                let i = choose|i: int| 0 <= i < names.len() && names[i] == k;
                if i < names.len() - 1 {
                    assert(init[i] == k);
                }
            }
            if init.contains(k) {
                let i = choose|i: int| 0 <= i < init.len() && init[i] == k;
                assert(names[i] == k);
            }
            if k == names.last() {
                assert(names[names.len() - 1] == k);
            }
        }
        assert(add_zeros(m, names) =~= target);
    }
}

/// Adds each default category that is missing, at zero.
pub fn add_default_categories(m: &mut CountMap)
    requires
        old(m).wf(),
    ensures
        final(m).wf(),
        final(m).map() == with_default_categories(old(m).map()),
{
    let ghost m0 = m.map();
    let names: [&str; 12] = [
        "ordinary",
        "letter",
        "number",
        "enter",
        "backspace",
        "tab",
        "escape",
        "arrow",
        "function",
        "modifier",
        "shortcut",
        "other",
    ];
    let ghost views = names@.map_values(|s: &str| s@);
    assert(views =~= default_category_names());
    let mut i: usize = 0;
    while i < 12
        invariant
            i <= 12,
            names@.len() == 12,
            views == names@.map_values(|s: &str| s@),
            m.wf(),
            m.map() == add_zeros(m0, views.take(i as int)),
        decreases 12 - i,
    {
        m.insert_if_absent(names[i], 0);
        assert(views.take(i + 1).drop_last() =~= views.take(i as int));
        i = i + 1;
    }
    assert(views.take(12) =~= views);
    proof {
        lemma_add_zeros(m0, views);
    }
    assert(m.map() =~= with_default_categories(m0));
}

/// How often `k` was counted: zero where it is not in the map.
pub open spec fn count_of(m: Map<Seq<char>, u64>, k: Seq<char>) -> int {
    if m.contains_key(k) {
        m[k] as int
    } else {
        0
    }
}

/// The counters after counting `k` once more.
pub open spec fn bumped(m: Map<Seq<char>, u64>, k: Seq<char>) -> Map<Seq<char>, u64> {
    m.insert(k, (count_of(m, k) + 1) as u64)
}

/// Counts `key` once more, starting from zero where it is new.
pub fn bump(map: &mut CountMap, key: &str)
    requires
        old(map).wf(),
        count_of(old(map).map(), key@) < u64::MAX,
    ensures
        final(map).wf(),
        final(map).map() == bumped(old(map).map(), key@),
{
    let current: u64 = match map.get(key) {
        Some(v) => *v,
        None => 0,
    };
    map.set(key.to_string(), current + 1);
}

/// The views of a list of named counts.
pub open spec fn count_views(v: Seq<(String, u64)>) -> Seq<(Seq<char>, u64)> {
    v.map_values(|e: (String, u64)| (e.0@, e.1))
}

/// `a` is listed before `b`: a higher count first, then by name.
pub open spec fn ranks_before(a: (Seq<char>, u64), b: (Seq<char>, u64)) -> bool {
    a.1 > b.1 || (a.1 == b.1 && text_lt(a.0, b.0))
}

/// Each entry is listed before every later one.
pub open spec fn strictly_ranked(s: Seq<(Seq<char>, u64)>) -> bool {
    forall|i: int, j: int| 0 <= i < j < s.len() ==> ranks_before(#[trigger] s[i], #[trigger] s[j])
}

/// `l` lists exactly the counters of `m` that are above zero, in rank order.
pub open spec fn is_ranking(m: Map<Seq<char>, u64>, l: Seq<(Seq<char>, u64)>) -> bool {
    &&& strictly_ranked(l)
    &&& forall|e: (Seq<char>, u64)|
        #![trigger l.contains(e)]
        l.contains(e) <==> (m.contains_key(e.0) && m[e.0] == e.1 && e.1 > 0)
}

/// The first `limit` counters of `m` in rank order.
pub open spec fn top_counts(m: Map<Seq<char>, u64>, limit: nat, r: Seq<(Seq<char>, u64)>) -> bool {
    exists|l: Seq<(Seq<char>, u64)>|
        is_ranking(m, l) && r == l.take(if limit < l.len() { limit as int } else { l.len() as int })
}

pub proof fn lemma_ranks_before_transitive(
    a: (Seq<char>, u64),
    b: (Seq<char>, u64),
    c: (Seq<char>, u64),
)
    requires
        ranks_before(a, b),
        ranks_before(b, c),
    ensures
        ranks_before(a, c),
{
    if a.1 == b.1 && b.1 == c.1 {
        lemma_text_lt_transitive(a.0, b.0, c.0);
    }
}

pub proof fn lemma_ranks_before_asymmetric(a: (Seq<char>, u64), b: (Seq<char>, u64))
    requires
        ranks_before(a, b),
    ensures
        !ranks_before(b, a),
        a != b,
{
    if a.1 == b.1 {
        lemma_text_lt_asymmetric(a.0, b.0);
    }
}

/// Compares two named counts in rank order.
fn compare_rank(a: &(String, u64), b: &(String, u64)) -> (r: TextOrder)
    ensures
        r == TextOrder::Less <==> ranks_before((a.0@, a.1), (b.0@, b.1)),
        r == TextOrder::Greater <==> ranks_before((b.0@, b.1), (a.0@, a.1)),
        r == TextOrder::Same <==> (a.0@ == b.0@ && a.1 == b.1),
{
    if a.1 > b.1 {
        TextOrder::Less
    } else if a.1 < b.1 {
        TextOrder::Greater
    } else {
        compare_text(a.0.as_str(), b.0.as_str())
    }
}

/// The counters above zero, highest first and by name among equals, at most `limit` of them.
pub fn sorted_counts(map: &CountMap, limit: usize) -> (r: Vec<(String, u64)>)
    requires
        map.wf(),
    ensures
        top_counts(map.map(), limit as nat, count_views(r@)),
{
    let ghost p = map.pairs();
    let n = map.len();
    let mut sorted: Vec<(String, u64)> = Vec::new();
    let mut i: usize = 0;
    while i < n
        invariant
            n == p.len(),
            p == map.pairs(),
            distinct_keys(p),
            i <= n,
            strictly_ranked(count_views(sorted@)),
            forall|e: (Seq<char>, u64)|
                #![trigger count_views(sorted@).contains(e)]
                count_views(sorted@).contains(e) <==> (exists|j: int|
                    0 <= j < i && #[trigger] p[j] == e && e.1 > 0),
        decreases n - i,
    {
        let count = *map.value_at(i);
        if count > 0 {
            let item = (map.key_at(i).clone(), count);
            let ghost x = (item.0@, item.1);
            let ghost before = count_views(sorted@);
            let len = sorted.len();
            let mut pos: usize = 0;
            let mut placed = false;
            while !placed && pos < len
                invariant
                    len == sorted@.len(),
                    before == count_views(sorted@),
                    x == (item.0@, item.1),
                    pos <= len,
                    forall|j: int| 0 <= j < pos ==> ranks_before(#[trigger] before[j], x),
                    placed ==> pos < len && !ranks_before(before[pos as int], x),
                decreases len - pos, if placed { 0int } else { 1int },
            {
                if compare_rank(&sorted[pos], &item) == TextOrder::Less {
                    pos = pos + 1;
                } else {
                    placed = true;
                }
            }
            // every entry so far has a key other than `x`'s
            assert forall|j: int| 0 <= j < before.len() implies #[trigger] before[j].0 != x.0 by {
                assert(before.contains(before[j]));
                let k = choose|k: int| 0 <= k < i && #[trigger] p[k] == before[j] && before[j].1 > 0;
                assert(p[k].0 != p[i as int].0);
            }
            if pos < len {
                let c = compare_rank(&sorted[pos], &item);
                assert(c == TextOrder::Greater);
                assert(ranks_before(x, before[pos as int]));
            }
            assert forall|j: int| pos <= j < len implies ranks_before(x, #[trigger] before[j]) by {
                if j > pos {
                    assert(ranks_before(before[pos as int], before[j]));
                    lemma_ranks_before_transitive(x, before[pos as int], before[j]);
                }
            }
            sorted.insert(pos, item);
            let ghost after = count_views(sorted@);
            assert(after =~= before.insert(pos as int, x));
            assert forall|a: int, b: int| 0 <= a < b < after.len() implies ranks_before(
                #[trigger] after[a],
                #[trigger] after[b],
            ) by {
                if b < pos {
                } else if a < pos && b == pos {
                } else if a < pos {
                    assert(after[b] == before[b - 1]);
                } else if a == pos {
                    assert(after[b] == before[b - 1]);
                } else {
                    assert(after[a] == before[a - 1]);
                    assert(after[b] == before[b - 1]);
                }
            }
            assert forall|e: (Seq<char>, u64)| #[trigger] after.contains(e) <==> (exists|j: int|
                0 <= j < i + 1 && #[trigger] p[j] == e && e.1 > 0) by {
                if after.contains(e) {
                    let k = choose|k: int| 0 <= k < after.len() && after[k] == e;
                    if k < pos {
                        assert(before[k] == e);
                        assert(before.contains(e));
                    } else if k == pos {
                        assert(p[i as int] == e);
                    } else {
                        assert(before[k - 1] == e);
                        assert(before.contains(e));
                    }
                }
                if exists|j: int| 0 <= j < i + 1 && #[trigger] p[j] == e && e.1 > 0 {
                    let j = choose|j: int| 0 <= j < i + 1 && #[trigger] p[j] == e && e.1 > 0;
                    if j < i {
                        assert(before.contains(e));
                        let k = choose|k: int| 0 <= k < before.len() && before[k] == e;
                        if k < pos {
                            assert(after[k] == e);
                        } else {
                            assert(after[k + 1] == e);
                        }
                    } else {
                        assert(after[pos as int] == e);
                    }
                }
            }
        } else {
            let ghost before = count_views(sorted@);
            assert forall|e: (Seq<char>, u64)| #[trigger] before.contains(e) <==> (exists|j: int|
                0 <= j < i + 1 && #[trigger] p[j] == e && e.1 > 0) by {
                if exists|j: int| 0 <= j < i + 1 && #[trigger] p[j] == e && e.1 > 0 {
                    let j = choose|j: int| 0 <= j < i + 1 && #[trigger] p[j] == e && e.1 > 0;
                    if j == i {
                        assert(p[i as int].1 == count);
                    }
                }
            }
        }
        i = i + 1;
    }
    let ghost full = count_views(sorted@);
    assert forall|e: (Seq<char>, u64)| #[trigger] full.contains(e) <==> (map.map().contains_key(e.0)
        && map.map()[e.0] == e.1 && e.1 > 0) by {
        if full.contains(e) {
            let j = choose|j: int| 0 <= j < n && #[trigger] p[j] == e && e.1 > 0;
            lemma_pairs_to_map_index(p, j);
        }
        if map.map().contains_key(e.0) && map.map()[e.0] == e.1 && e.1 > 0 {
            let j = choose|j: int| 0 <= j < p.len() && #[trigger] p[j].0 == e.0;
            lemma_pairs_to_map_index(p, j);
            assert(p[j] == e);
        }
    }
    assert(is_ranking(map.map(), full));
    sorted.truncate(limit);
    assert(count_views(sorted@) =~= full.take(
        if (limit as nat) < full.len() { limit as int } else { full.len() as int },
    ));
    sorted
}

} // verus!
