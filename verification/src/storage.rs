//! Where the statistics are kept and what is made of statistics read back:
//! the file locations inside the data directory, and the checks and
//! normalizing that loaded statistics go through.
use vstd::prelude::*;

use crate::clock::{date_text, now_string, timestamp_text, today_string};
use crate::map::{Duplicate, StringMap};
use crate::runtime::History;
use crate::stats::{KeyStats, StatsView, fresh_view, new_stats, normalize_stats, normalized};
use crate::text::{has_prefix, text_eq};

verus! {

/// A relative file name made of one component: non-empty, with no path
/// separator and no drive colon.
pub open spec fn plain_file_name(f: Seq<char>) -> bool {
    f.len() > 0 && forall|i: int| 0 <= i < f.len() ==> #[trigger] f[i] != '/' && f[i] != '\\' && f[i]
        != ':'
}

/// A Windows verbatim path, which joining normalizes.
pub open spec fn is_verbatim_path(d: Seq<char>) -> bool {
    has_prefix(d, "\\\\?\\"@)
}

/// `path` is `dir`, then at most one separator, then `file`.
pub open spec fn joined_under(dir: Seq<char>, file: Seq<char>, path: Seq<char>) -> bool {
    exists|mid: Seq<char>| mid.len() <= 1 && path == dir + mid + file
}

/// `Path::join` of the directory and a file name, shown as text. std
/// documents that joining a relative path extends the directory with it;
/// this is stated for a one-component file name and a directory that is
/// not a verbatim path (which joining normalizes): the result is the
/// directory, at most one separator, and the file name. Other inputs are
/// left unstated.
#[verifier::external_body]
fn join_path(dir: &str, file: &str) -> (r: String)
    ensures
        plain_file_name(file@) && !is_verbatim_path(dir@) ==> joined_under(dir@, file@, r@),
{
    std::path::Path::new(dir).join(file).display().to_string()
}

/// The file that today's statistics are kept in, inside the data directory.
pub fn stats_path(dir: &str) -> (r: String)
    ensures
        !is_verbatim_path(dir@) ==> joined_under(dir@, "today-stats.json"@, r@),
{
    proof {
        reveal_strlit("today-stats.json");
    }
    join_path(dir, "today-stats.json")
}

/// The file that the kept days are stored in, inside the data directory.
pub fn history_path(dir: &str) -> (r: String)
    ensures
        !is_verbatim_path(dir@) ==> joined_under(dir@, "stats-history.json"@, r@),
{
    proof {
        reveal_strlit("stats-history.json");
    }
    join_path(dir, "stats-history.json")
}

/// Loaded statistics as they are used: normalized, with no press counted
/// in the current minute.
pub open spec fn loaded_view(s: StatsView) -> StatsView {
    StatsView { current_minute_keys: 0, ..normalized(s) }
}

/// What is made of the statistics read back when the local date is
/// `today` and the time `now`: a fresh day where nothing was read or the
/// statistics read are of another day, else those statistics normalized,
/// with no press in the current minute.
pub open spec fn loaded_for(loaded: Option<StatsView>, today: Seq<char>, now: Seq<char>) -> StatsView {
    match loaded {
        Some(s) => if s.date == today {
            loaded_view(s)
        } else {
            fresh_view(today, now)
        },
        None => fresh_view(today, now),
    }
}

/// Today's statistics from what was read back, on local date `today` at `now`.
pub fn loaded_stats_for(loaded: Option<KeyStats>, today: String, now: String) -> (r: KeyStats)
    requires
        loaded matches Some(s) ==> s.wf(),
    ensures
        r.wf(),
        r@ == loaded_for(
            match loaded {
                Some(s) => Some(s@),
                None => None,
            },
            today@,
            now@,
        ),
{
    match loaded {
        None => new_stats(today, now),
        Some(s) => {
            if !text_eq(s.date.as_str(), today.as_str()) {
                new_stats(today, now)
            } else {
                let mut s = s;
                normalize_stats(&mut s);
                s.current_minute_keys = 0;
                s
            }
        },
    }
}

/// Today's statistics from what was read back, on today's local date;
/// `None` where the local clock cannot be read.
pub fn accept_loaded_stats(loaded: Option<KeyStats>) -> (r: Option<KeyStats>)
    requires
        loaded matches Some(s) ==> s.wf(),
    ensures
        r matches Some(r) ==> r.wf() && date_text(r.date@) && match loaded {
            None => r@ == fresh_view(r.date@, r.started_at@) && timestamp_text(r.started_at@),
            Some(s) => (r.date@ == s.date@ && r@ == loaded_view(s@)) || (r.date@ != s.date@ && r@
                == fresh_view(r.date@, r.started_at@) && timestamp_text(r.started_at@)),
        },
{
    match today_string() {
        None => None,
        Some(today) => match now_string() {
            None => None,
            Some(now) => Some(loaded_stats_for(loaded, today, now)),
        },
    }
}

/// Every kept day's statistics are well formed.
pub open spec fn history_values_wf(h: History) -> bool {
    forall|i: int| 0 <= i < h.values().len() ==> (#[trigger] h.values()[i]).wf()
}

/// The kept days as they are used: each normalized, with no press in the
/// current minute.
pub open spec fn loaded_history_view(p: Seq<(Seq<char>, StatsView)>) -> Seq<(Seq<char>, StatsView)> {
    p.map_values(|e: (Seq<char>, StatsView)| (e.0, loaded_view(e.1)))
}

/// Normalizes every kept day read back, with no press in its current minute.
pub fn accept_loaded_history(history: History) -> (r: History)
    requires
        history.wf(),
        history_values_wf(history),
    ensures
        r.wf(),
        history_values_wf(r),
        r.pairs() == loaded_history_view(history.pairs()),
{
    proof {
        history.lemma_values();
    }
    let n = history.len();
    let mut out: History = StringMap::new();
    let mut i: usize = 0;
    while i < n
        invariant
            n == history.pairs().len(),
            history.wf(),
            history_values_wf(history),
            history.values().len() == n,
            i <= n,
            out.wf(),
            history_values_wf(out),
            out.pairs() == loaded_history_view(history.pairs().take(i as int)),
        decreases n - i,
    {
        proof {
            out.lemma_values();
        }
        let mut day = history.value_at(i).duplicate();
        normalize_stats(&mut day);
        day.current_minute_keys = 0;
        let key = history.key_at(i).clone();
        let ghost before = out.pairs();
        let ghost before_values = out.values();
        assert(!crate::map::has_key(before, key@)) by {
            if crate::map::has_key(before, key@) {
                let j = choose|j: int| 0 <= j < before.len() && #[trigger] before[j].0 == key@;
                assert(history.pairs()[j].0 == before[j].0);
                assert(history.pairs()[j].0 != history.pairs()[i as int].0);
            }
        }
        out.set(key, day);
        assert(out.pairs() =~= loaded_history_view(history.pairs().take(i + 1)));
        assert(history_values_wf(out)) by {
            assert forall|j: int| 0 <= j < out.values().len() implies (
            #[trigger] out.values()[j]).wf() by {
                if j < before_values.len() {
                    assert(out.values()[j] == before_values[j]);
                }
            }
        }
        i = i + 1;
    }
    assert(history.pairs().take(n as int) =~= history.pairs());
    out
}

} // verus!
