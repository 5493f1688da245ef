//! The leaderboard cache: a derived, read-optimized ranking over profile
//! `tips_received_e8s` totals, recomputed wholesale and never patched
//! incrementally.
//!
//! A recompute snapshots every profile as an entry, sorts descending by
//! score (ties in an unspecified order), truncates to the top 50, and stores
//! the same ranked sequence in both the "all-time" and the "monthly" slot:
//! the monthly board is deliberately identical to the all-time board, a
//! known simplification to preserve.

use vstd::prelude::*;
use vstd::string::StrSliceExecFns;

use crate::store::{State, StateView};
use crate::types::{
    LeaderboardCache, LeaderboardCacheView, LeaderboardEntry, LeaderboardEntryView, ProfileView,
    duplicate_entries, duplicate_opt_string, entry_views,
};

verus! {

/// How many entries a board keeps at most.
pub const LEADERBOARD_CAP: usize = 50;

/// Sorted by descending score.
pub open spec fn sorted_desc(s: Seq<LeaderboardEntryView>) -> bool {
    forall|i: int, j: int|
        0 <= i <= j < s.len() ==> (#[trigger] s[i]).score_e8s >= (#[trigger] s[j]).score_e8s
}

/// What every store keeps true of its cache: both boards are the same
/// sequence, sorted descending and holding at most 50 entries.
pub open spec fn cache_wf(c: LeaderboardCacheView) -> bool {
    &&& sorted_desc(c.all_time)
    &&& c.all_time.len() <= 50
    &&& c.monthly == c.all_time
}

/// The leaderboard entry a profile is snapshotted as.
pub open spec fn entry_of(p: ProfileView) -> LeaderboardEntryView {
    LeaderboardEntryView {
        principal: p.owner,
        score_e8s: p.tips_received_e8s,
        nickname: p.nickname,
    }
}

/// A length capped at 50.
pub open spec fn capped_len(n: int) -> int {
    if n > 50 {
        50
    } else {
        n
    }
}

/// `board` is a correct ranking of `profiles`: the prefix, capped at 50, of
/// some descending-sorted permutation of the profiles' entries. Which of two
/// equally scored entries comes first is not specified.
pub open spec fn is_leaderboard_of(
    profiles: Seq<ProfileView>,
    board: Seq<LeaderboardEntryView>,
) -> bool {
    exists|full: Seq<LeaderboardEntryView>|
        {
            &&& #[trigger] full.to_multiset() == profiles.map_values(
                |p: ProfileView| entry_of(p),
            ).to_multiset()
            &&& sorted_desc(full)
            &&& board == full.take(capped_len(full.len() as int))
        }
}

/// `entry_views` distributes over `Seq::insert`.
proof fn lemma_entry_views_insert(s: Seq<LeaderboardEntry>, p: int, e: LeaderboardEntry)
    requires
        0 <= p <= s.len(),
    ensures
        entry_views(s.insert(p, e)) =~= entry_views(s).insert(p, e@),
{
    s.insert_ensures(p, e);
    entry_views(s).insert_ensures(p, e@);
    assert forall|k: int| 0 <= k < s.len() + 1 implies entry_views(s.insert(p, e))[k]
        == entry_views(s).insert(p, e@)[k] by {
        if k < p {
        } else if k == p {
        } else {
            assert(s.insert(p, e)[k] == s[k - 1]);
            assert(entry_views(s).insert(p, e@)[k] == entry_views(s)[k - 1]);
        }
    }
}

/// Insertion sort, descending by score; the output is a permutation of the
/// input's entry views.
fn sort_entries_desc(input: Vec<LeaderboardEntry>) -> (out: Vec<LeaderboardEntry>)
    ensures
        sorted_desc(entry_views(out@)),
        entry_views(out@).to_multiset() == entry_views(input@).to_multiset(),
{
    let mut out: Vec<LeaderboardEntry> = Vec::new();
    let mut i: usize = 0;
    proof {
        assert(entry_views(input@.take(0)) =~= entry_views(out@));
    }
    while i < input.len()
        invariant
            i <= input.len(),
            sorted_desc(entry_views(out@)),
            entry_views(out@).to_multiset() == entry_views(input@.take(i as int)).to_multiset(),
        decreases input.len() - i,
    {
        let e = input[i].duplicate();
        let mut p: usize = 0;
        while p < out.len() && out[p].score_e8s >= e.score_e8s
            invariant
                p <= out.len(),
                forall|j: int|
                    0 <= j < p ==> (#[trigger] entry_views(out@)[j]).score_e8s >= e@.score_e8s,
            decreases out.len() - p,
        {
            p += 1;
        }
        proof {
            let v = entry_views(out@);
            let w = v.insert(p as int, e@);
            v.insert_ensures(p as int, e@);
            assert forall|a: int, b: int|
                0 <= a <= b < w.len() implies (#[trigger] w[a]).score_e8s >= (
            #[trigger] w[b]).score_e8s by {
                if b > p {
                    assert(w[b] == v[b - 1]);
                    if a > p {
                        assert(w[a] == v[a - 1]);
                    } else if a == p {
                        assert(v[p as int].score_e8s < e@.score_e8s);
                        assert(v[b - 1].score_e8s <= v[p as int].score_e8s);
                    } else {
                        assert(w[a] == v[a]);
                        assert(v[a].score_e8s >= e@.score_e8s);
                        assert(v[b - 1].score_e8s <= v[p as int].score_e8s);
                    }
                } else if b == p {
                    if a < p {
                        assert(w[a] == v[a]);
                    }
                } else {
                    assert(w[a] == v[a]);
                    assert(w[b] == v[b]);
                }
            }
            assert(sorted_desc(w));
        }
        let ghost prev = out@;
        out.insert(p, e);
        proof {
            lemma_entry_views_insert(prev, p as int, e);
            assert(entry_views(out@) =~= entry_views(prev).insert(p as int, e@));
            vstd::seq_lib::to_multiset_insert(entry_views(prev), p as int, e@);
            vstd::seq_lib::to_multiset_build(entry_views(input@.take(i as int)), e@);
            assert(entry_views(input@.take(i as int + 1)) =~= entry_views(
                input@.take(i as int),
            ).push(e@));
        }
        i += 1;
    }
    proof {
        assert(input@.take(input@.len() as int) =~= input@);
    }
    out
}

/// Whether `s` is exactly "monthly", the one period with its own board slot;
/// every other period name selects the all-time board.
fn is_monthly(s: &str) -> (r: bool)
    ensures
        r == (s@ == "monthly"@),
{
    proof {
        reveal_strlit("monthly");
    }
    let m: &str = "monthly";
    let n = s.unicode_len();
    if n != 7 {
        return false;
    }
    let mut i: usize = 0;
    while i < 7
        invariant
            i <= 7,
            s@.len() == 7,
            m@ =~= "monthly"@,
            m@.len() == 7,
            forall|j: int| 0 <= j < i ==> s@[j] == m@[j],
        decreases 7 - i,
    {
        if s.get_char(i) != m.get_char(i) {
            return false;
        }
        i += 1;
    }
    proof {
        assert(s@ =~= "monthly"@);
    }
    true
}

impl State {
    /// Regenerate the leaderboard cache from the current profiles, replacing
    /// it wholesale: both boards become the same capped descending ranking
    /// of every profile's received-tips total, stamped with `now`. Nothing
    /// else changes.
    pub fn recompute_leaderboard(&mut self, now: u64)
        requires
            old(self).wf(),
        ensures
            final(self).wf(),
            final(self)@ == (StateView {
                cache: final(self)@.cache,
                ..old(self)@
            }),
            final(self)@.cache.last_updated == now,
            final(self)@.cache.monthly == final(self)@.cache.all_time,
            is_leaderboard_of(old(self)@.profiles, final(self)@.cache.all_time),
    {
        let mut entries: Vec<LeaderboardEntry> = Vec::new();
        let mut i: usize = 0;
        while i < self.profiles.len()
            invariant
                i <= self.profiles.len(),
                entries@.len() == i,
                forall|j: int|
                    0 <= j < i ==> (#[trigger] entries@[j])@ == entry_of(self@.profiles[j]),
            decreases self.profiles.len() - i,
        {
            let p = &self.profiles[i];
            entries.push(
                LeaderboardEntry {
                    principal: p.owner.duplicate(),
                    score_e8s: p.tips_received_e8s,
                    nickname: duplicate_opt_string(&p.nickname),
                },
            );
            i += 1;
        }
        proof {
            assert(entry_views(entries@) =~= self@.profiles.map_values(
                |p: ProfileView| entry_of(p),
            ));
        }
        let mut ranked = sort_entries_desc(entries);
        let ghost full = entry_views(ranked@);
        if ranked.len() > LEADERBOARD_CAP {
            ranked.truncate(LEADERBOARD_CAP);
        }
        proof {
            assert(entry_views(ranked@) =~= full.take(capped_len(full.len() as int)));
        }
        let monthly = duplicate_entries(&ranked);
        self.leaderboard_cache = LeaderboardCache { last_updated: now, all_time: ranked, monthly };
        proof {
            assert(self@.cache.all_time == full.take(capped_len(full.len() as int)));
            assert(is_leaderboard_of(old(self)@.profiles, self@.cache.all_time));
            assert(sorted_desc(self@.cache.all_time));
            assert(self@ =~~= (StateView { cache: self@.cache, ..old(self)@ }));
        }
    }

    /// A copy of the requested board: the monthly one for period "monthly",
    /// the all-time one for every other period name. Never fails.
    pub fn get_leaderboard(&self, period: &str) -> (r: Vec<LeaderboardEntry>)
        ensures
            entry_views(r@) == if period@ == "monthly"@ {
                self@.cache.monthly
            } else {
                self@.cache.all_time
            },
    {
        if is_monthly(period) {
            duplicate_entries(&self.leaderboard_cache.monthly)
        } else {
            duplicate_entries(&self.leaderboard_cache.all_time)
        }
    }
}

} // verus!
