//! The store's global laws, stated once over the spec vocabulary the
//! operations' contracts use, and proved by the verifier.

use vstd::prelude::*;

use crate::leaderboard::{capped_len, entry_of, is_leaderboard_of, sorted_desc};
use crate::store::{StateView, sat_add64, tipped_profiles};
use crate::types::{LeaderboardEntryView, ProfileView};

verus! {

/// Monotonic id allocation: in a well-formed store every assigned message
/// id lies below the counter, so the next allocated id — also after a
/// snapshot round-trips the counter — strictly exceeds every previously
/// assigned one.
pub proof fn lemma_message_ids_below_counter(s: StateView)
    requires
        s.wf(),
    ensures
        forall|i: int|
            0 <= i < s.messages.len() ==> (#[trigger] s.messages[i]).id < s.next_message_id,
{
}

/// Every board entry is some profile's snapshot — its score equals that
/// profile's `tips_received_e8s` as of the recompute — and the board is
/// sorted descending with at most 50 entries.
pub proof fn lemma_leaderboard_entries_from_profiles(
    profiles: Seq<ProfileView>,
    board: Seq<LeaderboardEntryView>,
)
    requires
        is_leaderboard_of(profiles, board),
    ensures
        board.len() <= 50,
        board.len() == capped_len(profiles.len() as int),
        sorted_desc(board),
        forall|i: int|
            0 <= i < board.len() ==> exists|j: int|
                0 <= j < profiles.len() && (#[trigger] board[i]) == entry_of(
                    #[trigger] profiles[j],
                ) && board[i].score_e8s == profiles[j].tips_received_e8s,
{
    broadcast use vstd::seq_lib::group_to_multiset_ensures;

    let mapped = profiles.map_values(|p: ProfileView| entry_of(p));
    let full = choose|full: Seq<LeaderboardEntryView>|
        {
            &&& #[trigger] full.to_multiset() == mapped.to_multiset()
            &&& sorted_desc(full)
            &&& board == full.take(capped_len(full.len() as int))
        };
    assert(full.len() == full.to_multiset().len());
    assert(mapped.len() == mapped.to_multiset().len());
    assert(full.len() == profiles.len());
    assert forall|i: int| 0 <= i < board.len() implies exists|j: int|
        0 <= j < profiles.len() && (#[trigger] board[i]) == entry_of(#[trigger] profiles[j])
            && board[i].score_e8s == profiles[j].tips_received_e8s by {
        assert(board[i] == full[i]);
        assert(full.contains(full[i]));
        assert(full.to_multiset().count(full[i]) > 0);
        assert(mapped.to_multiset().count(full[i]) > 0);
        assert(mapped.contains(full[i]));
        let j = choose|j: int| 0 <= j < mapped.len() && mapped[j] == full[i];
        assert(board[i] == entry_of(profiles[j]));
    }
}

/// One tip's exact effect on the profile counters: the tipper's given
/// total and the author's received total each grow by `amount`, saturating
/// (both on a self-tip), and nothing else about any profile changes.
pub proof fn lemma_tip_counters(
    profiles: Seq<ProfileView>,
    tipper: Seq<u8>,
    author: Seq<u8>,
    amount: u64,
)
    ensures
        tipped_profiles(profiles, tipper, author, amount).len() == profiles.len(),
        forall|k: int|
            0 <= k < profiles.len() ==> {
                let p = #[trigger] profiles[k];
                let q = tipped_profiles(profiles, tipper, author, amount)[k];
                &&& (p.owner == tipper ==> q.tips_given_e8s == sat_add64(
                    p.tips_given_e8s,
                    amount,
                ))
                &&& (p.owner != tipper ==> q.tips_given_e8s == p.tips_given_e8s)
                &&& (p.owner == author ==> q.tips_received_e8s == sat_add64(
                    p.tips_received_e8s,
                    amount,
                ))
                &&& (p.owner != author ==> q.tips_received_e8s == p.tips_received_e8s)
                &&& q.owner == p.owner
                &&& q.nickname == p.nickname
                &&& q.bio == p.bio
                &&& q.join_date == p.join_date
                &&& q.messages_posted == p.messages_posted
                &&& q.referral_code == p.referral_code
                &&& q.referral_count == p.referral_count
            },
{
}

/// Saturating addition never decreases a counter: every cumulative total —
/// tip totals, given/received tips, posted messages, referral counts — is
/// monotonically non-decreasing.
pub proof fn lemma_sat_add_monotonic(a: u64, b: u64)
    ensures
        sat_add64(a, b) >= a,
        b > 0 && a < u64::MAX ==> sat_add64(a, b) > a,
{
}

/// The snapshot round trip: capture makes the snapshot's store equal the
/// original and restore makes the rebuilt store equal the snapshot's, so
/// the rebuilt store has identical counters, identical entity collections
/// and an identical cache.
pub proof fn lemma_snapshot_round_trip(
    original: StateView,
    snapshot: StateView,
    restored: StateView,
)
    requires
        snapshot == original,
        restored == snapshot,
    ensures
        restored == original,
        restored.next_message_id == original.next_message_id,
        restored.next_room_id == original.next_room_id,
        restored.messages == original.messages,
        restored.rooms == original.rooms,
        restored.profiles == original.profiles,
        restored.cache == original.cache,
{
}

} // verus!
