//! The upgrade lifecycle: capturing a full snapshot of the store before a
//! process restart, rebuilding an identical store from it afterwards (with
//! a safe empty-state fallback), and the idempotent arming of the periodic
//! recompute scheduler.

use vstd::prelude::*;

use crate::store::{State, StateView, message_views, profile_views, room_views};
use crate::types::{LeaderboardCache, Message, Profile, Room, duplicate_entries};

verus! {

/// The scheduler fires the recompute every 300 seconds, in nanoseconds.
pub const RECOMPUTE_INTERVAL_NS: u64 = 300 * 1_000_000_000;

/// A verified copy of a vector of messages.
fn duplicate_messages(v: &Vec<Message>) -> (r: Vec<Message>)
    ensures
        message_views(r@) == message_views(v@),
{
    let mut out: Vec<Message> = Vec::new();
    let mut i: usize = 0;
    while i < v.len()
        invariant
            i <= v.len(),
            out@.len() == i,
            forall|j: int| 0 <= j < i ==> (#[trigger] out@[j])@ == v@[j]@,
        decreases v.len() - i,
    {
        out.push(v[i].duplicate());
        i += 1;
    }
    proof {
        assert(message_views(out@) =~= message_views(v@));
    }
    out
}

/// A verified copy of a vector of rooms.
fn duplicate_rooms(v: &Vec<Room>) -> (r: Vec<Room>)
    ensures
        room_views(r@) == room_views(v@),
{
    let mut out: Vec<Room> = Vec::new();
    let mut i: usize = 0;
    while i < v.len()
        invariant
            i <= v.len(),
            out@.len() == i,
            forall|j: int| 0 <= j < i ==> (#[trigger] out@[j])@ == v@[j]@,
        decreases v.len() - i,
    {
        out.push(v[i].duplicate());
        i += 1;
    }
    proof {
        assert(room_views(out@) =~= room_views(v@));
    }
    out
}

/// A verified copy of a vector of profiles.
fn duplicate_profiles(v: &Vec<Profile>) -> (r: Vec<Profile>)
    ensures
        profile_views(r@) == profile_views(v@),
{
    let mut out: Vec<Profile> = Vec::new();
    let mut i: usize = 0;
    while i < v.len()
        invariant
            i <= v.len(),
            out@.len() == i,
            forall|j: int| 0 <= j < i ==> (#[trigger] out@[j])@ == v@[j]@,
        decreases v.len() - i,
    {
        out.push(v[i].duplicate());
        i += 1;
    }
    proof {
        assert(profile_views(out@) =~= profile_views(v@));
    }
    out
}

/// A complete point-in-time copy of the store — both counters, all three
/// entity collections, and the leaderboard cache — carried across a process
/// restart. The surrounding process serializes it opaquely; this core only
/// guarantees the copy is observably identical to the captured store.
pub struct Snapshot {
    pub state: State,
}

impl State {
    /// Capture a snapshot: a deep copy of the entire store. The execution
    /// model is run-to-completion, so the copy is a consistent point-in-time
    /// view.
    pub fn capture(&self) -> (snap: Snapshot)
        requires
            self.wf(),
        ensures
            snap.state@ == self@,
            snap.state.wf(),
    {
        let cache = LeaderboardCache {
            last_updated: self.leaderboard_cache.last_updated,
            all_time: duplicate_entries(&self.leaderboard_cache.all_time),
            monthly: duplicate_entries(&self.leaderboard_cache.monthly),
        };
        let state = State {
            next_message_id: self.next_message_id,
            next_room_id: self.next_room_id,
            messages: duplicate_messages(&self.messages),
            rooms: duplicate_rooms(&self.rooms),
            profiles: duplicate_profiles(&self.profiles),
            leaderboard_cache: cache,
        };
        proof {
            assert(state@ =~~= self@);
        }
        Snapshot { state }
    }

    /// Rebuild the store from a restored snapshot, observably identical to
    /// the captured one; when none survived the restart (missing, or it
    /// failed to parse), fall back to a fresh empty store rather than
    /// failing startup.
    pub fn restore_or_default(snap: Option<Snapshot>) -> (st: State)
        requires
            match snap {
                Some(s) => s.state.wf(),
                None => true,
            },
        ensures
            st.wf(),
            match snap {
                Some(s) => st@ == s.state@,
                None => st@ == StateView::initial(),
            },
    {
        match snap {
            Some(s) => s.state,
            None => State::new(),
        }
    }
}

/// The periodic-recompute scheduler's state machine: *unarmed* until the
/// process registers the periodic job, then *armed* for the process's
/// lifetime — there is no disarm transition in this core.
#[derive(Debug, PartialEq, Eq, Structural)]
pub struct Scheduler {
    pub armed: bool,
}

impl Scheduler {
    /// A scheduler starts unarmed.
    pub fn new() -> (s: Scheduler)
        ensures
            !s.armed,
    {
        Scheduler { armed: false }
    }

    /// Request arming. Returns whether the caller must register the
    /// periodic job now: true exactly on the unarmed-to-armed transition,
    /// false when already armed (the idempotent guard). Armed afterwards
    /// either way.
    pub fn arm(&mut self) -> (register: bool)
        ensures
            final(self).armed,
            register == !old(self).armed,
    {
        if self.armed {
            false
        } else {
            self.armed = true;
            true
        }
    }
}

} // verus!
