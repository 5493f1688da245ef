//! The entity store: exclusive owner of all messages, rooms and profiles,
//! of the two monotonic id counters, and of the derived leaderboard cache.
//!
//! Identifiers start at 1 and are assigned by a per-kind monotonically
//! increasing counter, never reused; an entity with id `n` sits at index
//! `n - 1` of its vector. Profiles are keyed by owner identity, unique,
//! in order of first interaction. Every mutating operation either commits
//! completely or returns an error and leaves the store unchanged.

use vstd::prelude::*;
use vstd::string::StringExecFns;

use crate::leaderboard::{cache_wf, is_leaderboard_of};
use crate::text::{all_ws, is_blank, trim_str, trimmed};
use crate::types::{
    ChatError, Identity, LeaderboardCache, LeaderboardCacheView, Message, MessageView, Profile,
    ProfileView, Room, RoomView, identity_eq,
};

verus! {

/// The views of a sequence of messages.
pub open spec fn message_views(s: Seq<Message>) -> Seq<MessageView> {
    s.map_values(|m: Message| m@)
}

/// The views of a sequence of rooms.
pub open spec fn room_views(s: Seq<Room>) -> Seq<RoomView> {
    s.map_values(|r: Room| r@)
}

/// The views of a sequence of profiles.
pub open spec fn profile_views(s: Seq<Profile>) -> Seq<ProfileView> {
    s.map_values(|p: Profile| p@)
}

/// Saturating 64-bit addition, the arithmetic of every cumulative counter.
pub open spec fn sat_add64(a: u64, b: u64) -> u64 {
    if a + b > u64::MAX {
        u64::MAX
    } else {
        (a + b) as u64
    }
}

/// Executable saturating addition.
pub fn sat_add(a: u64, b: u64) -> (r: u64)
    ensures
        r == sat_add64(a, b),
{
    a.saturating_add(b)
}

/// Whether some profile in `profiles` is owned by `owner`.
pub open spec fn has_profile(profiles: Seq<ProfileView>, owner: Seq<u8>) -> bool {
    exists|i: int| 0 <= i < profiles.len() && (#[trigger] profiles[i]).owner == owner
}

/// The zero-valued profile a first interaction creates.
pub open spec fn fresh_profile(owner: Seq<u8>, now: u64) -> ProfileView {
    ProfileView {
        owner,
        nickname: None,
        bio: None,
        join_date: now,
        tips_given_e8s: 0,
        tips_received_e8s: 0,
        messages_posted: 0,
        referral_code: None,
        referral_count: 0,
    }
}

/// `profiles` after idempotently ensuring a profile for `owner`: unchanged
/// if one exists, else extended by a zero-valued profile joined at `now`.
pub open spec fn with_profile(profiles: Seq<ProfileView>, owner: Seq<u8>, now: u64) -> Seq<
    ProfileView,
> {
    if has_profile(profiles, owner) {
        profiles
    } else {
        profiles.push(fresh_profile(owner, now))
    }
}

/// Whether `room_id` references an existing room: ids run 1 ..= count.
pub open spec fn room_exists(s: StateView, room_id: u64) -> bool {
    1 <= room_id <= s.rooms.len()
}

/// The view of the message a successful `send_message` creates.
pub open spec fn new_message_view(
    s: StateView,
    room_id: u64,
    content: Seq<char>,
    reply_to: Option<u64>,
    author: Seq<u8>,
    now: u64,
) -> MessageView {
    MessageView {
        id: s.next_message_id,
        room_id,
        author,
        content,
        timestamp: now,
        reply_to,
        edited: false,
        tip_total_e8s: 0,
    }
}

/// `profiles` with the owner's `messages_posted` counter bumped by one,
/// saturating; other profiles unchanged.
pub open spec fn bump_posted(profiles: Seq<ProfileView>, owner: Seq<u8>) -> Seq<ProfileView> {
    profiles.map_values(
        |p: ProfileView|
            if p.owner == owner {
                ProfileView { messages_posted: sat_add64(p.messages_posted, 1), ..p }
            } else {
                p
            },
    )
}

/// What one tip does to a single profile: the tipper's `tips_given_e8s`
/// and the author's `tips_received_e8s` each grow by `amount`, saturating;
/// a self-tip grows both.
pub open spec fn apply_tip(p: ProfileView, tipper: Seq<u8>, author: Seq<u8>, amount: u64) -> ProfileView {
    let p1 = if p.owner == tipper {
        ProfileView { tips_given_e8s: sat_add64(p.tips_given_e8s, amount), ..p }
    } else {
        p
    };
    if p1.owner == author {
        ProfileView { tips_received_e8s: sat_add64(p1.tips_received_e8s, amount), ..p1 }
    } else {
        p1
    }
}

/// `apply_tip` across all profiles.
pub open spec fn tipped_profiles(
    profiles: Seq<ProfileView>,
    tipper: Seq<u8>,
    author: Seq<u8>,
    amount: u64,
) -> Seq<ProfileView> {
    profiles.map_values(|p: ProfileView| apply_tip(p, tipper, author, amount))
}

/// A profile with `nickname` and `bio` overwritten only where a value was
/// explicitly provided.
pub open spec fn merged_profile(
    p: ProfileView,
    nickname: Option<Seq<char>>,
    bio: Option<Seq<char>>,
) -> ProfileView {
    ProfileView {
        nickname: if nickname is Some {
            nickname
        } else {
            p.nickname
        },
        bio: if bio is Some {
            bio
        } else {
            p.bio
        },
        ..p
    }
}

/// Whether a profile's stored referral code equals `code`.
pub open spec fn matches_code(p: ProfileView, code: Seq<char>) -> bool {
    p.referral_code == Some(code)
}

/// `profiles` with the owner's `tips_given_e8s` grown by `amount`,
/// saturating; no effect if no profile has that owner.
pub open spec fn given_bumped(profiles: Seq<ProfileView>, owner: Seq<u8>, amount: u64) -> Seq<
    ProfileView,
> {
    profiles.map_values(
        |p: ProfileView|
            if p.owner == owner {
                ProfileView { tips_given_e8s: sat_add64(p.tips_given_e8s, amount), ..p }
            } else {
                p
            },
    )
}

/// `profiles` with the owner's `tips_received_e8s` grown by `amount`,
/// saturating; no effect if no profile has that owner.
pub open spec fn received_bumped(profiles: Seq<ProfileView>, owner: Seq<u8>, amount: u64) -> Seq<
    ProfileView,
> {
    profiles.map_values(
        |p: ProfileView|
            if p.owner == owner {
                ProfileView { tips_received_e8s: sat_add64(p.tips_received_e8s, amount), ..p }
            } else {
                p
            },
    )
}

/// Bumping the tipper's given total and then the author's received total
/// is exactly `apply_tip` across all profiles; a self-tip gets both bumps.
proof fn lemma_tip_compose(profiles: Seq<ProfileView>, tipper: Seq<u8>, author: Seq<u8>, amount: u64)
    ensures
        received_bumped(given_bumped(profiles, tipper, amount), author, amount) =~= tipped_profiles(
            profiles,
            tipper,
            author,
            amount,
        ),
{
    assert forall|k: int| 0 <= k < profiles.len() implies received_bumped(
        given_bumped(profiles, tipper, amount),
        author,
        amount,
    )[k] == tipped_profiles(profiles, tipper, author, amount)[k] by {
    }
}

/// Exact string equality.
fn string_eq(a: &String, b: &String) -> (r: bool)
    ensures
        r == (a@ == b@),
{
    a.eq(b)
}

/// The store. All fields are observable, but the operations keep the
/// well-formedness invariant `wf`; construct states through `new` (or
/// `default`), the mutators, and `restore_or_default`.
#[derive(Debug, PartialEq, Eq)]
pub struct State {
    pub next_message_id: u64,
    pub next_room_id: u64,
    pub messages: Vec<Message>,
    pub rooms: Vec<Room>,
    pub profiles: Vec<Profile>,
    pub leaderboard_cache: LeaderboardCache,
}

#[verifier::ext_equal]
pub ghost struct StateView {
    pub next_message_id: u64,
    pub next_room_id: u64,
    pub messages: Seq<MessageView>,
    pub rooms: Seq<RoomView>,
    pub profiles: Seq<ProfileView>,
    pub cache: LeaderboardCacheView,
}

impl View for State {
    type V = StateView;

    open spec fn view(&self) -> StateView {
        StateView {
            next_message_id: self.next_message_id,
            next_room_id: self.next_room_id,
            messages: message_views(self.messages@),
            rooms: room_views(self.rooms@),
            profiles: profile_views(self.profiles@),
            cache: self.leaderboard_cache@,
        }
    }
}

impl StateView {
    /// Well-formedness: counters one past the last assigned id, entity `n`
    /// at index `n - 1`, messages reference existing rooms and hold
    /// non-blank content, profile owners unique, cache sorted and capped.
    pub open spec fn wf(self) -> bool {
        &&& self.next_message_id == self.messages.len() + 1
        &&& self.next_room_id == self.rooms.len() + 1
        &&& (forall|i: int|
            0 <= i < self.messages.len() ==> (#[trigger] self.messages[i]).id == i + 1)
        &&& (forall|i: int| 0 <= i < self.rooms.len() ==> (#[trigger] self.rooms[i]).id == i + 1)
        &&& (forall|i: int|
            0 <= i < self.messages.len() ==> 1 <= (#[trigger] self.messages[i]).room_id
                <= self.rooms.len())
        &&& (forall|i: int|
            0 <= i < self.messages.len() ==> !all_ws((#[trigger] self.messages[i]).content))
        &&& (forall|i: int, j: int|
            0 <= i < j < self.profiles.len() ==> (#[trigger] self.profiles[i]).owner != (
            #[trigger] self.profiles[j]).owner)
        &&& cache_wf(self.cache)
    }

    /// The freshly initialized, empty store.
    pub open spec fn initial() -> StateView {
        StateView {
            next_message_id: 1,
            next_room_id: 1,
            messages: Seq::empty(),
            rooms: Seq::empty(),
            profiles: Seq::empty(),
            cache: LeaderboardCacheView {
                last_updated: 0,
                all_time: Seq::empty(),
                monthly: Seq::empty(),
            },
        }
    }
}

impl Default for LeaderboardCache {
    /// The empty cache: nothing ranked, never updated.
    fn default() -> (c: LeaderboardCache)
        ensures
            c@.last_updated == 0,
            c@.all_time == Seq::<crate::types::LeaderboardEntryView>::empty(),
            c@.monthly == Seq::<crate::types::LeaderboardEntryView>::empty(),
    {
        let c = LeaderboardCache { last_updated: 0, all_time: Vec::new(), monthly: Vec::new() };
        proof {
            assert(c@.all_time =~= Seq::<crate::types::LeaderboardEntryView>::empty());
            assert(c@.monthly =~= Seq::<crate::types::LeaderboardEntryView>::empty());
        }
        c
    }
}

impl Default for State {
    /// The freshly initialized store.
    fn default() -> (s: State)
        ensures
            s@ == StateView::initial(),
            s.wf(),
    {
        State::new()
    }
}

impl State {
    /// Well-formedness of the store, stated over its view.
    pub open spec fn wf(&self) -> bool {
        self@.wf()
    }

    /// The freshly initialized store: both counters at 1, no entities,
    /// an empty leaderboard cache.
    pub fn new() -> (s: State)
        ensures
            s@ == StateView::initial(),
            s.wf(),
    {
        let s = State {
            next_message_id: 1,
            next_room_id: 1,
            messages: Vec::new(),
            rooms: Vec::new(),
            profiles: Vec::new(),
            leaderboard_cache: LeaderboardCache::default(),
        };
        proof {
            assert(s@ =~~= StateView::initial());
        }
        s
    }

    /// The index of the profile owned by `identity`, if any.
    fn find_profile_index(&self, identity: &Identity) -> (r: Option<usize>)
        ensures
            match r {
                Some(i) => i < self@.profiles.len() && self@.profiles[i as int].owner == identity@,
                None => !has_profile(self@.profiles, identity@),
            },
    {
        let mut i: usize = 0;
        while i < self.profiles.len()
            invariant
                i <= self.profiles.len(),
                forall|j: int| 0 <= j < i ==> (#[trigger] self@.profiles[j]).owner != identity@,
            decreases self.profiles.len() - i,
        {
            if identity_eq(&self.profiles[i].owner, identity) {
                return Some(i);
            }
            i += 1;
        }
        None
    }

    /// Idempotently create a zero-valued profile for `identity` joined at
    /// `now`; no effect if one already exists.
    pub fn ensure_profile(&mut self, identity: &Identity, now: u64)
        requires
            old(self).wf(),
        ensures
            final(self).wf(),
            final(self)@ == (StateView {
                profiles: with_profile(old(self)@.profiles, identity@, now),
                ..old(self)@
            }),
    {
        let idx = self.find_profile_index(identity);
        match idx {
            Some(_) => {
                proof {
                    assert(self@ =~~= (StateView {
                        profiles: with_profile(old(self)@.profiles, identity@, now),
                        ..old(self)@
                    }));
                }
            },
            None => {
                let p = Profile {
                    owner: identity.duplicate(),
                    nickname: None,
                    bio: None,
                    join_date: now,
                    tips_given_e8s: 0,
                    tips_received_e8s: 0,
                    messages_posted: 0,
                    referral_code: None,
                    referral_count: 0,
                };
                self.profiles.push(p);
                proof {
                    assert(profile_views(self.profiles@) =~= old(self)@.profiles.push(
                        fresh_profile(identity@, now),
                    ));
                    assert(self@ =~~= (StateView {
                        profiles: with_profile(old(self)@.profiles, identity@, now),
                        ..old(self)@
                    }));
                }
            },
        }
    }

    /// A copy of the profile owned by `identity`, if one exists.
    pub fn get_profile(&self, identity: &Identity) -> (r: Option<Profile>)
        ensures
            match r {
                Some(p) => exists|i: int|
                    0 <= i < self@.profiles.len() && (#[trigger] self@.profiles[i]).owner
                        == identity@ && p@ == self@.profiles[i],
                None => !has_profile(self@.profiles, identity@),
            },
    {
        match self.find_profile_index(identity) {
            Some(i) => Some(self.profiles[i].duplicate()),
            None => None,
        }
    }

    /// Copies of all rooms, in creation order.
    pub fn list_rooms(&self) -> (r: Vec<Room>)
        ensures
            room_views(r@) == self@.rooms,
    {
        let mut out: Vec<Room> = Vec::new();
        let mut i: usize = 0;
        while i < self.rooms.len()
            invariant
                i <= self.rooms.len(),
                out@.len() == i,
                forall|j: int| 0 <= j < i ==> (#[trigger] out@[j])@ == self.rooms@[j]@,
            decreases self.rooms.len() - i,
        {
            out.push(self.rooms[i].duplicate());
            i += 1;
        }
        proof {
            assert(room_views(out@) =~= self@.rooms);
        }
        out
    }

    /// Allocate the next room id and insert a room created by `creator` at
    /// `now`, ensuring the creator's profile first. No validation of `name`
    /// or `description`: empty strings are accepted.
    pub fn create_room(
        &mut self,
        name: String,
        description: String,
        is_private: bool,
        creator: &Identity,
        now: u64,
    ) -> (room: Room)
        requires
            old(self).wf(),
            old(self).next_room_id < u64::MAX,
        ensures
            final(self).wf(),
            room@ == (RoomView {
                id: old(self)@.next_room_id,
                name: name@,
                description: description@,
                creator: creator@,
                is_private,
                created_at: now,
            }),
            final(self)@ == (StateView {
                next_room_id: (old(self)@.next_room_id + 1) as u64,
                rooms: old(self)@.rooms.push(room@),
                profiles: with_profile(old(self)@.profiles, creator@, now),
                ..old(self)@
            }),
    {
        self.ensure_profile(creator, now);
        let id = self.next_room_id;
        self.next_room_id = id + 1;
        let room = Room {
            id,
            name,
            description,
            creator: creator.duplicate(),
            is_private,
            created_at: now,
        };
        let stored = room.duplicate();
        self.rooms.push(stored);
        proof {
            assert(room_views(self.rooms@) =~= old(self)@.rooms.push(room@));
            assert(self@ =~~= (StateView {
                next_room_id: (old(self)@.next_room_id + 1) as u64,
                rooms: old(self)@.rooms.push(room@),
                profiles: with_profile(old(self)@.profiles, creator@, now),
                ..old(self)@
            }));
        }
        room
    }

    /// Post a message. Fails with `InvalidInput` on blank content and with
    /// `NotFound` on an unknown room, committing nothing; on success
    /// allocates the next message id, stores the message, ensures the
    /// author's profile and bumps its posted counter, and returns a copy of
    /// the stored message, whose id exceeds every previously assigned one.
    pub fn send_message(
        &mut self,
        room_id: u64,
        content: String,
        reply_to: Option<u64>,
        author: &Identity,
        now: u64,
    ) -> (r: Result<Message, ChatError>)
        requires
            old(self).wf(),
            old(self).next_message_id < u64::MAX,
        ensures
            final(self).wf(),
            ({
                let s = old(self)@;
                match r {
                    Ok(m) => {
                        &&& !all_ws(content@)
                        &&& room_exists(s, room_id)
                        &&& m@ == new_message_view(s, room_id, content@, reply_to, author@, now)
                        &&& (forall|i: int|
                            0 <= i < s.messages.len() ==> m@.id > (#[trigger] s.messages[i]).id)
                        &&& final(self)@ == (StateView {
                            next_message_id: (s.next_message_id + 1) as u64,
                            messages: s.messages.push(m@),
                            profiles: bump_posted(
                                with_profile(s.profiles, author@, now),
                                author@,
                            ),
                            ..s
                        })
                    },
                    Err(ChatError::InvalidInput) => all_ws(content@) && final(self)@ == s,
                    Err(ChatError::NotFound) => !all_ws(content@) && !room_exists(s, room_id)
                        && final(self)@ == s,
                    Err(ChatError::Forbidden) => false,
                }
            }),
    {
        if is_blank(content.as_str()) {
            return Err(ChatError::InvalidInput);
        }
        if room_id < 1 || room_id > self.rooms.len() as u64 {
            return Err(ChatError::NotFound);
        }
        self.ensure_profile(author, now);
        let ghost mid = self@;
        let id = self.next_message_id;
        self.next_message_id = id + 1;
        let msg = Message {
            id,
            room_id,
            author: author.duplicate(),
            content,
            timestamp: now,
            reply_to,
            edited: false,
            tip_total_e8s: 0,
        };
        let stored = msg.duplicate();
        self.messages.push(stored);
        proof {
            assert(message_views(self.messages@) =~= old(self)@.messages.push(msg@));
        }
        match self.find_profile_index(author) {
            Some(k) => {
                let ghost before = self@.profiles;
                let p = &self.profiles[k];
                let updated = Profile {
                    owner: p.owner.duplicate(),
                    nickname: crate::types::duplicate_opt_string(&p.nickname),
                    bio: crate::types::duplicate_opt_string(&p.bio),
                    join_date: p.join_date,
                    tips_given_e8s: p.tips_given_e8s,
                    tips_received_e8s: p.tips_received_e8s,
                    messages_posted: sat_add(p.messages_posted, 1),
                    referral_code: crate::types::duplicate_opt_string(&p.referral_code),
                    referral_count: p.referral_count,
                };
                self.profiles[k] = updated;
                proof {
                    let target = bump_posted(before, author@);
                    assert forall|j: int| 0 <= j < before.len() implies self@.profiles[j]
                        == target[j] by {
                        if j != k {
                            assert(before[j].owner != author@);
                        }
                    }
                    assert(self@.profiles =~~= target);
                    assert(self@ =~~= (StateView {
                        next_message_id: (old(self)@.next_message_id + 1) as u64,
                        messages: old(self)@.messages.push(msg@),
                        profiles: bump_posted(
                            with_profile(old(self)@.profiles, author@, now),
                            author@,
                        ),
                        ..old(self)@
                    }));
                }
            },
            None => {
                proof {
                    let profs = mid.profiles;
                    if !has_profile(old(self)@.profiles, author@) {
                        assert(profs[profs.len() - 1].owner == author@);
                    }
                    assert(has_profile(profs, author@));
                    assert(false);
                }
            },
        }
        Ok(msg)
    }

    /// Edit a message's content in place. Only the original author may
    /// edit; the new content gets an " (edited)" marker appended and the
    /// `edited` flag is set. On any failure — blank content, unknown id, or
    /// a non-author editor — the store, in particular the target message's
    /// content and `edited` flag, is left unchanged.
    pub fn edit_message(
        &mut self,
        message_id: u64,
        new_content: String,
        editor: &Identity,
    ) -> (r: Result<(), ChatError>)
        requires
            old(self).wf(),
        ensures
            final(self).wf(),
            ({
                let s = old(self)@;
                match r {
                    Ok(()) => {
                        &&& !all_ws(new_content@)
                        &&& 1 <= message_id <= s.messages.len()
                        &&& s.messages[message_id - 1].author == editor@
                        &&& final(self)@ == (StateView {
                            messages: s.messages.update(
                                message_id - 1,
                                MessageView {
                                    content: new_content@ + " (edited)"@,
                                    edited: true,
                                    ..s.messages[message_id - 1]
                                },
                            ),
                            ..s
                        })
                    },
                    Err(ChatError::InvalidInput) => all_ws(new_content@) && final(self)@ == s,
                    Err(ChatError::NotFound) => !all_ws(new_content@) && !(1 <= message_id
                        <= s.messages.len()) && final(self)@ == s,
                    Err(ChatError::Forbidden) => {
                        &&& !all_ws(new_content@)
                        &&& 1 <= message_id <= s.messages.len()
                        &&& s.messages[message_id - 1].author != editor@
                        &&& final(self)@ == s
                    },
                }
            }),
    {
        if is_blank(new_content.as_str()) {
            return Err(ChatError::InvalidInput);
        }
        if message_id < 1 || message_id > self.messages.len() as u64 {
            return Err(ChatError::NotFound);
        }
        let k = (message_id - 1) as usize;
        if !identity_eq(&self.messages[k].author, editor) {
            return Err(ChatError::Forbidden);
        }
        let mut content = new_content;
        content.append(" (edited)");
        let m = &self.messages[k];
        let updated = Message {
            id: m.id,
            room_id: m.room_id,
            author: m.author.duplicate(),
            content,
            timestamp: m.timestamp,
            reply_to: m.reply_to,
            edited: true,
            tip_total_e8s: m.tip_total_e8s,
        };
        self.messages[k] = updated;
        proof {
            reveal_strlit(" (edited)");
            let c = new_content@ + " (edited)"@;
            assert(c[new_content@.len() as int + 1] == '(');
            assert(!crate::text::is_ws_char('('));
            assert(!all_ws(c));
            assert(message_views(self.messages@) =~= old(self)@.messages.update(
                message_id - 1,
                MessageView {
                    content: new_content@ + " (edited)"@,
                    edited: true,
                    ..old(self)@.messages[message_id - 1]
                },
            ));
            assert(self@ =~~= (StateView {
                messages: old(self)@.messages.update(
                    message_id - 1,
                    MessageView {
                        content: new_content@ + " (edited)"@,
                        edited: true,
                        ..old(self)@.messages[message_id - 1]
                    },
                ),
                ..old(self)@
            }));
        }
        Ok(())
    }

    /// Grow the `tips_given_e8s` total of the profile owned by `who`, if
    /// one exists, by `amount`, saturating.
    fn bump_tips_given(&mut self, who: &Identity, amount: u64)
        requires
            old(self).wf(),
        ensures
            final(self).wf(),
            final(self)@ == (StateView {
                profiles: given_bumped(old(self)@.profiles, who@, amount),
                ..old(self)@
            }),
    {
        match self.find_profile_index(who) {
            Some(k) => {
                let p = &self.profiles[k];
                let bumped = Profile {
                    owner: p.owner.duplicate(),
                    nickname: crate::types::duplicate_opt_string(&p.nickname),
                    bio: crate::types::duplicate_opt_string(&p.bio),
                    join_date: p.join_date,
                    tips_given_e8s: sat_add(p.tips_given_e8s, amount),
                    tips_received_e8s: p.tips_received_e8s,
                    messages_posted: p.messages_posted,
                    referral_code: crate::types::duplicate_opt_string(&p.referral_code),
                    referral_count: p.referral_count,
                };
                self.profiles[k] = bumped;
                proof {
                    let target = given_bumped(old(self)@.profiles, who@, amount);
                    assert forall|j: int| 0 <= j < target.len() implies self@.profiles[j]
                        == target[j] by {
                        if j != k {
                            assert(old(self)@.profiles[j].owner != who@);
                        }
                    }
                    assert(self@.profiles =~~= target);
                    assert(self@ =~~= (StateView { profiles: target, ..old(self)@ }));
                }
            },
            None => {
                proof {
                    let target = given_bumped(old(self)@.profiles, who@, amount);
                    assert forall|j: int| 0 <= j < target.len() implies self@.profiles[j]
                        == target[j] by {
                        assert(old(self)@.profiles[j].owner != who@);
                    }
                    assert(self@.profiles =~~= target);
                    assert(self@ =~~= (StateView { profiles: target, ..old(self)@ }));
                }
            },
        }
    }

    /// Grow the `tips_received_e8s` total of the profile owned by `who`, if
    /// one exists, by `amount`, saturating.
    fn bump_tips_received(&mut self, who: &Identity, amount: u64)
        requires
            old(self).wf(),
        ensures
            final(self).wf(),
            final(self)@ == (StateView {
                profiles: received_bumped(old(self)@.profiles, who@, amount),
                ..old(self)@
            }),
    {
        match self.find_profile_index(who) {
            Some(k) => {
                let p = &self.profiles[k];
                let bumped = Profile {
                    owner: p.owner.duplicate(),
                    nickname: crate::types::duplicate_opt_string(&p.nickname),
                    bio: crate::types::duplicate_opt_string(&p.bio),
                    join_date: p.join_date,
                    tips_given_e8s: p.tips_given_e8s,
                    tips_received_e8s: sat_add(p.tips_received_e8s, amount),
                    messages_posted: p.messages_posted,
                    referral_code: crate::types::duplicate_opt_string(&p.referral_code),
                    referral_count: p.referral_count,
                };
                self.profiles[k] = bumped;
                proof {
                    let target = received_bumped(old(self)@.profiles, who@, amount);
                    assert forall|j: int| 0 <= j < target.len() implies self@.profiles[j]
                        == target[j] by {
                        if j != k {
                            assert(old(self)@.profiles[j].owner != who@);
                        }
                    }
                    assert(self@.profiles =~~= target);
                    assert(self@ =~~= (StateView { profiles: target, ..old(self)@ }));
                }
            },
            None => {
                proof {
                    let target = received_bumped(old(self)@.profiles, who@, amount);
                    assert forall|j: int| 0 <= j < target.len() implies self@.profiles[j]
                        == target[j] by {
                        assert(old(self)@.profiles[j].owner != who@);
                    }
                    assert(self@.profiles =~~= target);
                    assert(self@ =~~= (StateView { profiles: target, ..old(self)@ }));
                }
            },
        }
    }

    /// Tip a message. Fails with `InvalidInput` on a zero amount and with
    /// `NotFound` on an unknown message id, committing nothing. On success,
    /// as one atomic step: the message's tip total grows by `amount_e8s`
    /// (saturating), the tipper's `tips_given_e8s` and the author's
    /// `tips_received_e8s` grow symmetrically where those profiles exist
    /// (silently skipped otherwise), and the leaderboard cache is
    /// immediately recomputed from the updated profiles and stamped `now`.
    pub fn tip_message(
        &mut self,
        message_id: u64,
        amount_e8s: u64,
        tipper: &Identity,
        now: u64,
    ) -> (r: Result<(), ChatError>)
        requires
            old(self).wf(),
        ensures
            final(self).wf(),
            ({
                let s = old(self)@;
                match r {
                    Ok(()) => {
                        let m0 = s.messages[message_id - 1];
                        let new_msgs = s.messages.update(
                            message_id - 1,
                            MessageView { tip_total_e8s: sat_add64(m0.tip_total_e8s, amount_e8s), ..m0 },
                        );
                        let new_profs = tipped_profiles(s.profiles, tipper@, m0.author, amount_e8s);
                        &&& amount_e8s != 0
                        &&& 1 <= message_id <= s.messages.len()
                        &&& final(self)@ == (StateView {
                            messages: new_msgs,
                            profiles: new_profs,
                            cache: final(self)@.cache,
                            ..s
                        })
                        &&& final(self)@.cache.last_updated == now
                        &&& final(self)@.cache.monthly == final(self)@.cache.all_time
                        &&& is_leaderboard_of(new_profs, final(self)@.cache.all_time)
                    },
                    Err(ChatError::InvalidInput) => amount_e8s == 0 && final(self)@ == s,
                    Err(ChatError::NotFound) => amount_e8s != 0 && !(1 <= message_id
                        <= s.messages.len()) && final(self)@ == s,
                    Err(ChatError::Forbidden) => false,
                }
            }),
    {
        if amount_e8s == 0 {
            return Err(ChatError::InvalidInput);
        }
        if message_id < 1 || message_id > self.messages.len() as u64 {
            return Err(ChatError::NotFound);
        }
        let k = (message_id - 1) as usize;
        let m = &self.messages[k];
        let author = m.author.duplicate();
        let updated = Message {
            id: m.id,
            room_id: m.room_id,
            author: m.author.duplicate(),
            content: m.content.clone(),
            timestamp: m.timestamp,
            reply_to: m.reply_to,
            edited: m.edited,
            tip_total_e8s: sat_add(m.tip_total_e8s, amount_e8s),
        };
        self.messages[k] = updated;
        let ghost m0 = old(self)@.messages[message_id - 1];
        let ghost new_msgs = old(self)@.messages.update(
            message_id - 1,
            MessageView { tip_total_e8s: sat_add64(m0.tip_total_e8s, amount_e8s), ..m0 },
        );
        proof {
            assert(message_views(self.messages@) =~= new_msgs);
            assert(self@ =~~= (StateView { messages: new_msgs, ..old(self)@ }));
        }
        self.bump_tips_given(tipper, amount_e8s);
        self.bump_tips_received(&author, amount_e8s);
        let ghost new_profs = tipped_profiles(old(self)@.profiles, tipper@, m0.author, amount_e8s);
        proof {
            lemma_tip_compose(old(self)@.profiles, tipper@, m0.author, amount_e8s);
            assert(self@.profiles == new_profs);
        }
        self.recompute_leaderboard(now);
        proof {
            assert(self@ =~~= (StateView {
                messages: new_msgs,
                profiles: new_profs,
                cache: self@.cache,
                ..old(self)@
            }));
        }
        Ok(())
    }

    /// Create or update the caller's profile: `nickname` and `bio` are
    /// overwritten only where explicitly provided, other fields kept (or
    /// zero-initialized with join date `now` if the profile is new).
    /// Returns a copy of the resulting profile.
    pub fn upsert_profile(
        &mut self,
        nickname: Option<String>,
        bio: Option<String>,
        owner: &Identity,
        now: u64,
    ) -> (p: Profile)
        requires
            old(self).wf(),
        ensures
            final(self).wf(),
            ({
                let s = old(self)@;
                let nick = crate::types::opt_string_view(nickname);
                let bo = crate::types::opt_string_view(bio);
                &&& (has_profile(s.profiles, owner@) ==> exists|k: int|
                    0 <= k < s.profiles.len() && (#[trigger] s.profiles[k]).owner == owner@ && p@
                        == merged_profile(s.profiles[k], nick, bo) && final(self)@ == (StateView {
                        profiles: s.profiles.update(k, merged_profile(s.profiles[k], nick, bo)),
                        ..s
                    }))
                &&& (!has_profile(s.profiles, owner@) ==> p@ == merged_profile(
                    fresh_profile(owner@, now),
                    nick,
                    bo,
                ) && final(self)@ == (StateView {
                    profiles: s.profiles.push(merged_profile(fresh_profile(owner@, now), nick, bo)),
                    ..s
                }))
            }),
    {
        match self.find_profile_index(owner) {
            Some(k) => {
                let cur = &self.profiles[k];
                let updated = Profile {
                    owner: cur.owner.duplicate(),
                    nickname: if nickname.is_some() {
                        nickname
                    } else {
                        crate::types::duplicate_opt_string(&cur.nickname)
                    },
                    bio: if bio.is_some() {
                        bio
                    } else {
                        crate::types::duplicate_opt_string(&cur.bio)
                    },
                    join_date: cur.join_date,
                    tips_given_e8s: cur.tips_given_e8s,
                    tips_received_e8s: cur.tips_received_e8s,
                    messages_posted: cur.messages_posted,
                    referral_code: crate::types::duplicate_opt_string(&cur.referral_code),
                    referral_count: cur.referral_count,
                };
                let ret = updated.duplicate();
                self.profiles[k] = updated;
                proof {
                    let s = old(self)@;
                    let nick = crate::types::opt_string_view(nickname);
                    let bo = crate::types::opt_string_view(bio);
                    assert(self@.profiles =~~= s.profiles.update(
                        k as int,
                        merged_profile(s.profiles[k as int], nick, bo),
                    ));
                    assert(self@ =~~= (StateView {
                        profiles: s.profiles.update(
                            k as int,
                            merged_profile(s.profiles[k as int], nick, bo),
                        ),
                        ..s
                    }));
                }
                ret
            },
            None => {
                let fresh = Profile {
                    owner: owner.duplicate(),
                    nickname,
                    bio,
                    join_date: now,
                    tips_given_e8s: 0,
                    tips_received_e8s: 0,
                    messages_posted: 0,
                    referral_code: None,
                    referral_count: 0,
                };
                let ret = fresh.duplicate();
                self.profiles.push(fresh);
                proof {
                    let s = old(self)@;
                    let nick = crate::types::opt_string_view(nickname);
                    let bo = crate::types::opt_string_view(bio);
                    assert(self@.profiles =~~= s.profiles.push(
                        merged_profile(fresh_profile(owner@, now), nick, bo),
                    ));
                    assert(self@ =~~= (StateView {
                        profiles: s.profiles.push(merged_profile(fresh_profile(owner@, now), nick, bo)),
                        ..s
                    }));
                }
                ret
            },
        }
    }

    /// Consume a referral code: after ensuring the registrant's profile,
    /// the first profile (in store order) whose stored code equals the
    /// trimmed input gets its `referral_count` grown by one, saturating.
    /// No effect, no error, if no profile holds the code; `InvalidInput`
    /// if the code is blank. This core never issues codes, it only
    /// consumes existing ones.
    pub fn register_referral(
        &mut self,
        referral_code: String,
        registrant: &Identity,
        now: u64,
    ) -> (r: Result<(), ChatError>)
        requires
            old(self).wf(),
        ensures
            final(self).wf(),
            ({
                let s = old(self)@;
                let code = trimmed(referral_code@);
                match r {
                    Ok(()) => {
                        let profs = with_profile(s.profiles, registrant@, now);
                        &&& code.len() != 0
                        &&& ((exists|k: int|
                            0 <= k < profs.len() && matches_code(#[trigger] profs[k], code) && (
                            forall|j: int| 0 <= j < k ==> !matches_code(#[trigger] profs[j], code))
                                && final(self)@ == (StateView {
                                profiles: profs.update(
                                    k,
                                    ProfileView {
                                        referral_count: sat_add64(profs[k].referral_count, 1),
                                        ..profs[k]
                                    },
                                ),
                                ..s
                            })) || ((forall|j: int|
                            0 <= j < profs.len() ==> !matches_code(#[trigger] profs[j], code))
                            && final(self)@ == (StateView { profiles: profs, ..s })))
                    },
                    Err(ChatError::InvalidInput) => code.len() == 0 && final(self)@ == s,
                    _ => false,
                }
            }),
    {
        let code = trim_str(referral_code.as_str());
        if code.as_str().is_empty() {
            return Err(ChatError::InvalidInput);
        }
        self.ensure_profile(registrant, now);
        let ghost profs = self@.profiles;
        let mut k: usize = 0;
        while k < self.profiles.len()
            invariant
                k <= self.profiles.len(),
                code@ == trimmed(referral_code@),
                code@.len() != 0,
                self.wf(),
                profs == self@.profiles,
                self@ == (StateView {
                    profiles: with_profile(old(self)@.profiles, registrant@, now),
                    ..old(self)@
                }),
                forall|j: int| 0 <= j < k ==> !matches_code(#[trigger] profs[j], code@),
            decreases self.profiles.len() - k,
        {
            let cur = &self.profiles[k];
            let matched = match &cur.referral_code {
                Some(rc) => string_eq(rc, &code),
                None => false,
            };
            if matched {
                let bumped = Profile {
                    owner: cur.owner.duplicate(),
                    nickname: crate::types::duplicate_opt_string(&cur.nickname),
                    bio: crate::types::duplicate_opt_string(&cur.bio),
                    join_date: cur.join_date,
                    tips_given_e8s: cur.tips_given_e8s,
                    tips_received_e8s: cur.tips_received_e8s,
                    messages_posted: cur.messages_posted,
                    referral_code: crate::types::duplicate_opt_string(&cur.referral_code),
                    referral_count: sat_add(cur.referral_count, 1),
                };
                self.profiles[k] = bumped;
                proof {
                    assert(matches_code(profs[k as int], code@));
                    assert(self@.profiles =~~= profs.update(
                        k as int,
                        ProfileView {
                            referral_count: sat_add64(profs[k as int].referral_count, 1),
                            ..profs[k as int]
                        },
                    ));
                    assert(self@ =~~= (StateView {
                        profiles: profs.update(
                            k as int,
                            ProfileView {
                                referral_count: sat_add64(profs[k as int].referral_count, 1),
                                ..profs[k as int]
                            },
                        ),
                        ..old(self)@
                    }));
                }
                return Ok(());
            }
            proof {
                assert(!matches_code(profs[k as int], code@));
            }
            k += 1;
        }
        Ok(())
    }
}

} // verus!
