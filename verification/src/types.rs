//! Domain entities of the store and their mathematical views.
//!
//! Every executable type has a ghost view used by the contracts: strings
//! become `Seq<char>`, identities become `Seq<u8>`, and collections become
//! sequences of views.

use vstd::prelude::*;

verus! {

pub type MessageId = u64;

pub type RoomId = u64;

/// An opaque caller identity: a byte string, compared only for equality.
/// Stands in for the platform's principal type; callers of the store hand
/// identities in as plain bytes.
#[derive(Clone, Debug, PartialEq, Eq, Hash)]
pub struct Identity {
    pub bytes: Vec<u8>,
}

impl View for Identity {
    type V = Seq<u8>;

    open spec fn view(&self) -> Seq<u8> {
        self.bytes@
    }
}

impl Identity {
    /// A verified deep copy: the copy's bytes equal the original's.
    pub fn duplicate(&self) -> (r: Identity)
        ensures
            r@ == self@,
    {
        let mut bytes: Vec<u8> = Vec::new();
        let mut i: usize = 0;
        while i < self.bytes.len()
            invariant
                i <= self.bytes.len(),
                bytes@ =~= self.bytes@.take(i as int),
            decreases self.bytes.len() - i,
        {
            bytes.push(self.bytes[i]);
            i += 1;
        }
        proof {
            assert(bytes@ =~= self@);
        }
        Identity { bytes }
    }
}

/// Equality of identities, decided byte by byte.
pub fn identity_eq(a: &Identity, b: &Identity) -> (r: bool)
    ensures
        r == (a@ == b@),
{
    if a.bytes.len() != b.bytes.len() {
        return false;
    }
    let mut i: usize = 0;
    while i < a.bytes.len()
        invariant
            i <= a.bytes.len(),
            a.bytes.len() == b.bytes.len(),
            forall|j: int| 0 <= j < i ==> a@[j] == b@[j],
        decreases a.bytes.len() - i,
    {
        if a.bytes[i] != b.bytes[i] {
            return false;
        }
        i += 1;
    }
    proof {
        assert(a@ =~= b@);
    }
    true
}

/// The failure taxonomy of the write operations. Read operations never fail:
/// absence is an empty or optional result.
#[derive(Clone, Copy, Debug, PartialEq, Eq, Structural)]
pub enum ChatError {
    /// Required text was empty after trimming, or a tip amount was zero.
    InvalidInput,
    /// An unknown room or message id.
    NotFound,
    /// An edit attempted by someone other than the message's author.
    Forbidden,
}

#[derive(Clone, Debug, PartialEq, Eq)]
pub struct Message {
    pub id: MessageId,
    pub room_id: RoomId,
    pub author: Identity,
    pub content: String,
    pub timestamp: u64,
    pub reply_to: Option<MessageId>,
    pub edited: bool,
    pub tip_total_e8s: u64,
}

#[verifier::ext_equal]
pub ghost struct MessageView {
    pub id: u64,
    pub room_id: u64,
    pub author: Seq<u8>,
    pub content: Seq<char>,
    pub timestamp: u64,
    pub reply_to: Option<u64>,
    pub edited: bool,
    pub tip_total_e8s: u64,
}

impl View for Message {
    type V = MessageView;

    open spec fn view(&self) -> MessageView {
        MessageView {
            id: self.id,
            room_id: self.room_id,
            author: self.author@,
            content: self.content@,
            timestamp: self.timestamp,
            reply_to: self.reply_to,
            edited: self.edited,
            tip_total_e8s: self.tip_total_e8s,
        }
    }
}

#[derive(Clone, Debug, PartialEq, Eq)]
pub struct Room {
    pub id: RoomId,
    pub name: String,
    pub description: String,
    pub creator: Identity,
    pub is_private: bool,
    pub created_at: u64,
}

#[verifier::ext_equal]
pub ghost struct RoomView {
    pub id: u64,
    pub name: Seq<char>,
    pub description: Seq<char>,
    pub creator: Seq<u8>,
    pub is_private: bool,
    pub created_at: u64,
}

impl View for Room {
    type V = RoomView;

    open spec fn view(&self) -> RoomView {
        RoomView {
            id: self.id,
            name: self.name@,
            description: self.description@,
            creator: self.creator@,
            is_private: self.is_private,
            created_at: self.created_at,
        }
    }
}

#[derive(Clone, Debug, PartialEq, Eq)]
pub struct Profile {
    pub owner: Identity,
    pub nickname: Option<String>,
    pub bio: Option<String>,
    pub join_date: u64,
    pub tips_given_e8s: u64,
    pub tips_received_e8s: u64,
    pub messages_posted: u64,
    pub referral_code: Option<String>,
    pub referral_count: u64,
}

#[verifier::ext_equal]
pub ghost struct ProfileView {
    pub owner: Seq<u8>,
    pub nickname: Option<Seq<char>>,
    pub bio: Option<Seq<char>>,
    pub join_date: u64,
    pub tips_given_e8s: u64,
    pub tips_received_e8s: u64,
    pub messages_posted: u64,
    pub referral_code: Option<Seq<char>>,
    pub referral_count: u64,
}

/// The view of an optional string: `Some` strings become their char sequence.
pub open spec fn opt_string_view(o: Option<String>) -> Option<Seq<char>> {
    match o {
        Some(s) => Some(s@),
        None => None,
    }
}

/// A verified copy of an optional string.
pub fn duplicate_opt_string(o: &Option<String>) -> (r: Option<String>)
    ensures
        opt_string_view(r) == opt_string_view(*o),
{
    match o {
        Some(s) => Some(s.clone()),
        None => None,
    }
}

impl Message {
    /// A verified deep copy: the copy's view equals the original's.
    pub fn duplicate(&self) -> (r: Message)
        ensures
            r@ == self@,
    {
        Message {
            id: self.id,
            room_id: self.room_id,
            author: self.author.duplicate(),
            content: self.content.clone(),
            timestamp: self.timestamp,
            reply_to: self.reply_to,
            edited: self.edited,
            tip_total_e8s: self.tip_total_e8s,
        }
    }
}

impl Room {
    /// A verified deep copy: the copy's view equals the original's.
    pub fn duplicate(&self) -> (r: Room)
        ensures
            r@ == self@,
    {
        Room {
            id: self.id,
            name: self.name.clone(),
            description: self.description.clone(),
            creator: self.creator.duplicate(),
            is_private: self.is_private,
            created_at: self.created_at,
        }
    }
}

impl Profile {
    /// A verified deep copy: the copy's view equals the original's.
    pub fn duplicate(&self) -> (r: Profile)
        ensures
            r@ == self@,
    {
        Profile {
            owner: self.owner.duplicate(),
            nickname: duplicate_opt_string(&self.nickname),
            bio: duplicate_opt_string(&self.bio),
            join_date: self.join_date,
            tips_given_e8s: self.tips_given_e8s,
            tips_received_e8s: self.tips_received_e8s,
            messages_posted: self.messages_posted,
            referral_code: duplicate_opt_string(&self.referral_code),
            referral_count: self.referral_count,
        }
    }
}

impl LeaderboardEntry {
    /// A verified deep copy: the copy's view equals the original's.
    pub fn duplicate(&self) -> (r: LeaderboardEntry)
        ensures
            r@ == self@,
    {
        LeaderboardEntry {
            principal: self.principal.duplicate(),
            score_e8s: self.score_e8s,
            nickname: duplicate_opt_string(&self.nickname),
        }
    }
}

impl View for Profile {
    type V = ProfileView;

    open spec fn view(&self) -> ProfileView {
        ProfileView {
            owner: self.owner@,
            nickname: opt_string_view(self.nickname),
            bio: opt_string_view(self.bio),
            join_date: self.join_date,
            tips_given_e8s: self.tips_given_e8s,
            tips_received_e8s: self.tips_received_e8s,
            messages_posted: self.messages_posted,
            referral_code: opt_string_view(self.referral_code),
            referral_count: self.referral_count,
        }
    }
}

#[derive(Clone, Debug, PartialEq, Eq)]
pub struct LeaderboardEntry {
    pub principal: Identity,
    pub score_e8s: u64,
    pub nickname: Option<String>,
}

#[verifier::ext_equal]
pub ghost struct LeaderboardEntryView {
    pub principal: Seq<u8>,
    pub score_e8s: u64,
    pub nickname: Option<Seq<char>>,
}

impl View for LeaderboardEntry {
    type V = LeaderboardEntryView;

    open spec fn view(&self) -> LeaderboardEntryView {
        LeaderboardEntryView {
            principal: self.principal@,
            score_e8s: self.score_e8s,
            nickname: opt_string_view(self.nickname),
        }
    }
}

#[derive(Clone, Debug, PartialEq, Eq)]
pub struct LeaderboardCache {
    pub last_updated: u64,
    pub all_time: Vec<LeaderboardEntry>,
    pub monthly: Vec<LeaderboardEntry>,
}

#[verifier::ext_equal]
pub ghost struct LeaderboardCacheView {
    pub last_updated: u64,
    pub all_time: Seq<LeaderboardEntryView>,
    pub monthly: Seq<LeaderboardEntryView>,
}

/// The views of a sequence of leaderboard entries.
pub open spec fn entry_views(s: Seq<LeaderboardEntry>) -> Seq<LeaderboardEntryView> {
    s.map_values(|e: LeaderboardEntry| e@)
}

/// A verified copy of a vector of leaderboard entries.
pub fn duplicate_entries(v: &Vec<LeaderboardEntry>) -> (r: Vec<LeaderboardEntry>)
    ensures
        entry_views(r@) == entry_views(v@),
{
    let mut out: Vec<LeaderboardEntry> = Vec::new();
    let mut i: usize = 0;
    while i < v.len()
        invariant
            i <= v.len(),
            out@.len() == i,
            forall|j: int| 0 <= j < i ==> (#[trigger] out@[j])@ == v@[j]@,
        decreases v.len() - i,
    {
        out.push(v[i].duplicate());
        i += 1;
    }
    proof {
        assert(entry_views(out@) =~= entry_views(v@));
    }
    out
}

impl View for LeaderboardCache {
    type V = LeaderboardCacheView;

    open spec fn view(&self) -> LeaderboardCacheView {
        LeaderboardCacheView {
            last_updated: self.last_updated,
            all_time: entry_views(self.all_time@),
            monthly: entry_views(self.monthly@),
        }
    }
}

} // verus!
