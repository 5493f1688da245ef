//! Listing messages of a room: filter by room and timestamp lower bound,
//! sort ascending by timestamp (ties in an unspecified order), cap the
//! count at `min(limit, 200)`, defaulting to 50 when no limit is given.

use vstd::prelude::*;

use crate::store::{State, message_views};
use crate::types::{Message, MessageView};

verus! {

/// Whether a message belongs to the listing of `room_id` from `from_ts` on.
pub open spec fn message_matches(m: MessageView, room_id: u64, from_ts: u64) -> bool {
    m.room_id == room_id && m.timestamp >= from_ts
}

/// The matching messages of `all`, in store order.
pub open spec fn matching_messages(all: Seq<MessageView>, room_id: u64, from_ts: u64) -> Seq<
    MessageView,
>
    decreases all.len(),
{
    if all.len() == 0 {
        Seq::empty()
    } else {
        let rest = matching_messages(all.drop_last(), room_id, from_ts);
        if message_matches(all.last(), room_id, from_ts) {
            rest.push(all.last())
        } else {
            rest
        }
    }
}

/// Sorted by ascending timestamp.
pub open spec fn sorted_asc_ts(s: Seq<MessageView>) -> bool {
    forall|i: int, j: int|
        0 <= i <= j < s.len() ==> (#[trigger] s[i]).timestamp <= (#[trigger] s[j]).timestamp
}

/// The effective timestamp lower bound: 0 when none was given.
pub open spec fn from_ts_of(from_timestamp: Option<u64>) -> u64 {
    match from_timestamp {
        Some(t) => t,
        None => 0,
    }
}

/// The effective cap: `min(limit, 200)`, or 50 when `limit` is 0.
pub open spec fn effective_limit(limit: u32) -> int {
    if limit == 0 {
        50
    } else if limit > 200 {
        200
    } else {
        limit as int
    }
}

/// The listing's length: the effective cap, or fewer if fewer match.
pub open spec fn limited_len(limit: u32, n: int) -> int {
    if effective_limit(limit) > n {
        n
    } else {
        effective_limit(limit)
    }
}

/// `out` is a correct listing: the capped prefix of some ascending-sorted
/// permutation of the matching messages. Which of two equally timestamped
/// messages comes first is not specified.
pub open spec fn is_message_listing(
    all: Seq<MessageView>,
    room_id: u64,
    from_ts: u64,
    limit: u32,
    out: Seq<MessageView>,
) -> bool {
    exists|full: Seq<MessageView>|
        {
            &&& #[trigger] full.to_multiset() == matching_messages(
                all,
                room_id,
                from_ts,
            ).to_multiset()
            &&& sorted_asc_ts(full)
            &&& out == full.take(limited_len(limit, full.len() as int))
        }
}

/// `message_views` distributes over `Seq::insert`.
proof fn lemma_message_views_insert(s: Seq<Message>, p: int, e: Message)
    requires
        0 <= p <= s.len(),
    ensures
        message_views(s.insert(p, e)) =~= message_views(s).insert(p, e@),
{
    s.insert_ensures(p, e);
    message_views(s).insert_ensures(p, e@);
    assert forall|k: int| 0 <= k < s.len() + 1 implies message_views(s.insert(p, e))[k]
        == message_views(s).insert(p, e@)[k] by {
        if k < p {
        } else if k == p {
        } else {
            assert(s.insert(p, e)[k] == s[k - 1]);
            assert(message_views(s).insert(p, e@)[k] == message_views(s)[k - 1]);
        }
    }
}

/// Insertion sort, ascending by timestamp; the output is a permutation of
/// the input's message views.
fn sort_messages_by_ts(input: Vec<Message>) -> (out: Vec<Message>)
    ensures
        sorted_asc_ts(message_views(out@)),
        message_views(out@).to_multiset() == message_views(input@).to_multiset(),
{
    let mut out: Vec<Message> = Vec::new();
    let mut i: usize = 0;
    proof {
        assert(message_views(input@.take(0)) =~= message_views(out@));
    }
    while i < input.len()
        invariant
            i <= input.len(),
            sorted_asc_ts(message_views(out@)),
            message_views(out@).to_multiset() == message_views(
                input@.take(i as int),
            ).to_multiset(),
        decreases input.len() - i,
    {
        let e = input[i].duplicate();
        let mut p: usize = 0;
        while p < out.len() && out[p].timestamp <= e.timestamp
            invariant
                p <= out.len(),
                forall|j: int|
                    0 <= j < p ==> (#[trigger] message_views(out@)[j]).timestamp <= e@.timestamp,
            decreases out.len() - p,
        {
            p += 1;
        }
        proof {
            let v = message_views(out@);
            let w = v.insert(p as int, e@);
            v.insert_ensures(p as int, e@);
            assert forall|a: int, b: int|
                0 <= a <= b < w.len() implies (#[trigger] w[a]).timestamp <= (
            #[trigger] w[b]).timestamp by {
                if b > p {
                    assert(w[b] == v[b - 1]);
                    if a > p {
                        assert(w[a] == v[a - 1]);
                    } else if a == p {
                        assert(v[p as int].timestamp > e@.timestamp);
                        assert(v[b - 1].timestamp >= v[p as int].timestamp);
                    } else {
                        assert(w[a] == v[a]);
                        assert(v[a].timestamp <= e@.timestamp);
                        assert(v[b - 1].timestamp >= v[p as int].timestamp);
                    }
                } else if b == p {
                    if a < p {
                        assert(w[a] == v[a]);
                    }
                } else {
                    assert(w[a] == v[a]);
                    assert(w[b] == v[b]);
                }
            }
            assert(sorted_asc_ts(w));
        }
        let ghost prev = out@;
        out.insert(p, e);
        proof {
            lemma_message_views_insert(prev, p as int, e);
            assert(message_views(out@) =~= message_views(prev).insert(p as int, e@));
            vstd::seq_lib::to_multiset_insert(message_views(prev), p as int, e@);
            vstd::seq_lib::to_multiset_build(message_views(input@.take(i as int)), e@);
            assert(message_views(input@.take(i as int + 1)) =~= message_views(
                input@.take(i as int),
            ).push(e@));
        }
        i += 1;
    }
    proof {
        assert(input@.take(input@.len() as int) =~= input@);
    }
    out
}

impl State {
    /// Copies of the messages of `room_id` timestamped at or after the
    /// given lower bound (0 if none), ascending by timestamp, at most
    /// `min(limit, 200)` of them (50 when `limit` is 0). Never fails: an
    /// unknown room simply matches no messages.
    pub fn list_messages(&self, room_id: u64, from_timestamp: Option<u64>, limit: u32) -> (r: Vec<
        Message,
    >)
        ensures
            is_message_listing(
                self@.messages,
                room_id,
                from_ts_of(from_timestamp),
                limit,
                message_views(r@),
            ),
    {
        let from_ts: u64 = match from_timestamp {
            Some(t) => t,
            None => 0,
        };
        let lim: usize = if limit == 0 {
            50
        } else if limit > 200 {
            200
        } else {
            limit as usize
        };
        let mut coll: Vec<Message> = Vec::new();
        let mut i: usize = 0;
        proof {
            assert(self@.messages.take(0) =~= Seq::<MessageView>::empty());
        }
        while i < self.messages.len()
            invariant
                i <= self.messages.len(),
                from_ts == from_ts_of(from_timestamp),
                message_views(coll@) == matching_messages(
                    self@.messages.take(i as int),
                    room_id,
                    from_ts,
                ),
            decreases self.messages.len() - i,
        {
            let ghost pre = self@.messages.take(i as int);
            proof {
                assert(self@.messages.take(i as int + 1).drop_last() =~= pre);
                assert(self@.messages.take(i as int + 1).last() == self@.messages[i as int]);
            }
            let m = &self.messages[i];
            if m.room_id == room_id && m.timestamp >= from_ts {
                coll.push(m.duplicate());
                proof {
                    assert(message_views(coll@) =~= matching_messages(
                        self@.messages.take(i as int + 1),
                        room_id,
                        from_ts,
                    ));
                }
            } else {
                proof {
                    assert(message_views(coll@) =~= matching_messages(
                        self@.messages.take(i as int + 1),
                        room_id,
                        from_ts,
                    ));
                }
            }
            i += 1;
        }
        proof {
            assert(self@.messages.take(self@.messages.len() as int) =~= self@.messages);
        }
        let mut ranked = sort_messages_by_ts(coll);
        let ghost full = message_views(ranked@);
        if ranked.len() > lim {
            ranked.truncate(lim);
        }
        proof {
            assert(message_views(ranked@) =~= full.take(limited_len(limit, full.len() as int)));
            assert(is_message_listing(
                self@.messages,
                room_id,
                from_ts_of(from_timestamp),
                limit,
                message_views(ranked@),
            ));
        }
        ranked
    }
}

} // verus!
