//! The event journal of a match: an append-ordered, timestamp-sorted
//! log of scoped events, with tail reads by timestamp and viewer.

use vstd::prelude::*;
use crate::events::{EventLike, TimedEvent};

verus! {

/// An entry is visible to a viewer when it is public (no addressee) or
/// addressed to that viewer.
pub open spec fn entry_visible<T>(
    entry: (Option<String>, TimedEvent<T>),
    viewer: Option<Seq<char>>,
) -> bool {
    match entry.0 {
        None => true,
        Some(addressee) => viewer == Some(addressee@),
    }
}

/// The subsequence of `entries` visible to `viewer`, in order.
pub open spec fn visible_entries<T>(
    entries: Seq<(Option<String>, TimedEvent<T>)>,
    viewer: Option<Seq<char>>,
) -> Seq<TimedEvent<T>>
    decreases entries.len(),
{
    if entries.len() == 0 {
        Seq::empty()
    } else {
        let rest = visible_entries(entries.drop_last(), viewer);
        if entry_visible(entries.last(), viewer) {
            rest.push(entries.last().1)
        } else {
            rest
        }
    }
}

/// The index of the first event of `s` with a timestamp at or past
/// `timestamp`; the length of `s` when every event is older.
pub open spec fn first_at_or_after<T>(s: Seq<TimedEvent<T>>, timestamp: u64) -> int
    decreases s.len(),
{
    if s.len() == 0 {
        0
    } else if s[0].timestamp >= timestamp {
        0
    } else {
        1 + first_at_or_after(s.drop_first(), timestamp)
    }
}

/// What a tail read since `timestamp` returns to `viewer`: the suffix
/// of the viewer's visible subsequence starting at the first event
/// with a timestamp at or past `timestamp`.
pub open spec fn events_since_spec<T>(
    entries: Seq<(Option<String>, TimedEvent<T>)>,
    timestamp: u64,
    viewer: Option<Seq<char>>,
) -> Seq<TimedEvent<T>> {
    let vis = visible_entries(entries, viewer);
    vis.skip(first_at_or_after(vis, timestamp))
}

/// The ghost viewer denoted by an optional player id.
pub open spec fn viewer_of(user_id: Option<&String>) -> Option<Seq<char>> {
    match user_id {
        None => None,
        Some(u) => Some(u@),
    }
}

/// The journal of one match. Entries are kept sorted by timestamp;
/// entries with equal timestamps keep their insertion order.
pub struct EventLogger<T: EventLike> {
    events: Vec<(Option<String>, TimedEvent<T>)>,
}

impl<T: EventLike> EventLogger<T> {
    /// The journalled entries, in log order.
    pub closed spec fn view(&self) -> Seq<(Option<String>, TimedEvent<T>)> {
        self.events@
    }

    /// The log is sorted by timestamp.
    pub open spec fn wf(&self) -> bool {
        forall|i: int, j: int|
            0 <= i < j < self@.len() ==> self@[i].1.timestamp <= self@[j].1.timestamp
    }

    /// An empty journal.
    pub fn new() -> (r: Self)
        ensures
            r@ == Seq::<(Option<String>, TimedEvent<T>)>::empty(),
            r.wf(),
    {
        EventLogger { events: Vec::new() }
    }

    /// Appends an event, keeping the log sorted by timestamp: the entry
    /// goes behind every entry whose timestamp is not larger, so equal
    /// timestamps keep their insertion order. `user_id` is the
    /// addressee of a private event; `None` marks a public one.
    pub fn log(&mut self, event: TimedEvent<T>, user_id: Option<String>)
        requires
            old(self).wf(),
        ensures
            final(self).wf(),
            exists|k: int|
                {
                    &&& 0 <= k <= old(self)@.len()
                    &&& final(self)@ == old(self)@.insert(k, (user_id, event))
                    &&& forall|i: int| 0 <= i < k ==> old(self)@[i].1.timestamp <= event.timestamp
                    &&& forall|i: int|
                        k <= i < old(self)@.len() ==> old(self)@[i].1.timestamp > event.timestamp
                },
            old(self)@.len() > 0 && old(self)@.last().1.timestamp <= event.timestamp
                ==> final(self)@ == old(self)@.push((user_id, event)),
    {
        let ghost pre = self.events@;
        let mut k: usize = self.events.len();
        while k > 0 && self.events[k - 1].1.timestamp > event.timestamp
            invariant
                k <= self.events@.len(),
                self.events@ == pre,
                forall|i: int| k <= i < pre.len() ==> pre[i].1.timestamp > event.timestamp,
            decreases k,
        {
            k -= 1;
        }
        proof {
            assert forall|i: int| 0 <= i < k implies pre[i].1.timestamp <= event.timestamp by {
                if i < k - 1 {
                    assert(pre[i].1.timestamp <= pre[k - 1].1.timestamp);
                }
            }
        }
        let ghost new_entry = (user_id, event);
        self.events.insert(k, (user_id, event));
        proof {
            let post = self.events@;
            assert(post == pre.insert(k as int, new_entry));
            assert forall|i: int, j: int|
                0 <= i < j < post.len() implies post[i].1.timestamp <= post[j].1.timestamp by {
                if i < k && j < k {
                } else if i < k && j == k {
                } else if i < k && j > k {
                } else if i == k {
                } else {
                }
            }
            if pre.len() > 0 && pre.last().1.timestamp <= new_entry.1.timestamp {
                assert(k == pre.len());
                assert(post =~= pre.push(new_entry));
            }
        }
    }

    /// The first event logged with the given timestamp, if any.
    pub fn get(&self, timestamp: u64) -> (r: Option<&TimedEvent<T>>)
        ensures
            match r {
                Some(e) => exists|i: int|
                    {
                        &&& 0 <= i < self@.len()
                        &&& *e == self@[i].1
                        &&& self@[i].1.timestamp == timestamp
                        &&& forall|j: int| 0 <= j < i ==> self@[j].1.timestamp != timestamp
                    },
                None => forall|i: int|
                    0 <= i < self@.len() ==> self@[i].1.timestamp != timestamp,
            },
    {
        let mut i: usize = 0;
        while i < self.events.len()
            invariant
                i <= self@.len(),
                forall|j: int| 0 <= j < i ==> self@[j].1.timestamp != timestamp,
            decreases self@.len() - i,
        {
            if self.events[i].1.timestamp == timestamp {
                let e = &self.events[i].1;
                proof {
                    let w = i as int;
                    assert(0 <= w < self@.len() && *e == self@[w].1 && self@[w].1.timestamp
                        == timestamp && forall|j: int|
                        0 <= j < w ==> self@[j].1.timestamp != timestamp);
                }
                return Some(e);
            }
            i += 1;
        }
        None
    }

    /// The events visible to `user_id` from the first visible event
    /// with a timestamp at or past `timestamp` on.
    pub fn events_since(&self, timestamp: u64, user_id: Option<&String>) -> (r: Vec<TimedEvent<T>>)
        requires
            self.wf(),
        ensures
            r@ == events_since_spec(self@, timestamp, viewer_of(user_id)),
    {
        let ghost viewer = viewer_of(user_id);
        let mut out: Vec<TimedEvent<T>> = Vec::new();
        let ghost mut seen: Seq<TimedEvent<T>> = Seq::empty();
        let mut i: usize = 0;
        while i < self.events.len()
            invariant
                i <= self@.len(),
                self.wf(),
                seen == visible_entries(self@.take(i as int), viewer),
                out@ == seen.skip(first_at_or_after(seen, timestamp)),
                viewer == viewer_of(user_id),
                forall|k: int, j: int|
                    0 <= k < seen.len() && i <= j < self@.len() ==> #[trigger] seen[k].timestamp
                        <= #[trigger] self@[j].1.timestamp,
            decreases self@.len() - i,
        {
            let entry = &self.events[i];
            let visible = match (&entry.0, user_id) {
                (None, _) => true,
                (Some(addressee), Some(viewer_name)) => *addressee == *viewer_name,
                (Some(_), None) => false,
            };
            proof {
                assert(self@.take(i + 1).drop_last() =~= self@.take(i as int));
                assert(self@.take(i + 1).last() == self@[i as int]);
                assert(visible == entry_visible(self@[i as int], viewer));
            }
            if visible {
                let ghost prev_seen = seen;
                proof {
                    seen = seen.push(self@[i as int].1);
                }
                if entry.1.timestamp >= timestamp {
                    out.push(entry.1.dup());
                    proof {
                        lemma_cut_bounds(prev_seen, timestamp);
                        lemma_cut_push_late(prev_seen, self@[i as int].1, timestamp);
                        assert(out@ =~= seen.skip(first_at_or_after(seen, timestamp)));
                    }
                } else {
                    proof {
                        assert forall|k: int| 0 <= k < prev_seen.len() implies prev_seen[k].timestamp
                            < timestamp by {
                            assert(prev_seen[k].timestamp <= self@[i as int].1.timestamp);
                        }
                        lemma_all_early(prev_seen, timestamp);
                        lemma_cut_push_early(prev_seen, self@[i as int].1, timestamp);
                        assert(out@ =~= seen.skip(first_at_or_after(seen, timestamp)));
                    }
                }
                proof {
                    assert forall|k: int, j: int|
                        0 <= k < seen.len() && i + 1 <= j < self@.len() implies #[trigger] seen[k].timestamp
                            <= #[trigger] self@[j].1.timestamp by {
                        if k < prev_seen.len() {
                            assert(seen[k] == prev_seen[k]);
                        } else {
                            assert(seen[k] == self@[i as int].1);
                            assert(self@[i as int].1.timestamp <= self@[j].1.timestamp);
                        }
                    }
                }
            }
            i += 1;
        }
        proof {
            assert(self@.take(self@.len() as int) =~= self@);
        }
        out
    }

    /// Every journalled event, public and private, in log order.
    pub fn all(&self) -> (r: Vec<TimedEvent<T>>)
        ensures
            r@ == self@.map_values(|e: (Option<String>, TimedEvent<T>)| e.1),
    {
        let mut out: Vec<TimedEvent<T>> = Vec::new();
        let mut i: usize = 0;
        while i < self.events.len()
            invariant
                i <= self@.len(),
                out@ == self@.take(i as int).map_values(|e: (Option<String>, TimedEvent<T>)| e.1),
            decreases self@.len() - i,
        {
            out.push(self.events[i].1.dup());
            proof {
                assert(self@.take(i + 1).map_values(|e: (Option<String>, TimedEvent<T>)| e.1)
                    =~= self@.take(i as int).map_values(
                    |e: (Option<String>, TimedEvent<T>)| e.1,
                ).push(self@[i as int].1));
            }
            i += 1;
        }
        proof {
            assert(self@.take(self@.len() as int) =~= self@);
        }
        out
    }
}

/// A tail read pastes back together: the visible events before the
/// cut, concatenated with what `events_since` returns, are exactly the
/// viewer's whole visible log.
pub proof fn lemma_events_since_concat<T>(
    entries: Seq<(Option<String>, TimedEvent<T>)>,
    timestamp: u64,
    viewer: Option<Seq<char>>,
)
    ensures
        visible_entries(entries, viewer).take(
            first_at_or_after(visible_entries(entries, viewer), timestamp),
        ) + events_since_spec(entries, timestamp, viewer) == visible_entries(entries, viewer),
{
    let vis = visible_entries::<T>(entries, viewer);
    lemma_cut_bounds(vis, timestamp);
    let cut = first_at_or_after(vis, timestamp);
    assert(vis.take(cut) + vis.skip(cut) =~= vis);
}

/// The cut position lies inside the log or just past its end.
proof fn lemma_cut_bounds<T>(s: Seq<TimedEvent<T>>, timestamp: u64)
    ensures
        0 <= first_at_or_after(s, timestamp) <= s.len(),
    decreases s.len(),
{
    if s.len() > 0 && s[0].timestamp < timestamp {
        lemma_cut_bounds(s.drop_first(), timestamp);
    }
}

/// Appending an event at or past `timestamp` keeps the cut position.
proof fn lemma_cut_push_late<T>(s: Seq<TimedEvent<T>>, e: TimedEvent<T>, timestamp: u64)
    requires
        e.timestamp >= timestamp,
    ensures
        first_at_or_after(s.push(e), timestamp) == if first_at_or_after(s, timestamp) == s.len() {
            s.len() as int
        } else {
            first_at_or_after(s, timestamp)
        },
    decreases s.len(),
{
    lemma_cut_bounds(s, timestamp);
    if s.len() == 0 {
        assert(s.push(e)[0] == e);
    } else if s[0].timestamp >= timestamp {
        assert(s.push(e)[0] == s[0]);
    } else {
        assert(s.push(e)[0] == s[0]);
        assert(s.push(e).drop_first() =~= s.drop_first().push(e));
        lemma_cut_push_late(s.drop_first(), e, timestamp);
    }
}

/// Appending an event older than `timestamp` to a log whose cut is at
/// the end moves the cut past the new event.
proof fn lemma_cut_push_early<T>(s: Seq<TimedEvent<T>>, e: TimedEvent<T>, timestamp: u64)
    requires
        e.timestamp < timestamp,
        first_at_or_after(s, timestamp) == s.len(),
    ensures
        first_at_or_after(s.push(e), timestamp) == s.len() + 1,
    decreases s.len(),
{
    if s.len() == 0 {
        assert(s.push(e)[0] == e);
        assert(s.push(e).drop_first() =~= Seq::<TimedEvent<T>>::empty());
        assert(first_at_or_after(s.push(e), timestamp) == 1 + first_at_or_after(
            s.push(e).drop_first(),
            timestamp,
        ));
    } else {
        assert(s.push(e)[0] == s[0]);
        assert(first_at_or_after(s, timestamp) != 0);
        assert(s[0].timestamp < timestamp);
        assert(first_at_or_after(s, timestamp) == 1 + first_at_or_after(
            s.drop_first(),
            timestamp,
        ));
        assert(s.push(e).drop_first() =~= s.drop_first().push(e));
        lemma_cut_bounds(s.drop_first(), timestamp);
        lemma_cut_push_early(s.drop_first(), e, timestamp);
        assert(first_at_or_after(s.push(e), timestamp) == 1 + first_at_or_after(
            s.drop_first().push(e),
            timestamp,
        ));
    }
}

/// When every event of the log is older than `timestamp`, the cut sits
/// past the end.
proof fn lemma_all_early<T>(s: Seq<TimedEvent<T>>, timestamp: u64)
    requires
        forall|k: int| 0 <= k < s.len() ==> s[k].timestamp < timestamp,
    ensures
        first_at_or_after(s, timestamp) == s.len(),
    decreases s.len(),
{
    if s.len() > 0 {
        lemma_all_early(s.drop_first(), timestamp);
    }
}

} // verus!
