use vstd::prelude::*;

use crate::message::InboundMessage;

verus! {

/// Number of members at which a media group counts as complete.
pub const COMPLETE_GROUP_SIZE: usize = 2;

/// Age in seconds from which an incomplete group is evicted by the sweep.
pub const STALE_AFTER_SECS: u64 = 30;

/// Period in seconds of the eviction sweep.
pub const SWEEP_PERIOD_SECS: u64 = 30;

/// One media item of a group, with the identifier used to fetch it.
#[derive(Debug, Clone, PartialEq, Eq)]
pub enum MediaType {
    Photo(String),
    Video(String),
}

/// The abstract content of one cache entry.
pub struct GroupView {
    pub id: Seq<char>,
    pub items: Seq<MediaType>,
    pub first_seen: u64,
}

/// Whether an incomplete entry has waited long enough to be evicted at `now`.
pub open spec fn is_stale(g: GroupView, now: u64) -> bool {
    &&& g.items.len() < COMPLETE_GROUP_SIZE
    &&& now >= g.first_seen
    &&& now - g.first_seen >= STALE_AFTER_SECS
}

/// The position of the entry for `id`, if there is one.
pub open spec fn index_of(v: Seq<GroupView>, id: Seq<char>) -> Option<int> {
    if exists|i: int| 0 <= i < v.len() && v[i].id == id {
        Some(choose|i: int| 0 <= i < v.len() && v[i].id == id)
    } else {
        None
    }
}

/// Recording `item` for group `id` at time `now`: the cache afterwards, and the whole
/// group when this item completes it (a complete group leaves the cache at once).
pub open spec fn record_result(v: Seq<GroupView>, id: Seq<char>, item: MediaType, now: u64) -> (Seq<
    GroupView,
>, Option<Seq<MediaType>>) {
    match index_of(v, id) {
        None => (v.push(GroupView { id, items: seq![item], first_seen: now }), None),
        Some(i) => {
            let items = v[i].items.push(item);
            if items.len() >= COMPLETE_GROUP_SIZE {
                (v.remove(i), Some(items))
            } else {
                (v.update(i, GroupView { id, items, first_seen: v[i].first_seen }), None)
            }
        },
    }
}

/// The cache after an eviction sweep at `now`: the stale incomplete entries are gone.
pub open spec fn swept(v: Seq<GroupView>, now: u64) -> Seq<GroupView> {
    v.filter(|g: GroupView| !is_stale(g, now))
}

/// A possible result as a sequence of zero or one groups.
pub open spec fn completed_list(c: Option<Seq<MediaType>>) -> Seq<Seq<MediaType>> {
    match c {
        Some(items) => seq![items],
        None => Seq::empty(),
    }
}

/// Handling one message at `now`: each media branch it holds (photo first, then video) is
/// recorded under its group; the cache afterwards and the groups completed on the way.
pub open spec fn handle_result(v: Seq<GroupView>, msg: InboundMessage, now: u64) -> (Seq<GroupView>, Seq<
    Seq<MediaType>,
>) {
    match msg.media_group_id {
        None => (v, Seq::empty()),
        Some(gid) => {
            let (v1, c1) = match msg.photo {
                Some(p) => record_result(v, gid@, MediaType::Photo(p.file_id), now),
                None => (v, None),
            };
            let (v2, c2) = match msg.video {
                Some(f) => record_result(v1, gid@, MediaType::Video(f.file_id), now),
                None => (v1, None),
            };
            (v2, completed_list(c1) + completed_list(c2))
        },
    }
}

/// Whether `id` has an entry in the cache.
pub open spec fn has_group(v: Seq<GroupView>, id: Seq<char>) -> bool {
    exists|i: int| 0 <= i < v.len() && v[i].id == id
}

struct GroupEntry {
    group_id: String,
    items: Vec<MediaType>,
    first_seen: u64,
}

impl GroupEntry {
    closed spec fn view(&self) -> GroupView {
        GroupView { id: self.group_id@, items: self.items@, first_seen: self.first_seen }
    }
}

/// Media items seen so far, per group identifier, for groups not yet complete.
pub struct MediaGroupCache {
    entries: Vec<GroupEntry>,
}

impl View for MediaGroupCache {
    type V = Seq<GroupView>;

    closed spec fn view(&self) -> Seq<GroupView> {
        self.entries@.map_values(|e: GroupEntry| e.view())
    }
}

/// Identifiers are unique and every entry held is a started, incomplete group.
pub open spec fn cache_wf(v: Seq<GroupView>) -> bool {
    &&& forall|i: int, j: int| 0 <= i < v.len() && 0 <= j < v.len() && v[i].id == v[j].id ==> i == j
    &&& forall|i: int| 0 <= i < v.len() ==> 0 < #[trigger] v[i].items.len() < COMPLETE_GROUP_SIZE
}

impl MediaGroupCache {
    pub open spec fn wf(&self) -> bool {
        cache_wf(self@)
    }

    pub fn new() -> (r: MediaGroupCache)
        ensures
            r@ == Seq::<GroupView>::empty(),
            r.wf(),
    {
        let r = MediaGroupCache { entries: Vec::new() };
        assert(r@ =~= Seq::<GroupView>::empty());
        r
    }

    pub fn len(&self) -> (r: usize)
        ensures
            r == self@.len(),
    {
        self.entries.len()
    }

    /// Whether an entry for `group_id` is held.
    pub fn contains(&self, group_id: &String) -> (r: bool)
        ensures
            r == has_group(self@, group_id@),
    {
        let mut i: usize = 0;
        while i < self.entries.len()
            invariant
                i <= self@.len(),
                self@.len() == self.entries@.len(),
                forall|k: int| 0 <= k < i ==> self@[k].id != group_id@,
            decreases self@.len() - i,
        {
            if self.entries[i].group_id == *group_id {
                assert(self@[i as int].id == group_id@);
                return true;
            }
            i = i + 1;
        }
        false
    }

    /// Records one media item of group `group_id`, observed at `now` (seconds).
    /// Returns the whole group when this item completes it; the entry is then removed.
    pub fn record(&mut self, group_id: String, item: MediaType, now: u64) -> (r: Option<
        Vec<MediaType>,
    >)
        requires
            old(self).wf(),
        ensures
            final(self).wf(),
            final(self)@ == record_result(old(self)@, group_id@, item, now).0,
            match record_result(old(self)@, group_id@, item, now).1 {
                Some(items) => r is Some && r->0@ == items,
                None => r is None,
            },
    {
        let ghost v = self@;
        let mut i: usize = 0;
        while i < self.entries.len()
            invariant
                i <= v.len(),
                self@ == v,
                v.len() == self.entries@.len(),
                forall|k: int| 0 <= k < i ==> v[k].id != group_id@,
            ensures
                i <= v.len(),
                self@ == v,
                forall|k: int| 0 <= k < i ==> v[k].id != group_id@,
                i < v.len() ==> v[i as int].id == group_id@,
            decreases v.len() - i,
        {
            if self.entries[i].group_id == group_id {
                assert(v[i as int].id == group_id@);
                break;
            }
            i = i + 1;
        }
        if i == self.entries.len() {
            assert(index_of(v, group_id@) is None);
            let mut items = Vec::new();
            items.push(item);
            let entry = GroupEntry { group_id, items, first_seen: now };
            self.entries.push(entry);
            assert(self@ =~= v.push(GroupView { id: group_id@, items: seq![item], first_seen: now }));
            None
        } else {
            assert(v[i as int].id == group_id@);
            assert(index_of(v, group_id@) == Some(i as int));
            let mut entry = self.entries.remove(i);
            assert(self@ =~= v.remove(i as int));
            entry.items.push(item);
            if entry.items.len() >= COMPLETE_GROUP_SIZE {
                Some(entry.items)
            } else {
                self.entries.insert(i, entry);
                assert(self@ =~= v.update(
                    i as int,
                    GroupView { id: group_id@, items: v[i as int].items.push(item), first_seen: v[i as int].first_seen },
                ));
                None
            }
        }
    }

    /// Evicts every incomplete group first seen at least `STALE_AFTER_SECS` before `now`.
    pub fn sweep(&mut self, now: u64)
        requires
            old(self).wf(),
        ensures
            final(self).wf(),
            final(self)@ == swept(old(self)@, now),
    {
        let ghost v = self@;
        let ghost keep = |g: GroupView| !is_stale(g, now);
        let mut i: usize = 0;
        let ghost mut j: int = 0;
        while i < self.entries.len()
            invariant
                0 <= i <= j <= v.len(),
                self@.len() == self.entries@.len(),
                self@.len() == i + (v.len() - j),
                self@.take(i as int) == v.take(j).filter(keep),
                self@.skip(i as int) == v.skip(j),
                cache_wf(self@),
                keep == (|g: GroupView| !is_stale(g, now)),
            decreases v.len() - j,
        {
            let ghost cur = self@;
            assert(cur[i as int] == v[j]) by {
                assert(cur.skip(i as int)[0] == v.skip(j)[0]);
            }
            assert(v.take(j + 1).drop_last() =~= v.take(j));
            assert(v.take(j + 1).last() == v[j]);
            proof {
                reveal_with_fuel(Seq::filter, 1);
            }
            let first_seen = self.entries[i].first_seen;
            let stale = self.entries[i].items.len() < COMPLETE_GROUP_SIZE && now >= first_seen && now
                - first_seen >= STALE_AFTER_SECS;
            if stale {
                self.entries.remove(i);
                assert(self@ =~= cur.remove(i as int));
                assert(self@.take(i as int) =~= cur.take(i as int));
                assert(self@.skip(i as int) =~= v.skip(j + 1)) by {
                    assert(cur.skip(i as int).skip(1) =~= v.skip(j).skip(1));
                    assert(v.skip(j).skip(1) =~= v.skip(j + 1));
                    assert(self@.skip(i as int) =~= cur.skip(i as int).skip(1));
                }
            } else {
                assert(cur.take(i + 1) =~= cur.take(i as int).push(cur[i as int]));
                assert(cur.skip(i + 1) =~= v.skip(j + 1)) by {
                    assert(cur.skip(i + 1) =~= cur.skip(i as int).skip(1));
                    assert(v.skip(j + 1) =~= v.skip(j).skip(1));
                }
                i = i + 1;
            }
            proof {
                j = j + 1;
            }
        }
        assert(v.take(j) =~= v);
        assert(self@.take(i as int) =~= self@);
    }

    /// Records each media branch of `msg` (photo, then video) under its group, at `now`.
    /// Returns the groups that this message completed.
    pub fn handle_message(&mut self, msg: &InboundMessage, now: u64) -> (r: Vec<Vec<MediaType>>)
        requires
            old(self).wf(),
        ensures
            final(self).wf(),
            final(self)@ == handle_result(old(self)@, *msg, now).0,
            r@.map_values(|g: Vec<MediaType>| g@) == handle_result(old(self)@, *msg, now).1,
    {
        let mut done: Vec<Vec<MediaType>> = Vec::new();
        match &msg.media_group_id {
            None => {},
            Some(gid) => {
                match &msg.photo {
                    Some(p) => {
                        if let Some(g) = self.record(gid.clone(), MediaType::Photo(p.file_id.clone()), now) {
                            done.push(g);
                        }
                    },
                    None => {},
                }
                let ghost mid = done@.map_values(|g: Vec<MediaType>| g@);
                match &msg.video {
                    Some(f) => {
                        if let Some(g) = self.record(gid.clone(), MediaType::Video(f.file_id.clone()), now) {
                            done.push(g);
                            assert(done@.map_values(|g: Vec<MediaType>| g@) =~= mid.push(g@));
                        }
                    },
                    None => {},
                }
            },
        }
        assert(done@.map_values(|g: Vec<MediaType>| g@) =~= handle_result(old(self)@, *msg, now).1);
        done
    }
}

/// A group's life in the cache: a first item opens a pending entry; a second item of the
/// same group completes it, hands out both items in order and leaves the cache as it was;
/// an entry left alone is evicted by a sweep at least `STALE_AFTER_SECS` later, and kept
/// by a sweep before that.
pub proof fn lemma_group_lifecycle(
    v: Seq<GroupView>,
    id: Seq<char>,
    a: MediaType,
    b: MediaType,
    t1: u64,
    t2: u64,
    now: u64,
)
    requires
        cache_wf(v),
        !has_group(v, id),
    ensures
        has_group(record_result(v, id, a, t1).0, id),
        record_result(v, id, a, t1).1 is None,
        record_result(record_result(v, id, a, t1).0, id, b, t2) == (v, Some(seq![a, b])),
        now >= t1 && now - t1 >= STALE_AFTER_SECS ==> !has_group(
            swept(record_result(v, id, a, t1).0, now),
            id,
        ),
        t1 <= now && now - t1 < STALE_AFTER_SECS ==> has_group(
            swept(record_result(v, id, a, t1).0, now),
            id,
        ),
{
    let g = GroupView { id, items: seq![a], first_seen: t1 };
    let v1 = v.push(g);
    assert(index_of(v, id) is None);
    assert(record_result(v, id, a, t1).0 == v1);
    assert(v1[v.len() as int].id == id);
    assert(index_of(v1, id) == Some(v.len() as int));
    assert(seq![a].push(b) =~= seq![a, b]);
    assert(v1.remove(v.len() as int) =~= v);
    let keep = |x: GroupView| !is_stale(x, now);
    assert(v1.drop_last() =~= v);
    assert(v1.filter(keep) == if keep(g) { v.filter(keep).push(g) } else { v.filter(keep) }) by {
        reveal_with_fuel(Seq::filter, 1);
    }
    if now >= t1 && now - t1 >= STALE_AFTER_SECS {
        if has_group(v1.filter(keep), id) {
            let i = choose|i: int| 0 <= i < v.filter(keep).len() && v.filter(keep)[i].id == id;
            assert(v.filter(keep).contains(v.filter(keep)[i]));
            v.lemma_filter_contains_rev(keep, v.filter(keep)[i]);
        }
    }
    if t1 <= now && now - t1 < STALE_AFTER_SECS {
        assert(v1.filter(keep)[v.filter(keep).len() as int].id == id);
    }
}

} // verus!
