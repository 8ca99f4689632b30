use bevy::math::Vec2;
use std::collections::VecDeque;
use vstd::prelude::*;

verus! {

/// Relies on bevy's `math::Vec2` (glam's `Vec2`) as a plain, copyable value:
/// positions are stored and handed back, never read.
#[verifier::external_type_specification]
#[verifier::external_body]
pub struct ExVec2(Vec2);

/// One recorded head position, tagged with the sequence number it was
/// recorded under.
#[derive(Clone, Copy, Debug, PartialEq)]
pub struct TraceItem {
    pub pos: Vec2,
    pub index: i64,
}

/// Sequence numbers fall strictly from the newest item (the front) to the
/// oldest (the back).
pub open spec fn indices_decreasing(s: Seq<TraceItem>) -> bool {
    forall|i: int, j: int| 0 <= i < j < s.len() ==> s[i].index > s[j].index
}

/// How many items survive when items older than `min_index` are dropped
/// from the back, one at a time, until the oldest remaining item has an
/// index of at least `min_index`.
pub open spec fn pruned_len(s: Seq<TraceItem>, min_index: int) -> nat
    decreases s.len(),
{
    if s.len() == 0 {
        0
    } else if s.last().index < min_index {
        pruned_len(s.drop_last(), min_index)
    } else {
        s.len()
    }
}

/// The trace `s` after pruning at `min_index`.
pub open spec fn pruned(s: Seq<TraceItem>, min_index: int) -> Seq<TraceItem> {
    s.take(pruned_len(s, min_index) as int)
}

/// Pruning never lengthens a trace.
proof fn lemma_pruned_len_bound(s: Seq<TraceItem>, min_index: int)
    ensures
        pruned_len(s, min_index) <= s.len(),
    decreases s.len(),
{
    if s.len() > 0 && s.last().index < min_index {
        lemma_pruned_len_bound(s.drop_last(), min_index);
    }
}

/// The items of `s` whose index is at least `min_index`, in their order.
pub open spec fn recent_items(s: Seq<TraceItem>, min_index: int) -> Seq<TraceItem> {
    s.filter(|t: TraceItem| t.index >= min_index)
}

proof fn lemma_filter_keeps_all(s: Seq<TraceItem>, min_index: int)
    requires
        forall|i: int| 0 <= i < s.len() ==> s[i].index >= min_index,
    ensures
        recent_items(s, min_index) == s,
    decreases s.len(),
{
    if s.len() > 0 {
        let init = s.drop_last();
        lemma_filter_keeps_all(init, min_index);
        assert(init.push(s.last()) =~= s);
        init.lemma_filter_push(s.last(), |t: TraceItem| t.index >= min_index);
    }
}

/// On a trace whose indices fall from the newest item to the oldest,
/// pruning at `min_index` keeps exactly the items whose index is at least
/// `min_index`, in the order they had.
pub proof fn lemma_prune_keeps_recent(s: Seq<TraceItem>, min_index: int)
    requires
        indices_decreasing(s),
    ensures
        pruned(s, min_index) == recent_items(s, min_index),
    decreases s.len(),
{
    if s.len() == 0 {
        reveal(Seq::filter);
        assert(s.take(0) =~= s);
    } else {
        let init = s.drop_last();
        assert(init.push(s.last()) =~= s);
        init.lemma_filter_push(s.last(), |t: TraceItem| t.index >= min_index);
        if s.last().index < min_index {
            lemma_prune_keeps_recent(init, min_index);
            lemma_pruned_len_bound(init, min_index);
            assert(init.take(pruned_len(init, min_index) as int) =~= s.take(
                pruned_len(s, min_index) as int,
            ));
        } else {
            assert(s.take(s.len() as int) =~= s);
            lemma_filter_keeps_all(s, min_index);
        }
    }
}

/// Pruning at the index of an item of a trace whose indices fall from
/// newest to oldest keeps that item and every newer one, and drops every
/// older one.
pub proof fn lemma_prune_at_item(s: Seq<TraceItem>, k: int)
    requires
        indices_decreasing(s),
        0 <= k < s.len(),
    ensures
        pruned(s, s[k].index as int) == s.take(k + 1),
    decreases s.len(),
{
    let min_index = s[k].index as int;
    if k < s.len() - 1 {
        let init = s.drop_last();
        assert(init[k] == s[k]);
        assert(s.last().index < min_index);
        lemma_prune_at_item(init, k);
        lemma_pruned_len_bound(init, min_index);
        assert(pruned_len(s, min_index) == pruned_len(init, min_index));
        assert(init.take(k + 1) =~= s.take(k + 1));
    } else {
        assert(s.last().index >= min_index);
        assert(s.take(s.len() as int) =~= s);
    }
}

/// Drops items from the back of `list` (the oldest end) while the oldest
/// one has an index below `max_index`; stops at the first one that does
/// not, or when the list is empty.
pub fn clear_extra_traces(list: &mut VecDeque<TraceItem>, max_index: i64)
    ensures
        final(list)@ == pruned(old(list)@, max_index as int),
{
    loop
        invariant
            pruned(list@, max_index as int) == pruned(old(list)@, max_index as int),
        decreases list@.len(),
    {
        let n = list.len();
        if n == 0 {
            proof {
                assert(list@.take(0) =~= list@);
            }
            return;
        }
        let oldest = list[n - 1];
        if oldest.index < max_index {
            proof {
                lemma_pruned_len_bound(list@.drop_last(), max_index as int);
                assert(list@.drop_last().take(pruned_len(list@.drop_last(), max_index as int) as int)
                    =~= list@.take(pruned_len(list@, max_index as int) as int));
            }
            list.pop_back();
        } else {
            proof {
                assert(list@.take(list@.len() as int) =~= list@);
            }
            return;
        }
    }
}

/// The recorded trace of one creature: its head positions, newest first,
/// and the counter that hands out their sequence numbers.
#[derive(Debug, PartialEq)]
pub struct TraceStore {
    items: VecDeque<TraceItem>,
    counter: i64,
}

impl View for TraceStore {
    type V = Seq<TraceItem>;

    closed spec fn view(&self) -> Seq<TraceItem> {
        self.items@
    }
}

impl TraceStore {
    /// The sequence number handed out last.
    pub closed spec fn last_index(&self) -> int {
        self.counter as int
    }

    /// Indices fall from newest to oldest, and none is above the counter,
    /// so the next number handed out is new.
    pub open spec fn wf(&self) -> bool {
        &&& indices_decreasing(self@)
        &&& forall|i: int| 0 <= i < self@.len() ==> self@[i].index <= self.last_index()
    }

    /// A trace seeded with the creature's starting position under index 0.
    pub fn new(start: Vec2) -> (r: Self)
        ensures
            r.wf(),
            r.last_index() == 0,
            r@ == seq![(TraceItem { pos: start, index: 0 })],
    {
        let mut items = VecDeque::new();
        items.push_front(TraceItem { pos: start, index: 0 });
        TraceStore { items, counter: 0 }
    }

    /// Records `pos` as the newest item, under the next sequence number.
    pub fn append(&mut self, pos: Vec2)
        requires
            old(self).wf(),
            old(self).last_index() < i64::MAX,
        ensures
            final(self).wf(),
            final(self).last_index() == old(self).last_index() + 1,
            final(self)@ == seq![(TraceItem { pos, index: final(self).last_index() as i64 })] + old(
                self,
            )@,
    {
        self.counter = self.counter + 1;
        self.items.push_front(TraceItem { pos, index: self.counter });
    }

    /// Drops the oldest items while their index is below `min_index`.
    pub fn prune(&mut self, min_index: i64)
        requires
            old(self).wf(),
        ensures
            final(self).wf(),
            final(self).last_index() == old(self).last_index(),
            final(self)@ == pruned(old(self)@, min_index as int),
            final(self)@ == recent_items(old(self)@, min_index as int),
    {
        clear_extra_traces(&mut self.items, min_index);
        proof {
            lemma_pruned_len_bound(old(self)@, min_index as int);
            lemma_prune_keeps_recent(old(self)@, min_index as int);
        }
    }

    /// The number of recorded items.
    pub fn len(&self) -> (r: usize)
        ensures
            r == self@.len(),
    {
        self.items.len()
    }

    /// The sequence number handed out last.
    pub fn trace_counter(&self) -> (r: i64)
        ensures
            r == self.last_index(),
    {
        self.counter
    }

    /// The newest item, if any is left.
    pub fn newest(&self) -> (r: Option<TraceItem>)
        ensures
            r == (if self@.len() == 0 {
                None
            } else {
                Some(self@[0])
            }),
    {
        if self.items.len() == 0 {
            None
        } else {
            Some(self.items[0])
        }
    }

    /// The recorded items, newest first.
    pub fn items(&self) -> (r: &VecDeque<TraceItem>)
        ensures
            r@ == self@,
    {
        &self.items
    }
}

} // verus!
