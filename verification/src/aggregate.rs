//! Counting frames per flow.
//!
//! The aggregator keeps one counter for each flow it has seen, in the order
//! in which the flows were first seen. Its model is the sequence of those
//! counters, a [`Tally`] each.

use vstd::prelude::*;
use crate::flow::FiveTuple;
use crate::parse::frame_key;

verus! {

/// A flow and the number of frames seen of it.
#[derive(Clone, Copy, Debug, PartialEq, Eq, Structural)]
pub struct FlowCount {
    pub flow: FiveTuple,
    pub count: u128,
}

/// The model of a [`FlowCount`]: the count is a natural number.
pub struct Tally {
    pub flow: FiveTuple,
    pub count: nat,
}

impl View for FlowCount {
    type V = Tally;

    open spec fn view(&self) -> Tally {
        Tally { flow: self.flow, count: self.count as nat }
    }
}

/// The models of a run of counters.
pub open spec fn tallies(entries: Seq<FlowCount>) -> Seq<Tally> {
    Seq::new(entries.len(), |i: int| entries[i]@)
}

/// Whether `tally` has a counter for `flow`.
pub open spec fn has_flow(tally: Seq<Tally>, flow: FiveTuple) -> bool {
    exists|i: int| 0 <= i < tally.len() && (#[trigger] tally[i]).flow == flow
}

/// The place of the counter for `flow`, if `tally` has one.
pub open spec fn index_of(tally: Seq<Tally>, flow: FiveTuple) -> int {
    choose|i: int| 0 <= i < tally.len() && (#[trigger] tally[i]).flow == flow
}

/// The number of frames counted for `flow`: zero if it has no counter.
pub open spec fn count_of(tally: Seq<Tally>, flow: FiveTuple) -> nat {
    if has_flow(tally, flow) {
        tally[index_of(tally, flow)].count
    } else {
        0
    }
}

/// No flow has two counters, and no counter is zero.
pub open spec fn well_formed(tally: Seq<Tally>) -> bool {
    &&& forall|i: int, j: int|
        0 <= i < j < tally.len() ==> (#[trigger] tally[i]).flow != (#[trigger] tally[j]).flow
    &&& forall|i: int| 0 <= i < tally.len() ==> (#[trigger] tally[i]).count >= 1
}

/// The tally after one more frame of `flow`: its counter is one higher, or
/// it has a new counter of one behind all others.
pub open spec fn recorded(tally: Seq<Tally>, flow: FiveTuple) -> Seq<Tally> {
    if has_flow(tally, flow) {
        let at = index_of(tally, flow);
        tally.update(at, Tally { flow: flow, count: tally[at].count + 1 })
    } else {
        tally.push(Tally { flow: flow, count: 1 })
    }
}

/// The tally of the frames whose flows are `flows`, in that order,
/// starting from nothing.
pub open spec fn tally_of(flows: Seq<FiveTuple>) -> Seq<Tally>
    decreases flows.len(),
{
    if flows.len() == 0 {
        Seq::empty()
    } else {
        recorded(tally_of(flows.drop_last()), flows.last())
    }
}

/// Where `entry` goes into `sorted`: behind the last counter that is not
/// greater than its own.
pub open spec fn slot(sorted: Seq<Tally>, entry: Tally) -> int
    decreases sorted.len(),
{
    if sorted.len() == 0 || sorted.last().count <= entry.count {
        sorted.len() as int
    } else {
        slot(sorted.drop_last(), entry)
    }
}

/// The counters in ascending order of count; counters of equal count stay
/// in the order in which they stand in `tally`.
pub open spec fn summary_order(tally: Seq<Tally>) -> Seq<Tally>
    decreases tally.len(),
{
    if tally.len() == 0 {
        Seq::empty()
    } else {
        let front = summary_order(tally.drop_last());
        front.insert(slot(front, tally.last()), tally.last())
    }
}

/// Whether the counts never fall from one entry to the next.
pub open spec fn ascending(tally: Seq<Tally>) -> bool {
    forall|i: int, j: int|
        0 <= i <= j < tally.len() ==> (#[trigger] tally[i]).count <= (#[trigger] tally[j]).count
}

/// The test that picks the counters of one count.
pub open spec fn of_count(count: nat) -> spec_fn(Tally) -> bool {
    |entry: Tally| entry.count == count
}

/// Whether counters of equal count stand in `out` in the order in which
/// they stand in `tally`, and `out` holds the counters of `tally` and no
/// others: for each count, the two hold the same counters of that count in
/// the same order.
pub open spec fn stable(out: Seq<Tally>, tally: Seq<Tally>) -> bool {
    forall|count: nat| #[trigger] out.filter(of_count(count)) == tally.filter(of_count(count))
}

/// The counters of the flows seen so far, in the order of their first
/// frames.
///
/// Every aggregator is well formed, and its counters are the tally of the
/// flows it has counted: the count of a flow is the number of its frames.
pub struct FlowAggregator {
    entries: Vec<FlowCount>,
    counted: Ghost<Seq<FiveTuple>>,
}

impl View for FlowAggregator {
    type V = Seq<Tally>;

    closed spec fn view(&self) -> Seq<Tally> {
        tallies(self.entries@)
    }
}

impl FlowAggregator {
    /// The flows of the frames counted so far, one for each frame, oldest
    /// first.
    pub closed spec fn history(&self) -> Seq<FiveTuple> {
        self.counted@
    }

    #[verifier::type_invariant]
    spec fn inv(self) -> bool {
        &&& well_formed(self@)
        &&& self@ == tally_of(self.history())
    }

    /// An aggregator that has seen no frame.
    pub fn new() -> (agg: Self)
        ensures
            agg@ == Seq::<Tally>::empty(),
            agg.history() == Seq::<FiveTuple>::empty(),
    {
        let entries: Vec<FlowCount> = Vec::new();
        assert(tallies(entries@) =~= Seq::<Tally>::empty());
        FlowAggregator { entries: entries, counted: Ghost(Seq::empty()) }
    }

    /// The number of flows seen.
    pub fn len(&self) -> (n: usize)
        ensures
            n == self@.len(),
    {
        self.entries.len()
    }

    fn find(&self, flow: &FiveTuple) -> (at: Option<usize>)
        ensures
            match at {
                Some(i) => has_flow(self@, *flow) && i == index_of(self@, *flow) && i
                    < self.entries.len(),
                None => !has_flow(self@, *flow),
            },
    {
        proof {
            use_type_invariant(self);
        }
        let mut i: usize = 0;
        while i < self.entries.len()
            invariant
                i <= self.entries.len(),
                well_formed(self@),
                forall|j: int| 0 <= j < i ==> (#[trigger] self@[j]).flow != *flow,
            decreases self.entries.len() - i,
        {
            if self.entries[i].flow == *flow {
                assert(self@[i as int].flow == *flow);
                return Some(i);
            }
            i = i + 1;
        }
        None
    }

    /// The number of frames counted for `flow`: the number of times that
    /// `flow` stands in the history.
    pub fn count(&self, flow: &FiveTuple) -> (n: u128)
        ensures
            n == count_of(self@, *flow),
            n == self.history().to_multiset().count(*flow),
    {
        proof {
            use_type_invariant(self);
            lemma_tally_is_exact(self.history(), *flow);
        }
        match self.find(flow) {
            Some(i) => self.entries[i].count,
            None => 0,
        }
    }

    /// Counts one more frame of `flow` and returns the flow's new count.
    ///
    /// A counter that has reached the largest number it can hold is not
    /// raised: then nothing changes and `None` is returned.
    pub fn record(&mut self, flow: FiveTuple) -> (count: Option<u128>)
        ensures
            well_formed(final(self)@),
            final(self)@ == tally_of(final(self).history()),
            match count {
                Some(n) => {
                    &&& count_of(old(self)@, flow) < u128::MAX
                    &&& final(self)@ == recorded(old(self)@, flow)
                    &&& final(self).history() == old(self).history().push(flow)
                    &&& n == count_of(old(self)@, flow) + 1
                    &&& n == count_of(final(self)@, flow)
                },
                None => {
                    &&& count_of(old(self)@, flow) == u128::MAX
                    &&& final(self)@ == old(self)@
                    &&& final(self).history() == old(self).history()
                },
            },
    {
        proof {
            use_type_invariant(&*self);
        }
        let found = self.find(&flow);
        let before: u128 = match found {
            Some(i) => self.entries[i].count,
            None => 0,
        };
        if before == u128::MAX {
            return None;
        }
        let mut taken = FlowAggregator::new();
        std::mem::swap(self, &mut taken);
        let mut entries = taken.entries;
        match found {
            Some(i) => {
                entries.set(i, FlowCount { flow: flow, count: before + 1 });
            },
            None => {
                entries.push(FlowCount { flow: flow, count: 1 });
            },
        }
        proof {
            assert(tallies(entries@) =~= recorded(old(self)@, flow));
            lemma_recorded(old(self)@, flow);
            assert(old(self).history().push(flow).drop_last() =~= old(self).history());
        }
        *self = FlowAggregator { entries: entries, counted: Ghost(old(self).history().push(flow)) };
        Some(before + 1)
    }

    /// Counts the frame `data` for the flow it belongs to, and returns the
    /// flow with its new count.
    ///
    /// A counter that has reached the largest number it can hold is not
    /// raised: then nothing changes and `None` is returned.
    pub fn observe(&mut self, data: &[u8]) -> (seen: Option<FlowCount>)
        ensures
            well_formed(final(self)@),
            final(self)@ == tally_of(final(self).history()),
            match seen {
                Some(entry) => {
                    &&& entry.flow == frame_key(data@)
                    &&& count_of(old(self)@, entry.flow) < u128::MAX
                    &&& final(self)@ == recorded(old(self)@, entry.flow)
                    &&& final(self).history() == old(self).history().push(entry.flow)
                    &&& entry.count == count_of(old(self)@, entry.flow) + 1
                },
                None => {
                    &&& count_of(old(self)@, frame_key(data@)) == u128::MAX
                    &&& final(self)@ == old(self)@
                    &&& final(self).history() == old(self).history()
                },
            },
    {
        let flow = FiveTuple::from_frame(data);
        match self.record(flow) {
            Some(count) => Some(FlowCount { flow: flow, count: count }),
            None => None,
        }
    }

    /// The counters in ascending order of count. Flows of equal count come
    /// in the order in which they were first seen.
    pub fn summary(&self) -> (out: Vec<FlowCount>)
        ensures
            tallies(out@) == summary_order(self@),
            tallies(out@).to_multiset() == self@.to_multiset(),
            out@.len() == self@.len(),
            ascending(tallies(out@)),
            stable(tallies(out@), self@),
    {
        let mut out: Vec<FlowCount> = Vec::new();
        let mut i: usize = 0;
        assert(self@.take(0) =~= Seq::<Tally>::empty());
        assert(tallies(out@) =~= Seq::<Tally>::empty());
        while i < self.entries.len()
            invariant
                i <= self.entries.len(),
                tallies(out@) == summary_order(self@.take(i as int)),
            decreases self.entries.len() - i,
        {
            let entry = self.entries[i];
            proof {
                let seen = self@.take(i + 1);
                assert(seen.drop_last() =~= self@.take(i as int));
                assert(seen.last() == entry@);
                lemma_summary_is_ascending(self@.take(i as int));
            }
            place(&mut out, entry);
            i = i + 1;
        }
        proof {
            assert(self@.take(i as int) =~= self@);
            lemma_summary_is_ascending(self@);
            lemma_summary_is_permutation(self@);
            lemma_summary_is_stable(self@);
        }
        out
    }
}

/// Puts `entry` into `out`, whose counts are ascending, behind the last
/// counter that is not greater than its own.
fn place(out: &mut Vec<FlowCount>, entry: FlowCount)
    requires
        ascending(tallies(old(out)@)),
    ensures
        tallies(final(out)@) == tallies(old(out)@).insert(
            slot(tallies(old(out)@), entry@),
            entry@,
        ),
{
    let ghost before = tallies(out@);
    let mut low: usize = 0;
    let mut high: usize = out.len();
    while low < high
        invariant
            low <= high <= out.len(),
            before == tallies(out@),
            ascending(before),
            forall|j: int| 0 <= j < low ==> (#[trigger] before[j]).count <= entry@.count,
            forall|j: int| high <= j < before.len() ==> (#[trigger] before[j]).count > entry@.count,
        decreases high - low,
    {
        let mid = low + (high - low) / 2;
        if out[mid].count <= entry.count {
            assert forall|j: int| 0 <= j < mid + 1 implies (#[trigger] before[j]).count
                <= entry@.count by {
                assert(before[j].count <= before[mid as int].count);
            }
            low = mid + 1;
        } else {
            assert forall|j: int| mid <= j < before.len() implies (#[trigger] before[j]).count
                > entry@.count by {
                assert(before[mid as int].count <= before[j].count);
            }
            high = mid;
        }
    }
    proof {
        lemma_slot_is(before, entry@, low as int);
    }
    out.insert(low, entry);
    proof {
        before.insert_ensures(low as int, entry@);
        old(out)@.insert_ensures(low as int, entry);
        assert(tallies(out@) =~= before.insert(low as int, entry@));
    }
}

/// Recording a frame keeps the tally well formed and raises the count of
/// the frame's flow by one.
pub proof fn lemma_recorded(tally: Seq<Tally>, flow: FiveTuple)
    requires
        well_formed(tally),
    ensures
        well_formed(recorded(tally, flow)),
        has_flow(recorded(tally, flow), flow),
        count_of(recorded(tally, flow), flow) == count_of(tally, flow) + 1,
{
    let after = recorded(tally, flow);
    let at = if has_flow(tally, flow) {
        index_of(tally, flow)
    } else {
        tally.len() as int
    };
    assert(after[at].flow == flow);
    assert(index_of(after, flow) == at);
}

/// Recording a frame of one flow leaves the count of every other flow as
/// it was.
pub proof fn lemma_recorded_other(tally: Seq<Tally>, flow: FiveTuple, other: FiveTuple)
    requires
        well_formed(tally),
        other != flow,
    ensures
        has_flow(recorded(tally, flow), other) == has_flow(tally, other),
        count_of(recorded(tally, flow), other) == count_of(tally, other),
{
    let after = recorded(tally, flow);
    lemma_recorded(tally, flow);
    if has_flow(tally, other) {
        let k = index_of(tally, other);
        assert(after[k].flow == other);
        assert(index_of(after, other) == k);
    } else if has_flow(after, other) {
        let k = index_of(after, other);
        assert(tally[k].flow == other);
    }
}

/// The slot of an entry lies within the sequence, every counter from the
/// slot on is greater than the entry's, and the one before it is not.
pub proof fn lemma_slot(sorted: Seq<Tally>, entry: Tally)
    ensures
        0 <= slot(sorted, entry) <= sorted.len(),
        forall|j: int|
            slot(sorted, entry) <= j < sorted.len() ==> (#[trigger] sorted[j]).count > entry.count,
        slot(sorted, entry) > 0 ==> sorted[slot(sorted, entry) - 1].count <= entry.count,
    decreases sorted.len(),
{
    if !(sorted.len() == 0 || sorted.last().count <= entry.count) {
        let front = sorted.drop_last();
        lemma_slot(front, entry);
        assert forall|j: int| slot(sorted, entry) <= j < sorted.len() implies (
        #[trigger] sorted[j]).count > entry.count by {
            if j < front.len() {
                assert(front[j] == sorted[j]);
            }
        }
    }
}

/// The slot is the one place with no greater counter before it and only
/// greater counters from it on.
pub proof fn lemma_slot_is(sorted: Seq<Tally>, entry: Tally, at: int)
    requires
        0 <= at <= sorted.len(),
        forall|j: int| 0 <= j < at ==> (#[trigger] sorted[j]).count <= entry.count,
        forall|j: int| at <= j < sorted.len() ==> (#[trigger] sorted[j]).count > entry.count,
    ensures
        slot(sorted, entry) == at,
    decreases sorted.len(),
{
    if sorted.len() > 0 {
        let last = sorted.len() - 1;
        if sorted.last().count <= entry.count {
            if at <= last {
                assert(sorted[last].count > entry.count);
            }
        } else {
            if at > last {
                assert(sorted[last].count <= entry.count);
            }
            let front = sorted.drop_last();
            assert forall|j: int| 0 <= j < at implies (#[trigger] front[j]).count
                <= entry.count by {
                assert(sorted[j].count <= entry.count);
            }
            assert forall|j: int| at <= j < front.len() implies (#[trigger] front[j]).count
                > entry.count by {
                assert(sorted[j].count > entry.count);
            }
            lemma_slot_is(front, entry, at);
        }
    }
}

/// The summary never falls in count from one line to the next, whatever
/// frames were counted.
pub proof fn lemma_summary_is_ascending(tally: Seq<Tally>)
    ensures
        ascending(summary_order(tally)),
    decreases tally.len(),
{
    if tally.len() > 0 {
        let front = summary_order(tally.drop_last());
        let entry = tally.last();
        let at = slot(front, entry);
        lemma_summary_is_ascending(tally.drop_last());
        lemma_slot(front, entry);
        front.insert_ensures(at, entry);
        let out = front.insert(at, entry);
        assert forall|i: int, j: int| 0 <= i <= j < out.len() implies (#[trigger] out[i]).count <= (
        #[trigger] out[j]).count by {
            let a = if i < at {
                front[i]
            } else if i == at {
                entry
            } else {
                front[i - 1]
            };
            let b = if j < at {
                front[j]
            } else if j == at {
                entry
            } else {
                front[j - 1]
            };
            assert(out[i] == a);
            assert(out[j] == b);
            if i < at {
                assert(front[i].count <= front[at - 1].count);
            }
        }
    }
}

/// The summary holds the counters of the tally, each as often as the tally
/// does, and no others.
pub proof fn lemma_summary_is_permutation(tally: Seq<Tally>)
    ensures
        summary_order(tally).to_multiset() == tally.to_multiset(),
        summary_order(tally).len() == tally.len(),
    decreases tally.len(),
{
    if tally.len() > 0 {
        let rest = tally.drop_last();
        let front = summary_order(rest);
        let entry = tally.last();
        lemma_summary_is_permutation(rest);
        lemma_slot(front, entry);
        front.insert_ensures(slot(front, entry), entry);
        vstd::seq_lib::to_multiset_insert(front, slot(front, entry), entry);
        vstd::seq_lib::to_multiset_build(rest, entry);
        assert(rest.push(entry) =~= tally);
    } else {
        assert(tally =~= Seq::<Tally>::empty());
    }
}

/// The summary holds the counters of one count in the order in which the
/// tally holds them.
proof fn lemma_summary_keeps_count(tally: Seq<Tally>, count: nat)
    ensures
        summary_order(tally).filter(of_count(count)) == tally.filter(of_count(count)),
    decreases tally.len(),
{
    let pick = of_count(count);
    if tally.len() > 0 {
        let rest = tally.drop_last();
        let front = summary_order(rest);
        let entry = tally.last();
        let at = slot(front, entry);
        lemma_summary_keeps_count(rest, count);
        lemma_slot(front, entry);
        let head = front.subrange(0, at);
        let back = front.subrange(at, front.len() as int);
        assert(front =~= head + back);
        assert(front.insert(at, entry) =~= head.push(entry) + back);
        Seq::filter_distributes_over_add(head, back, pick);
        Seq::filter_distributes_over_add(head.push(entry), back, pick);
        head.lemma_filter_push(entry, pick);
        rest.lemma_filter_push(entry, pick);
        assert(rest.push(entry) =~= tally);
        if pick(entry) {
            assert(back.all(|other: Tally| !pick(other))) by {
                assert forall|j: int| 0 <= j < back.len() implies !pick(#[trigger] back[j]) by {
                    assert(back[j] == front[at + j]);
                }
            }
            back.lemma_all_neg_filter_empty(pick);
            assert(back.filter(pick) =~= Seq::<Tally>::empty());
            assert(head.filter(pick).push(entry) + back.filter(pick) =~= (head.filter(pick)
                + back.filter(pick)).push(entry));
        }
    } else {
        assert(summary_order(tally) =~= tally);
    }
}

/// Counters of equal count stand in the summary in the order in which
/// they stand in the tally.
pub proof fn lemma_summary_is_stable(tally: Seq<Tally>)
    ensures
        stable(summary_order(tally), tally),
{
    assert forall|count: nat| #[trigger]
        summary_order(tally).filter(of_count(count)) == tally.filter(of_count(count)) by {
        lemma_summary_keeps_count(tally, count);
    }
}

/// An entry passes the test of its own count, and so stands among the
/// entries that pass it.
proof fn lemma_entry_is_picked(entries: Seq<Tally>, i: int)
    requires
        0 <= i < entries.len(),
    ensures
        entries.filter(of_count(entries[i].count)).contains(entries[i]),
        entries.filter(of_count(entries[i].count)).len() > 0,
{
    entries.lemma_filter_contains(of_count(entries[i].count), i);
}

/// Entries that pass the test of a count have that count and stand in the
/// sequence that was tested.
proof fn lemma_picked_is_entry(entries: Seq<Tally>, count: nat)
    requires
        entries.filter(of_count(count)).len() > 0,
    ensures
        exists|i: int| 0 <= i < entries.len() && (#[trigger] entries[i]).count == count,
{
    let picked = entries.filter(of_count(count));
    entries.lemma_filter_pred(of_count(count), 0);
    assert(picked.contains(picked[0]));
    entries.lemma_filter_contains_rev(of_count(count), picked[0]);
    let i = choose|i: int| 0 <= i < entries.len() && entries[i] == picked[0];
    assert(entries[i].count == count);
}

/// Two ascending sequences that hold, for each count, the same counters of
/// that count in the same order are one and the same.
pub proof fn lemma_ascending_and_stable_is_unique(a: Seq<Tally>, b: Seq<Tally>)
    requires
        ascending(a),
        ascending(b),
        stable(a, b),
    ensures
        a == b,
    decreases a.len(),
{
    if a.len() == 0 {
        if b.len() > 0 {
            lemma_entry_is_picked(b, 0);
            assert(a.filter(of_count(b[0].count)) == b.filter(of_count(b[0].count)));
            a.lemma_filter_len(of_count(b[0].count));
        }
        assert(a =~= b);
    } else {
        let top = a.last().count;
        let pick = of_count(top);
        lemma_entry_is_picked(a, a.len() - 1);
        assert(a.filter(pick) == b.filter(pick));
        lemma_picked_is_entry(b, top);
        let k = choose|k: int| 0 <= k < b.len() && (#[trigger] b[k]).count == top;
        assert(b[k].count <= b.last().count);
        lemma_entry_is_picked(b, b.len() - 1);
        assert(a.filter(of_count(b.last().count)) == b.filter(of_count(b.last().count)));
        lemma_picked_is_entry(a, b.last().count);
        let h = choose|h: int| 0 <= h < a.len() && (#[trigger] a[h]).count == b.last().count;
        assert(a[h].count <= a.last().count);
        assert(b.last().count == top);

        let front_a = a.drop_last();
        let front_b = b.drop_last();
        assert(front_a.push(a.last()) =~= a);
        assert(front_b.push(b.last()) =~= b);
        front_a.lemma_filter_push(a.last(), pick);
        front_b.lemma_filter_push(b.last(), pick);
        assert(a.last() == a.filter(pick).last());
        assert(b.last() == b.filter(pick).last());
        assert forall|count: nat| #[trigger]
            front_a.filter(of_count(count)) == front_b.filter(of_count(count)) by {
            let other = of_count(count);
            front_a.lemma_filter_push(a.last(), other);
            front_b.lemma_filter_push(b.last(), other);
            assert(a.filter(other) == b.filter(other));
            if count == top {
                assert(front_a.filter(other) =~= a.filter(other).drop_last());
                assert(front_b.filter(other) =~= b.filter(other).drop_last());
            }
        }
        assert(ascending(front_a)) by {
            assert forall|i: int, j: int| 0 <= i <= j < front_a.len() implies (
            #[trigger] front_a[i]).count <= (#[trigger] front_a[j]).count by {
                assert(a[i].count <= a[j].count);
            }
        }
        assert(ascending(front_b)) by {
            assert forall|i: int, j: int| 0 <= i <= j < front_b.len() implies (
            #[trigger] front_b[i]).count <= (#[trigger] front_b[j]).count by {
                assert(b[i].count <= b[j].count);
            }
        }
        lemma_ascending_and_stable_is_unique(front_a, front_b);
    }
}

/// The summary is the only ascending and stable order of a tally.
pub proof fn lemma_summary_is_unique(tally: Seq<Tally>, out: Seq<Tally>)
    requires
        ascending(out),
        stable(out, tally),
    ensures
        out == summary_order(tally),
{
    let summary = summary_order(tally);
    lemma_summary_is_ascending(tally);
    lemma_summary_is_stable(tally);
    assert forall|count: nat| #[trigger]
        out.filter(of_count(count)) == summary.filter(of_count(count)) by {
        assert(out.filter(of_count(count)) == tally.filter(of_count(count)));
        assert(summary.filter(of_count(count)) == tally.filter(of_count(count)));
    }
    lemma_ascending_and_stable_is_unique(out, summary);
}

/// The tally of a history is well formed, and the count of each flow is
/// the number of times that the flow stands in the history.
pub proof fn lemma_tally_is_exact(flows: Seq<FiveTuple>, flow: FiveTuple)
    ensures
        well_formed(tally_of(flows)),
        count_of(tally_of(flows), flow) == flows.to_multiset().count(flow),
        has_flow(tally_of(flows), flow) <==> flows.contains(flow),
    decreases flows.len(),
{
    broadcast use vstd::seq_lib::group_to_multiset_ensures;

    if flows.len() > 0 {
        let rest = flows.drop_last();
        let last = flows.last();
        lemma_tally_is_exact(rest, flow);
        lemma_recorded(tally_of(rest), last);
        assert(rest.push(last) =~= flows);
        vstd::seq_lib::to_multiset_build(rest, last);
        if flow != last {
            lemma_recorded_other(tally_of(rest), last, flow);
        }
        assert(flows.contains(flow) <==> (rest.contains(flow) || flow == last)) by {
            if rest.contains(flow) {
                let k = choose|k: int| 0 <= k < rest.len() && rest[k] == flow;
                assert(flows[k] == flow);
            }
            if flow == last {
                assert(flows[flows.len() - 1] == flow);
            }
        }
    } else {
        assert(flows.to_multiset() =~= vstd::multiset::Multiset::<FiveTuple>::empty());
    }
}

/// Two frames of one flow raise the same counter; two frames that differ
/// in any field of their flows raise two different counters.
pub proof fn lemma_one_counter_per_flow(tally: Seq<Tally>, first: FiveTuple, second: FiveTuple)
    requires
        well_formed(tally),
    ensures
        ({
            let once = recorded(tally, first);
            let twice = recorded(once, second);
            &&& well_formed(twice)
            &&& first == second ==> {
                &&& twice.len() == once.len()
                &&& index_of(twice, second) == index_of(once, first)
                &&& count_of(twice, first) == count_of(tally, first) + 2
            }
            &&& first != second ==> {
                &&& index_of(twice, second) != index_of(twice, first)
                &&& count_of(twice, first) == count_of(tally, first) + 1
                &&& count_of(twice, second) == count_of(tally, second) + 1
            }
        }),
{
    let once = recorded(tally, first);
    let twice = recorded(once, second);
    lemma_recorded(tally, first);
    lemma_recorded(once, second);
    if first == second {
        let at = index_of(once, first);
        assert(twice[at].flow == first);
    } else {
        lemma_recorded_other(tally, first, second);
        lemma_recorded_other(once, second, first);
    }
}

} // verus!
