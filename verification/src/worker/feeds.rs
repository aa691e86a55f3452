//! The work unit feeds of a task, as its worker sees them.

use crate::ids::deserialize_uuid;
use crate::messages::WorkUnit;
use vstd::prelude::*;

verus! {

/// One open partition of a feed, and where its work units go.
struct FeedSender<S> {
    id: u128,
    partition: usize,
    sender: S,
}

/// Where the work units of every open partition of every feed of a task go.
pub struct FeedSenders<S> {
    senders: Vec<FeedSender<S>>,
}

spec fn key_at<S>(senders: Seq<FeedSender<S>>, i: int) -> (u128, usize) {
    (senders[i].id, senders[i].partition)
}

spec fn distinct<S>(senders: Seq<FeedSender<S>>) -> bool {
    forall|i: int, j: int|
        0 <= i < j < senders.len() ==> #[trigger] key_at(senders, i) != #[trigger] key_at(
            senders,
            j,
        )
}

spec fn sender_map<S>(senders: Seq<FeedSender<S>>) -> Map<(u128, usize), S>
    decreases senders.len(),
{
    if senders.len() == 0 {
        Map::empty()
    } else {
        sender_map(senders.drop_last()).insert(
            key_at(senders, senders.len() - 1),
            senders.last().sender,
        )
    }
}

proof fn lemma_in_map<S>(senders: Seq<FeedSender<S>>, i: int)
    requires
        distinct(senders),
        0 <= i < senders.len(),
    ensures
        sender_map(senders).contains_key(key_at(senders, i)),
        sender_map(senders)[key_at(senders, i)] == senders[i].sender,
    decreases senders.len(),
{
    let before = senders.drop_last();
    if i < before.len() {
        assert forall|a: int, b: int| 0 <= a < b < before.len() implies #[trigger] key_at(before, a)
            != #[trigger] key_at(before, b) by {
            assert(key_at(senders, a) != key_at(senders, b));
        }
        lemma_in_map(before, i);
        assert(key_at(before, i) == key_at(senders, i));
        assert(key_at(senders, i) != key_at(senders, senders.len() - 1));
    }
}

proof fn lemma_position<S>(senders: Seq<FeedSender<S>>, key: (u128, usize)) -> (i: int)
    requires
        sender_map(senders).contains_key(key),
    ensures
        0 <= i < senders.len(),
        key_at(senders, i) == key,
    decreases senders.len(),
{
    if senders.len() == 0 {
        0
    } else if key_at(senders, senders.len() - 1) == key {
        senders.len() - 1
    } else {
        let i = lemma_position(senders.drop_last(), key);
        assert(key_at(senders.drop_last(), i) == key_at(senders, i));
        i
    }
}

/// The open partition that `unit` belongs to, where the keys of `senders` are the open ones.
pub open spec fn target_of<S, U>(senders: Map<(u128, usize), S>, unit: WorkUnit<U>) -> Option<
    (u128, usize),
> {
    match crate::ids::id_of(unit.id@) {
        Some(id) => if senders.contains_key((id, unit.partition as usize)) {
            Some((id, unit.partition as usize))
        } else {
            None
        },
        None => None,
    }
}

/// A work unit belongs to the partition that the coordinator addressed it to, as long as it is
/// open, and to no other.
pub proof fn work_units_reach_their_partition<S, U>(
    senders: Map<(u128, usize), S>,
    unit: WorkUnit<U>,
    id: u128,
    partition: usize,
)
    requires
        crate::coordinator::task_spawner::addressed_to(unit, id, partition),
    ensures
        target_of(senders, unit) == if senders.contains_key((id, partition)) {
            Some((id, partition))
        } else {
            None
        },
{
    crate::ids::id_round_trip(id);
}

impl<S> View for FeedSenders<S> {
    type V = Map<(u128, usize), S>;

    closed spec fn view(&self) -> Map<(u128, usize), S> {
        sender_map(self.senders@)
    }
}

impl<S> FeedSenders<S> {
    /// Every partition occurs at most once.
    pub closed spec fn wf(&self) -> bool {
        distinct(self.senders@)
    }

    /// No feed is open.
    pub fn new() -> (r: Self)
        ensures
            r.wf(),
            r@ == Map::<(u128, usize), S>::empty(),
    {
        FeedSenders { senders: Vec::new() }
    }

    fn position(&self, id: u128, partition: usize) -> (r: Option<usize>)
        requires
            self.wf(),
        ensures
            match r {
                Some(i) => i < self.senders@.len() && key_at(self.senders@, i as int) == (
                    id,
                    partition,
                ) && self@.contains_key((id, partition)) && self@[(id, partition)]
                    == self.senders@[i as int].sender,
                None => !self@.contains_key((id, partition)),
            },
    {
        let mut i: usize = 0;
        while i < self.senders.len()
            invariant
                self.wf(),
                i <= self.senders@.len(),
                forall|k: int| 0 <= k < i ==> #[trigger] key_at(self.senders@, k) != (
                    id,
                    partition,
                ),
            decreases self.senders@.len() - i,
        {
            let entry = &self.senders[i];
            if entry.id == id && entry.partition == partition {
                proof {
                    lemma_in_map(self.senders@, i as int);
                }
                return Some(i);
            }
            i += 1;
        }
        proof {
            if self@.contains_key((id, partition)) {
                let k = lemma_position(self.senders@, (id, partition));
                assert(key_at(self.senders@, k) != (id, partition));
            }
        }
        None
    }

    /// Closes a partition.
    pub fn remove(&mut self, id: u128, partition: usize)
        requires
            old(self).wf(),
        ensures
            final(self).wf(),
            final(self)@ == old(self)@.remove((id, partition)),
    {
        if let Some(i) = self.position(id, partition) {
            let ghost before = self.senders@;
            let _closed = self.senders.remove(i);
            proof {
                let after = self.senders@;
                let key = (id, partition);
                assert forall|k: int| 0 <= k < after.len() implies #[trigger] key_at(after, k)
                    == key_at(
                    before,
                    if k < i {
                        k
                    } else {
                        k + 1
                    },
                ) by {}
                assert(distinct(after)) by {
                    assert forall|a: int, b: int|
                        0 <= a < b < after.len() implies #[trigger] key_at(after, a)
                        != #[trigger] key_at(after, b) by {
                        let a0 = if a < i {
                            a
                        } else {
                            a + 1
                        };
                        let b0 = if b < i {
                            b
                        } else {
                            b + 1
                        };
                        assert(key_at(before, a0) != key_at(before, b0));
                    }
                }
                assert forall|q: (u128, usize)| #[trigger]
                    sender_map(after).contains_key(q) <==> sender_map(before).remove(
                        key,
                    ).contains_key(q) by {
                    if sender_map(after).contains_key(q) {
                        let k = lemma_position(after, q);
                        let k0 = if k < i {
                            k
                        } else {
                            k + 1
                        };
                        lemma_in_map(before, k0);
                        assert(key_at(after, k) == key_at(before, k0));
                        assert(key_at(before, k0) != key_at(before, i as int)) by {
                            if k0 < i {
                                assert(key_at(before, k0) != key_at(before, i as int));
                            } else {
                                assert(key_at(before, i as int) != key_at(before, k0));
                            }
                        }
                    }
                    if sender_map(before).remove(key).contains_key(q) {
                        let k0 = lemma_position(before, q);
                        assert(k0 != i);
                        let k = if k0 < i {
                            k0
                        } else {
                            k0 - 1
                        };
                        lemma_in_map(after, k);
                        assert(key_at(after, k) == key_at(before, k0));
                    }
                }
                assert forall|q: (u128, usize)|
                    sender_map(after).contains_key(q) implies #[trigger] sender_map(after)[q]
                    == sender_map(before)[q] by {
                    let k = lemma_position(after, q);
                    let k0 = if k < i {
                        k
                    } else {
                        k + 1
                    };
                    lemma_in_map(after, k);
                    lemma_in_map(before, k0);
                    assert(key_at(after, k) == key_at(before, k0));
                }
                assert(sender_map(after) =~= sender_map(before).remove(key));
            }
        } else {
            assert(self@ =~= old(self)@.remove((id, partition)));
        }
    }

    /// Opens a partition, in place of one that was open under the same key.
    pub fn insert(&mut self, id: u128, partition: usize, sender: S)
        requires
            old(self).wf(),
        ensures
            final(self).wf(),
            final(self)@ == old(self)@.insert((id, partition), sender),
    {
        self.remove(id, partition);
        let ghost before = self.senders@;
        self.senders.push(FeedSender { id, partition, sender });
        proof {
            let after = self.senders@;
            assert(after.drop_last() =~= before);
            assert forall|a: int, b: int| 0 <= a < b < after.len() implies #[trigger] key_at(
                after,
                a,
            ) != #[trigger] key_at(after, b) by {
                assert(key_at(after, a) == key_at(before, a));
                if b < before.len() {
                    assert(key_at(after, b) == key_at(before, b));
                    assert(key_at(before, a) != key_at(before, b));
                } else {
                    lemma_in_map(before, a);
                }
            }
            assert(self@ =~= old(self)@.insert((id, partition), sender));
        }
    }

    /// Where the work units of a partition go, while it is open.
    pub fn get(&self, id: u128, partition: usize) -> (r: Option<&S>)
        requires
            self.wf(),
        ensures
            match r {
                Some(sender) => self@.contains_key((id, partition)) && *sender == self@[(
                    id,
                    partition,
                )],
                None => !self@.contains_key((id, partition)),
            },
    {
        match self.position(id, partition) {
            Some(i) => Some(&self.senders[i].sender),
            None => None,
        }
    }

    /// The open partition that a work unit belongs to. There is none when its identifier cannot
    /// be read, or when the partition is not open.
    pub fn target<U>(&self, unit: &WorkUnit<U>) -> (r: Option<(u128, usize)>)
        requires
            self.wf(),
        ensures
            r == target_of(self@, *unit),
    {
        let id: u128 = match deserialize_uuid(&unit.id) {
            Ok(id) => id,
            Err(_) => {
                return None;
            },
        };
        let partition: usize = unit.partition as usize;
        match self.position(id, partition) {
            Some(_) => Some((id, partition)),
            None => None,
        }
    }

    /// A work unit was handed to a partition, or nobody listens there any more: then the
    /// partition is closed.
    pub fn on_sent(&mut self, target: (u128, usize), delivered: bool)
        requires
            old(self).wf(),
        ensures
            final(self).wf(),
            final(self)@ == if delivered {
                old(self)@
            } else {
                old(self)@.remove(target)
            },
    {
        if !delivered {
            self.remove(target.0, target.1);
        }
    }
}

/// A work unit goes to the open partition of the feed that its bytes and its number stand for, and
/// to none where its identifier does not have sixteen bytes or the partition is not open. A
/// partition is open from the time at which it is opened to the time at which nobody listens.
pub proof fn open_partitions_are_found<S, U>(
    opened: &mut FeedSenders<S>,
    id: u128,
    partition: usize,
    sender: S,
    unit: &WorkUnit<U>,
    target: Option<(u128, usize)>,
    gone: &mut FeedSenders<S>,
    delivered: bool,
)
    requires
        opened.wf(),
        call_ensures(FeedSenders::<S>::insert, (opened, id, partition, sender), ()),
        call_ensures(FeedSenders::<S>::target::<U>, (&*final(opened), unit), target),
        *gone == *final(opened),
        call_ensures(FeedSenders::<S>::on_sent, (gone, (id, partition), delivered), ()),
    ensures
        final(opened)@ == old(opened)@.insert((id, partition), sender),
        target matches Some(found) ==> final(opened)@.contains_key(found) && unit.id@
            == crate::ids::id_bytes(found.0) && unit.partition as usize == found.1,
        target is None ==> unit.id@.len() != 16 || forall|open: (u128, usize)| #[trigger]
            final(opened)@.contains_key(open) && crate::ids::id_bytes(open.0) == unit.id@ ==> open.1
                != unit.partition as usize,
        unit.id@ == crate::ids::id_bytes(id) && unit.partition as usize == partition ==> target
            == Some((id, partition)),
        delivered ==> final(gone)@ == old(gone)@,
        !delivered ==> final(gone)@ == old(gone)@.remove((id, partition)),
{
    crate::ids::id_round_trip(id);
    if unit.id@.len() == 16 {
        crate::ids::id_bytes_round_trip(unit.id@);
        assert forall|open: (u128, usize)| #[trigger]
            final(opened)@.contains_key(open) && crate::ids::id_bytes(open.0) == unit.id@ && target
                is None implies open.1 != unit.partition as usize by {
            crate::ids::id_round_trip(open.0);
        }
    }
}

/// A partition that was opened is found under its own key, with the sender that it was opened with,
/// until nobody listens there; and opening or closing one leaves every other as it was.
pub proof fn partitions_do_not_disturb_each_other<'a, S>(
    senders: &mut FeedSenders<S>,
    id: u128,
    partition: usize,
    sender: S,
    found: Option<&'a S>,
    closed: &mut FeedSenders<S>,
    missed: Option<&'a S>,
    other: (u128, usize),
    other_before: Option<&'a S>,
    other_open: Option<&'a S>,
    other_closed: Option<&'a S>,
)
    requires
        call_ensures(
            FeedSenders::<S>::get,
            (&*senders, other.0, other.1),
            other_before,
        ),
        call_ensures(FeedSenders::<S>::insert, (senders, id, partition, sender), ()),
        call_ensures(FeedSenders::<S>::get, (&*final(senders), id, partition), found),
        call_ensures(
            FeedSenders::<S>::get,
            (&*final(senders), other.0, other.1),
            other_open,
        ),
        *closed == *final(senders),
        call_ensures(FeedSenders::<S>::on_sent, (closed, (id, partition), false), ()),
        call_ensures(FeedSenders::<S>::get, (&*final(closed), id, partition), missed),
        call_ensures(
            FeedSenders::<S>::get,
            (&*final(closed), other.0, other.1),
            other_closed,
        ),
        other != (id, partition),
    ensures
        found matches Some(s) && *s == sender,
        missed is None,
        other_before is Some <==> other_open is Some,
        other_before is Some <==> other_closed is Some,
        other_before matches Some(s) ==> *other_open->0 == *s && *other_closed->0 == *s,
{
}

} // verus!
