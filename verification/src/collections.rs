//! The lists of fixed size that a network is initialised with, kept in the collections of
//! `heapless`.
//!
//! What a collection holds is recorded beside it, in a ghost field that only the functions in this
//! file can see. Their contracts say what the `heapless` method they call does to it.

use crate::subdevice::SubDevice;
use vstd::prelude::*;

verus! {

/// A `heapless::deque::Deque` of SubDevices, which has room for `N` of them.
#[verifier::external_body]
struct RawQueue<const N: usize> {
    inner: heapless::deque::Deque<SubDevice, N>,
}

/// A `heapless::index_map::FnvIndexMap` from the numbers of groups to what the caller knows them
/// by, which has room for `N` of them. `N` must be a power of two greater than one.
#[verifier::external_body]
struct RawMap<const N: usize> {
    inner: heapless::index_map::FnvIndexMap<usize, usize, N>,
}

/// A queue with room for `N` SubDevices.
pub struct SubDeviceQueue<const N: usize> {
    raw: RawQueue<N>,
    items: Ghost<Seq<SubDevice>>,
    front: Ghost<int>,
}

impl<const N: usize> SubDeviceQueue<N> {
    /// The SubDevices in the queue, the first to leave it first.
    pub closed spec fn items(&self) -> Seq<SubDevice> {
        self.items@
    }

    /// Where the first SubDevice lies among the `N` places of the queue.
    pub closed spec fn front(&self) -> int {
        self.front@
    }

    /// Calls `heapless::deque::Deque::new`: the queue is empty, and starts at the first of its
    /// places. With no places at all it does not compile.
    #[verifier::external_body]
    pub(crate) fn new() -> (r: SubDeviceQueue<N>)
        ensures
            r.items() == Seq::<SubDevice>::empty(),
            r.front() == 0,
    {
        SubDeviceQueue {
            raw: RawQueue { inner: heapless::deque::Deque::new() },
            items: Ghost(Seq::empty()),
            front: Ghost(0),
        }
    }

    /// Calls `heapless::deque::Deque::push_back`: the SubDevice goes to the end of the queue, or,
    /// where all `N` places are taken, comes back and leaves the queue as it was.
    #[verifier::external_body]
    pub(crate) fn push_back(&mut self, item: SubDevice) -> (r: Result<(), SubDevice>)
        ensures
            r is Ok <==> (old(self).items().len() < N),
            r is Ok ==> final(self).items() == old(self).items().push(item),
            r matches Err(back) ==> back == item && final(self).items() == old(self).items(),
            final(self).front() == old(self).front(),
    {
        self.raw.inner.push_back(item)
    }

    /// Calls `heapless::deque::Deque::pop_front`: the first SubDevice leaves the queue, if there is
    /// one, and the queue then starts one place further on, going round.
    #[verifier::external_body]
    pub(crate) fn pop_front(&mut self) -> (r: Option<SubDevice>)
        ensures
            r is None <==> (old(self).items().len() == 0),
            r matches Some(item) ==> {
                &&& item == old(self).items()[0]
                &&& final(self).items() == old(self).items().skip(1)
                &&& final(self).front() == (old(self).front() + 1) % (N as int)
            },
            r is None ==> final(self).items() == old(self).items() && final(self).front() == old(
                self,
            ).front(),
    {
        self.raw.inner.pop_front()
    }

    /// Calls `heapless::deque::Deque::as_mut_slices` and gives the first of the two slices: the
    /// SubDevices from the start of the queue up to the end of it or up to the last of its places,
    /// whichever comes first. What is written to the slice is written to the queue.
    #[verifier::external_body]
    pub(crate) fn first_slice_mut(&mut self) -> (r: &mut [SubDevice])
        ensures
            r@.len() == (if old(self).front() + old(self).items().len() <= N {
                old(self).items().len() as int
            } else {
                N - old(self).front()
            }),
            r@ == old(self).items().take(r@.len() as int),
            final(r)@.len() == r@.len(),
            final(self).items() == final(r)@ + old(self).items().skip(r@.len() as int),
            final(self).front() == old(self).front(),
    {
        self.raw.inner.as_mut_slices().0
    }
}

/// A group that SubDevices were assigned to.
#[derive(Clone, Copy, Debug, PartialEq, Eq, Structural)]
pub struct GroupRef {
    /// The number of the group, which no other group has.
    pub id: usize,
    /// What the caller knows the group by.
    pub handle: usize,
}

/// The place of a group number in a list of groups.
pub open spec fn place_of(groups: Seq<GroupRef>, id: usize) -> Option<int>
    decreases groups.len(),
{
    if groups.len() == 0 {
        None
    } else if groups.last().id == id {
        Some(groups.len() - 1)
    } else {
        place_of(groups.drop_last(), id)
    }
}

/// A table with room for `N` groups.
pub struct GroupMap<const N: usize> {
    raw: RawMap<N>,
    groups: Ghost<Seq<GroupRef>>,
}

impl<const N: usize> GroupMap<N> {
    /// The groups in the table, in the order in which their numbers came into it.
    pub closed spec fn groups(&self) -> Seq<GroupRef> {
        self.groups@
    }

    /// Calls `heapless::index_map::FnvIndexMap::new`: the table is empty. Where `N` is not a power
    /// of two greater than one, it does not compile.
    #[verifier::external_body]
    pub(crate) fn new() -> (r: GroupMap<N>)
        ensures
            r.groups() == Seq::<GroupRef>::empty(),
    {
        GroupMap {
            raw: RawMap { inner: heapless::index_map::FnvIndexMap::new() },
            groups: Ghost(Seq::empty()),
        }
    }

    /// Calls `heapless::index_map::FnvIndexMap::insert`: where the number is in the table, its
    /// handle is replaced in place, and the old one comes back; else the group goes to the end of
    /// the table; or, where the table is full, it comes back and leaves the table as it was. The
    /// table cannot be relied on beyond the places that sixteen bits number.
    #[verifier::external_body]
    pub(crate) fn insert(&mut self, id: usize, handle: usize) -> (r: Result<
        Option<usize>,
        (usize, usize),
    >)
        requires
            old(self).groups().len() < 0xffff,
        ensures
            match place_of(old(self).groups(), id) {
                Some(at) => {
                    &&& r == Ok::<Option<usize>, (usize, usize)>(
                        Some(old(self).groups()[at].handle),
                    )
                    &&& final(self).groups() == old(self).groups().update(
                        at,
                        GroupRef { id, handle },
                    )
                },
                None => if old(self).groups().len() < N {
                    &&& r == Ok::<Option<usize>, (usize, usize)>(None)
                    &&& final(self).groups() == old(self).groups().push(GroupRef { id, handle })
                } else {
                    &&& r == Err::<Option<usize>, (usize, usize)>((id, handle))
                    &&& final(self).groups() == old(self).groups()
                },
            },
    {
        self.raw.inner.insert(id, handle)
    }

    /// Calls `heapless::index_map::FnvIndexMap::into_iter` and runs through it: the groups come
    /// out last in, first out.
    #[verifier::external_body]
    pub(crate) fn into_groups(self) -> (r: Vec<GroupRef>)
        ensures
            r@ == self.groups().reverse(),
    {
        self.raw.inner.into_iter().map(|(id, handle)| GroupRef { id, handle }).collect()
    }
}

} // verus!
