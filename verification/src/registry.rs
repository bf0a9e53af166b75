//! Bookkeeping for the memory that a native library borrows through
//! allocation callbacks.
//!
//! A deallocation callback is handed an address and nothing else, while the
//! allocator that serves it wants the size back. The registry keeps the size
//! of every live block under its address, so that each release is answered
//! from the record of that very block, and a release that matches no record
//! is reported instead of guessed at.

use vstd::prelude::*;

verus! {

/// One live block.
#[derive(Clone, Copy, Debug, PartialEq, Eq, Structural)]
pub struct Allocation {
    pub address: usize,
    pub size: usize,
}

/// A callback was used against the protocol.
#[derive(Clone, Copy, Debug, PartialEq, Eq, Structural)]
pub enum AllocatorMisuse {
    /// A block was recorded at an address that is still live.
    AlreadyLive,
    /// A release was asked for an address that holds no live block.
    Unknown,
}

/// The live blocks, each under its address.
pub struct AllocationRegistry {
    live: Vec<Allocation>,
}

/// No two of the blocks share an address.
spec fn distinct_addresses(blocks: Seq<Allocation>) -> bool {
    forall|i: int, j: int|
        0 <= i < j < blocks.len() ==> (#[trigger] blocks[i]).address != (#[trigger] blocks[j]).address
}

/// Place of the block at `address` among `blocks`, if there is one.
spec fn holds(blocks: Seq<Allocation>, address: usize, at: int) -> bool {
    0 <= at < blocks.len() && blocks[at].address == address
}

impl AllocationRegistry {
    /// No two live blocks share an address. Every registry made by
    /// [`AllocationRegistry::new`] and changed by the methods below is
    /// well formed.
    pub closed spec fn well_formed(&self) -> bool {
        distinct_addresses(self.live@)
    }

    /// The sizes of the live blocks by address.
    pub closed spec fn view(&self) -> Map<usize, usize> {
        Map::new(
            |address: usize| exists|at: int| holds(self.live@, address, at),
            |address: usize| self.live@[choose|at: int| holds(self.live@, address, at)].size,
        )
    }

    /// A registry without live blocks.
    pub fn new() -> (registry: AllocationRegistry)
        ensures
            registry.well_formed(),
            registry@ == Map::<usize, usize>::empty(),
    {
        let registry = AllocationRegistry { live: Vec::new() };
        assert(registry@ =~= Map::<usize, usize>::empty()) by {
            assert forall|address: usize| !registry@.dom().contains(address) by {
                assert forall|at: int| !holds(registry.live@, address, at) by {}
            }
        }
        registry
    }

    fn find(&self, address: usize) -> (found: Option<usize>)
        requires
            self.well_formed(),
        ensures
            match found {
                Some(at) => holds(self.live@, address, at as int) && self@.dom().contains(address)
                    && self@[address] == self.live@[at as int].size,
                None => !self@.dom().contains(address) && forall|at: int|
                    !holds(self.live@, address, at),
            },
    {
        let mut i: usize = 0;
        while i < self.live.len()
            invariant
                self.well_formed(),
                i <= self.live@.len(),
                forall|at: int| 0 <= at < i ==> !holds(self.live@, address, at),
            decreases self.live@.len() - i,
        {
            if self.live[i].address == address {
                proof {
                    assert(holds(self.live@, address, i as int));
                    let chosen = choose|at: int| holds(self.live@, address, at);
                    assert(chosen == i);
                }
                return Some(i);
            }
            i += 1;
        }
        None
    }

    /// Number of live blocks.
    pub fn live_blocks(&self) -> (count: usize)
        requires
            self.well_formed(),
        ensures
            count == self@.dom().len(),
            self@.dom().finite(),
    {
        proof {
            lemma_domain_size(self.live@);
            assert(self@.dom() =~= addresses(self.live@));
        }
        self.live.len()
    }

    /// Size of the live block at `address`, if there is one.
    pub fn size_at(&self, address: usize) -> (size: Option<usize>)
        requires
            self.well_formed(),
        ensures
            size == (if self@.dom().contains(address) {
                Some(self@[address])
            } else {
                None
            }),
    {
        match self.find(address) {
            Some(at) => Some(self.live[at].size),
            None => None,
        }
    }

    /// Records a new block. An address that is still live is refused, and
    /// the registry stays as it was.
    pub fn record(&mut self, address: usize, size: usize) -> (r: Result<(), AllocatorMisuse>)
        requires
            old(self).well_formed(),
        ensures
            final(self).well_formed(),
            old(self)@.dom().contains(address) ==> r == Err::<(), AllocatorMisuse>(
                AllocatorMisuse::AlreadyLive,
            ) && final(self)@ == old(self)@,
            !old(self)@.dom().contains(address) ==> r == Ok::<(), AllocatorMisuse>(())
                && final(self)@ == old(self)@.insert(address, size),
    {
        match self.find(address) {
            Some(_) => Err(AllocatorMisuse::AlreadyLive),
            None => {
                let ghost before = self.live@;
                let ghost before_map = self@;
                self.live.push(Allocation { address, size });
                proof {
                    let after = self.live@;
                    assert(distinct_addresses(after)) by {
                        assert forall|i: int, j: int| 0 <= i < j < after.len() implies (
                        #[trigger] after[i]).address != (#[trigger] after[j]).address by {
                            if j == before.len() {
                                assert(!holds(before, address, i));
                                assert(after[i] == before[i]);
                            } else {
                                assert(after[i] == before[i] && after[j] == before[j]);
                            }
                        }
                    }
                    assert(self@ =~= before_map.insert(address, size)) by {
                        assert forall|a: usize| #[trigger]
                            self@.dom().contains(a) == before_map.insert(address, size).dom().contains(
                                a,
                            ) by {
                            if a == address {
                                assert(holds(after, a, before.len() as int));
                            } else if before_map.dom().contains(a) {
                                let at = choose|at: int| holds(before, a, at);
                                assert(holds(after, a, at));
                            } else if self@.dom().contains(a) {
                                let at = choose|at: int| holds(after, a, at);
                                assert(holds(before, a, at));
                            }
                        }
                        assert forall|a: usize| #[trigger]
                            self@.dom().contains(a) implies self@[a] == before_map.insert(
                            address,
                            size,
                        )[a] by {
                            let at = choose|at: int| holds(after, a, at);
                            if a == address {
                                assert(holds(after, a, before.len() as int));
                                assert(at == before.len());
                            } else {
                                assert(holds(before, a, at));
                                let was = choose|was: int| holds(before, a, was);
                                assert(was == at);
                            }
                        }
                    }
                }
                Ok(())
            },
        }
    }

    /// Takes the block at `address` out of the registry and returns its
    /// size. An address without a live block is refused, and the registry
    /// stays as it was.
    pub fn release(&mut self, address: usize) -> (r: Result<usize, AllocatorMisuse>)
        requires
            old(self).well_formed(),
        ensures
            final(self).well_formed(),
            old(self)@.dom().contains(address) ==> r == Ok::<usize, AllocatorMisuse>(
                old(self)@[address],
            ) && final(self)@ == old(self)@.remove(address),
            !old(self)@.dom().contains(address) ==> r == Err::<usize, AllocatorMisuse>(
                AllocatorMisuse::Unknown,
            ) && final(self)@ == old(self)@,
    {
        match self.find(address) {
            None => Err(AllocatorMisuse::Unknown),
            Some(at) => {
                let ghost before = self.live@;
                let ghost before_map = self@;
                let block = self.live.remove(at);
                proof {
                    let after = self.live@;
                    assert(after =~= before.remove(at as int));
                    assert(distinct_addresses(after)) by {
                        assert forall|i: int, j: int| 0 <= i < j < after.len() implies (
                        #[trigger] after[i]).address != (#[trigger] after[j]).address by {
                            let si = if i < at { i } else { i + 1 };
                            let sj = if j < at { j } else { j + 1 };
                            assert(after[i] == before[si] && after[j] == before[sj]);
                        }
                    }
                    assert(self@ =~= before_map.remove(address)) by {
                        assert forall|a: usize| #[trigger]
                            self@.dom().contains(a) == before_map.remove(address).dom().contains(
                                a,
                            ) by {
                            if self@.dom().contains(a) {
                                let k = choose|k: int| holds(after, a, k);
                                let sk = if k < at { k } else { k + 1 };
                                assert(holds(before, a, sk));
                                assert(after[k] == before[sk]);
                                if a == address {
                                    assert(before[sk].address == before[at as int].address);
                                }
                            }
                            if before_map.remove(address).dom().contains(a) {
                                let k = choose|k: int| holds(before, a, k);
                                let tk = if k < at { k } else { k - 1 };
                                assert(after[tk] == before[k]);
                                assert(holds(after, a, tk));
                            }
                        }
                        assert forall|a: usize| #[trigger]
                            self@.dom().contains(a) implies self@[a] == before_map.remove(
                            address,
                        )[a] by {
                            let k = choose|k: int| holds(after, a, k);
                            let sk = if k < at { k } else { k + 1 };
                            assert(after[k] == before[sk]);
                            assert(holds(before, a, sk));
                            let was = choose|was: int| holds(before, a, was);
                            assert(was == sk);
                        }
                    }
                }
                Ok(block.size)
            },
        }
    }
}

/// The addresses of the blocks.
spec fn addresses(blocks: Seq<Allocation>) -> Set<usize> {
    Set::new(|address: usize| exists|at: int| holds(blocks, address, at))
}

proof fn lemma_domain_size(blocks: Seq<Allocation>)
    requires
        distinct_addresses(blocks),
    ensures
        addresses(blocks).finite(),
        addresses(blocks).len() == blocks.len(),
    decreases blocks.len(),
{
    if blocks.len() == 0 {
        assert(addresses(blocks) =~= Set::<usize>::empty()) by {
            assert forall|a: usize| !addresses(blocks).contains(a) by {
                assert forall|at: int| !holds(blocks, a, at) by {}
            }
        }
    } else {
        let head = blocks.drop_last();
        let last = blocks.last();
        assert(distinct_addresses(head)) by {
            assert forall|i: int, j: int| 0 <= i < j < head.len() implies (#[trigger] head[i]).address
                != (#[trigger] head[j]).address by {
                assert(head[i] == blocks[i] && head[j] == blocks[j]);
            }
        }
        lemma_domain_size(head);
        assert(!addresses(head).contains(last.address)) by {
            if addresses(head).contains(last.address) {
                let at = choose|at: int| holds(head, last.address, at);
                assert(blocks[at] == head[at]);
                assert(blocks[at].address != blocks[blocks.len() - 1].address);
            }
        }
        assert(addresses(blocks) =~= addresses(head).insert(last.address)) by {
            assert forall|a: usize| addresses(blocks).contains(a) == addresses(head).insert(
                last.address,
            ).contains(a) by {
                if addresses(blocks).contains(a) {
                    let at = choose|at: int| holds(blocks, a, at);
                    if at < head.len() {
                        assert(holds(head, a, at));
                    }
                }
                if addresses(head).contains(a) {
                    let at = choose|at: int| holds(head, a, at);
                    assert(holds(blocks, a, at));
                }
                if a == last.address {
                    assert(holds(blocks, a, blocks.len() - 1));
                }
            }
        }
    }
}

/// A block that is recorded and then released comes back with the size it
/// was recorded with, and the registry is as it was before.
pub proof fn lemma_record_then_release(live: Map<usize, usize>, address: usize, size: usize)
    requires
        !live.dom().contains(address),
    ensures
        live.insert(address, size)[address] == size,
        live.insert(address, size).remove(address) == live,
{
    assert(live.insert(address, size).remove(address) =~= live);
}

} // verus!
