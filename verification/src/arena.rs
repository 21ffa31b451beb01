//! The guest-owned linear allocator.
//!
//! The guest and host share one linear address space with no garbage
//! collector: the guest reserves byte ranges here, stages outgoing buffers
//! in them, and either releases a range itself or hands its location to the
//! host, which then becomes responsible for releasing it.  The allocator is
//! a non-reclaiming arena: the watermark only grows, a freed range is never
//! reused, and address zero is reserved as the null address.
//!
//! Every live allocation is recorded as a [`Region`]; the well-formedness
//! invariant [`Arena::wf`] keeps all live regions pairwise disjoint, which
//! is the single-owner discipline the boundary depends on.

use vstd::prelude::*;
use vstd::string::StringSliceAdditionalSpecFns;

verus! {

/// One allocated byte range: `size` bytes starting at address `ptr`.
#[derive(Clone, Copy, PartialEq, Eq, Structural, Debug)]
pub struct Region {
    pub ptr: u32,
    pub size: u32,
}

/// Two regions occupy disjoint address ranges.
pub open spec fn region_disjoint(a: Region, b: Region) -> bool {
    a.ptr + a.size <= b.ptr || b.ptr + b.size <= a.ptr
}

/// The lowest address the arena ever hands out; addresses below it, in
/// particular the null address zero, never belong to an allocation.
pub const ARENA_BASE: u32 = 8;

/// The guest's arena: a byte store indexed by address, and the record of
/// the currently live allocations.
pub struct Arena {
    data: Vec<u8>,
    live: Vec<Region>,
}

impl Arena {
    /// The bytes of the arena; the byte at address `a` is `self.mem()[a]`.
    pub closed spec fn mem(&self) -> Seq<u8> {
        self.data@
    }

    /// The currently live allocations, oldest first.
    pub closed spec fn regions(&self) -> Seq<Region> {
        self.live@
    }

    /// The watermark: every address at or above it is still unreserved.
    pub open spec fn watermark(&self) -> int {
        self.mem().len() as int
    }

    /// Well-formedness: the watermark stays within the 32-bit address
    /// space, every live region lies between the base and the watermark,
    /// has a non-zero size, and no two live regions overlap.
    pub open spec fn wf(&self) -> bool {
        &&& ARENA_BASE <= self.watermark() <= u32::MAX
        &&& forall|i: int|
            0 <= i < self.regions().len() ==> {
                &&& (#[trigger] self.regions()[i]).size > 0
                &&& self.regions()[i].ptr >= ARENA_BASE
                &&& self.regions()[i].ptr + self.regions()[i].size <= self.watermark()
            }
        &&& forall|i: int, j: int|
            0 <= i < self.regions().len() && 0 <= j < self.regions().len() && i != j
                ==> region_disjoint(
                #[trigger] self.regions()[i],
                #[trigger] self.regions()[j],
            )
    }

    /// A region of this location and size is currently live.
    pub open spec fn is_live(&self, ptr: u32, size: u32) -> bool {
        exists|i: int|
            0 <= i < self.regions().len() && #[trigger] self.regions()[i] == Region { ptr, size }
    }

    /// A fresh arena with no allocations and the watermark at the base.
    pub fn new() -> (r: Arena)
        ensures
            r.wf(),
            r.regions().len() == 0,
            r.watermark() == ARENA_BASE,
    {
        let mut data: Vec<u8> = Vec::new();
        let mut i: u32 = 0;
        while i < ARENA_BASE
            invariant
                i <= ARENA_BASE,
                data@.len() == i,
            decreases ARENA_BASE - i,
        {
            data.push(0);
            i = i + 1;
        }
        Arena { data, live: Vec::new() }
    }

    /// Reserves `size` bytes and returns their start address, or the null
    /// address when `size` is zero or the address space is exhausted.  A
    /// successful allocation starts at the old watermark, so it is disjoint
    /// from every allocation that came before it, live or freed.
    pub fn allocate(&mut self, size: u32) -> (r: u32)
        requires
            old(self).wf(),
        ensures
            final(self).wf(),
            r == 0 <==> (size == 0 || old(self).watermark() + size > u32::MAX),
            r != 0 ==> {
                &&& r == old(self).watermark()
                &&& final(self).watermark() == old(self).watermark() + size
                &&& final(self).regions() == old(self).regions().push(Region { ptr: r, size })
                &&& final(self).mem().take(old(self).watermark()) == old(self).mem()
            },
            r == 0 ==> *final(self) == *old(self),
    {
        if size == 0 {
            return 0;
        }
        if self.data.len() > (u32::MAX - size) as usize {
            assert(old(self).watermark() + size > u32::MAX);
            return 0;
        }
        let ptr: u32 = self.data.len() as u32;
        let mut added: u32 = 0;
        while added < size
            invariant
                added <= size,
                self.data@.len() == old(self).mem().len() + added,
                self.data@.take(old(self).mem().len() as int) == old(self).mem(),
                self.live == old(self).live,
            decreases size - added,
        {
            self.data.push(0);
            assert(self.data@.take(old(self).mem().len() as int) == old(self).mem());
            added = added + 1;
        }
        self.live.push(Region { ptr, size });
        assert forall|i: int, j: int|
            0 <= i < self.regions().len() && 0 <= j < self.regions().len() && i
                != j implies region_disjoint(
            #[trigger] self.regions()[i],
            #[trigger] self.regions()[j],
        ) by {
            let n = old(self).regions().len() as int;
            if i < n && j < n {
                assert(region_disjoint(old(self).regions()[i], old(self).regions()[j]));
            } else if i < n {
                assert(self.regions()[j] == (Region { ptr, size }));
                assert(old(self).regions()[i].ptr + old(self).regions()[i].size <= ptr);
            } else {
                assert(self.regions()[i] == (Region { ptr, size }));
                assert(old(self).regions()[j].ptr + old(self).regions()[j].size <= ptr);
            }
        }
        ptr
    }

    /// Releases the live region that starts at `ptr` with exactly `size`
    /// bytes.  A null address or zero size is ignored, as a release of a
    /// buffer that never existed.  The single-owner rule makes any other
    /// mismatched pair the caller's fault, so it is ruled out here rather
    /// than detected.
    pub fn deallocate(&mut self, ptr: u32, size: u32)
        requires
            old(self).wf(),
            ptr != 0 && size != 0 ==> old(self).is_live(ptr, size),
        ensures
            final(self).wf(),
            final(self).mem() == old(self).mem(),
            ptr == 0 || size == 0 ==> *final(self) == *old(self),
            ptr != 0 && size != 0 ==> exists|i: int|
                {
                    &&& 0 <= i < old(self).regions().len()
                    &&& old(self).regions()[i] == (Region { ptr, size })
                    &&& final(self).regions() == old(self).regions().remove(i)
                },
            !final(self).is_live(ptr, size),
    {
        if ptr == 0 || size == 0 {
            proof {
                assert forall|i: int|
                    0 <= i < self.regions().len() implies #[trigger] self.regions()[i] != (Region {
                    ptr,
                    size,
                }) by {
                    assert(self.regions()[i].size > 0 && self.regions()[i].ptr >= ARENA_BASE);
                }
            }
            return ;
        }
        let target = Region { ptr, size };
        let mut i: usize = 0;
        while i < self.live.len()
            invariant
                *self == *old(self),
                old(self).wf(),
                ptr != 0,
                size != 0,
                i <= self.live.len(),
                forall|k: int| 0 <= k < i ==> #[trigger] self.live@[k] != target,
                old(self).is_live(ptr, size),
                target == (Region { ptr, size }),
            decreases self.live.len() - i,
        {
            let r = self.live[i];
            if r.ptr == ptr && r.size == size {
                self.live.remove(i);
                proof {
                    let gi = i as int;
                    assert(old(self).regions()[gi] == (Region { ptr, size }));
                    assert(self.regions() == old(self).regions().remove(gi));
                    assert forall|a: int, b: int|
                        0 <= a < self.regions().len() && 0 <= b < self.regions().len() && a
                            != b implies region_disjoint(
                        #[trigger] self.regions()[a],
                        #[trigger] self.regions()[b],
                    ) by {
                        let a0 = if a < gi {
                            a
                        } else {
                            a + 1
                        };
                        let b0 = if b < gi {
                            b
                        } else {
                            b + 1
                        };
                        assert(region_disjoint(old(self).regions()[a0], old(self).regions()[b0]));
                    }
                    assert forall|k: int|
                        0 <= k < self.regions().len() implies #[trigger] self.regions()[k]
                        != target by {
                        let k0 = if k < gi {
                            k
                        } else {
                            k + 1
                        };
                        assert(old(self).regions()[k0] == self.regions()[k]);
                        if old(self).regions()[k0] == target {
                            assert(!region_disjoint(old(self).regions()[k0], old(self).regions()[gi]));
                        }
                    }
                }
                return ;
            }
            i = i + 1;
        }
        proof {
            let w = choose|w: int|
                0 <= w < old(self).regions().len() && #[trigger] old(self).regions()[w] == (Region {
                    ptr,
                    size,
                });
            assert(self.live@[w] != target);
            assert(false);
        }
    }

    /// Fills the live region starting at `ptr` with the given bytes, which
    /// must have exactly the region's size.  Bytes outside the region are
    /// untouched.
    pub fn write(&mut self, ptr: u32, bytes: &[u8])
        requires
            old(self).wf(),
            old(self).is_live(ptr, bytes@.len() as u32),
            bytes@.len() <= u32::MAX,
        ensures
            final(self).wf(),
            final(self).regions() == old(self).regions(),
            final(self).mem().len() == old(self).mem().len(),
            final(self).mem().subrange(ptr as int, ptr + bytes@.len()) == bytes@,
            forall|a: int|
                0 <= a < final(self).mem().len() && !(ptr <= a < ptr + bytes@.len())
                    ==> final(self).mem()[a] == old(self).mem()[a],
    {
        proof {
            let w = choose|w: int|
                0 <= w < old(self).regions().len() && #[trigger] old(self).regions()[w] == (Region {
                    ptr,
                    size: bytes@.len() as u32,
                });
            assert(ptr + bytes@.len() <= old(self).watermark());
        }
        let total: usize = self.data.len();
        let mut i: usize = 0;
        while i < bytes.len()
            invariant
                i <= bytes@.len(),
                ptr + bytes@.len() <= self.mem().len(),
                self.mem().len() == total,
                self.live == old(self).live,
                self.mem().len() == old(self).mem().len(),
                self.mem().subrange(ptr as int, ptr + i) == bytes@.take(i as int),
                forall|a: int|
                    0 <= a < self.mem().len() && !(ptr <= a < ptr + i) ==> self.mem()[a] == old(
                        self,
                    ).mem()[a],
                old(self).wf(),
            decreases bytes@.len() - i,
        {
            let addr: usize = (ptr as usize) + i;
            self.data.set(addr, bytes[i]);
            proof {
                assert(self.mem().subrange(ptr as int, ptr + i + 1) =~= bytes@.take(i + 1));
            }
            i = i + 1;
        }
        proof {
            assert(self.mem().subrange(ptr as int, ptr + bytes@.len()) =~= bytes@);
        }
    }

    /// Copies `len` bytes starting at address `ptr` out of the arena.
    pub fn read(&self, ptr: u32, len: u32) -> (r: Vec<u8>)
        requires
            self.wf(),
            ptr + len <= self.watermark(),
        ensures
            r@ == self.mem().subrange(ptr as int, ptr + len),
    {
        let total: usize = self.data.len();
        let mut out: Vec<u8> = Vec::new();
        let mut i: u32 = 0;
        while i < len
            invariant
                i <= len,
                ptr + len <= self.mem().len(),
                self.mem().len() == total,
                out@ == self.mem().subrange(ptr as int, ptr + i),
            decreases len - i,
        {
            out.push(self.data[(ptr as usize) + (i as usize)]);
            proof {
                assert(out@ =~= self.mem().subrange(ptr as int, ptr + i + 1));
            }
            i = i + 1;
        }
        out
    }
}

impl Arena {
    /// Copies a string into a freshly allocated buffer and returns its
    /// location, transferring responsibility for the buffer to the
    /// caller.  The empty string needs no buffer and yields the null
    /// location.  Fails only when the string cannot fit the remaining
    /// 32-bit address space.
    pub fn string_to_pointer(&mut self, s: &str) -> (r: Option<(u32, u32)>)
        requires
            old(self).wf(),
        ensures
            final(self).wf(),
            match r {
                Some(pl) => if pl.0 == 0 {
                    &&& s@.len() == 0
                    &&& pl.1 == 0
                    &&& *final(self) == *old(self)
                } else {
                    &&& pl.1 == s.spec_bytes().len()
                    &&& final(self).is_live(pl.0, pl.1)
                    &&& final(self).mem().subrange(pl.0 as int, pl.0 + pl.1) == s.spec_bytes()
                },
                None => s.spec_bytes().len() > u32::MAX || old(self).watermark()
                    + s.spec_bytes().len() > u32::MAX,
            },
    {
        let b = s.as_bytes();
        if b.len() == 0 {
            return Some((0, 0));
        }
        if b.len() > u32::MAX as usize {
            return None;
        }
        let size: u32 = b.len() as u32;
        let ptr = self.allocate(size);
        if ptr == 0 {
            return None;
        }
        proof {
            assert(self.regions()[self.regions().len() - 1] == (Region { ptr, size }));
        }
        self.write(ptr, b);
        Some((ptr, size))
    }
}


/// No two live allocations overlap, in every well-formed arena; the
/// allocator's operations all preserve well-formedness, so this holds after
/// any allocate/deallocate sequence that respects the single-owner rule.
pub proof fn lemma_live_allocations_disjoint(a: &Arena, i: int, j: int)
    requires
        a.wf(),
        0 <= i < a.regions().len(),
        0 <= j < a.regions().len(),
        i != j,
    ensures
        region_disjoint(a.regions()[i], a.regions()[j]),
{
}

} // verus!
