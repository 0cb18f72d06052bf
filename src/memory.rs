use crate::security_context::{
    spec_permits, AccessFlags, AccessType, MemoryAccess, SecurityContext, FLAG_PRIVATE_WRITE,
    FLAG_READ,
};
use vstd::prelude::*;

verus! {

/// Error of a memory access.
#[derive(Debug, Clone, Copy, PartialEq, Eq, Structural)]
pub enum MemoryError {
    /// The flags of the region that holds the address deny the access.
    MemoryAccessViolation,
    /// No region contains the address, or a region does not fit in memory.
    OutOfBounds,
}

/// A named, access-flagged, half-open byte range `[start, end)`.
#[derive(Debug, Clone)]
pub struct MemoryRegion {
    pub start: u32,
    pub end: u32,
    pub access: MemoryAccess,
    pub seq_id: u32,
    pub name: String,
}

impl MemoryRegion {
    /// Whether the region contains `addr`.
    pub open spec fn spec_contains(&self, addr: int) -> bool {
        self.start <= addr < self.end
    }

    pub fn new(start: u32, end: u32, access: MemoryAccess, seq_id: u32, name: String) -> (r: Self)
        ensures
            r.start == start,
            r.end == end,
            r.access == access,
            r.seq_id == seq_id,
            r.name == name,
    {
        Self { start, end, access, seq_id, name }
    }

    pub fn contains(&self, addr: u32) -> (r: bool)
        ensures
            r == self.spec_contains(addr as int),
    {
        self.start <= addr && addr < self.end
    }
}

/// Position of the last region below position `k` that contains `addr`, or -1.
pub open spec fn resolve_below(regions: Seq<MemoryRegion>, addr: int, k: int) -> int
    decreases k,
{
    if k <= 0 || k > regions.len() {
        -1
    } else if regions[k - 1].spec_contains(addr) {
        k - 1
    } else {
        resolve_below(regions, addr, k - 1)
    }
}

/// Position of the region that governs `addr`: of all regions that contain
/// it, the one added last, or -1 if none does.
pub open spec fn resolve(regions: Seq<MemoryRegion>, addr: int) -> int {
    resolve_below(regions, addr, regions.len() as int)
}

proof fn lemma_resolve_below(regions: Seq<MemoryRegion>, addr: int, k: int)
    requires
        0 <= k <= regions.len(),
    ensures
        -1 <= resolve_below(regions, addr, k) < k,
        resolve_below(regions, addr, k) >= 0 ==> regions[resolve_below(regions, addr, k)].spec_contains(addr),
        forall|j: int| resolve_below(regions, addr, k) < j < k ==> !(#[trigger] regions[j]).spec_contains(addr),
    decreases k,
{
    if k > 0 {
        lemma_resolve_below(regions, addr, k - 1);
    }
}

/// The byte store of the machine, partitioned into regions.
pub struct Memory {
    base_size: u32,
    stack_start: u32,
    stack_end: u32,
    stack_pointer: u32,
    data: Vec<u8>,
    memory_regions: Vec<MemoryRegion>,
    memory_seq_id: u32,
}

impl Memory {
    /// Total capacity in bytes.
    pub closed spec fn capacity(&self) -> nat {
        self.base_size as nat
    }

    /// The bytes held.
    pub closed spec fn bytes(&self) -> Seq<u8> {
        self.data@
    }

    /// The regions, in the order in which they were added.
    pub closed spec fn regions(&self) -> Seq<MemoryRegion> {
        self.memory_regions@
    }

    /// The sequence id that the next region will get.
    pub closed spec fn next_seq_id(&self) -> nat {
        self.memory_seq_id as nat
    }

    /// Start of the stack region.
    pub closed spec fn spec_stack_start(&self) -> nat {
        self.stack_start as nat
    }

    /// End of the stack region.
    pub closed spec fn spec_stack_end(&self) -> nat {
        self.stack_end as nat
    }

    /// The store holds `capacity` bytes; each region lies inside it and
    /// carries its position as sequence id, so ids are never reused and
    /// grow with each region added.
    pub open spec fn wf(&self) -> bool {
        &&& self.bytes().len() == self.capacity()
        &&& self.spec_stack_start() <= self.spec_stack_end() == self.capacity()
        &&& self.next_seq_id() == self.regions().len()
        &&& forall|i: int| 0 <= i < self.regions().len() ==> {
            &&& (#[trigger] self.regions()[i]).seq_id == i
            &&& self.regions()[i].start <= self.regions()[i].end <= self.capacity()
        }
    }

    /// What reading `addr` under `ctx` gives.
    pub open spec fn spec_read(&self, addr: int, ctx: SecurityContext) -> Result<u8, MemoryError> {
        let i = resolve(self.regions(), addr);
        if i < 0 {
            Err(MemoryError::OutOfBounds)
        } else if !spec_permits(self.regions()[i].access, ctx, AccessType::Read) {
            Err(MemoryError::MemoryAccessViolation)
        } else {
            Ok(self.bytes()[addr])
        }
    }

    /// Whether writing `addr` under `ctx` succeeds, or the error.
    pub open spec fn spec_write_check(
        &self,
        addr: int,
        ctx: SecurityContext,
    ) -> Result<(), MemoryError> {
        let i = resolve(self.regions(), addr);
        if i < 0 {
            Err(MemoryError::OutOfBounds)
        } else if !spec_permits(self.regions()[i].access, ctx, AccessType::Write) {
            Err(MemoryError::MemoryAccessViolation)
        } else {
            Ok(())
        }
    }

    /// A store of `main_memory_size + 4 * stack_capacity` zero bytes, with a
    /// `Root` region over all of it (read and write for everyone, sequence id
    /// 0) and a `Stack` region over the last `4 * stack_capacity` bytes
    /// (read for everyone, write for the system only, sequence id 1).
    pub fn new(main_memory_size: u32, stack_capacity: u32) -> (mem: Self)
        requires
            main_memory_size + 4 * stack_capacity <= u32::MAX,
        ensures
            mem.wf(),
            mem.capacity() == main_memory_size + 4 * stack_capacity,
            mem.bytes() == Seq::new(mem.capacity(), |i: int| 0u8),
            mem.spec_stack_start() == main_memory_size,
            mem.spec_stack_end() == mem.capacity(),
            mem.regions().len() == 2,
            mem.regions()[0].start == 0,
            mem.regions()[0].end == mem.capacity(),
            mem.regions()[0].access == AccessFlags::spec_read_write(),
            mem.regions()[0].seq_id == 0,
            mem.regions()[0].name@ == seq!['R', 'o', 'o', 't'],
            mem.regions()[1].start == main_memory_size,
            mem.regions()[1].end == mem.capacity(),
            mem.regions()[1].access.bits == FLAG_READ | FLAG_PRIVATE_WRITE,
            mem.regions()[1].seq_id == 1,
            mem.regions()[1].name@ == seq!['S', 't', 'a', 'c', 'k'],
    {
        // Each stack word is a 32-bit integer of 4 bytes.
        let stack_size = stack_capacity * 4;
        let memory_capacity = main_memory_size + stack_size;
        // The stack always lies at the end of memory.
        let stack_start = main_memory_size;
        let stack_end = memory_capacity;

        let mut data: Vec<u8> = Vec::new();
        let mut i: u32 = 0;
        while i < memory_capacity
            invariant
                i <= memory_capacity,
                data@ == Seq::new(i as nat, |k: int| 0u8),
            decreases memory_capacity - i,
        {
            data.push(0);
            i += 1;
            assert(data@ =~= Seq::new(i as nat, |k: int| 0u8));
        }

        let mut mem = Self {
            base_size: memory_capacity,
            stack_start,
            stack_end,
            stack_pointer: stack_end,
            data,
            memory_regions: Vec::new(),
            memory_seq_id: 0,
        };
        proof {
            reveal_strlit("Root");
            reveal_strlit("Stack");
        }
        mem.push_region(0, memory_capacity, AccessFlags::read_write(), String::from_str("Root"));
        // The stack is public read, private write: only the system changes it.
        mem.push_region(
            stack_start,
            stack_end,
            AccessFlags::read().union(AccessFlags::private_write()),
            String::from_str("Stack"),
        );
        mem
    }

    /// Capacity in bytes.
    pub fn len(&self) -> (r: usize)
        requires
            self.wf(),
        ensures
            r == self.capacity(),
    {
        self.data.len()
    }

    /// The regions, in the order in which they were added.
    pub fn memory_regions(&self) -> (r: &Vec<MemoryRegion>)
        ensures
            r@ == self.regions(),
    {
        &self.memory_regions
    }

    /// Start of the stack region.
    pub fn stack_start(&self) -> (r: u32)
        ensures
            r == self.spec_stack_start(),
    {
        self.stack_start
    }

    /// End of the stack region.
    pub fn stack_end(&self) -> (r: u32)
        ensures
            r == self.spec_stack_end(),
    {
        self.stack_end
    }

    fn push_region(&mut self, start: u32, end: u32, access: MemoryAccess, name: String)
        requires
            old(self).wf(),
            start <= end <= old(self).capacity(),
            old(self).next_seq_id() < u32::MAX,
        ensures
            final(self).wf(),
            final(self).capacity() == old(self).capacity(),
            final(self).bytes() == old(self).bytes(),
            final(self).spec_stack_start() == old(self).spec_stack_start(),
            final(self).spec_stack_end() == old(self).spec_stack_end(),
            final(self).regions() == old(self).regions().push(
                MemoryRegion { start, end, access, seq_id: old(self).next_seq_id() as u32, name },
            ),
    {
        let region = MemoryRegion::new(start, end, access, self.memory_seq_id, name);
        self.memory_regions.push(region);
        // A sequence id is never reused.
        self.memory_seq_id += 1;
    }

    /// Adds the region `[start, end)` with the next sequence id, which it
    /// returns. Fails with `OutOfBounds`, changing nothing, unless
    /// `start < end <= capacity`.
    pub fn add_memory_region(
        &mut self,
        start: u32,
        end: u32,
        access: MemoryAccess,
        name: String,
    ) -> (r: Result<u32, MemoryError>)
        requires
            old(self).wf(),
            old(self).next_seq_id() < u32::MAX,
        ensures
            final(self).wf(),
            final(self).capacity() == old(self).capacity(),
            final(self).bytes() == old(self).bytes(),
            final(self).spec_stack_start() == old(self).spec_stack_start(),
            final(self).spec_stack_end() == old(self).spec_stack_end(),
            start < end <= old(self).capacity() ==> r == Ok::<u32, MemoryError>(old(self).next_seq_id() as u32)
                && final(self).regions() == old(self).regions().push(
                MemoryRegion { start, end, access, seq_id: old(self).next_seq_id() as u32, name },
            ),
            !(start < end <= old(self).capacity()) ==> r == Err::<u32, MemoryError>(MemoryError::OutOfBounds)
                && final(self).regions() == old(self).regions(),
    {
        if !(start < end && (end as usize) <= self.data.len()) {
            return Err(MemoryError::OutOfBounds);
        }
        let id = self.memory_seq_id;
        self.push_region(start, end, access, name);
        Ok(id)
    }

    /// Position of the region that governs `addr`.
    fn resolve_region(&self, addr: u32) -> (r: Option<usize>)
        ensures
            match r {
                Some(i) => i as int == resolve(self.regions(), addr as int) && i < self.regions().len(),
                None => resolve(self.regions(), addr as int) == -1,
            },
    {
        let mut k: usize = self.memory_regions.len();
        while k > 0
            invariant
                k <= self.regions().len(),
                resolve(self.regions(), addr as int) == resolve_below(self.regions(), addr as int, k as int),
            decreases k,
        {
            if self.memory_regions[k - 1].contains(addr) {
                return Some(k - 1);
            }
            k -= 1;
        }
        None
    }

    /// The byte at `addr`, if the region that governs it lets `ctx` read.
    pub fn read(&self, addr: u32, security_context: SecurityContext) -> (r: Result<u8, MemoryError>)
        requires
            self.wf(),
        ensures
            r == self.spec_read(addr as int, security_context),
    {
        match self.resolve_region(addr) {
            None => Err(MemoryError::OutOfBounds),
            Some(i) => {
                proof {
                    lemma_resolve_below(self.regions(), addr as int, self.regions().len() as int);
                }
                if self.memory_regions[i].access.permits(security_context, AccessType::Read) {
                    Ok(self.data[addr as usize])
                } else {
                    Err(MemoryError::MemoryAccessViolation)
                }
            },
        }
    }

    /// Stores `value` at `addr`, if the region that governs it lets `ctx`
    /// write; on failure memory is left as it was.
    pub fn write(
        &mut self,
        addr: u32,
        value: u8,
        security_context: SecurityContext,
    ) -> (r: Result<(), MemoryError>)
        requires
            old(self).wf(),
        ensures
            final(self).wf(),
            r == old(self).spec_write_check(addr as int, security_context),
            final(self).regions() == old(self).regions(),
            final(self).capacity() == old(self).capacity(),
            final(self).spec_stack_start() == old(self).spec_stack_start(),
            final(self).spec_stack_end() == old(self).spec_stack_end(),
            r is Ok ==> final(self).bytes() == old(self).bytes().update(addr as int, value),
            r is Err ==> final(self).bytes() == old(self).bytes(),
    {
        match self.resolve_region(addr) {
            None => Err(MemoryError::OutOfBounds),
            Some(i) => {
                proof {
                    lemma_resolve_below(self.regions(), addr as int, self.regions().len() as int);
                }
                if self.memory_regions[i].access.permits(security_context, AccessType::Write) {
                    self.data.set(addr as usize, value);
                    Ok(())
                } else {
                    Err(MemoryError::MemoryAccessViolation)
                }
            },
        }
    }
}

impl Memory {
    /// Copies `image` into memory from address `start` on, as the host does
    /// when it loads a program: no region's flags are consulted. Fails with
    /// `OutOfBounds`, changing nothing, unless the image fits in memory.
    pub fn load_image(&mut self, start: u32, image: &Vec<u8>) -> (r: Result<(), MemoryError>)
        requires
            old(self).wf(),
        ensures
            final(self).wf(),
            final(self).regions() == old(self).regions(),
            final(self).capacity() == old(self).capacity(),
            final(self).spec_stack_start() == old(self).spec_stack_start(),
            final(self).spec_stack_end() == old(self).spec_stack_end(),
            final(self).next_seq_id() == old(self).next_seq_id(),
            start + image@.len() <= old(self).capacity() ==> r is Ok && final(self).bytes() == old(
                self,
            ).bytes().take(start as int) + image@ + old(self).bytes().skip(start + image@.len()),
            !(start + image@.len() <= old(self).capacity()) ==> r == Err::<(), MemoryError>(MemoryError::OutOfBounds)
                && final(self).bytes() == old(self).bytes(),
    {
        let n = image.len();
        if n > self.data.len() || start as usize > self.data.len() - n {
            return Err(MemoryError::OutOfBounds);
        }
        let base = start as usize;
        let mut i: usize = 0;
        while i < n
            invariant
                base == start,
                base + n <= usize::MAX,
                n == image@.len(),
                start + n <= self.data@.len(),
                i <= n,
                self.data@.len() == old(self).data@.len(),
                self.memory_regions == old(self).memory_regions,
                self.base_size == old(self).base_size,
                self.stack_start == old(self).stack_start,
                self.stack_end == old(self).stack_end,
                self.memory_seq_id == old(self).memory_seq_id,
                forall|k: int| 0 <= k < self.data@.len() ==> #[trigger] self.data@[k] == if start <= k < start + i {
                    image@[k - start]
                } else {
                    old(self).data@[k]
                },
            decreases n - i,
        {
            let addr: usize = base + i;
            self.data.set(addr, image[i]);
            i += 1;
        }
        assert(self.bytes() =~= old(self).bytes().take(start as int) + image@ + old(self).bytes().skip(start + image@.len()));
        Ok(())
    }
}

/// Of all regions that contain an address, the one that governs it has the
/// highest sequence id.
pub proof fn lemma_resolve_highest_seq_id(mem: &Memory, addr: int, j: int)
    requires
        mem.wf(),
        0 <= j < mem.regions().len(),
        mem.regions()[j].spec_contains(addr),
    ensures
        resolve(mem.regions(), addr) >= 0,
        mem.regions()[resolve(mem.regions(), addr)].spec_contains(addr),
        mem.regions()[j].seq_id <= mem.regions()[resolve(mem.regions(), addr)].seq_id,
{
    lemma_resolve_below(mem.regions(), addr, mem.regions().len() as int);
    let i = resolve(mem.regions(), addr);
    assert(mem.regions()[i].seq_id == i);
    assert(mem.regions()[j].seq_id == j);
}

} // verus!
