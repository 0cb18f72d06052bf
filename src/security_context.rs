use vstd::prelude::*;

verus! {

/// Privilege level of the code path that touches a register or a memory cell.
#[derive(Debug, Clone, Copy, PartialEq, Eq, Structural)]
pub enum SecurityContext {
    User,
    System,
}

/// The kind of access that is being checked against a flag set.
#[derive(Debug, Clone, Copy, PartialEq, Eq, Structural)]
pub enum AccessType {
    Read,
    Write,
}

/// Bit of the "no access" flag.
pub const FLAG_NONE: u8 = 1;

/// Bit of the public read flag.
pub const FLAG_READ: u8 = 2;

/// Bit of the public write flag.
pub const FLAG_WRITE: u8 = 4;

/// Bit of the private (system only) read flag.
pub const FLAG_PRIVATE_READ: u8 = 8;

/// Bit of the private (system only) write flag.
pub const FLAG_PRIVATE_WRITE: u8 = 16;

/// A set of access flags, held as a bitmask.
#[derive(Debug, Clone, Copy, PartialEq, Eq, Structural)]
pub struct AccessFlags {
    pub bits: u8,
}

/// Access flags of a register.
pub type RegisterAccess = AccessFlags;

/// Access flags of a memory region.
pub type MemoryAccess = AccessFlags;

/// Whether every bit of `flag` is set in `bits`.
pub open spec fn has_bits(bits: u8, flag: u8) -> bool {
    bits & flag == flag
}

/// Whether a flag set grants an access of the given kind under a context:
/// the public flag grants it to everyone, the private flag to `System` only.
pub open spec fn spec_permits(flags: AccessFlags, ctx: SecurityContext, kind: AccessType) -> bool {
    let (public, private) = match kind {
        AccessType::Read => (FLAG_READ, FLAG_PRIVATE_READ),
        AccessType::Write => (FLAG_WRITE, FLAG_PRIVATE_WRITE),
    };
    has_bits(flags.bits, public) || (ctx == SecurityContext::System && has_bits(flags.bits, private))
}

impl AccessFlags {
    pub fn from_bits(bits: u8) -> (r: AccessFlags)
        ensures
            r.bits == bits,
    {
        AccessFlags { bits }
    }

    pub fn bits(&self) -> (r: u8)
        ensures
            r == self.bits,
    {
        self.bits
    }

    pub fn none() -> (r: AccessFlags)
        ensures
            r.bits == FLAG_NONE,
    {
        AccessFlags { bits: FLAG_NONE }
    }

    pub fn read() -> (r: AccessFlags)
        ensures
            r.bits == FLAG_READ,
    {
        AccessFlags { bits: FLAG_READ }
    }

    pub fn write() -> (r: AccessFlags)
        ensures
            r.bits == FLAG_WRITE,
    {
        AccessFlags { bits: FLAG_WRITE }
    }

    pub fn private_read() -> (r: AccessFlags)
        ensures
            r.bits == FLAG_PRIVATE_READ,
    {
        AccessFlags { bits: FLAG_PRIVATE_READ }
    }

    pub fn private_write() -> (r: AccessFlags)
        ensures
            r.bits == FLAG_PRIVATE_WRITE,
    {
        AccessFlags { bits: FLAG_PRIVATE_WRITE }
    }

    /// Read and write for everyone.
    pub open spec fn spec_read_write() -> AccessFlags {
        AccessFlags { bits: FLAG_READ | FLAG_WRITE }
    }

    /// Read and write for everyone: the default flags of a register.
    pub fn read_write() -> (r: AccessFlags)
        ensures
            r == AccessFlags::spec_read_write(),
    {
        AccessFlags { bits: FLAG_READ | FLAG_WRITE }
    }

    /// The flags set in either operand.
    pub fn union(self, other: AccessFlags) -> (r: AccessFlags)
        ensures
            r.bits == self.bits | other.bits,
    {
        AccessFlags { bits: self.bits | other.bits }
    }

    /// The flags set in both operands.
    pub fn intersection(self, other: AccessFlags) -> (r: AccessFlags)
        ensures
            r.bits == self.bits & other.bits,
    {
        AccessFlags { bits: self.bits & other.bits }
    }

    /// Whether every flag of `other` is set in `self`.
    pub fn contains(&self, other: AccessFlags) -> (r: bool)
        ensures
            r == has_bits(self.bits, other.bits),
    {
        self.bits & other.bits == other.bits
    }

    /// Whether these flags grant an access of the given kind under `ctx`.
    pub fn permits(&self, ctx: SecurityContext, kind: AccessType) -> (r: bool)
        ensures
            r == spec_permits(*self, ctx, kind),
    {
        let (public, private) = match kind {
            AccessType::Read => (FLAG_READ, FLAG_PRIVATE_READ),
            AccessType::Write => (FLAG_WRITE, FLAG_PRIVATE_WRITE),
        };
        self.bits & public == public || (matches!(ctx, SecurityContext::System) && self.bits
            & private == private)
    }
}

/// The private flags are distinct capabilities: each lies on a bit of its own.
pub proof fn lemma_flag_bits_distinct()
    ensures
        FLAG_PRIVATE_READ & FLAG_PRIVATE_WRITE == 0,
        FLAG_READ & FLAG_WRITE == 0,
        FLAG_READ & FLAG_PRIVATE_READ == 0,
        FLAG_WRITE & FLAG_PRIVATE_WRITE == 0,
{
    assert(8u8 & 16u8 == 0) by (bit_vector);
    assert(2u8 & 4u8 == 0) by (bit_vector);
    assert(2u8 & 8u8 == 0) by (bit_vector);
    assert(4u8 & 16u8 == 0) by (bit_vector);
}

/// Public read and write grant both accesses to every context.
pub proof fn lemma_read_write_grants_all(ctx: SecurityContext)
    ensures
        spec_permits(AccessFlags::spec_read_write(), ctx, AccessType::Read),
        spec_permits(AccessFlags::spec_read_write(), ctx, AccessType::Write),
{
    assert((2u8 | 4u8) & 2u8 == 2u8) by (bit_vector);
    assert((2u8 | 4u8) & 4u8 == 4u8) by (bit_vector);
}

/// Public read with private write, as on the stack: everyone reads, only
/// `System` writes.
pub proof fn lemma_read_private_write(ctx: SecurityContext)
    ensures
        spec_permits(AccessFlags { bits: FLAG_READ | FLAG_PRIVATE_WRITE }, ctx, AccessType::Read),
        spec_permits(AccessFlags { bits: FLAG_READ | FLAG_PRIVATE_WRITE }, ctx, AccessType::Write)
            <==> ctx == SecurityContext::System,
{
    assert((2u8 | 16u8) & 2u8 == 2u8) by (bit_vector);
    assert((2u8 | 16u8) & 4u8 != 4u8) by (bit_vector);
    assert((2u8 | 16u8) & 16u8 == 16u8) by (bit_vector);
}

/// Flags that hold the public read flag alone grant no write, under any context.
pub proof fn lemma_read_only_denies_write(flags: AccessFlags, ctx: SecurityContext)
    requires
        flags.bits == FLAG_READ,
    ensures
        !spec_permits(flags, ctx, AccessType::Write),
        spec_permits(flags, ctx, AccessType::Read),
{
    assert(2u8 & 4u8 != 4u8) by (bit_vector);
    assert(2u8 & 16u8 != 16u8) by (bit_vector);
    assert(2u8 & 2u8 == 2u8) by (bit_vector);
}

} // verus!
