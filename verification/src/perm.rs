//! Permission codec: turns the three-bit read/write/execute mask that user code
//! passes to `mmap` into the attribute flags kept with every mapped page.

use vstd::prelude::*;

verus! {

/// Mask bit that asks for read access.
pub const PERM_READ: usize = 1;

/// Mask bit that asks for write access.
pub const PERM_WRITE: usize = 2;

/// Mask bit that asks for execute access.
pub const PERM_EXEC: usize = 4;

/// All three mask bits together.
pub const PERM_ALL: usize = 7;

/// Page flag: the page may be read.
pub const FLAG_READ: u8 = 0x02;

/// Page flag: the page may be written.
pub const FLAG_WRITE: u8 = 0x04;

/// Page flag: instructions may be fetched from the page.
pub const FLAG_EXEC: u8 = 0x08;

/// Page flag: the page belongs to user space.
pub const FLAG_USER: u8 = 0x10;

/// The three ways in which user code touches memory.
#[derive(Clone, Copy, Debug, PartialEq, Eq, Structural)]
pub enum Access {
    Read,
    Write,
    Execute,
}

/// A mask is valid when it asks for at least one access and names no bit beyond the three.
pub open spec fn valid_mask(bits: usize) -> bool {
    0 < bits <= 7
}

/// Whether `bits` grants `access`.
pub open spec fn mask_grants(bits: usize, access: Access) -> bool {
    match access {
        Access::Read => bits % 2 == 1,
        Access::Write => (bits / 2) % 2 == 1,
        Access::Execute => (bits / 4) % 2 == 1,
    }
}

/// Attribute flags of a mapped page.
#[derive(Clone, Copy, Debug, PartialEq, Eq, Structural)]
pub struct PageFlags {
    pub bits: u8,
}

impl PageFlags {
    /// Whether the flags let user code perform `access`.
    pub open spec fn permits(self, access: Access) -> bool {
        &&& self.bits & FLAG_USER != 0
        &&& match access {
            Access::Read => self.bits & FLAG_READ != 0,
            Access::Write => self.bits & FLAG_WRITE != 0,
            Access::Execute => self.bits & FLAG_EXEC != 0,
        }
    }

    /// Whether the page is marked as user memory.
    pub open spec fn is_user(self) -> bool {
        self.bits & FLAG_USER != 0
    }

    /// Runtime form of [`PageFlags::permits`].
    pub fn allows(&self, access: Access) -> (ok: bool)
        ensures
            ok == self.permits(access),
    {
        if self.bits & FLAG_USER == 0 {
            return false;
        }
        match access {
            Access::Read => self.bits & FLAG_READ != 0,
            Access::Write => self.bits & FLAG_WRITE != 0,
            Access::Execute => self.bits & FLAG_EXEC != 0,
        }
    }
}

/// The flags that a valid mask encodes to: the mask shifted past the valid bit,
/// with the user bit added.
pub open spec fn spec_encode(bits: usize) -> PageFlags {
    PageFlags { bits: (2 * bits + 16) as u8 }
}

/// Checks a mask as the kernel does on entry: no bit outside the three, and not empty.
pub fn mask_is_valid(bits: usize) -> (ok: bool)
    ensures
        ok == valid_mask(bits),
{
    assert((bits & !0x7usize == 0) == (bits <= 7)) by (bit_vector);
    assert(bits <= 7 ==> ((bits & 0x7usize == 0) == (bits == 0))) by (bit_vector);
    !(bits & !0x7 != 0 || bits & 0x7 == 0)
}

/// Encodes a permission mask. Returns `None` for an empty mask or one with a bit
/// outside the three; otherwise flags that mark the page as user memory and carry
/// exactly the accesses the mask asks for.
pub fn encode(bits: usize) -> (flags: Option<PageFlags>)
    ensures
        flags.is_some() == valid_mask(bits),
        flags.is_some() ==> flags.unwrap() == spec_encode(bits),
        flags.is_some() ==> forall|access: Access|
            flags.unwrap().permits(access) == mask_grants(bits, access),
{
    if !mask_is_valid(bits) {
        return None;
    }
    let low: u8 = bits as u8;
    let raw: u8 = (low << 1) | FLAG_USER;
    assert(raw == 2 * low + 16) by (bit_vector)
        requires
            low <= 7,
            raw == (low << 1) | 0x10u8,
    ;
    proof {
        lemma_encode_permits(bits);
    }
    Some(PageFlags { bits: raw })
}

/// The encoded flags of a valid mask permit exactly the accesses that the mask grants,
/// and always carry the user bit.
pub proof fn lemma_encode_permits(bits: usize)
    requires
        valid_mask(bits),
    ensures
        spec_encode(bits).is_user(),
        forall|access: Access| spec_encode(bits).permits(access) == mask_grants(bits, access),
{
    let low: u8 = bits as u8;
    let raw: u8 = (2 * bits + 16) as u8;
    assert(raw & 0x10u8 != 0) by (bit_vector)
        requires
            low <= 7,
            raw == 2 * low + 16,
    ;
    assert((raw & 0x02u8 != 0) == (low % 2 == 1)) by (bit_vector)
        requires
            low <= 7,
            raw == 2 * low + 16,
    ;
    assert((raw & 0x04u8 != 0) == ((low / 2) % 2 == 1)) by (bit_vector)
        requires
            low <= 7,
            raw == 2 * low + 16,
    ;
    assert((raw & 0x08u8 != 0) == ((low / 4) % 2 == 1)) by (bit_vector)
        requires
            low <= 7,
            raw == 2 * low + 16,
    ;
    assert forall|access: Access| spec_encode(bits).permits(access) == mask_grants(
        bits,
        access,
    ) by {
        match access {
            Access::Read => {},
            Access::Write => {},
            Access::Execute => {},
        }
    }
}

} // verus!
