//! Stateless codec for the packed guest translation key.
//!
//! A key packs {virtual page number (36 bits), address-space id (15 bits),
//! permission (2 bits), kernel-mode flag (1 bit)} into one 64-bit value:
//! bits [0:1] permission, bits [12:47] virtual page number (the low 12 bits
//! of the page-aligned address are not stored), bits [48:62] address-space
//! id, bit [63] kernel-mode flag.  Inputs wider than their field are masked
//! to the field width with no validation: the silent truncation is part of
//! the external driver's encoding and is kept bit-for-bit.

use vstd::prelude::*;

verus! {

/// The virtual page number stored in a packed key: bits [12:47].
pub open spec fn field_vpn(gid: u64) -> u64 {
    (gid >> 12) & 0xfffffffff
}

/// The address-space id stored in a packed key: bits [48:62].
pub open spec fn field_asid(gid: u64) -> u64 {
    (gid >> 48) & 0x7fff
}

/// The permission stored in a packed key: bits [0:1].
pub open spec fn field_perm(gid: u64) -> u64 {
    gid & 0x3
}

/// The kernel-mode flag stored in a packed key: bit [63].
pub open spec fn field_kernel(gid: u64) -> bool {
    (gid >> 63) != 0
}

/// The packed key built from the four fields, each masked to its width.
pub open spec fn pack_fields(vpn: u64, asid: u64, perm: u64, kernel: bool) -> u64 {
    (if kernel {
        1u64 << 63
    } else {
        0u64
    }) | ((asid & 0x7fff) << 48) | ((vpn & 0xfffffffff) << 12) | (perm & 0x3)
}

/// Decoded form of a packed guest translation key.
///
/// Produced by the external driver; inside this crate the packed value is
/// consumed only as a map key, and this struct only carries the decoded
/// fields across the boundary.
#[allow(non_camel_case_types)]
#[derive(Clone, Copy, Debug, PartialEq, Eq, Structural)]
pub struct guest_translation_tag_t {
    pub vpn: u64,
    pub asid: u32,
    pub perm: u8,
    pub is_kernel: bool,
}

impl guest_translation_tag_t {
    /// Splits a packed key into its four fields.
    pub fn parse(gid: u64) -> (tag: Self)
        ensures
            tag.vpn == field_vpn(gid),
            tag.asid == field_asid(gid) as u32,
            tag.perm == field_perm(gid) as u8,
            tag.is_kernel == field_kernel(gid),
    {
        proof {
            assert((gid as u8) & 0x3 == (gid & 0x3) as u8) by (bit_vector);
        }
        guest_translation_tag_t {
            vpn: (gid >> 12) & 0xfffffffff,
            asid: ((gid >> 48) & 0x7fff) as u32,
            perm: (gid as u8) & 0x3,
            is_kernel: (gid >> 63) != 0,
        }
    }

    /// Packs the four fields, each masked to its width, into one key.
    pub fn pack(&self) -> (gid: u64)
        ensures
            gid == pack_fields(self.vpn, self.asid as u64, self.perm as u64, self.is_kernel),
    {
        let perm_bits = (self.perm & 0x3) as u64;
        let asid_bits = ((self.asid as u64) & 0x7fff) << 48;
        let kernel_bit: u64 = if self.is_kernel {
            1u64 << 63
        } else {
            0
        };
        let vpn_bits = (self.vpn & 0xfffffffff) << 12;
        proof {
            let p = self.perm;
            let a = self.asid;
            assert((p & 0x3) as u64 == (p as u64) & 0x3) by (bit_vector);
            assert((a as u64) & 0x7fff == (a as u64) & 0x7fff);
        }
        kernel_bit | asid_bits | vpn_bits | perm_bits
    }
}

/// Law: parsing a packed key recovers every field, masked to its width.
///
/// `parse(pack(vpn, asid, perm, kernel))` equals the masked inputs for all
/// inputs: the virtual page number keeps its low 36 bits, the address-space
/// id its low 15 bits, the permission its low 2 bits, and the kernel-mode
/// flag is kept exactly.
pub proof fn lemma_pack_parse_roundtrip(vpn: u64, asid: u64, perm: u64, kernel: bool)
    by (bit_vector)
    ensures
        field_vpn(pack_fields(vpn, asid, perm, kernel)) == vpn & 0xfffffffff,
        field_asid(pack_fields(vpn, asid, perm, kernel)) == asid & 0x7fff,
        field_perm(pack_fields(vpn, asid, perm, kernel)) == perm & 0x3,
        field_kernel(pack_fields(vpn, asid, perm, kernel)) == kernel,
{
}

} // verus!
