//! Permission sets: the one a user asks for, and the one a mapping carries.

use vstd::prelude::*;
use vstd::std_specs::convert::FromSpecImpl;

verus! {

/// What a mapping allows: reading, writing, executing, and access from user
/// mode.
#[derive(Clone, Copy, Debug, PartialEq, Eq, Structural)]
pub struct MapPermission {
    pub r: bool,
    pub w: bool,
    pub x: bool,
    pub u: bool,
}

/// What a user asks of a new mapping: a subset of read, write and execute.
#[derive(Clone, Copy, Debug, PartialEq, Eq, Structural)]
pub struct MapProt {
    pub r: bool,
    pub w: bool,
    pub x: bool,
}

/// The number 1 for a set flag, 0 for a clear one.
pub open spec fn flag(b: bool) -> int {
    if b {
        1
    } else {
        0
    }
}

/// The raw encoding of a requested protection: read is bit 0, write bit 1,
/// execute bit 2.
pub open spec fn prot_bits(p: MapProt) -> int {
    flag(p.r) + 2 * flag(p.w) + 4 * flag(p.x)
}

/// The raw encoding of a permission set: read is bit 1, write bit 2, execute
/// bit 3, user access bit 4.
pub open spec fn perm_bits(p: MapPermission) -> int {
    2 * flag(p.r) + 4 * flag(p.w) + 8 * flag(p.x) + 16 * flag(p.u)
}

/// The protection that a raw value encodes, if it encodes one.
pub open spec fn prot_of_bits(bits: int) -> Option<MapProt> {
    if 0 <= bits <= 7 {
        Some(MapProt { r: bits % 2 == 1, w: (bits / 2) % 2 == 1, x: (bits / 4) % 2 == 1 })
    } else {
        None
    }
}

/// The permission set that a protection stands for: the same three rights,
/// without user access.
pub open spec fn perm_of_prot(p: MapProt) -> MapPermission {
    MapPermission { r: p.r, w: p.w, x: p.x, u: false }
}

impl MapProt {
    /// The protection with every right.
    pub fn all() -> (p: MapProt)
        ensures
            p == (MapProt { r: true, w: true, x: true }),
            prot_bits(p) == 7,
    {
        MapProt { r: true, w: true, x: true }
    }

    /// Parses a raw value: `None` if a bit outside read, write and execute
    /// is set.
    pub fn from_bits(bits: u8) -> (p: Option<MapProt>)
        ensures
            p == prot_of_bits(bits as int),
            p is Some <==> bits <= 7,
            p matches Some(q) ==> prot_bits(q) == bits,
    {
        if bits > 7 {
            None
        } else {
            Some(MapProt { r: bits % 2 == 1, w: (bits / 2) % 2 == 1, x: (bits / 4) % 2 == 1 })
        }
    }

    /// The raw encoding.
    pub fn bits(&self) -> (b: u8)
        ensures
            b == prot_bits(*self),
    {
        let r: u8 = if self.r { 1 } else { 0 };
        let w: u8 = if self.w { 2 } else { 0 };
        let x: u8 = if self.x { 4 } else { 0 };
        r + w + x
    }

    /// Whether no right is asked for.
    pub fn is_empty(&self) -> (e: bool)
        ensures
            e == (!self.r && !self.w && !self.x),
            e == (prot_bits(*self) == 0),
    {
        !self.r && !self.w && !self.x
    }
}

impl MapPermission {
    /// Reading and writing, from kernel mode only.
    pub fn kernel_rw() -> (p: MapPermission)
        ensures
            p == (MapPermission { r: true, w: true, x: false, u: false }),
    {
        MapPermission { r: true, w: true, x: false, u: false }
    }

    /// The permission set that a raw value encodes; bits that stand for no
    /// right are dropped.
    pub fn from_bits_truncate(bits: u8) -> (p: MapPermission)
        ensures
            p.r == ((bits / 2) % 2 == 1),
            p.w == ((bits / 4) % 2 == 1),
            p.x == ((bits / 8) % 2 == 1),
            p.u == ((bits / 16) % 2 == 1),
            bits % 2 == 0 && bits < 32 ==> perm_bits(p) == bits,
    {
        MapPermission {
            r: (bits / 2) % 2 == 1,
            w: (bits / 4) % 2 == 1,
            x: (bits / 8) % 2 == 1,
            u: (bits / 16) % 2 == 1,
        }
    }

    /// The raw encoding.
    pub fn bits(&self) -> (b: u8)
        ensures
            b == perm_bits(*self),
    {
        let r: u8 = if self.r { 2 } else { 0 };
        let w: u8 = if self.w { 4 } else { 0 };
        let x: u8 = if self.x { 8 } else { 0 };
        let u: u8 = if self.u { 16 } else { 0 };
        r + w + x + u
    }

    /// The same rights, with access from user mode added.
    pub fn with_user(self) -> (p: MapPermission)
        ensures
            p == (MapPermission { u: true, ..self }),
    {
        MapPermission { r: self.r, w: self.w, x: self.x, u: true }
    }

    /// Whether no right is granted.
    pub fn is_empty(&self) -> (e: bool)
        ensures
            e == (perm_bits(*self) == 0),
    {
        !self.r && !self.w && !self.x && !self.u
    }
}

impl FromSpecImpl<MapProt> for MapPermission {
    open spec fn obeys_from_spec() -> bool {
        true
    }

    open spec fn from_spec(p: MapProt) -> MapPermission {
        perm_of_prot(p)
    }
}

impl From<MapProt> for MapPermission {
    fn from(p: MapProt) -> (perm: MapPermission) {
        MapPermission::from_bits_truncate(p.bits() * 2)
    }
}

/// A protection becomes the permission set whose encoding is the
/// protection's, moved up by one bit.
pub proof fn perm_of_prot_shifts(p: MapProt)
    ensures
        perm_bits(perm_of_prot(p)) == 2 * prot_bits(p),
{
}

/// Parsing a protection and encoding it again gives the value back, and
/// every protection is the parse of its encoding.
pub proof fn prot_bits_round_trip(p: MapProt)
    ensures
        prot_of_bits(prot_bits(p)) == Some(p),
{
}

} // verus!
