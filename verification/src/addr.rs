use vstd::prelude::*;

verus! {

/// The kind of file a cache address points into. A separate file holds one
/// payload on its own; the block kinds are fixed-record files whose offset
/// unit is the block size.
#[derive(Debug, Clone, Copy, PartialEq, Eq, Structural)]
pub enum FileKind {
    /// A payload stored on its own; the address offset is a byte offset.
    Separate,
    /// A block file of 256-byte records.
    Block256,
    /// A block file of 1024-byte records.
    Block1K,
    /// A block file of 4096-byte records.
    Block4K,
}

impl FileKind {
    /// The offset unit, in bytes, of an address of this kind.
    pub open spec fn spec_unit(self) -> u32 {
        match self {
            FileKind::Separate => 1,
            FileKind::Block256 => 256,
            FileKind::Block1K => 1024,
            FileKind::Block4K => 4096,
        }
    }

    pub fn unit(self) -> (r: u32)
        ensures
            r == self.spec_unit(),
    {
        match self {
            FileKind::Separate => 1,
            FileKind::Block256 => 256,
            FileKind::Block1K => 1024,
            FileKind::Block4K => 4096,
        }
    }

    /// The kind encoded by a 3-bit field, if the field names one.
    pub open spec fn spec_from_bits(bits: u32) -> Option<FileKind> {
        if bits == 0 {
            Some(FileKind::Separate)
        } else if bits == 1 {
            Some(FileKind::Block256)
        } else if bits == 2 {
            Some(FileKind::Block1K)
        } else if bits == 3 {
            Some(FileKind::Block4K)
        } else {
            None
        }
    }

    pub fn from_bits(bits: u32) -> (r: Option<FileKind>)
        ensures
            r == FileKind::spec_from_bits(bits),
    {
        if bits == 0 {
            Some(FileKind::Separate)
        } else if bits == 1 {
            Some(FileKind::Block256)
        } else if bits == 2 {
            Some(FileKind::Block1K)
        } else if bits == 3 {
            Some(FileKind::Block4K)
        } else {
            None
        }
    }
}

/// A 32-bit cache address. Bit layout, from the high end: 1 bit
/// "initialized", 3 bits file kind, 8 bits file number, 20 bits offset
/// within the file in kind-specific units. An address whose initialized bit
/// is unset points at nothing.
#[derive(Debug, Clone, Copy, PartialEq, Eq, Structural)]
pub struct CacheAddress {
    pub raw: u32,
}

pub open spec fn spec_initialized(raw: u32) -> bool {
    raw & 0x8000_0000 != 0
}

pub open spec fn spec_kind_bits(raw: u32) -> u32 {
    (raw >> 28) & 0x7
}

pub open spec fn spec_file_number(raw: u32) -> u32 {
    (raw >> 20) & 0xff
}

pub open spec fn spec_offset(raw: u32) -> u32 {
    raw & 0xf_ffff
}

/// The raw address that carries the given fields.
pub open spec fn spec_encode(initialized: bool, kind_bits: u32, file_number: u32, offset: u32) -> u32 {
    ((if initialized {
        0x8000_0000u32
    } else {
        0u32
    }) | (kind_bits << 28) | (file_number << 20) | offset) as u32
}

impl CacheAddress {
    pub open spec fn spec_is_initialized(self) -> bool {
        spec_initialized(self.raw)
    }

    pub open spec fn spec_kind(self) -> Option<FileKind> {
        FileKind::spec_from_bits(spec_kind_bits(self.raw))
    }

    pub open spec fn spec_file_number(self) -> u32 {
        spec_file_number(self.raw)
    }

    pub open spec fn spec_offset(self) -> u32 {
        spec_offset(self.raw)
    }

    pub fn is_initialized(self) -> (r: bool)
        ensures
            r == self.spec_is_initialized(),
    {
        self.raw & 0x8000_0000 != 0
    }

    pub fn kind_bits(self) -> (r: u32)
        ensures
            r == spec_kind_bits(self.raw),
    {
        (self.raw >> 28) & 0x7
    }

    /// The file kind named by the 3-bit kind field, if any.
    pub fn kind(self) -> (r: Option<FileKind>)
        ensures
            r == self.spec_kind(),
    {
        FileKind::from_bits((self.raw >> 28) & 0x7)
    }

    pub fn file_number(self) -> (r: u32)
        ensures
            r == self.spec_file_number(),
    {
        (self.raw >> 20) & 0xff
    }

    pub fn offset(self) -> (r: u32)
        ensures
            r == self.spec_offset(),
    {
        self.raw & 0xf_ffff
    }

    /// Packs the fields of an address into its raw 32-bit form.
    pub fn encode(initialized: bool, kind_bits: u32, file_number: u32, offset: u32) -> (r: u32)
        requires
            kind_bits < 8,
            file_number < 256,
            offset < 0x10_0000,
        ensures
            r == spec_encode(initialized, kind_bits, file_number, offset),
    {
        (if initialized {
            0x8000_0000u32
        } else {
            0u32
        }) | (kind_bits << 28) | (file_number << 20) | offset
    }
}

/// The offset field spans 20 bits.
pub proof fn lemma_offset_bound(raw: u32)
    ensures
        spec_offset(raw) < 0x10_0000,
{
    assert(raw & 0xf_ffff < 0x10_0000) by (bit_vector);
}

/// Decoding a packed address recovers exactly the fields it was built from.
pub proof fn lemma_address_roundtrip(initialized: bool, kind_bits: u32, file_number: u32, offset: u32)
    requires
        kind_bits < 8,
        file_number < 256,
        offset < 0x10_0000,
    ensures
        spec_initialized(spec_encode(initialized, kind_bits, file_number, offset)) == initialized,
        spec_kind_bits(spec_encode(initialized, kind_bits, file_number, offset)) == kind_bits,
        spec_file_number(spec_encode(initialized, kind_bits, file_number, offset)) == file_number,
        spec_offset(spec_encode(initialized, kind_bits, file_number, offset)) == offset,
{
    let raw = spec_encode(initialized, kind_bits, file_number, offset);
    if initialized {
        assert((raw & 0x8000_0000 != 0) && ((raw >> 28) & 0x7) == kind_bits && ((raw >> 20) & 0xff)
            == file_number && (raw & 0xf_ffff) == offset) by (bit_vector)
            requires
                raw == ((0x8000_0000u32 | (kind_bits << 28) | (file_number << 20) | offset) as u32),
                kind_bits < 8,
                file_number < 256,
                offset < 0x10_0000,
        ;
    } else {
        assert((raw & 0x8000_0000 == 0) && ((raw >> 28) & 0x7) == kind_bits && ((raw >> 20) & 0xff)
            == file_number && (raw & 0xf_ffff) == offset) by (bit_vector)
            requires
                raw == ((0u32 | (kind_bits << 28) | (file_number << 20) | offset) as u32),
                kind_bits < 8,
                file_number < 256,
                offset < 0x10_0000,
        ;
    }
}

} // verus!
