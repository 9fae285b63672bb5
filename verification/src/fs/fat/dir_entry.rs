use vstd::prelude::*;
use crate::codec::{le16, le32, string_from_utf8_lossy, string_push, utf8_lossy};

verus! {

/// The attribute byte of a directory entry.
#[derive(Debug, Clone, Copy, PartialEq, Eq, Structural)]
pub enum Attribute {
    ReadOnly,
    Hidden,
    System,
    VolumeLabel,
    LongFileName,
    Directory,
    Archive,
    Device,
}

/// The attribute named by an attribute byte, if it names exactly one.
pub open spec fn attribute_of(b: u8) -> Option<Attribute> {
    if b == 0x01 {
        Some(Attribute::ReadOnly)
    } else if b == 0x02 {
        Some(Attribute::Hidden)
    } else if b == 0x04 {
        Some(Attribute::System)
    } else if b == 0x08 {
        Some(Attribute::VolumeLabel)
    } else if b == 0x0f {
        Some(Attribute::LongFileName)
    } else if b == 0x10 {
        Some(Attribute::Directory)
    } else if b == 0x20 {
        Some(Attribute::Archive)
    } else if b == 0x40 {
        Some(Attribute::Device)
    } else {
        None
    }
}

/// The kind of a directory entry slot.
#[derive(Debug, PartialEq, Eq, Structural)]
pub enum EntryType {
    Null,
    Unused,
    LongFileName,
    Data,
}

/// The entry type by the first byte (0x00 end, 0xe5 free) and byte 10.
pub open spec fn entry_type_of(raw: Seq<u8>) -> EntryType {
    if raw[0] == 0x00 {
        EntryType::Null
    } else if raw[0] == 0xe5 {
        EntryType::Unused
    } else if raw[10] == 0x0f {
        EntryType::LongFileName
    } else {
        EntryType::Data
    }
}

/// Reading the short (8.3) name of an entry.
pub trait ShortFileNameEntry {
    fn sf_name(&self) -> Option<String>;
}

/// Reading the long-name part held by an entry.
pub trait LongFileNameEntry {
    fn lfn_entry_index(&self) -> Option<usize>;

    fn lf_name(&self) -> Option<String>;
}

/// The byte offsets of the 13 name characters of a long-name entry.
pub open spec fn lfn_offsets() -> Seq<int> {
    seq![1, 3, 5, 7, 9, 14, 16, 18, 20, 22, 24, 28, 30]
}

/// The 13 name units of a long-name entry; each unit is read as the bitwise
/// or of its two bytes.
pub open spec fn lfn_units(raw: Seq<u8>) -> Seq<u8> {
    Seq::new(13, |k: int| raw[lfn_offsets()[k]] | raw[lfn_offsets()[k] + 1])
}

/// The units before the first zero unit.
pub open spec fn units_before_zero(units: Seq<u8>) -> Seq<u8>
    decreases units.len(),
{
    if units.len() == 0 {
        units
    } else if units[0] == 0 {
        Seq::empty()
    } else {
        seq![units[0]] + units_before_zero(units.skip(1))
    }
}

/// The characters of a long-name part: the units before the first zero,
/// each taken as the character of that code point.
pub open spec fn lfn_chars(raw: Seq<u8>) -> Seq<char> {
    units_before_zero(lfn_units(raw)).map_values(|u: u8| u as char)
}

/// One 32-byte directory entry.
#[derive(Debug, Clone, Copy)]
pub struct DirectoryEntry(pub [u8; 32]);

impl DirectoryEntry {
    pub fn raw(&self) -> (res: [u8; 32])
        ensures
            res == self.0,
    {
        self.0
    }

    pub fn attr(&self) -> (res: Option<Attribute>)
        ensures
            res == attribute_of(self.0@[11]),
    {
        match self.0[11] {
            0x01 => Some(Attribute::ReadOnly),
            0x02 => Some(Attribute::Hidden),
            0x04 => Some(Attribute::System),
            0x08 => Some(Attribute::VolumeLabel),
            0x0f => Some(Attribute::LongFileName),
            0x10 => Some(Attribute::Directory),
            0x20 => Some(Attribute::Archive),
            0x40 => Some(Attribute::Device),
            _ => None,
        }
    }

    pub fn entry_type(&self) -> (res: EntryType)
        ensures
            res == entry_type_of(self.0@),
    {
        match self.0[0] {
            0x00 => return EntryType::Null,
            0xe5 => return EntryType::Unused,
            _ => {},
        }
        match self.0[10] {
            0x0f => EntryType::LongFileName,
            _ => EntryType::Data,
        }
    }

    /// The first cluster: the high word at bytes 20-21 and the low word at
    /// bytes 26-27, both little-endian.
    pub fn first_cluster_num(&self) -> (res: usize)
        ensures
            res == (le16(self.0@[20], self.0@[21]) as nat) * 0x1_0000 + (le16(
                self.0@[26],
                self.0@[27],
            ) as nat),
    {
        let high = (self.0[20] as u32) + (self.0[21] as u32) * 256;
        let low = (self.0[26] as u32) + (self.0[27] as u32) * 256;
        (high * 0x1_0000 + low) as usize
    }

    /// The file size in bytes.
    pub fn file_size(&self) -> (res: usize)
        ensures
            res == le32(self.0@[28], self.0@[29], self.0@[30], self.0@[31]),
    {
        ((self.0[31] as u32) * 0x100_0000 + (self.0[30] as u32) * 0x1_0000 + (self.0[29] as u32)
            * 0x100 + (self.0[28] as u32)) as usize
    }

    fn is_lf_name_entry(&self) -> (res: bool)
        ensures
            res == (attribute_of(self.0@[11]) == Some(Attribute::LongFileName)),
    {
        match self.attr() {
            Some(attr) => match attr {
                Attribute::LongFileName => true,
                _ => false,
            },
            None => false,
        }
    }
}

impl ShortFileNameEntry for DirectoryEntry {
    /// The 11 name bytes of a directory, file or volume label entry.
    fn sf_name(&self) -> (res: Option<String>)
        ensures
            (attribute_of(self.0@[11]) == Some(Attribute::Directory) || attribute_of(self.0@[11])
                == Some(Attribute::Archive) || attribute_of(self.0@[11]) == Some(
                Attribute::VolumeLabel,
            )) <==> res is Some,
            res matches Some(s) ==> s@ == utf8_lossy(self.0@.subrange(0, 11)),
    {
        match self.attr() {
            Some(attr) => match attr {
                Attribute::Directory | Attribute::Archive | Attribute::VolumeLabel => {},
                _ => return None,
            },
            None => return None,
        }
        let name = [
            self.0[0],
            self.0[1],
            self.0[2],
            self.0[3],
            self.0[4],
            self.0[5],
            self.0[6],
            self.0[7],
            self.0[8],
            self.0[9],
            self.0[10],
        ];
        assert(name@ =~= self.0@.subrange(0, 11));
        Some(string_from_utf8_lossy(&name))
    }
}

impl LongFileNameEntry for DirectoryEntry {
    /// The sequence number of a long-name entry (its first byte).
    fn lfn_entry_index(&self) -> (res: Option<usize>)
        ensures
            attribute_of(self.0@[11]) == Some(Attribute::LongFileName) <==> res is Some,
            res matches Some(i) ==> i == self.0@[0],
    {
        if !self.is_lf_name_entry() {
            return None;
        }
        Some(self.0[0] as usize)
    }

    /// The name characters of a long-name entry.
    fn lf_name(&self) -> (res: Option<String>)
        ensures
            attribute_of(self.0@[11]) == Some(Attribute::LongFileName) <==> res is Some,
            res matches Some(s) ==> s@ == lfn_chars(self.0@),
    {
        if !self.is_lf_name_entry() {
            return None;
        }
        let offsets: [usize; 13] = [1, 3, 5, 7, 9, 14, 16, 18, 20, 22, 24, 28, 30];
        let ghost units = lfn_units(self.0@);
        let mut s = String::new();
        let mut k: usize = 0;
        let mut stop = false;
        while k < 13 && !stop
            invariant
                k <= 13,
                forall|j: int| 0 <= j < 13 ==> offsets@[j] as int == lfn_offsets()[j],
                units == lfn_units(self.0@),
                s@ == units.subrange(0, k as int).map_values(|u: u8| u as char),
                forall|j: int| 0 <= j < k ==> units[j] != 0,
                stop ==> k < 13 && units[k as int] == 0,
            decreases 13 - k, if stop { 0int } else { 1int },
        {
            let p = offsets[k];
            let unit: u8 = self.0[p] | self.0[p + 1];
            assert(unit == units[k as int]);
            if unit == 0 {
                stop = true;
            } else {
                string_push(&mut s, unit as char);
                k = k + 1;
                assert(units.subrange(0, k as int) =~= units.subrange(0, k - 1).push(unit));
                assert(s@ =~= units.subrange(0, k as int).map_values(|u: u8| u as char));
            }
        }
        proof {
            lemma_units_before_zero_prefix(units, k as int);
        }
        Some(s)
    }
}

proof fn lemma_units_before_zero_prefix(units: Seq<u8>, k: int)
    requires
        0 <= k <= units.len(),
        forall|j: int| 0 <= j < k ==> units[j] != 0,
        k == units.len() || units[k] == 0,
    ensures
        units_before_zero(units) == units.subrange(0, k),
    decreases k,
{
    if k == 0 {
        if units.len() > 0 {
            assert(units_before_zero(units) =~= Seq::empty());
        }
        assert(units.subrange(0, 0) =~= Seq::<u8>::empty());
    } else {
        lemma_units_before_zero_prefix(units.skip(1), k - 1);
        assert(units.skip(1).subrange(0, k - 1) =~= units.subrange(1, k));
        assert(units.subrange(0, k) =~= seq![units[0]] + units.subrange(1, k));
    }
}

} // verus!
