use vstd::prelude::*;
use crate::codec::{le16, le32, slice_range, string_from_utf8_lossy, utf8_lossy};
use crate::fs::fat::FatType;

verus! {

/// The FAT32-specific part of a boot sector (the 476 bytes after the
/// common BIOS parameter block).
#[derive(Debug, Clone)]
pub struct BootSectorFat32OtherField {
    pub fat_size32: [u8; 4],
    pub ext_flags: [u8; 2],
    pub fs_version: [u8; 2],
    pub root_cluster: [u8; 4],
    pub fs_info: [u8; 2],
    pub backup_boot_sector: [u8; 2],
    pub reserved0: Vec<u8>,
    pub drive_num: u8,
    pub reserved1: u8,
    pub ext_boot_sign: u8,
    pub volume_id: [u8; 4],
    pub volume_label: Vec<u8>,
    pub fs_type: Vec<u8>,
    pub boot_code32: Vec<u8>,
    pub boot_sign: [u8; 2],
}

impl BootSectorFat32OtherField {
    /// Reads the FAT32 fields from the 476 bytes that follow the common
    /// part of a boot sector.
    pub fn from_bytes(d: &[u8]) -> (res: Self)
        requires
            d@.len() == 476,
        ensures
            res.fat_size32@ == d@.subrange(0, 4),
            res.ext_flags@ == d@.subrange(4, 6),
            res.fs_version@ == d@.subrange(6, 8),
            res.root_cluster@ == d@.subrange(8, 12),
            res.fs_info@ == d@.subrange(12, 14),
            res.backup_boot_sector@ == d@.subrange(14, 16),
            res.reserved0@ == d@.subrange(16, 28),
            res.drive_num == d@[28],
            res.reserved1 == d@[29],
            res.ext_boot_sign == d@[30],
            res.volume_id@ == d@.subrange(31, 35),
            res.volume_label@ == d@.subrange(35, 46),
            res.fs_type@ == d@.subrange(46, 54),
            res.boot_code32@ == d@.subrange(54, 474),
            res.boot_sign@ == d@.subrange(474, 476),
    {
        let r = BootSectorFat32OtherField {
            fat_size32: [d[0], d[1], d[2], d[3]],
            ext_flags: [d[4], d[5]],
            fs_version: [d[6], d[7]],
            root_cluster: [d[8], d[9], d[10], d[11]],
            fs_info: [d[12], d[13]],
            backup_boot_sector: [d[14], d[15]],
            reserved0: slice_range(d, 16, 28),
            drive_num: d[28],
            reserved1: d[29],
            ext_boot_sign: d[30],
            volume_id: [d[31], d[32], d[33], d[34]],
            volume_label: slice_range(d, 35, 46),
            fs_type: slice_range(d, 46, 54),
            boot_code32: slice_range(d, 54, 474),
            boot_sign: [d[474], d[475]],
        };
        assert(r.fat_size32@ =~= d@.subrange(0, 4));
        assert(r.ext_flags@ =~= d@.subrange(4, 6));
        assert(r.fs_version@ =~= d@.subrange(6, 8));
        assert(r.root_cluster@ =~= d@.subrange(8, 12));
        assert(r.fs_info@ =~= d@.subrange(12, 14));
        assert(r.backup_boot_sector@ =~= d@.subrange(14, 16));
        assert(r.volume_id@ =~= d@.subrange(31, 35));
        assert(r.boot_sign@ =~= d@.subrange(474, 476));
        r
    }

    /// The sector number of the FSInfo structure.
    pub fn fs_info_sector_num(&self) -> (res: usize)
        ensures
            res == le16(self.fs_info[0], self.fs_info[1]),
    {
        (self.fs_info[0] as u16 + (self.fs_info[1] as u16) * 256) as usize
    }

    /// Sectors occupied by one FAT.
    pub fn fat_size(&self) -> (res: usize)
        ensures
            res == le32(self.fat_size32[0], self.fat_size32[1], self.fat_size32[2], self.fat_size32[3]),
    {
        le32_value(self.fat_size32)
    }

    /// The first cluster of the root directory.
    pub fn root_cluster_num(&self) -> (res: usize)
        ensures
            res == le32(
                self.root_cluster[0],
                self.root_cluster[1],
                self.root_cluster[2],
                self.root_cluster[3],
            ),
    {
        le32_value(self.root_cluster)
    }
}

fn le32_value(b: [u8; 4]) -> (res: usize)
    ensures
        res == le32(b[0], b[1], b[2], b[3]),
{
    ((b[3] as u32) * 0x100_0000 + (b[2] as u32) * 0x1_0000 + (b[1] as u32) * 0x100 + (b[0] as u32)) as usize
}

/// The boot sector of a FAT volume.
#[derive(Debug)]
pub struct BootSector {
    pub jmp_boot: [u8; 3],
    pub oem_name: [u8; 8],
    pub bytes_per_sector: [u8; 2],
    pub sectors_per_cluster: u8,
    pub reserved_sector_count: [u8; 2],
    pub num_fats: u8,
    pub root_entry_count: [u8; 2],
    pub total_sector16: [u8; 2],
    pub media: u8,
    pub fat_size16: [u8; 2],
    pub sectors_per_track: [u8; 2],
    pub num_heads: [u8; 2],
    pub hidden_sectors: [u8; 4],
    pub total_sector32: [u8; 4],
    pub other_field: Vec<u8>,
}

impl BootSector {
    pub open spec fn spec_bytes_per_sector(&self) -> nat {
        le16(self.bytes_per_sector[0], self.bytes_per_sector[1]) as nat
    }

    pub open spec fn spec_reserved_sectors(&self) -> nat {
        le16(self.reserved_sector_count[0], self.reserved_sector_count[1]) as nat
    }

    pub open spec fn spec_fat_size16(&self) -> nat {
        le16(self.fat_size16[0], self.fat_size16[1]) as nat
    }

    pub open spec fn spec_root_entry_count(&self) -> nat {
        le16(self.root_entry_count[0], self.root_entry_count[1]) as nat
    }

    /// The 16-bit total sector count, or the 32-bit one when it is zero.
    pub open spec fn spec_total_sectors(&self) -> nat {
        let t16 = le16(self.total_sector16[0], self.total_sector16[1]);
        if t16 == 0 {
            le32(
                self.total_sector32[0],
                self.total_sector32[1],
                self.total_sector32[2],
                self.total_sector32[3],
            ) as nat
        } else {
            t16 as nat
        }
    }

    pub open spec fn spec_fat_sectors16(&self) -> nat {
        self.spec_fat_size16() * (self.num_fats as nat)
    }

    pub open spec fn spec_root_dir_start_sector16(&self) -> nat {
        self.spec_reserved_sectors() + self.spec_fat_sectors16()
    }

    /// Sectors of the FAT12/16 root directory: 32-byte entries, rounded up.
    pub open spec fn spec_root_dir_sectors16(&self) -> nat {
        ((self.spec_root_entry_count() * 32 + self.spec_bytes_per_sector() - 1)
            / (self.spec_bytes_per_sector() as int)) as nat
    }

    pub open spec fn spec_data_start_sector16(&self) -> nat {
        self.spec_root_dir_start_sector16() + self.spec_root_dir_sectors16()
    }

    pub open spec fn spec_data_sectors16(&self) -> int {
        self.spec_total_sectors() - self.spec_data_start_sector16()
    }

    pub open spec fn spec_data_clusters(&self) -> int {
        self.spec_data_sectors16() / (self.sectors_per_cluster as int)
    }

    /// The layout fields are usable: sectors and clusters have a size and
    /// the data region does not start past the end of the volume.
    pub open spec fn geometry_ok(&self) -> bool {
        &&& self.spec_bytes_per_sector() > 0
        &&& self.sectors_per_cluster > 0
        &&& self.spec_data_start_sector16() <= self.spec_total_sectors()
    }

    /// The FAT type by the count of data clusters (the FAT specification's
    /// rule).
    pub open spec fn spec_fat_type(&self) -> FatType {
        if self.spec_data_clusters() <= 4085 {
            FatType::Fat12
        } else if self.spec_data_clusters() <= 65525 {
            FatType::Fat16
        } else {
            FatType::Fat32
        }
    }

    /// Reads a boot sector from its 512 bytes.
    pub fn from_bytes(d: &[u8]) -> (res: Self)
        requires
            d@.len() == 512,
        ensures
            res.jmp_boot@ == d@.subrange(0, 3),
            res.oem_name@ == d@.subrange(3, 11),
            res.bytes_per_sector@ == d@.subrange(11, 13),
            res.sectors_per_cluster == d@[13],
            res.reserved_sector_count@ == d@.subrange(14, 16),
            res.num_fats == d@[16],
            res.root_entry_count@ == d@.subrange(17, 19),
            res.total_sector16@ == d@.subrange(19, 21),
            res.media == d@[21],
            res.fat_size16@ == d@.subrange(22, 24),
            res.sectors_per_track@ == d@.subrange(24, 26),
            res.num_heads@ == d@.subrange(26, 28),
            res.hidden_sectors@ == d@.subrange(28, 32),
            res.total_sector32@ == d@.subrange(32, 36),
            res.other_field@ == d@.subrange(36, 512),
    {
        let r = BootSector {
            jmp_boot: [d[0], d[1], d[2]],
            oem_name: [d[3], d[4], d[5], d[6], d[7], d[8], d[9], d[10]],
            bytes_per_sector: [d[11], d[12]],
            sectors_per_cluster: d[13],
            reserved_sector_count: [d[14], d[15]],
            num_fats: d[16],
            root_entry_count: [d[17], d[18]],
            total_sector16: [d[19], d[20]],
            media: d[21],
            fat_size16: [d[22], d[23]],
            sectors_per_track: [d[24], d[25]],
            num_heads: [d[26], d[27]],
            hidden_sectors: [d[28], d[29], d[30], d[31]],
            total_sector32: [d[32], d[33], d[34], d[35]],
            other_field: slice_range(d, 36, 512),
        };
        assert(r.jmp_boot@ =~= d@.subrange(0, 3));
        assert(r.oem_name@ =~= d@.subrange(3, 11));
        assert(r.bytes_per_sector@ =~= d@.subrange(11, 13));
        assert(r.reserved_sector_count@ =~= d@.subrange(14, 16));
        assert(r.root_entry_count@ =~= d@.subrange(17, 19));
        assert(r.total_sector16@ =~= d@.subrange(19, 21));
        assert(r.fat_size16@ =~= d@.subrange(22, 24));
        assert(r.sectors_per_track@ =~= d@.subrange(24, 26));
        assert(r.num_heads@ =~= d@.subrange(26, 28));
        assert(r.hidden_sectors@ =~= d@.subrange(28, 32));
        assert(r.total_sector32@ =~= d@.subrange(32, 36));
        r
    }

    pub fn fat_type(&self) -> (res: FatType)
        requires
            self.geometry_ok(),
        ensures
            res == self.spec_fat_type(),
    {
        let c = self.data_clusters();
        if c <= 4085 {
            FatType::Fat12
        } else if c <= 65525 {
            FatType::Fat16
        } else {
            FatType::Fat32
        }
    }

    pub fn oem_name(&self) -> (res: String)
        ensures
            res@ == utf8_lossy(self.oem_name@),
    {
        string_from_utf8_lossy(&self.oem_name)
    }

    /// The FAT32 fields, when the volume is FAT32.
    pub fn fat32_other_field(&self) -> (res: Option<BootSectorFat32OtherField>)
        requires
            self.geometry_ok(),
            self.other_field@.len() == 476,
        ensures
            self.spec_fat_type() != FatType::Fat32 <==> res is None,
            res matches Some(f) ==> {
                &&& f.fat_size32@ == self.other_field@.subrange(0, 4)
                &&& f.root_cluster@ == self.other_field@.subrange(8, 12)
                &&& f.fs_info@ == self.other_field@.subrange(12, 14)
            },
    {
        if self.fat_type() != FatType::Fat32 {
            return None;
        }
        Some(BootSectorFat32OtherField::from_bytes(self.other_field.as_slice()))
    }

    pub fn data_clusters(&self) -> (res: usize)
        requires
            self.geometry_ok(),
        ensures
            res == self.spec_data_clusters(),
    {
        self.data_sectors16() / self.sectors_per_cluster as usize
    }

    pub fn bytes_per_sector(&self) -> (res: usize)
        ensures
            res == self.spec_bytes_per_sector(),
    {
        le16_value(self.bytes_per_sector)
    }

    pub fn sectors_per_cluster(&self) -> (res: usize)
        ensures
            res == self.sectors_per_cluster,
    {
        self.sectors_per_cluster as usize
    }

    pub fn num_fats(&self) -> (res: usize)
        ensures
            res == self.num_fats,
    {
        self.num_fats as usize
    }

    pub fn fat_sectors16(&self) -> (res: usize)
        ensures
            res == self.spec_fat_sectors16(),
    {
        let a = self.fat_size16();
        let b = self.num_fats();
        assert(a * b <= 65535 * 255) by (nonlinear_arith)
            requires
                a <= 65535,
                b <= 255,
        ;
        a * b
    }

    /// Sectors of all FATs of a FAT32 volume.
    pub fn fat_sectors32(&self) -> (res: Option<usize>)
        requires
            self.geometry_ok(),
            self.other_field@.len() == 476,
            le32(self.other_field@[0], self.other_field@[1], self.other_field@[2], self.other_field@[3])
                * (self.num_fats as nat) <= usize::MAX,
        ensures
            self.spec_fat_type() != FatType::Fat32 <==> res is None,
            res matches Some(n) ==> n == le32(
                self.other_field@[0],
                self.other_field@[1],
                self.other_field@[2],
                self.other_field@[3],
            ) * (self.num_fats as nat),
    {
        match self.fat32_other_field() {
            Some(other_field) => {
                let n = other_field.fat_size() * self.num_fats();
                Some(n)
            },
            None => None,
        }
    }

    pub fn total_sectors(&self) -> (res: usize)
        ensures
            res == self.spec_total_sectors(),
    {
        let total_sector16 = le16_value(self.total_sector16);
        let total_sector32 = le32_value(self.total_sector32);
        if total_sector16 == 0 {
            total_sector32
        } else {
            total_sector16
        }
    }

    /// The first sector of the FAT area.
    pub fn reserved_sectors(&self) -> (res: usize)
        ensures
            res == self.spec_reserved_sectors(),
    {
        le16_value(self.reserved_sector_count)
    }

    fn fat_size16(&self) -> (res: usize)
        ensures
            res == self.spec_fat_size16(),
    {
        le16_value(self.fat_size16)
    }

    fn root_entry_count(&self) -> (res: usize)
        ensures
            res == self.spec_root_entry_count(),
    {
        le16_value(self.root_entry_count)
    }

    pub fn root_dir_start_sector16(&self) -> (res: usize)
        ensures
            res == self.spec_root_dir_start_sector16(),
    {
        let a = self.reserved_sectors();
        let b = self.fat_sectors16();
        assert(b <= 65535 * 255) by (nonlinear_arith)
            requires
                b == self.spec_fat_size16() * (self.num_fats as nat),
                self.spec_fat_size16() <= 65535,
                self.num_fats <= 255,
        ;
        a + b
    }

    pub fn root_dir_sectors16(&self) -> (res: usize)
        requires
            self.spec_bytes_per_sector() > 0,
        ensures
            res == self.spec_root_dir_sectors16(),
    {
        (self.root_entry_count() * 32 + self.bytes_per_sector() - 1) / self.bytes_per_sector()
    }

    pub fn data_start_sector16(&self) -> (res: usize)
        requires
            self.spec_bytes_per_sector() > 0,
        ensures
            res == self.spec_data_start_sector16(),
    {
        let a = self.root_dir_start_sector16();
        let b = self.root_dir_sectors16();
        assert(self.spec_root_dir_start_sector16() <= 65535 + 65535 * 255) by (nonlinear_arith)
            requires
                self.spec_root_dir_start_sector16() == self.spec_reserved_sectors()
                    + self.spec_fat_size16() * (self.num_fats as nat),
                self.spec_reserved_sectors() <= 65535,
                self.spec_fat_size16() <= 65535,
                self.num_fats <= 255,
        ;
        assert(self.spec_root_dir_sectors16() <= 65535 * 32 + 65535) by (nonlinear_arith)
            requires
                self.spec_root_dir_sectors16() == (self.spec_root_entry_count() * 32
                    + self.spec_bytes_per_sector() - 1) / (self.spec_bytes_per_sector() as int),
                self.spec_root_entry_count() <= 65535,
                self.spec_bytes_per_sector() <= 65535,
                self.spec_bytes_per_sector() > 0,
        ;
        a + b
    }

    pub fn data_sectors16(&self) -> (res: usize)
        requires
            self.spec_bytes_per_sector() > 0,
            self.spec_data_start_sector16() <= self.spec_total_sectors(),
        ensures
            res == self.spec_data_sectors16(),
    {
        self.total_sectors() - self.data_start_sector16()
    }

    /// The first data sector of a FAT32 volume.
    pub fn data_start_sector32(&self) -> (res: Option<usize>)
        requires
            self.geometry_ok(),
            self.other_field@.len() == 476,
            self.spec_reserved_sectors() + le32(
                self.other_field@[0],
                self.other_field@[1],
                self.other_field@[2],
                self.other_field@[3],
            ) * (self.num_fats as nat) <= usize::MAX,
        ensures
            self.spec_fat_type() != FatType::Fat32 <==> res is None,
            res matches Some(n) ==> n == self.spec_reserved_sectors() + le32(
                self.other_field@[0],
                self.other_field@[1],
                self.other_field@[2],
                self.other_field@[3],
            ) * (self.num_fats as nat),
    {
        match self.fat_sectors32() {
            Some(fat_sectors) => Some(self.reserved_sectors() + fat_sectors),
            None => None,
        }
    }

    /// Sectors of the data region of a FAT32 volume.
    pub fn data_sectors32(&self) -> (res: Option<usize>)
        requires
            self.geometry_ok(),
            self.other_field@.len() == 476,
            self.spec_reserved_sectors() + le32(
                self.other_field@[0],
                self.other_field@[1],
                self.other_field@[2],
                self.other_field@[3],
            ) * (self.num_fats as nat) <= self.spec_total_sectors(),
        ensures
            self.spec_fat_type() != FatType::Fat32 <==> res is None,
            res matches Some(n) ==> n == self.spec_total_sectors() - (self.spec_reserved_sectors()
                + le32(
                self.other_field@[0],
                self.other_field@[1],
                self.other_field@[2],
                self.other_field@[3],
            ) * (self.num_fats as nat)),
    {
        match self.data_start_sector32() {
            Some(data_start_sector) => Some(self.total_sectors() - data_start_sector),
            None => None,
        }
    }
}

fn le16_value(b: [u8; 2]) -> (res: usize)
    ensures
        res == le16(b[0], b[1]),
{
    ((b[1] as u16) * 256 + (b[0] as u16)) as usize
}

} // verus!
