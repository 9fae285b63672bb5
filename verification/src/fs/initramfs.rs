use vstd::prelude::*;
use crate::error::Error;
use crate::fs::fat::dir_entry::Attribute;
use crate::fs::fat::{
    chain_of, entries_bytes, find_file, find_file_index, read_file_bytes, resized, scan_dir_entries,
    scan_entries, FatType, FatVolume,
};

verus! {

/// A file or directory of the initial RAM file system.
pub type FileMetaData = crate::fs::fat::FileMetaData;

/// The initial RAM file system: a FAT32 volume with a current directory.
#[derive(Debug)]
pub struct Initramfs {
    pub fat_volume: Option<FatVolume>,
    pub root_cluster_num: usize,
    pub current_cluster_num: usize,
}

impl Initramfs {
    /// The files and directories of the current directory (none before a
    /// volume is attached).
    pub open spec fn current_files(&self) -> Seq<crate::fs::fat::FileView> {
        match self.fat_volume {
            Some(v) => scan_entries(chain_of(v.chains@, self.current_cluster_num)),
            None => Seq::empty(),
        }
    }

    pub fn new(init_cluster_num: usize) -> (res: Self)
        ensures
            res.fat_volume is None,
            res.root_cluster_num == init_cluster_num,
            res.current_cluster_num == init_cluster_num,
    {
        Initramfs {
            fat_volume: None,
            root_cluster_num: init_cluster_num,
            current_cluster_num: init_cluster_num,
        }
    }

    /// Attaches a FAT32 volume and enters its root directory; other FAT
    /// types are refused.
    pub fn init(&mut self, fat_volume: FatVolume) -> (res: Result<(), Error>)
        ensures
            fat_volume.fat_type != FatType::Fat32 <==> res is Err,
            res matches Err(e) ==> e == Error::Failed("FAT 12 or FAT 16 are not supported") && *final(self) == *old(self),
            res is Ok ==> final(self).root_cluster_num == fat_volume.root_cluster_num
                && final(self).current_cluster_num == fat_volume.root_cluster_num
                && final(self).fat_volume == Some(fat_volume),
    {
        if fat_volume.fat_type() != FatType::Fat32 {
            return Err(Error::Failed("FAT 12 or FAT 16 are not supported"));
        }
        self.root_cluster_num = fat_volume.root_cluster_num();
        self.current_cluster_num = fat_volume.root_cluster_num();
        self.fat_volume = Some(fat_volume);
        Ok(())
    }

    /// Enters the directory `dir_name` of the current directory; a directory
    /// whose first cluster is 0 (the root's "..") leads to the root.
    pub fn cd(&mut self, dir_name: &str) -> (res: Result<(), Error>)
        ensures
            match find_file(old(self).current_files(), Attribute::Directory, dir_name@) {
                None => res == Err::<(), Error>(Error::Failed("The directory does not exist")) && *final(self) == *old(self),
                Some(i) => res is Ok && *final(self) == (Initramfs {
                    current_cluster_num: if old(self).current_files()[i].3 != 0 {
                        old(self).current_files()[i].3
                    } else {
                        old(self).root_cluster_num
                    },
                    ..*old(self)
                }),
            },
    {
        let files = self.scan_current_dir();
        match find_file_index(&files, Attribute::Directory, dir_name) {
            None => Err(Error::Failed("The directory does not exist")),
            Some(i) => {
                let cluster_num = files[i].target_cluster_num;
                self.current_cluster_num = if cluster_num != 0 {
                    cluster_num
                } else {
                    self.root_cluster_num
                };
                Ok(())
            },
        }
    }

    /// The metadata and bytes of the file `file_name` of the current
    /// directory.
    pub fn get_file(&self, file_name: &str) -> (res: Result<(FileMetaData, Vec<u8>), Error>)
        ensures
            match find_file(self.current_files(), Attribute::Archive, file_name@) {
                Some(i) => res matches Ok((m, bytes)) && m@ == self.current_files()[i] && bytes@
                    == resized(
                    entries_bytes(chain_of(self.fat_volume.unwrap().chains@, self.current_files()[i].3)),
                    self.current_files()[i].2 as nat,
                ),
                None => res matches Err(e) && e == Error::Failed("The file does not exist"),
            },
    {
        let files = self.scan_current_dir();
        match find_file_index(&files, Attribute::Archive, file_name) {
            None => Err(Error::Failed("The file does not exist")),
            Some(i) => {
                let file = &files[i];
                match &self.fat_volume {
                    Some(fat_volume) => {
                        let bytes = read_file_bytes(fat_volume, file.target_cluster_num, file.size);
                        Ok((file.duplicate(), bytes))
                    },
                    None => Err(Error::Failed("The file does not exist")),
                }
            },
        }
    }

    /// The files and directories of the current directory.
    pub fn scan_current_dir(&self) -> (res: Vec<FileMetaData>)
        ensures
            res@.map_values(|f: FileMetaData| f@) == self.current_files(),
    {
        match &self.fat_volume {
            None => {
                let files: Vec<FileMetaData> = Vec::new();
                assert(files@.map_values(|f: FileMetaData| f@) =~= Seq::<crate::fs::fat::FileView>::empty());
                files
            },
            Some(fat_volume) => {
                let dir_entries = fat_volume.read_chained_dir_entries(self.current_cluster_num);
                scan_dir_entries(&dir_entries)
            },
        }
    }

    /// Returns to the root directory.
    pub fn reset_cwd(&mut self)
        ensures
            *final(self) == (Initramfs { current_cluster_num: old(self).root_cluster_num, ..*old(self) }),
    {
        self.current_cluster_num = self.root_cluster_num;
    }
}

} // verus!
