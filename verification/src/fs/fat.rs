pub mod boot_sector;
pub mod dir_entry;
pub mod file_allocation_table;
pub mod fs_info_sector;

use vstd::prelude::*;
use vstd::string::{StrSliceExecFns, StringExecFns};
use crate::codec::{resize_bytes, string_push, utf8_lossy};
use crate::error::Error;
use crate::fs::path::{chars_of, normalize_chars, parent_chars, path_names, Path};
use crate::fs::fat::dir_entry::{
    attribute_of, entry_type_of, lfn_chars, Attribute, DirectoryEntry, EntryType,
    LongFileNameEntry, ShortFileNameEntry,
};

verus! {

/// The FAT variant of a volume.
#[derive(Debug, Clone, Copy, PartialEq, Eq, Structural)]
pub enum FatType {
    Fat12,
    Fat16,
    Fat32,
}

/// A file or directory found in a directory.
#[derive(Debug, Clone)]
pub struct FileMetaData {
    pub name: String,
    pub attr: Attribute,
    pub size: usize,
    pub target_cluster_num: usize,
}

/// The plain values of a `FileMetaData`.
pub type FileView = (Seq<char>, Attribute, usize, usize);

impl View for FileMetaData {
    type V = FileView;

    open spec fn view(&self) -> FileView {
        (self.name@, self.attr, self.size, self.target_cluster_num)
    }
}

/// The directory contents of a FAT volume as the directory logic reads
/// them: the chained directory entries (or file clusters, read as entries)
/// that start at each first cluster.
#[derive(Debug, Clone)]
pub struct FatVolume {
    pub fat_type: FatType,
    pub root_cluster_num: usize,
    pub chains: Vec<(usize, Vec<DirectoryEntry>)>,
}

/// The chain that starts at `cluster`: that of the first record for it, or
/// nothing.
pub open spec fn chain_of(chains: Seq<(usize, Vec<DirectoryEntry>)>, cluster: usize) -> Seq<DirectoryEntry>
    decreases chains.len(),
{
    if chains.len() == 0 {
        Seq::empty()
    } else if chains[0].0 == cluster {
        chains[0].1@
    } else {
        chain_of(chains.skip(1), cluster)
    }
}

impl FatVolume {
    pub fn root_cluster_num(&self) -> (res: usize)
        ensures
            res == self.root_cluster_num,
    {
        self.root_cluster_num
    }

    pub fn fat_type(&self) -> (res: FatType)
        ensures
            res == self.fat_type,
    {
        self.fat_type
    }

    /// The directory entries chained from `cluster`.
    pub fn read_chained_dir_entries(&self, cluster: usize) -> (res: Vec<DirectoryEntry>)
        ensures
            res@ == chain_of(self.chains@, cluster),
    {
        let mut i: usize = 0;
        assert(self.chains@.skip(0) =~= self.chains@);
        while i < self.chains.len()
            invariant
                i <= self.chains@.len(),
                chain_of(self.chains@, cluster) == chain_of(self.chains@.skip(i as int), cluster),
            decreases self.chains.len() - i,
        {
            assert(self.chains@.skip(i as int).skip(1) =~= self.chains@.skip(i + 1));
            if self.chains[i].0 == cluster {
                return copy_entries(&self.chains[i].1);
            }
            i = i + 1;
        }
        Vec::new()
    }
}

fn copy_entries(v: &Vec<DirectoryEntry>) -> (res: Vec<DirectoryEntry>)
    ensures
        res@ == v@,
{
    let mut r: Vec<DirectoryEntry> = Vec::new();
    let mut i: usize = 0;
    while i < v.len()
        invariant
            i <= v@.len(),
            r@ == v@.take(i as int),
        decreases v.len() - i,
    {
        r.push(v[i]);
        i = i + 1;
        assert(r@ =~= v@.take(i as int));
    }
    assert(v@.take(v@.len() as int) =~= v@);
    r
}

/// The files and directories listed by `entries` from index `i` on, given
/// the long-name parts `buf` gathered so far (latest first).
pub open spec fn scan_from(entries: Seq<DirectoryEntry>, i: int, buf: Seq<Seq<char>>) -> Seq<FileView>
    decreases entries.len() - i,
{
    if i < 0 || i >= entries.len() {
        Seq::empty()
    } else {
        let raw = entries[i].0@;
        let attr = attribute_of(raw[11]);
        if entry_type_of(raw) == EntryType::Null && attr is None {
            Seq::empty()
        } else if attr == Some(Attribute::LongFileName) && raw[0] >= 1 {
            scan_from(entries, i + 1, seq![lfn_chars(raw)] + buf)
        } else if attr == Some(Attribute::Archive) || attr == Some(Attribute::Directory) {
            let name = if buf.len() > 0 {
                buf.flatten_alt()
            } else {
                utf8_lossy(raw.subrange(0, 11))
            };
            let size = crate::codec::le32(raw[28], raw[29], raw[30], raw[31]) as usize;
            let cluster = ((crate::codec::le16(raw[20], raw[21]) as nat) * 0x1_0000 + (
            crate::codec::le16(raw[26], raw[27]) as nat)) as usize;
            seq![(name, attr.unwrap(), size, cluster)] + scan_from(entries, i + 1, Seq::empty())
        } else {
            scan_from(entries, i + 1, buf)
        }
    }
}

/// The files and directories that a chain of directory entries lists: a
/// file entry takes the long name gathered from the long-name entries
/// before it, or else its short name; a null entry ends the listing.
pub open spec fn scan_entries(entries: Seq<DirectoryEntry>) -> Seq<FileView> {
    scan_from(entries, 0, Seq::empty())
}

/// Concatenates strings in order.
fn concat_strings(parts: &Vec<String>) -> (res: String)
    ensures
        res@ == parts@.map_values(|s: String| s@).flatten_alt(),
{
    let mut s = String::new();
    let mut i: usize = 0;
    while i < parts.len()
        invariant
            i <= parts@.len(),
            s@ == parts@.take(i as int).map_values(|s: String| s@).flatten_alt(),
        decreases parts.len() - i,
    {
        let ghost prev = parts@.take(i as int).map_values(|s: String| s@);
        s.append(parts[i].as_str());
        i = i + 1;
        assert(parts@.take(i as int).map_values(|s: String| s@) =~= prev.push(parts@[i - 1]@));
        assert(parts@.take(i as int).map_values(|s: String| s@).drop_last() =~= prev);
    }
    assert(parts@.take(parts@.len() as int) =~= parts@);
    s
}

/// The files and directories that the entries list (see `scan_entries`).
pub fn scan_dir_entries(dir_entries: &Vec<DirectoryEntry>) -> (res: Vec<FileMetaData>)
    ensures
        res@.map_values(|f: FileMetaData| f@) == scan_entries(dir_entries@),
{
    let mut files: Vec<FileMetaData> = Vec::new();
    let mut lf_name_buf: Vec<String> = Vec::new();
    let mut i: usize = 0;
    let mut done = false;
    assert(lf_name_buf@.map_values(|s: String| s@) =~= Seq::<Seq<char>>::empty());
    assert(files@.map_values(|f: FileMetaData| f@) =~= Seq::<FileView>::empty());
    assert(Seq::<FileView>::empty() + scan_entries(dir_entries@) =~= scan_entries(dir_entries@));
    while i < dir_entries.len() && !done
        invariant
            i <= dir_entries@.len(),
            files@.map_values(|f: FileMetaData| f@) + (if done {
                Seq::empty()
            } else {
                scan_from(dir_entries@, i as int, lf_name_buf@.map_values(|s: String| s@))
            }) == scan_entries(dir_entries@),
        decreases dir_entries.len() - i, if done { 0int } else { 1int },
    {
        let ghost bufv = lf_name_buf@.map_values(|s: String| s@);
        let ghost fv = files@.map_values(|f: FileMetaData| f@);
        let dir_entry = dir_entries[i];
        let entry_type = dir_entry.entry_type();
        let file_attr = dir_entry.attr();
        if entry_type == EntryType::Null && file_attr.is_none() {
            done = true;
            assert(fv + Seq::empty() =~= fv);
        } else {
            let mut consumed = false;
            if let (Some(lf_name), Some(lfn_entry_index)) = (dir_entry.lf_name(), dir_entry.lfn_entry_index()) {
                if lfn_entry_index >= 1 {
                    lf_name_buf.insert(0, lf_name);
                    consumed = true;
                    assert(lf_name_buf@.map_values(|s: String| s@) =~= seq![lfn_chars(dir_entry.0@)] + bufv);
                }
            }
            if !consumed {
                match file_attr {
                    Some(attr) => match attr {
                        Attribute::Archive | Attribute::Directory => {
                            let file_name = if lf_name_buf.len() > 0 {
                                concat_strings(&lf_name_buf)
                            } else {
                                dir_entry.sf_name().unwrap()
                            };
                            let file = FileMetaData {
                                name: file_name,
                                attr,
                                size: dir_entry.file_size(),
                                target_cluster_num: dir_entry.first_cluster_num(),
                            };
                            files.push(file);
                            lf_name_buf = Vec::new();
                            assert(files@.map_values(|f: FileMetaData| f@) =~= fv.push(file@));
                            assert(lf_name_buf@.map_values(|s: String| s@) =~= Seq::<Seq<char>>::empty());
                        },
                        _ => {},
                    },
                    None => {},
                }
            }
            i = i + 1;
        }
    }
    if !done {
        assert(files@.map_values(|f: FileMetaData| f@) + scan_from(dir_entries@, i as int, lf_name_buf@.map_values(|s: String| s@)) =~= files@.map_values(|f: FileMetaData| f@));
    }
    files
}

/// A white-space character in Unicode's sense (`char::is_whitespace`).
pub open spec fn is_white_space(c: char) -> bool {
    let u = c as u32;
    ||| 0x09 <= u <= 0x0d
    ||| u == 0x20 || u == 0x85 || u == 0xa0 || u == 0x1680
    ||| 0x2000 <= u <= 0x200a
    ||| u == 0x2028 || u == 0x2029 || u == 0x202f || u == 0x205f || u == 0x3000
}

/// `s` without its leading white space.
pub open spec fn trim_start(s: Seq<char>) -> Seq<char>
    decreases s.len(),
{
    if s.len() > 0 && is_white_space(s[0]) {
        trim_start(s.drop_first())
    } else {
        s
    }
}

/// `s` without its trailing white space.
pub open spec fn trim_end(s: Seq<char>) -> Seq<char>
    decreases s.len(),
{
    if s.len() > 0 && is_white_space(s.last()) {
        trim_end(s.drop_last())
    } else {
        s
    }
}

/// `s` trimmed of leading and trailing white space.
pub open spec fn trimmed(s: Seq<char>) -> Seq<char> {
    trim_end(trim_start(s))
}

fn white_space(c: char) -> (res: bool)
    ensures
        res == is_white_space(c),
{
    let u = c as u32;
    (0x09 <= u && u <= 0x0d) || u == 0x20 || u == 0x85 || u == 0xa0 || u == 0x1680 || (0x2000 <= u
        && u <= 0x200a) || u == 0x2028 || u == 0x2029 || u == 0x202f || u == 0x205f || u == 0x3000
}

/// The string trimmed of leading and trailing white space.
pub(crate) fn trim_string(s: &String) -> (res: String)
    ensures
        res@ == trimmed(s@),
{
    let cs = chars_of(s.as_str());
    let n = cs.len();
    let mut i: usize = 0;
    assert(s@.subrange(0, n as int) =~= s@);
    while i < n && white_space(cs[i])
        invariant
            i <= n,
            n == cs@.len(),
            cs@ == s@,
            trim_start(s@) == trim_start(s@.subrange(i as int, n as int)),
        decreases n - i,
    {
        assert(s@.subrange(i as int, n as int).drop_first() =~= s@.subrange(i + 1, n as int));
        i = i + 1;
    }
    let ghost mid = s@.subrange(i as int, n as int);
    assert(trim_start(s@) == mid);
    let mut j: usize = n;
    while j > i && white_space(cs[j - 1])
        invariant
            i <= j <= n,
            n == cs@.len(),
            cs@ == s@,
            mid == s@.subrange(i as int, n as int),
            trim_end(mid) == trim_end(s@.subrange(i as int, j as int)),
        decreases j,
    {
        assert(s@.subrange(i as int, j as int).drop_last() =~= s@.subrange(i as int, j - 1));
        j = j - 1;
    }
    let mut res = String::new();
    let mut k: usize = i;
    while k < j
        invariant
            i <= k <= j <= n,
            n == cs@.len(),
            cs@ == s@,
            res@ == s@.subrange(i as int, k as int),
        decreases j - k,
    {
        string_push(&mut res, cs[k]);
        k = k + 1;
        assert(res@ =~= s@.subrange(i as int, k as int));
    }
    res
}

/// The first position at or after `i` of an entry with attribute `attr`
/// whose trimmed name is `name`.
pub open spec fn find_from(files: Seq<FileView>, attr: Attribute, name: Seq<char>, i: int) -> Option<int>
    decreases files.len() - i,
{
    if i < 0 || i >= files.len() {
        None
    } else if files[i].1 == attr && trimmed(files[i].0) == name {
        Some(i)
    } else {
        find_from(files, attr, name, i + 1)
    }
}

pub open spec fn find_file(files: Seq<FileView>, attr: Attribute, name: Seq<char>) -> Option<int> {
    find_from(files, attr, name, 0)
}

proof fn lemma_find_from_bounds(files: Seq<FileView>, attr: Attribute, name: Seq<char>, i: int)
    requires
        0 <= i,
    ensures
        find_from(files, attr, name, i) matches Some(k) ==> i <= k < files.len() && files[k].1 == attr
            && trimmed(files[k].0) == name,
    decreases files.len() - i,
{
    if i < files.len() {
        lemma_find_from_bounds(files, attr, name, i + 1);
    }
}

/// Finds the first file with the attribute and trimmed name.
pub fn find_file_index(files: &Vec<FileMetaData>, attr: Attribute, name: &str) -> (res: Option<usize>)
    ensures
        match res {
            Some(i) => find_file(files@.map_values(|f: FileMetaData| f@), attr, name@) == Some(i as int),
            None => find_file(files@.map_values(|f: FileMetaData| f@), attr, name@) is None,
        },
        res matches Some(i) ==> i < files@.len(),
{
    let ghost fv = files@.map_values(|f: FileMetaData| f@);
    let target = String::from_str(name);
    let mut i: usize = 0;
    while i < files.len()
        invariant
            i <= files@.len(),
            fv == files@.map_values(|f: FileMetaData| f@),
            target@ == name@,
            find_file(fv, attr, name@) == find_from(fv, attr, name@, i as int),
        decreases files.len() - i,
    {
        let t = trim_string(&files[i].name);
        if files[i].attr == attr && t == target {
            proof {
                lemma_find_from_bounds(fv, attr, name@, 0);
            }
            return Some(i);
        }
        i = i + 1;
    }
    None
}

/// The bytes of directory entries laid end to end.
pub open spec fn entries_bytes(entries: Seq<DirectoryEntry>) -> Seq<u8> {
    entries.map_values(|e: DirectoryEntry| e.0@).flatten_alt()
}

/// `s` cut or zero-padded to `n` bytes.
pub open spec fn resized(s: Seq<u8>, n: nat) -> Seq<u8> {
    if n <= s.len() {
        s.take(n as int)
    } else {
        s + Seq::new((n - s.len()) as nat, |i: int| 0u8)
    }
}

fn raw_bytes_of(entries: &Vec<DirectoryEntry>) -> (res: Vec<u8>)
    ensures
        res@ == entries_bytes(entries@),
{
    let mut bytes: Vec<u8> = Vec::new();
    let mut i: usize = 0;
    while i < entries.len()
        invariant
            i <= entries@.len(),
            bytes@ == entries_bytes(entries@.take(i as int)),
        decreases entries.len() - i,
    {
        let ghost prev = entries@.take(i as int).map_values(|e: DirectoryEntry| e.0@);
        crate::codec::extend_from_slice(&mut bytes, &entries[i].0);
        i = i + 1;
        assert(entries@.take(i as int).map_values(|e: DirectoryEntry| e.0@) =~= prev.push(entries@[i - 1].0@));
        assert(entries@.take(i as int).map_values(|e: DirectoryEntry| e.0@).drop_last() =~= prev);
    }
    assert(entries@.take(entries@.len() as int) =~= entries@);
    bytes
}

/// The bytes of the file whose first cluster and size are given.
pub fn read_file_bytes(volume: &FatVolume, cluster: usize, size: usize) -> (res: Vec<u8>)
    ensures
        res@ == resized(entries_bytes(chain_of(volume.chains@, cluster)), size as nat),
{
    let dir_entries = volume.read_chained_dir_entries(cluster);
    let mut bytes = raw_bytes_of(&dir_entries);
    resize_bytes(&mut bytes, size, 0);
    bytes
}

impl FileMetaData {
    pub fn duplicate(&self) -> (res: FileMetaData)
        ensures
            res@ == self@,
    {
        FileMetaData {
            name: self.name.clone(),
            attr: self.attr,
            size: self.size,
            target_cluster_num: self.target_cluster_num,
        }
    }
}

/// A FAT file system over a volume.
#[derive(Debug)]
pub struct Fat {
    pub volume: FatVolume,
    pub root_cluster_num: usize,
}

impl Fat {
    pub open spec fn spec_cluster_num(&self, dir_name: Seq<char>, cur: Option<usize>) -> Result<usize, Error> {
        let at_root = cur is None || cur == Some(self.root_cluster_num);
        let files = scan_entries(chain_of(self.volume.chains@, cur.unwrap_or(self.root_cluster_num)));
        if at_root && (dir_name == seq!['.'] || dir_name == seq!['.', '.']) {
            Ok(self.root_cluster_num)
        } else {
            match find_file(files, Attribute::Directory, dir_name) {
                Some(i) => Ok(files[i].3),
                None => Err(Error::Failed("The directory does not exist")),
            }
        }
    }

    pub open spec fn get_file_result(
        &self,
        name: Seq<char>,
        cur: Option<usize>,
        res: Result<(FileMetaData, Vec<u8>), Error>,
    ) -> bool {
        let files = scan_entries(chain_of(self.volume.chains@, cur.unwrap_or(self.root_cluster_num)));
        match find_file(files, Attribute::Archive, name) {
            Some(i) => res matches Ok((m, bytes)) && m@ == files[i] && bytes@ == resized(
                entries_bytes(chain_of(self.volume.chains@, files[i].3)),
                files[i].2 as nat,
            ),
            None => res matches Err(e) && e == Error::Failed("The file does not exist"),
        }
    }

    /// The directory reached from `start` through the directories `names`.
    pub open spec fn walk_dirs(&self, names: Seq<Seq<char>>, start: usize) -> Result<usize, Error>
        decreases names.len(),
    {
        if names.len() == 0 {
            Ok(start)
        } else {
            match self.walk_dirs(names.drop_last(), start) {
                Ok(c) => self.spec_cluster_num(names.last(), Some(c)),
                Err(e) => Err(e),
            }
        }
    }

    pub fn new(volume: FatVolume) -> (res: Self)
        ensures
            res.root_cluster_num == volume.root_cluster_num,
            res.volume == volume,
    {
        let root_cluster_num = volume.root_cluster_num();
        Fat { volume, root_cluster_num }
    }

    /// The files and directories of a directory (the root when none is
    /// given).
    pub fn scan_dir(&self, dir_cluster_num: Option<usize>) -> (res: Vec<FileMetaData>)
        ensures
            res@.map_values(|f: FileMetaData| f@) == scan_entries(
                chain_of(self.volume.chains@, dir_cluster_num.unwrap_or(self.root_cluster_num)),
            ),
    {
        let dir_cluster_num = match dir_cluster_num {
            Some(cluster_num) => cluster_num,
            None => self.root_cluster_num,
        };
        let dir_entries = self.volume.read_chained_dir_entries(dir_cluster_num);
        scan_dir_entries(&dir_entries)
    }

    /// The first cluster of the directory `dir_name` in the given directory;
    /// "." and ".." at the root name the root itself.
    pub fn cluster_num(&self, dir_name: &str, current_dir_cluster_num: Option<usize>) -> (res: Result<usize, Error>)
        ensures
            res == self.spec_cluster_num(dir_name@, current_dir_cluster_num),
    {
        if current_dir_cluster_num.is_none() || current_dir_cluster_num == Some(self.root_cluster_num) {
            if is_dot_or_dot_dot(dir_name) {
                return Ok(self.root_cluster_num);
            }
        }
        let files = self.scan_dir(current_dir_cluster_num);
        match find_file_index(&files, Attribute::Directory, dir_name) {
            Some(i) => Ok(files[i].target_cluster_num),
            None => Err(Error::Failed("The directory does not exist")),
        }
    }

    /// The metadata and bytes of the file `file_name` in the given directory.
    pub fn get_file(&self, file_name: &str, current_dir_cluster_num: Option<usize>) -> (res: Result<(FileMetaData, Vec<u8>), Error>)
        ensures
            self.get_file_result(file_name@, current_dir_cluster_num, res),
    {
        let files = self.scan_dir(current_dir_cluster_num);
        match find_file_index(&files, Attribute::Archive, file_name) {
            Some(i) => {
                let file = &files[i];
                let bytes = read_file_bytes(&self.volume, file.target_cluster_num, file.size);
                Ok((file.duplicate(), bytes))
            },
            None => Err(Error::Failed("The file does not exist")),
        }
    }
}

impl Fat {
    /// The file at an absolute path: the directories of the parent are
    /// entered from the root, then the file is looked up by its name.
    pub fn get_file_by_abs_path(&self, path: &Path) -> (res: Result<(FileMetaData, Vec<u8>), Error>)
        ensures
            ({
                let n = normalize_chars(path@);
                match self.walk_dirs(path_names(parent_chars(n)), self.root_cluster_num) {
                    Err(e) => res matches Err(e2) && e2 == e,
                    Ok(c) => self.get_file_result(
                        if path_names(n).len() > 0 {
                            path_names(n).last()
                        } else {
                            seq!['/']
                        },
                        Some(c),
                        res,
                    ),
                }
            }),
    {
        let mut current_dir_cluster_num = self.root_cluster_num;
        let npath = path.normalize();
        let parent_path = npath.parent();
        let names = parent_path.names();
        let ghost nv = names@.map_values(|s: String| s@);
        let mut i: usize = 0;
        while i < names.len()
            invariant
                i <= names@.len(),
                nv == names@.map_values(|s: String| s@),
                nv == path_names(parent_chars(normalize_chars(path@))),
                self.walk_dirs(nv.take(i as int), self.root_cluster_num) == Ok::<usize, Error>(
                    current_dir_cluster_num,
                ),
            decreases names.len() - i,
        {
            assert(nv.take(i + 1).drop_last() =~= nv.take(i as int));
            assert(nv.take(i + 1).last() == nv[i as int]);
            assert(names[i as int]@ == nv[i as int]);
            match self.cluster_num(names[i].as_str(), Some(current_dir_cluster_num)) {
                Ok(c) => {
                    current_dir_cluster_num = c;
                },
                Err(e) => {
                    assert(self.walk_dirs(nv.take(i + 1), self.root_cluster_num) == Err::<usize, Error>(e));
                    proof {
                        lemma_walk_err(self, nv, i as int + 1, e);
                    }
                    return Err(e);
                },
            }
            i = i + 1;
        }
        assert(nv.take(nv.len() as int) =~= nv);
        let name = npath.name();
        self.get_file(name.as_str(), Some(current_dir_cluster_num))
    }
}

/// A failure part way through the walk is the walk's result.
proof fn lemma_walk_err(fat: &Fat, names: Seq<Seq<char>>, k: int, e: Error)
    requires
        0 < k <= names.len(),
        fat.walk_dirs(names.take(k), fat.root_cluster_num) == Err::<usize, Error>(e),
    ensures
        fat.walk_dirs(names, fat.root_cluster_num) == Err::<usize, Error>(e),
    decreases names.len() - k,
{
    if k < names.len() {
        assert(names.take(k + 1).drop_last() =~= names.take(k));
        lemma_walk_err(fat, names, k + 1, e);
    } else {
        assert(names.take(k) =~= names);
    }
}

fn is_dot_or_dot_dot(s: &str) -> (res: bool)
    ensures
        res == (s@ == seq!['.'] || s@ == seq!['.', '.']),
{
    let n = s.unicode_len();
    if n == 1 {
        let r = s.get_char(0) == '.';
        if r {
            assert(s@ =~= seq!['.']);
        }
        r
    } else if n == 2 {
        let r = s.get_char(0) == '.' && s.get_char(1) == '.';
        if r {
            assert(s@ =~= seq!['.', '.']);
        }
        r
    } else {
        false
    }
}

/// `raw` is a long-name entry that the listing reads as one.
pub open spec fn is_lfn_entry(raw: Seq<u8>) -> bool {
    attribute_of(raw[11]) == Some(Attribute::LongFileName) && raw[0] >= 1
}

/// The long name written by the `k` long-name entries from index `i`: the
/// entries hold its parts last part first, so the name is the parts of the
/// later entries followed by that of the first.
pub open spec fn written_long_name(entries: Seq<DirectoryEntry>, i: int, k: int) -> Seq<char>
    decreases k,
{
    if k <= 0 {
        Seq::empty()
    } else {
        written_long_name(entries, i + 1, k - 1) + lfn_chars(entries[i].0@)
    }
}

/// The parts of those entries, latest first.
spec fn latest_parts(entries: Seq<DirectoryEntry>, i: int, k: int) -> Seq<Seq<char>>
    decreases k,
{
    if k <= 0 {
        Seq::empty()
    } else {
        latest_parts(entries, i + 1, k - 1) + seq![lfn_chars(entries[i].0@)]
    }
}

proof fn lemma_scan_lfn_run(entries: Seq<DirectoryEntry>, i: int, k: int, buf: Seq<Seq<char>>)
    requires
        0 <= i,
        0 <= k,
        i + k <= entries.len(),
        forall|j: int| i <= j < i + k ==> #[trigger] is_lfn_entry(entries[j].0@),
    ensures
        scan_from(entries, i, buf) == scan_from(entries, i + k, latest_parts(entries, i, k) + buf),
        latest_parts(entries, i, k).flatten_alt() == written_long_name(entries, i, k),
    decreases k,
{
    if k == 0 {
        assert(latest_parts(entries, i, k) + buf =~= buf);
    } else {
        assert(is_lfn_entry(entries[i].0@));
        lemma_scan_lfn_run(entries, i + 1, k - 1, seq![lfn_chars(entries[i].0@)] + buf);
        assert(latest_parts(entries, i + 1, k - 1) + (seq![lfn_chars(entries[i].0@)] + buf)
            =~= latest_parts(entries, i, k) + buf);
        assert(latest_parts(entries, i, k).drop_last() =~= latest_parts(entries, i + 1, k - 1));
    }
}

/// A file or directory entry preceded by `k` long-name entries is listed
/// under the long name those entries spell: their parts in ascending
/// sequence order, which is the reverse of their order on disk; with no
/// long-name entry before it, under its short name.
pub proof fn lemma_long_name_listed(entries: Seq<DirectoryEntry>, i: int, k: int)
    requires
        0 <= i,
        0 <= k,
        i + k < entries.len(),
        forall|j: int| i <= j < i + k ==> #[trigger] is_lfn_entry(entries[j].0@),
        attribute_of(entries[i + k].0@[11]) == Some(Attribute::Archive) || attribute_of(entries[i + k].0@[11])
            == Some(Attribute::Directory),
    ensures
        scan_from(entries, i, Seq::empty()).len() > 0,
        k > 0 ==> scan_from(entries, i, Seq::empty())[0].0 == written_long_name(entries, i, k),
        k == 0 ==> scan_from(entries, i, Seq::empty())[0].0 == utf8_lossy(entries[i].0@.subrange(0, 11)),
        scan_from(entries, i, Seq::empty())[0].1 == attribute_of(entries[i + k].0@[11]).unwrap(),
{
    lemma_scan_lfn_run(entries, i, k, Seq::empty());
    let p = latest_parts(entries, i, k);
    assert(p + Seq::<Seq<char>>::empty() =~= p);
    if k > 0 {
        assert(latest_parts(entries, i, k).len() > 0);
    } else {
        assert(p.len() == 0);
    }
}

/// File bytes are the chain's bytes cut or zero-padded to the file's size:
/// exactly `n` bytes, agreeing with the chain as far as it goes, zeros past
/// its end.
pub proof fn lemma_resized(s: Seq<u8>, n: nat)
    ensures
        resized(s, n).len() == n,
        forall|i: int| 0 <= i < n && i < s.len() ==> #[trigger] resized(s, n)[i] == s[i],
        forall|i: int| s.len() <= i < n ==> #[trigger] resized(s, n)[i] == 0,
{
}

/// A lookup by name finds the first entry with the attribute whose trimmed
/// name is the name, and finds nothing only when no entry has both.
pub proof fn lemma_find_file(files: Seq<FileView>, attr: Attribute, name: Seq<char>)
    ensures
        find_file(files, attr, name) matches Some(k) ==> 0 <= k < files.len() && files[k].1 == attr
            && trimmed(files[k].0) == name && forall|j: int| 0 <= j < k ==> !(files[j].1 == attr && trimmed(
            files[j].0,
        ) == name),
        find_file(files, attr, name) is None ==> forall|j: int| 0 <= j < files.len() ==> !(files[j].1 == attr
            && trimmed(files[j].0) == name),
{
    lemma_find_first(files, attr, name, 0);
}

proof fn lemma_find_first(files: Seq<FileView>, attr: Attribute, name: Seq<char>, i: int)
    requires
        0 <= i,
    ensures
        find_from(files, attr, name, i) matches Some(k) ==> i <= k < files.len() && files[k].1 == attr
            && trimmed(files[k].0) == name && forall|j: int| i <= j < k ==> !(files[j].1 == attr && trimmed(
            files[j].0,
        ) == name),
        find_from(files, attr, name, i) is None ==> forall|j: int| i <= j < files.len() ==> !(files[j].1 == attr
            && trimmed(files[j].0) == name),
    decreases files.len() - i,
{
    if i < files.len() {
        lemma_find_first(files, attr, name, i + 1);
    }
}

/// Trimming removes exactly the white space at both ends: what remains is a
/// slice of the text that neither starts nor ends with white space, and
/// everything cut off around it is white space.
pub proof fn lemma_trimmed(s: Seq<char>)
    ensures
        exists|a: int, b: int|
            0 <= a <= b <= s.len() && trimmed(s) == s.subrange(a, b) && (forall|k: int|
                0 <= k < a ==> is_white_space(#[trigger] s[k])) && (forall|k: int|
                b <= k < s.len() ==> is_white_space(#[trigger] s[k])) && (a < b ==> !is_white_space(s[a])
                && !is_white_space(s[b - 1])),
{
    let (a, _) = lemma_trim_start(s);
    let m = s.subrange(a, s.len() as int);
    let b = lemma_trim_end(m);
    assert(trimmed(s) == trim_end(m));
    assert(m.subrange(0, b) =~= s.subrange(a, a + b));
    assert forall|k: int| a + b <= k < s.len() implies is_white_space(#[trigger] s[k]) by {
        assert(s[k] == m[k - a]);
    }
    if b > 0 {
        assert(s[a] == m[0]);
        assert(s[a + b - 1] == m[b - 1]);
    }
    assert(0 <= a <= a + b <= s.len() && trimmed(s) == s.subrange(a, a + b));
}

proof fn lemma_trim_start(s: Seq<char>) -> (r: (int, int))
    ensures
        0 <= r.0 <= s.len(),
        trim_start(s) == s.subrange(r.0, s.len() as int),
        forall|k: int| 0 <= k < r.0 ==> is_white_space(#[trigger] s[k]),
        r.0 < s.len() ==> !is_white_space(s[r.0]),
    decreases s.len(),
{
    if s.len() > 0 && is_white_space(s[0]) {
        let (a, _) = lemma_trim_start(s.drop_first());
        assert(s.drop_first().subrange(a, s.len() - 1) =~= s.subrange(a + 1, s.len() as int));
        assert forall|k: int| 0 <= k < a + 1 implies is_white_space(#[trigger] s[k]) by {
            if k > 0 {
                assert(s[k] == s.drop_first()[k - 1]);
            }
        }
        if a + 1 < s.len() {
            assert(s[a + 1] == s.drop_first()[a]);
        }
        (a + 1, 0)
    } else {
        assert(s.subrange(0, s.len() as int) =~= s);
        (0, 0)
    }
}

proof fn lemma_trim_end(s: Seq<char>) -> (b: int)
    ensures
        0 <= b <= s.len(),
        trim_end(s) == s.subrange(0, b),
        forall|k: int| b <= k < s.len() ==> is_white_space(#[trigger] s[k]),
        b > 0 ==> !is_white_space(s[b - 1]),
    decreases s.len(),
{
    if s.len() > 0 && is_white_space(s.last()) {
        let b = lemma_trim_end(s.drop_last());
        assert(s.drop_last().subrange(0, b) =~= s.subrange(0, b));
        assert forall|k: int| b <= k < s.len() implies is_white_space(#[trigger] s[k]) by {
            if k < s.len() - 1 {
                assert(s[k] == s.drop_last()[k]);
            }
        }
        if b > 0 {
            assert(s[b - 1] == s.drop_last()[b - 1]);
        }
        b
    } else {
        assert(s.subrange(0, s.len() as int) =~= s);
        s.len() as int
    }
}

} // verus!
