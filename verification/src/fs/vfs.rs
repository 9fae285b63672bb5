pub mod descriptors;
pub mod file_desc;
pub mod navigation;

use crate::fs::vfs::descriptors::{
    close_post, create_pipe_post, file_size_post, open_post, read_post, seek_post, write_post,
};
use crate::fs::vfs::navigation::{chdir_post, entry_names_post};

use vstd::prelude::*;
use crate::error::Error;
use crate::text::{decimal, push_decimal};
use vstd::string::StringExecFns;
use crate::fs::path::{is_abs_path, join_slash, name_chars, normalize_chars, parent_chars, path_names, Path};

verus! {

/// Identifies a file in the virtual file system.
#[derive(Debug, Clone, Copy, PartialEq, Eq, Structural)]
pub struct VfsFileId(pub usize);

impl VfsFileId {
    /// The next fresh id from a counter.
    pub fn new(next: &mut usize) -> (res: Self)
        requires
            *old(next) < usize::MAX,
        ensures
            res.0 == *old(next),
            *final(next) == *old(next) + 1,
    {
        let id = VfsFileId(*next);
        *next = *next + 1;
        id
    }
}

/// The number of an open file descriptor.
#[derive(Debug, Clone, Copy, PartialEq, Eq, Structural)]
pub struct FileDescriptorNumber(pub usize);

impl FileDescriptorNumber {
    /// The next fresh number from a counter (which starts after the three
    /// standard streams).
    pub fn new(next: &mut usize) -> (res: Self)
        requires
            *old(next) < usize::MAX,
        ensures
            res.0 == *old(next),
            *final(next) == *old(next) + 1,
    {
        let n = FileDescriptorNumber(*next);
        *next = *next + 1;
        n
    }

    pub fn get(&self) -> (res: usize)
        ensures
            res == self.0,
    {
        self.0
    }

    /// A number from a signed value; negative values are refused.
    pub fn try_new(value: i32) -> (res: Result<Self, Error>)
        ensures
            value < 0 <==> res is Err,
            res matches Ok(n) ==> n.0 == value,
            res matches Err(e) ==> e == Error::Vfs(VirtualFileSystemError::InvalidFileDescriptorNumber),
    {
        if value < 0 {
            return Err(Error::Vfs(VirtualFileSystemError::InvalidFileDescriptorNumber));
        }
        Ok(FileDescriptorNumber(value as usize))
    }
}

/// Which end of a pipe a descriptor holds.
#[derive(Debug, Clone, Copy, PartialEq, Eq, Structural)]
pub enum PipeEnd {
    Read,
    Write,
}

/// The bytes in flight in a pipe.
#[derive(Debug)]
pub struct PipeBuffer {
    pub buf: Vec<u8>,
    pub write_closed: bool,
}

/// What an open descriptor reads and writes.
#[derive(Debug)]
pub enum FileBacking {
    Vfs(VfsFileId),
    Fs { mount_id: VfsFileId, rel_path: Path },
}

impl FileBacking {
    pub fn duplicate(&self) -> (res: Self)
        ensures
            res == *self,
    {
        match self {
            FileBacking::Vfs(id) => FileBacking::Vfs(*id),
            FileBacking::Fs { mount_id, rel_path } => FileBacking::Fs {
                mount_id: *mount_id,
                rel_path: rel_path.duplicate(),
            },
        }
    }
}

/// A seek target.
#[derive(Debug, Clone, Copy)]
pub enum SeekFrom {
    Start(i64),
    Current(i64),
    End(i64),
}

/// An open file.
#[derive(Debug)]
pub struct FileDescriptor {
    pub num: FileDescriptorNumber,
    pub backing: FileBacking,
    pub offset: usize,
    pub pipe_end: Option<PipeEnd>,
    pub fs_content_cache: Option<Vec<u8>>,
}

/// Stands for a character device registered in the file system.
#[derive(Debug, Clone, Copy, PartialEq, Eq, Structural)]
pub struct DeviceId(pub usize);

/// The kinds of files of the virtual file system.
#[derive(Debug, Clone, Copy, PartialEq, Eq, Structural)]
pub enum VfsFileType {
    /// for file system
    VirtualFile,
    DeviceFile(DeviceId),
    Pipe,
    Directory,
}

#[derive(Debug, Clone, Copy, PartialEq, Eq, Structural)]
pub enum FsFileType {
    File,
    Directory,
}

/// What a mounted file system reports of a path.
#[derive(Debug, Clone, Copy)]
pub struct FsMetaData {
    pub file_type: FsFileType,
    pub size: usize,
}

/// A file system that can be mounted into the virtual file system.
pub trait FileSystem {
    fn read_entry_names(&self, path: &Path) -> Result<Vec<String>, Error>;

    fn read_file(&self, path: &Path, offset: usize, max_len: usize) -> Result<Vec<u8>, Error>;

    fn write_file(&self, path: &Path, offset: usize, data: &[u8]) -> Result<(), Error>;

    fn metadata(&self, path: &Path) -> Result<FsMetaData, Error>;
}

/// A node of the virtual file system.
pub struct FileInfo<F> {
    pub ty: VfsFileType,
    pub name: String,
    pub fs: Option<F>,
    pub parent: VfsFileId,
    pub children: Vec<VfsFileId>,
    pub buf: Option<Vec<u8>>,
    pub pipe_buf: Option<PipeBuffer>,
}

pub open spec fn is_reserved_name(name: Seq<char>) -> bool {
    name.len() == 0 || name == seq!['.'] || name == seq!['.', '.']
}

fn name_is_reserved(name: &String) -> (res: bool)
    ensures
        res == is_reserved_name(name@),
{
    let s = name.as_str();
    let n = vstd::string::StrSliceExecFns::unicode_len(s);
    if n == 0 {
        return true;
    }
    if n == 1 {
        let r = vstd::string::StrSliceExecFns::get_char(s, 0) == '.';
        if r {
            assert(name@ =~= seq!['.']);
        }
        return r;
    }
    if n == 2 {
        let r = vstd::string::StrSliceExecFns::get_char(s, 0) == '.'
            && vstd::string::StrSliceExecFns::get_char(s, 1) == '.';
        if r {
            assert(name@ =~= seq!['.', '.']);
        }
        return r;
    }
    false
}

impl<F> FileInfo<F> {
    pub fn new(ty: VfsFileType, name: String, parent: VfsFileId) -> (res: Self)
        ensures
            res.ty == ty,
            res.name == name,
            res.fs is None,
            res.parent == parent,
            res.children@ == Seq::<VfsFileId>::empty(),
            res.buf is None,
            res.pipe_buf is None,
    {
        FileInfo { ty, name, fs: None, parent, children: Vec::new(), buf: None, pipe_buf: None }
    }

    /// Only directories have children or a mounted file system; names are
    /// not empty, "." or "..".
    pub fn check_integrity(&self) -> (res: Result<(), Error>)
        ensures
            match res {
                Ok(()) => !(self.ty != VfsFileType::Directory && (self.children@.len() > 0
                    || self.fs is Some)) && !is_reserved_name(self.name@),
                Err(e) => if self.ty != VfsFileType::Directory && (self.children@.len() > 0
                    || self.fs is Some) {
                    e == Error::Vfs(VirtualFileSystemError::NotDirectory(None))
                } else {
                    is_reserved_name(self.name@) && e == Error::Vfs(
                        VirtualFileSystemError::InvalidFileName,
                    )
                },
            },
    {
        if self.ty != VfsFileType::Directory && (self.children.len() > 0 || self.fs.is_some()) {
            return Err(Error::Vfs(VirtualFileSystemError::NotDirectory(None)));
        }
        if name_is_reserved(&self.name) {
            return Err(Error::Vfs(VirtualFileSystemError::InvalidFileName));
        }
        Ok(())
    }
}

/// Where a path leads.
pub enum Resolved {
    /// a file of the tree and its type
    Vfs(VfsFileId, VfsFileType),
    Fs { mount_id: VfsFileId, rel_path: Path, metadata: FsMetaData },
}

impl Resolved {
    /// The type of file the path resolves to.
    pub fn vfs_type(&self) -> (res: VfsFileType)
        ensures
            res == (match *self {
                Resolved::Vfs(_, ty) => ty,
                Resolved::Fs { metadata, .. } => match metadata.file_type {
                    FsFileType::Directory => VfsFileType::Directory,
                    FsFileType::File => VfsFileType::VirtualFile,
                },
            }),
    {
        match self {
            Resolved::Vfs(_, ty) => *ty,
            Resolved::Fs { metadata, .. } => fs_file_type_as_vfs(&metadata.file_type),
        }
    }

    /// What a descriptor opened on the path reads and writes.
    pub fn backing(&self) -> (res: FileBacking)
        ensures
            res == (match *self {
                Resolved::Vfs(id, _) => FileBacking::Vfs(id),
                Resolved::Fs { mount_id, rel_path, .. } => FileBacking::Fs { mount_id, rel_path },
            }),
    {
        match self {
            Resolved::Vfs(id, _) => FileBacking::Vfs(*id),
            Resolved::Fs { mount_id, rel_path, .. } => FileBacking::Fs {
                mount_id: *mount_id,
                rel_path: rel_path.duplicate(),
            },
        }
    }
}

pub fn fs_file_type_as_vfs(ty: &FsFileType) -> (res: VfsFileType)
    ensures
        res == (match *ty {
            FsFileType::Directory => VfsFileType::Directory,
            FsFileType::File => VfsFileType::VirtualFile,
        }),
{
    match ty {
        FsFileType::Directory => VfsFileType::Directory,
        FsFileType::File => VfsFileType::VirtualFile,
    }
}

/// Errors of the virtual file system.
#[derive(Debug)]
pub enum VirtualFileSystemError {
    NoSuchFileOrDirectory(Option<Path>),
    FileOrDirectoryAlreadyExists(Path),
    InvalidFileType(Option<Path>),
    NotDirectory(Option<Path>),
    NotFile(Option<Path>),
    ReadOnly(Option<Path>),
    BlockingFileResource(FileDescriptorNumber),
    ReleasedFileResource(FileDescriptorNumber),
    InvalidFileName,
    InvalidFileDescriptorNumber,
}

/// ": " and the path, when there is one.
pub open spec fn path_suffix(p: Option<Path>) -> Seq<char> {
    match p {
        Some(p) => ": "@ + p@,
        None => Seq::empty(),
    }
}

/// The text of an error of the virtual file system.
pub open spec fn vfs_error_text(e: VirtualFileSystemError) -> Seq<char> {
    match e {
        VirtualFileSystemError::NoSuchFileOrDirectory(p) => "No such file or directory"@ + path_suffix(p),
        VirtualFileSystemError::FileOrDirectoryAlreadyExists(p) => "File or directory already exists: "@ + p@,
        VirtualFileSystemError::InvalidFileType(p) => "Invalid file type"@ + path_suffix(p),
        VirtualFileSystemError::NotDirectory(p) => "Not a directory"@ + path_suffix(p),
        VirtualFileSystemError::NotFile(p) => "Not a file"@ + path_suffix(p),
        VirtualFileSystemError::ReadOnly(p) => "Read-only file system"@ + path_suffix(p),
        VirtualFileSystemError::BlockingFileResource(fd) => "Blocking file resource: "@ + decimal(fd.0 as nat),
        VirtualFileSystemError::ReleasedFileResource(fd) => "Released file resource: "@ + decimal(fd.0 as nat),
        VirtualFileSystemError::InvalidFileName => "Invalid file name"@,
        VirtualFileSystemError::InvalidFileDescriptorNumber => "Invalid file descriptor number"@,
    }
}

fn push_path_suffix(s: &mut String, p: &Option<Path>)
    ensures
        final(s)@ == old(s)@ + path_suffix(*p),
{
    match p {
        Some(p) => {
            s.append(": ");
            s.append(p.as_str());
            assert(s@ =~= old(s)@ + path_suffix(Some(*p)));
        },
        None => {
            assert(s@ =~= old(s)@ + path_suffix(None));
        },
    }
}

impl VirtualFileSystemError {
    /// The error as text, with the path or descriptor number it is about.
    pub fn to_string(&self) -> (res: String)
        ensures
            res@ == vfs_error_text(*self),
    {
        let mut s = String::new();
        match self {
            VirtualFileSystemError::NoSuchFileOrDirectory(p) => {
                s.append("No such file or directory");
                push_path_suffix(&mut s, p);
            },
            VirtualFileSystemError::FileOrDirectoryAlreadyExists(p) => {
                s.append("File or directory already exists: ");
                s.append(p.as_str());
            },
            VirtualFileSystemError::InvalidFileType(p) => {
                s.append("Invalid file type");
                push_path_suffix(&mut s, p);
            },
            VirtualFileSystemError::NotDirectory(p) => {
                s.append("Not a directory");
                push_path_suffix(&mut s, p);
            },
            VirtualFileSystemError::NotFile(p) => {
                s.append("Not a file");
                push_path_suffix(&mut s, p);
            },
            VirtualFileSystemError::ReadOnly(p) => {
                s.append("Read-only file system");
                push_path_suffix(&mut s, p);
            },
            VirtualFileSystemError::BlockingFileResource(fd) => {
                s.append("Blocking file resource: ");
                push_decimal(&mut s, fd.0);
            },
            VirtualFileSystemError::ReleasedFileResource(fd) => {
                s.append("Released file resource: ");
                push_decimal(&mut s, fd.0);
            },
            VirtualFileSystemError::InvalidFileName => {
                s.append("Invalid file name");
            },
            VirtualFileSystemError::InvalidFileDescriptorNumber => {
                s.append("Invalid file descriptor number");
            },
        }
        s
    }
}

/// What a read hands back: bytes, or a device to read from at an offset.
pub enum ReadOutcome {
    Data(Vec<u8>),
    Device { dev: DeviceId, offset: usize },
}

/// What a write leaves to do: nothing, or a device to write to.
pub enum WriteOutcome {
    Done,
    Device(DeviceId),
}

/// The position of the file `id` in `files`, searching from `i`.
pub open spec fn id_index_from<F>(files: Seq<(VfsFileId, FileInfo<F>)>, id: VfsFileId, i: int) -> Option<int>
    decreases files.len() - i,
{
    if i < 0 || i >= files.len() {
        None
    } else if files[i].0 == id {
        Some(i)
    } else {
        id_index_from(files, id, i + 1)
    }
}

pub open spec fn id_index<F>(files: Seq<(VfsFileId, FileInfo<F>)>, id: VfsFileId) -> Option<int> {
    id_index_from(files, id, 0)
}

pub proof fn lemma_id_index_from<F>(files: Seq<(VfsFileId, FileInfo<F>)>, id: VfsFileId, i: int)
    requires
        0 <= i,
    ensures
        id_index_from(files, id, i) matches Some(k) ==> i <= k < files.len() && files[k].0 == id,
        id_index_from(files, id, i) is None ==> forall|k: int| i <= k < files.len() ==> files[k].0 != id,
    decreases files.len() - i,
{
    if i < files.len() {
        lemma_id_index_from(files, id, i + 1);
    }
}

/// What looking up a name among the children of a directory gives.
pub enum ChildLookup {
    /// a child id that names no file
    Missing,
    Found(VfsFileId),
    Absent,
}

pub open spec fn child_lookup<F>(files: Seq<(VfsFileId, FileInfo<F>)>, children: Seq<VfsFileId>, name: Seq<char>, j: int) -> ChildLookup
    decreases children.len() - j,
{
    if j < 0 || j >= children.len() {
        ChildLookup::Absent
    } else {
        match id_index(files, children[j]) {
            None => ChildLookup::Missing,
            Some(k) => if files[k].1.name@ == name {
                ChildLookup::Found(children[j])
            } else {
                child_lookup(files, children, name, j + 1)
            },
        }
    }
}

/// Where walking the names of an absolute path leads.
pub enum Walk {
    NotFound,
    Vfs(VfsFileId),
    /// a mounted file system and the path within it
    Mount(VfsFileId, Seq<char>),
}

/// Walks `names` from position `i`, standing on the file `cur`: a file
/// with a mounted file system takes the rest of the path; otherwise the
/// next name is looked up among the children.
pub open spec fn walk<F>(files: Seq<(VfsFileId, FileInfo<F>)>, names: Seq<Seq<char>>, i: int, cur: VfsFileId) -> Walk
    decreases names.len() - i,
{
    match id_index(files, cur) {
        None => Walk::NotFound,
        Some(k) => {
            let info = files[k].1;
            if info.fs is Some {
                Walk::Mount(cur, seq!['/'] + join_slash(names.skip(i)))
            } else if i >= names.len() || i < 0 {
                Walk::Vfs(cur)
            } else {
                match child_lookup(files, info.children@, names[i], 0) {
                    ChildLookup::Found(c) => walk(files, names, i + 1, c),
                    _ => Walk::NotFound,
                }
            }
        },
    }
}

/// A walk that ends on a file of the tree ends on a file that is present.
pub proof fn lemma_walk_ends_present<F>(files: Seq<(VfsFileId, FileInfo<F>)>, names: Seq<Seq<char>>, i: int, cur: VfsFileId)
    ensures
        walk(files, names, i, cur) matches Walk::Vfs(id) ==> id_index(files, id) is Some,
    decreases names.len() - i,
{
    if let Some(k) = id_index(files, cur) {
        if files[k].1.fs is None && 0 <= i < names.len() {
            if let ChildLookup::Found(c) = child_lookup(files, files[k].1.children@, names[i], 0) {
                lemma_walk_ends_present(files, names, i + 1, c);
            }
        }
    }
}

/// Creating a file keeps the files that were there in their places, with
/// their ids, types, parents and names.
pub proof fn lemma_add_file_keeps<F>(a: VirtualFileSystem<F>, b: VirtualFileSystem<F>, path: Path, ty: VfsFileType, res: Result<(), Error>, r: int)
    requires
        add_file_post(a, b, path, ty, res),
        0 <= r < a.files@.len(),
    ensures
        b.files@.len() >= a.files@.len(),
        b.files@[r].0 == a.files@[r].0,
        b.files@[r].1.ty == a.files@[r].1.ty,
        b.files@[r].1.parent == a.files@[r].1.parent,
        b.files@[r].1.name == a.files@[r].1.name,
        b.root_id == a.root_id,
        b.cwd_path == a.cwd_path,
        b.fds == a.fds,
        b.next_fd_num == a.next_fd_num,
        b.next_file_id <= a.next_file_id + 1,
{
}

/// The name with '/' between base and name, normalized (as `Path::join`).
pub open spec fn join_chars(base: Seq<char>, name: Seq<char>) -> Seq<char> {
    normalize_chars(
        if base.len() > 0 && base.last() == '/' {
            base + name
        } else {
            base.push('/') + name
        },
    )
}

/// A path made absolute: normalized when absolute, else joined to the
/// current directory.
pub open spec fn absolutize_chars(cwd: Option<Path>, path: Seq<char>) -> Option<Seq<char>> {
    if is_abs_path(path) {
        Some(normalize_chars(path))
    } else {
        match cwd {
            Some(c) => Some(join_chars(c@, path)),
            None => None,
        }
    }
}

/// The virtual file system: a tree of files with mount points, and the open
/// file descriptors.
pub struct VirtualFileSystem<F> {
    pub cwd_path: Option<Path>,
    pub root_id: Option<VfsFileId>,
    pub files: Vec<(VfsFileId, FileInfo<F>)>,
    pub fds: Vec<FileDescriptor>,
    pub next_file_id: usize,
    pub next_fd_num: usize,
}

/// The walk of the absolute form of a path from the root.
pub open spec fn path_walk<F>(vfs: VirtualFileSystem<F>, path: Seq<char>) -> Walk {
    match absolutize_chars(vfs.cwd_path, path) {
        None => Walk::NotFound,
        Some(abs) => match vfs.root_id {
            None => Walk::NotFound,
            Some(root) => walk(vfs.files@, path_names(abs), 0, root),
        },
    }
}

/// The file named by `id` (meaningful when it is present).
pub open spec fn file_of<F>(files: Seq<(VfsFileId, FileInfo<F>)>, id: VfsFileId) -> FileInfo<F> {
    files[id_index(files, id).unwrap()].1
}

/// Where a path resolves to, per the walk of its absolute form.
pub open spec fn resolves_to<F>(vfs: VirtualFileSystem<F>, path: Seq<char>, res: Option<Resolved>) -> bool {
    match absolutize_chars(vfs.cwd_path, path) {
        None => res is None,
        Some(abs) => match vfs.root_id {
            None => res is None,
            Some(root) => match walk(vfs.files@, path_names(abs), 0, root) {
                Walk::NotFound => res is None,
                Walk::Vfs(id) => res == Some(
                    Resolved::Vfs(id, vfs.files@[id_index(vfs.files@, id).unwrap()].1.ty),
                ),
                Walk::Mount(m, rel) => match res {
                    None => rel != seq!['/'],
                    Some(Resolved::Fs { mount_id, rel_path, metadata }) => mount_id == m && rel_path@
                        == rel && (rel == seq!['/'] ==> metadata.file_type == FsFileType::Directory
                        && metadata.size == 0),
                    Some(Resolved::Vfs(_, _)) => false,
                },
            },
        },
    }
}

/// What creating a file of type `file_ty` at `path` does: it is added to its
/// parent directory, unless the parent is missing or not a directory, the
/// name is taken, or the name is reserved.
pub open spec fn add_file_post<F>(a: VirtualFileSystem<F>, b: VirtualFileSystem<F>, path: Path, file_ty: VfsFileType, res: Result<(), Error>) -> bool {
    &&& (b.next_file_id <= a.next_file_id + 1)
    &&& (b.next_file_id >= a.next_file_id)
    &&& (b.root_id == a.root_id)
    &&& (b.cwd_path == a.cwd_path)
    &&& (b.fds == a.fds)
    &&& (b.next_fd_num == a.next_fd_num)
    &&& (a.root_id is None ==> (res matches Err(e) && e == Error::NotInitialized))
    &&& (a.root_id is Some ==> match path_walk(a, parent_chars(path@)) {
        Walk::Vfs(pid) => {
            let parent = file_of(a.files@, pid);
            let name = name_chars(path@);
            if parent.ty != VfsFileType::Directory {
                res matches Err(e) && e == Error::Vfs(
                    VirtualFileSystemError::NotDirectory(Some(path)),
                )
            } else if exists|j: int|
                0 <= j < parent.children@.len() && #[trigger] id_index(
                    a.files@,
                    parent.children@[j],
                ) is Some && file_of(a.files@, parent.children@[j]).name@ == name {
                res matches Err(e) && e == Error::Vfs(
                    VirtualFileSystemError::FileOrDirectoryAlreadyExists(path),
                )
            } else if is_reserved_name(name) {
                res matches Err(e) && e == Error::Vfs(VirtualFileSystemError::InvalidFileName)
            } else {
                res is Ok && b.next_file_id == a.next_file_id + 1 && ({
                    let id = VfsFileId(a.next_file_id);
                    let k = id_index(a.files@, pid).unwrap();
                    &&& b.files@.len() == a.files@.len() + 1
                    &&& b.files@.last().0 == id
                    &&& b.files@.last().1.ty == file_ty
                    &&& b.files@.last().1.name@ == name
                    &&& b.files@.last().1.parent == pid
                    &&& b.files@.last().1.children@.len() == 0
                    &&& b.files@.last().1.fs is None
                    &&& b.files@[k].1.children@ == a.files@[k].1.children@.push(
                        id,
                    )
                    &&& b.files@[k].0 == a.files@[k].0
                    &&& b.files@[k].1.ty == a.files@[k].1.ty
                    &&& b.files@[k].1.name == a.files@[k].1.name
                    &&& b.files@[k].1.parent == a.files@[k].1.parent
                    &&& b.files@[k].1.fs == a.files@[k].1.fs
                    &&& b.files@[k].1.buf == a.files@[k].1.buf
                    &&& b.files@[k].1.pipe_buf == a.files@[k].1.pipe_buf
                    &&& forall|i: int|
                        0 <= i < a.files@.len() && i != k ==> #[trigger] b.files@[i] == a.files@[i]
                })
            }
        },
        _ => res matches Err(e) && e == Error::Vfs(
            VirtualFileSystemError::NoSuchFileOrDirectory(Some(path)),
        ),
    })
    &&& (res is Err ==> b.files == a.files)
}

/// What mounting `fs` on the directory at `path` does.
pub open spec fn mount_fs_post<F>(a: VirtualFileSystem<F>, b: VirtualFileSystem<F>, path: Path, fs: F, res: Result<(), Error>) -> bool {
    &&& (b.root_id == a.root_id)
    &&& (b.cwd_path == a.cwd_path)
    &&& (b.fds == a.fds)
    &&& (b.next_file_id == a.next_file_id)
    &&& (b.next_fd_num == a.next_fd_num)
    &&& (match path_walk(a, path@) {
        Walk::Vfs(id) => {
            let k = id_index(a.files@, id).unwrap();
            if a.files@[k].1.ty != VfsFileType::Directory {
                res matches Err(e) && e == Error::Vfs(
                    VirtualFileSystemError::NotDirectory(Some(path)),
                ) && b.files == a.files
            } else {
                res is Ok && b.files@.len() == a.files@.len()
                    && b.files@[k].0 == id && b.files@[k].1.fs == Some(fs)
                    && b.files@[k].1.ty == a.files@[k].1.ty
                    && b.files@[k].1.name == a.files@[k].1.name
                    && b.files@[k].1.children == a.files@[k].1.children
                    && b.files@[k].1.parent == a.files@[k].1.parent
                    && forall|i: int|
                    0 <= i < a.files@.len() && i != k ==> #[trigger] b.files@[i] == a.files@[i]
            }
        },
        _ => res matches Err(e) && e == Error::Vfs(
            VirtualFileSystemError::NoSuchFileOrDirectory(Some(path)),
        ) && b.files == a.files,
    })
}

/// `e` is the directory `id` named `name` in `parent`, holding `children`
/// and no mounted file system.
pub open spec fn dir_entry<F>(e: (VfsFileId, FileInfo<F>), id: VfsFileId, name: Seq<char>, parent: VfsFileId, children: Seq<VfsFileId>) -> bool {
    &&& e.0 == id
    &&& e.1.ty == VfsFileType::Directory
    &&& e.1.name@ == name
    &&& e.1.parent == parent
    &&& e.1.children@ == children
    &&& e.1.fs is None
}

pub open spec fn mnt_name() -> Seq<char> {
    seq!['m', 'n', 't']
}

pub open spec fn initramfs_name() -> Seq<char> {
    seq!['i', 'n', 'i', 't', 'r', 'a', 'm', 'f', 's']
}

pub open spec fn dev_name() -> Seq<char> {
    seq!['d', 'e', 'v']
}

pub open spec fn proc_name() -> Seq<char> {
    seq!['p', 'r', 'o', 'c']
}

/// What setting up the tree does (see `VirtualFileSystem::init`): it
/// succeeds, adding a new root "/" (which becomes the root and the current
/// directory) and then the directories /mnt, /mnt/initramfs, /dev and
/// /proc, in that order, with the next five ids; the files there were are
/// kept.
pub open spec fn init_post<F>(a: VirtualFileSystem<F>, b: VirtualFileSystem<F>, res: Result<(), Error>) -> bool {
    let n = a.next_file_id;
    let r = a.files@.len() as int;
    let (root, mnt, ird, dev, prc) = (
        VfsFileId(n),
        VfsFileId((n + 1) as usize),
        VfsFileId((n + 2) as usize),
        VfsFileId((n + 3) as usize),
        VfsFileId((n + 4) as usize),
    );
    &&& res is Ok
    &&& b.root_id == Some(root)
    &&& (b.cwd_path matches Some(c) && c@ == seq!['/'])
    &&& b.fds == a.fds
    &&& b.next_fd_num == a.next_fd_num
    &&& b.next_file_id == n + 5
    &&& b.files@.len() == r + 5
    &&& b.files@.take(r) == a.files@
    &&& dir_entry(b.files@[r], root, seq!['/'], root, seq![mnt, dev, prc])
    &&& dir_entry(b.files@[r + 1], mnt, mnt_name(), root, seq![ird])
    &&& dir_entry(b.files@[r + 2], ird, initramfs_name(), mnt, Seq::empty())
    &&& dir_entry(b.files@[r + 3], dev, dev_name(), root, Seq::empty())
    &&& dir_entry(b.files@[r + 4], prc, proc_name(), root, Seq::empty())
}

/// In a well-formed tree, the file at position `k` is found at `k`.
proof fn lemma_id_at<F: FileSystem>(v: VirtualFileSystem<F>, k: int)
    requires
        v.wf(),
        0 <= k < v.files@.len(),
    ensures
        id_index(v.files@, v.files@[k].0) == Some(k),
{
    lemma_id_index_from(v.files@, v.files@[k].0, 0);
}

/// The walk to the parent of an absolute path spelled from the clean,
/// resolved names `p` followed by `x`, and the name it adds.
proof fn lemma_parent_walk<F>(v: VirtualFileSystem<F>, p: Seq<Seq<char>>, x: Seq<char>)
    requires
        v.root_id is Some,
        crate::fs::path::clean_names(p.push(x)),
        crate::fs::path::resolved_names(p.push(x), true),
    ensures
        path_walk(v, parent_chars(seq!['/'] + join_slash(p.push(x)))) == walk(v.files@, p, 0, v.root_id.unwrap()),
        name_chars(seq!['/'] + join_slash(p.push(x))) == x,
{
    crate::fs::path::lemma_abs_names(p.push(x));
    assert(p.push(x).drop_last() =~= p);
    assert forall|i: int| 0 <= i < p.len() implies #[trigger] p[i].len() > 0 && crate::fs::path::no_slash(p[i]) by {
        assert(p.push(x)[i] == p[i]);
    }
    assert forall|i: int| 0 <= i < p.len() implies #[trigger] p[i] != crate::fs::path::dot() && (p[i]
        == crate::fs::path::dot_dot() ==> false && forall|j: int| 0 <= j < i ==> p[j] == crate::fs::path::dot_dot()) by {
        assert(p.push(x)[i] == p[i]);
    }
    crate::fs::path::lemma_abs_names(p);
}

impl<F: FileSystem> VirtualFileSystem<F> {
    /// Ids and descriptor numbers are distinct and below the counters.
    pub open spec fn wf(&self) -> bool {
        &&& forall|i: int, j: int|
            0 <= i < j < self.files@.len() ==> #[trigger] self.files@[i].0 != #[trigger] self.files@[j].0
        &&& forall|i: int| 0 <= i < self.files@.len() ==> #[trigger] self.files@[i].0.0 < self.next_file_id
        &&& forall|i: int, j: int|
            0 <= i < j < self.fds@.len() ==> #[trigger] self.fds@[i].num != #[trigger] self.fds@[j].num
        &&& forall|i: int| 0 <= i < self.fds@.len() ==> #[trigger] self.fds@[i].num.0 < self.next_fd_num
    }

    /// An empty file system: no root yet, descriptor numbers start at 3.
    pub fn new() -> (res: Self)
        ensures
            res.wf(),
            res.cwd_path is None,
            res.root_id is None,
            res.files@.len() == 0,
            res.fds@.len() == 0,
            res.next_fd_num == 3,
    {
        VirtualFileSystem {
            cwd_path: None,
            root_id: None,
            files: Vec::new(),
            fds: Vec::new(),
            next_file_id: 0,
            next_fd_num: 3,
        }
    }

    /// The position of the file `id`.
    pub fn find_index(&self, id: VfsFileId) -> (res: Option<usize>)
        ensures
            match res {
                Some(k) => id_index(self.files@, id) == Some(k as int) && k < self.files@.len(),
                None => id_index(self.files@, id) is None,
            },
    {
        let mut i: usize = 0;
        while i < self.files.len()
            invariant
                i <= self.files@.len(),
                id_index(self.files@, id) == id_index_from(self.files@, id, i as int),
            decreases self.files.len() - i,
        {
            if self.files[i].0 == id {
                return Some(i);
            }
            i = i + 1;
        }
        None
    }

    /// Makes a path absolute against the current directory.
    pub fn absolutize(&self, path: &Path) -> (res: Option<Path>)
        ensures
            match res {
                Some(p) => absolutize_chars(self.cwd_path, path@) == Some(p@),
                None => absolutize_chars(self.cwd_path, path@) is None,
            },
    {
        if path.is_abs() {
            Some(path.normalize())
        } else {
            match &self.cwd_path {
                Some(c) => Some(c.join(path.as_str())),
                None => None,
            }
        }
    }

    fn child_named(&self, children: &Vec<VfsFileId>, name: &String) -> (res: ChildLookup)
        ensures
            res == child_lookup(self.files@, children@, name@, 0),
    {
        let mut j: usize = 0;
        while j < children.len()
            invariant
                j <= children@.len(),
                child_lookup(self.files@, children@, name@, 0) == child_lookup(
                    self.files@,
                    children@,
                    name@,
                    j as int,
                ),
            decreases children.len() - j,
        {
            match self.find_index(children[j]) {
                None => return ChildLookup::Missing,
                Some(k) => {
                    if self.files[k].1.name == *name {
                        return ChildLookup::Found(children[j]);
                    }
                },
            }
            j = j + 1;
        }
        ChildLookup::Absent
    }

    /// Resolves a path to a file of this tree or to a path within a mounted
    /// file system.
    pub fn find_file_by_path(&self, path: &Path) -> (res: Option<Resolved>)
        ensures
            resolves_to(*self, path@, res),
    {
        let abs_path = match self.absolutize(path) {
            Some(p) => p,
            None => return None,
        };
        let root = match self.root_id {
            Some(r) => r,
            None => return None,
        };
        let names = abs_path.names();
        let ghost nv = names@.map_values(|s: String| s@);
        let mut file_id = root;
        let mut i: usize = 0;
        while i < names.len()
            invariant
                i <= names@.len(),
                nv == names@.map_values(|s: String| s@),
                nv == path_names(abs_path@),
                absolutize_chars(self.cwd_path, path@) == Some(abs_path@),
                self.root_id == Some(root),
                walk(self.files@, nv, 0, root) == walk(self.files@, nv, i as int, file_id),
            decreases names.len() - i,
        {
            let k = match self.find_index(file_id) {
                Some(k) => k,
                None => return None,
            };
            match &self.files[k].1.fs {
                Some(fs) => {
                    let rel = rest_path(&names, i);
                    return resolve_mount(file_id, fs, rel);
                },
                None => {},
            }
            assert(names[i as int]@ == nv[i as int]);
            match self.child_named(&self.files[k].1.children, &names[i]) {
                ChildLookup::Found(c) => {
                    file_id = c;
                },
                _ => return None,
            }
            i = i + 1;
        }
        let k = match self.find_index(file_id) {
            Some(k) => k,
            None => return None,
        };
        match &self.files[k].1.fs {
            Some(fs) => {
                let rel = rest_path(&names, i);
                resolve_mount(file_id, fs, rel)
            },
            None => Some(Resolved::Vfs(file_id, self.files[k].1.ty)),
        }
    }
}

impl<F: FileSystem> VirtualFileSystem<F> {
    /// The file a path names in this tree, with its position; paths that
    /// lead into a mounted file system or nowhere give nothing.
    pub fn find_file_by_path_mut(&self, path: &Path) -> (res: Option<(VfsFileId, usize)>)
        ensures
            match path_walk(*self, path@) {
                Walk::Vfs(id) => res matches Some(r) && r.0 == id && id_index(self.files@, id) == Some(
                    r.1 as int,
                ) && r.1 < self.files@.len(),
                _ => res is None,
            },
    {
        match self.find_file_by_path(path) {
            Some(Resolved::Vfs(id, _)) => {
                proof {
                    if let Some(abs) = absolutize_chars(self.cwd_path, path@) {
                        if let Some(root) = self.root_id {
                            lemma_walk_ends_present(self.files@, path_names(abs), 0, root);
                        }
                    }
                }
                let k = self.find_index(id).unwrap();
                Some((id, k))
            },
            _ => None,
        }
    }

    /// Whether a child present in the tree has the name `name`.
    fn child_name_taken(&self, children: &Vec<VfsFileId>, name: &String) -> (res: bool)
        ensures
            res == exists|j: int|
                0 <= j < children@.len() && #[trigger] id_index(self.files@, children@[j]) is Some
                    && file_of(self.files@, children@[j]).name@ == name@,
    {
        let mut j: usize = 0;
        while j < children.len()
            invariant
                j <= children@.len(),
                forall|jj: int|
                    0 <= jj < j ==> !(#[trigger] id_index(self.files@, children@[jj]) is Some
                        && file_of(self.files@, children@[jj]).name@ == name@),
            decreases children.len() - j,
        {
            match self.find_index(children[j]) {
                Some(k) => {
                    if self.files[k].1.name == *name {
                        return true;
                    }
                },
                None => {},
            }
            j = j + 1;
        }
        false
    }

    /// Adds a file to the tree; a file that is its own parent becomes the
    /// root, and the current directory is then the root.
    pub fn insert_file(&mut self, id: VfsFileId, info: FileInfo<F>) -> (res: Result<(), Error>)
        requires
            old(self).wf(),
            id.0 < old(self).next_file_id,
            id_index(old(self).files@, id) is None,
        ensures
            final(self).wf(),
            match res {
                Ok(()) => !(info.ty != VfsFileType::Directory && (info.children@.len() > 0
                    || info.fs is Some)) && !is_reserved_name(info.name@)
                    && final(self).files@ == old(self).files@.push((id, info))
                    && final(self).fds == old(self).fds
                    && final(self).next_file_id == old(self).next_file_id
                    && final(self).next_fd_num == old(self).next_fd_num
                    && (id == info.parent ==> final(self).root_id == Some(id)
                        && (final(self).cwd_path matches Some(p) && p@ == seq!['/']))
                    && (id != info.parent ==> final(self).root_id == old(self).root_id
                        && final(self).cwd_path == old(self).cwd_path),
                Err(e) => *final(self) == *old(self) && ((info.ty != VfsFileType::Directory
                    && (info.children@.len() > 0 || info.fs is Some)) ==> e == Error::Vfs(
                    VirtualFileSystemError::NotDirectory(None),
                )) && (!(info.ty != VfsFileType::Directory && (info.children@.len() > 0
                    || info.fs is Some)) ==> is_reserved_name(info.name@) && e == Error::Vfs(
                    VirtualFileSystemError::InvalidFileName,
                )),
            },
    {
        match info.check_integrity() {
            Ok(()) => {},
            Err(e) => return Err(e),
        }
        if id == info.parent {
            self.root_id = Some(id);
            self.cwd_path = Some(Path::root());
        }
        proof {
            lemma_id_index_from(self.files@, id, 0);
        }
        self.files.push((id, info));
        Ok(())
    }

    /// Sets up the root directory and /mnt, /mnt/initramfs, /dev and /proc.
    /// The root is the next file id, a directory named "/" that is its own
    /// parent, added after the files there were; the current directory is
    /// the root.
    pub fn init(&mut self) -> (res: Result<(), Error>)
        requires
            old(self).wf(),
            old(self).next_file_id < usize::MAX - 8,
        ensures
            final(self).wf(),
            init_post(*old(self), *final(self), res),
    {
        let root_dir_path = Path::root();
        let mnt_dir_path = root_dir_path.join("mnt");
        let initramfs_dir_path = mnt_dir_path.join("initramfs");
        let dev_dir_path = root_dir_path.join("dev");
        let proc_dir_path = root_dir_path.join("proc");
        let ghost (m, i, d, pr) = (mnt_name(), initramfs_name(), dev_name(), proc_name());
        let ghost e = Seq::<Seq<char>>::empty();
        proof {
            reveal_strlit("mnt");
            reveal_strlit("initramfs");
            reveal_strlit("dev");
            reveal_strlit("proc");
            assert(seq!['/'] + "mnt"@ =~= seq!['/'] + join_slash(e.push(m)));
            assert(seq!['/'] + "dev"@ =~= seq!['/'] + join_slash(e.push(d)));
            assert(seq!['/'] + "proc"@ =~= seq!['/'] + join_slash(e.push(pr)));
            assert(seq![m].push(i).drop_last() =~= seq![m]);
            assert(join_slash(seq![m].push(i)) == join_slash(seq![m]) + seq!['/'] + i);
            assert(seq![m].push(i) =~= seq![m, i]);
            assert((seq!['/'] + "mnt"@).push('/') + "initramfs"@ =~= seq!['/'] + join_slash(seq![m].push(i)));
            assert(e.push(m) =~= seq![m]);
            assert(crate::fs::path::clean_names(seq![m].push(i))) by {
                assert(seq![m].push(i)[0] == m && seq![m].push(i)[1] == i);
            }
            assert(crate::fs::path::resolved_names(seq![m].push(i), true)) by {
                assert(seq![m].push(i)[0] == m && seq![m].push(i)[1] == i);
                assert(m.len() != 1 && m.len() != 2 && i.len() != 1 && i.len() != 2);
            }
            assert(crate::fs::path::clean_names(e.push(d)) && crate::fs::path::resolved_names(e.push(d), true)) by {
                assert(e.push(d)[0] == d);
            }
            assert(crate::fs::path::clean_names(e.push(pr)) && crate::fs::path::resolved_names(e.push(pr), true)) by {
                assert(e.push(pr)[0] == pr);
            }
            crate::fs::path::lemma_abs_names(e.push(m));
            crate::fs::path::lemma_abs_names(e.push(d));
            crate::fs::path::lemma_abs_names(e.push(pr));
            crate::fs::path::lemma_abs_names(seq![m].push(i));
            assert(mnt_dir_path@ == seq!['/'] + join_slash(e.push(m)));
            assert(initramfs_dir_path@ == seq!['/'] + join_slash(seq![m].push(i)));
            assert(dev_dir_path@ == seq!['/'] + join_slash(e.push(d)));
            assert(proc_dir_path@ == seq!['/'] + join_slash(e.push(pr)));
        }
        let ghost n = old(self).next_file_id;
        let root_id = VfsFileId::new(&mut self.next_file_id);
        let root_dir = FileInfo::new(VfsFileType::Directory, root_dir_path.name(), root_id);
        let ghost r = old(self).files@.len() as int;
        proof {
            lemma_id_index_from(self.files@, root_id, 0);
            crate::fs::path::lemma_root_names();
        }
        match self.insert_file(root_id, root_dir) {
            Ok(()) => {},
            Err(e) => return Err(e),
        }
        let ghost s0 = *self;
        proof {
            lemma_id_at(s0, r);
            lemma_parent_walk(s0, e, m);
            assert(walk(s0.files@, e, 0, root_id) == Walk::Vfs(root_id));
        }
        let res1 = self.mkdir(&mnt_dir_path);
        proof {
            lemma_add_file_keeps(s0, *self, mnt_dir_path, VfsFileType::Directory, res1, r);
        }
        if let Err(e) = res1 {
            return Err(e);
        }
        let ghost s1 = *self;
        let ghost mnt_id = VfsFileId((n + 1) as usize);
        proof {
            assert(s1.files@[r + 1].0 == mnt_id);
            lemma_id_at(s1, r);
            lemma_id_at(s1, r + 1);
            lemma_parent_walk(s1, seq![m], i);
            assert(s1.files@[r].1.children@ =~= seq![mnt_id]);
            assert(child_lookup(s1.files@, seq![mnt_id], m, 0) == ChildLookup::Found(mnt_id));
            assert(walk(s1.files@, seq![m], 1, mnt_id) == Walk::Vfs(mnt_id));
            assert(walk(s1.files@, seq![m], 0, root_id) == Walk::Vfs(mnt_id));
        }
        let res2 = self.mkdir(&initramfs_dir_path);
        proof {
            lemma_add_file_keeps(s1, *self, initramfs_dir_path, VfsFileType::Directory, res2, r);
        }
        if let Err(e) = res2 {
            return Err(e);
        }
        let ghost s2 = *self;
        proof {
            lemma_id_at(s2, r);
            lemma_id_at(s2, r + 1);
            lemma_parent_walk(s2, e, d);
            assert(walk(s2.files@, e, 0, root_id) == Walk::Vfs(root_id));
            assert(s2.files@[r].1.children@ =~= seq![mnt_id]);
            assert(m != d) by {
                assert(m[0] != d[0]);
            }
        }
        let res3 = self.mkdir(&dev_dir_path);
        proof {
            lemma_add_file_keeps(s2, *self, dev_dir_path, VfsFileType::Directory, res3, r);
        }
        if let Err(e) = res3 {
            return Err(e);
        }
        let ghost s3 = *self;
        proof {
            lemma_id_at(s3, r);
            lemma_id_at(s3, r + 1);
            lemma_id_at(s3, r + 3);
            lemma_parent_walk(s3, e, pr);
            assert(walk(s3.files@, e, 0, root_id) == Walk::Vfs(root_id));
            assert(s3.files@[r].1.children@ =~= seq![mnt_id, VfsFileId((n + 3) as usize)]);
            assert(m != pr && d != pr) by {
                assert(m.len() != pr.len() && d.len() != pr.len());
            }
        }
        let res4 = self.mkdir(&proc_dir_path);
        proof {
            lemma_add_file_keeps(s3, *self, proc_dir_path, VfsFileType::Directory, res4, r);
        }
        if let Err(e) = res4 {
            return Err(e);
        }
        proof {
            lemma_id_at(*self, r);
            assert(self.files@.take(r) =~= old(self).files@);
            assert(self.files@[r].1.children@ =~= seq![mnt_id, VfsFileId((n + 3) as usize), VfsFileId((n + 4) as usize)]);
            assert(self.files@[r + 1].1.children@ =~= seq![VfsFileId((n + 2) as usize)]);
            assert(self.files@[r + 2].1.children@ =~= Seq::<VfsFileId>::empty());
            assert(self.files@[r + 3].1.children@ =~= Seq::<VfsFileId>::empty());
            assert(self.files@[r + 4].1.children@ =~= Seq::<VfsFileId>::empty());
        }
        Ok(())
    }

    /// Creates a file of type `file_ty` at `path` in its parent directory.
    pub fn add_file(&mut self, path: &Path, file_ty: VfsFileType) -> (res: Result<(), Error>)
        requires
            old(self).wf(),
            old(self).next_file_id < usize::MAX,
        ensures
            final(self).wf(),
            add_file_post(*old(self), *final(self), *path, file_ty, res),
    {
        if self.root_id.is_none() {
            return Err(Error::NotInitialized);
        }
        let parent_path = path.parent();
        let (parent_id, k) = match self.find_file_by_path_mut(&parent_path) {
            Some(r) => r,
            None => {
                return Err(
                    Error::Vfs(VirtualFileSystemError::NoSuchFileOrDirectory(Some(path.duplicate()))),
                )
            },
        };
        if self.files[k].1.ty != VfsFileType::Directory {
            return Err(Error::Vfs(VirtualFileSystemError::NotDirectory(Some(path.duplicate()))));
        }
        let file_name = path.name();
        if self.child_name_taken(&self.files[k].1.children, &file_name) {
            return Err(
                Error::Vfs(VirtualFileSystemError::FileOrDirectoryAlreadyExists(path.duplicate())),
            );
        }
        if name_is_reserved(&file_name) {
            return Err(Error::Vfs(VirtualFileSystemError::InvalidFileName));
        }
        proof {
            lemma_id_index_from(self.files@, VfsFileId(self.next_file_id), 0);
            lemma_id_index_from(self.files@, parent_id, 0);
            assert(self.files@[k as int].0 == parent_id);
        }
        let file_id = VfsFileId::new(&mut self.next_file_id);
        let file_ref = FileInfo::new(file_ty, file_name, parent_id);
        let ghost before = self.files@;
        match self.insert_file(file_id, file_ref) {
            Ok(()) => {},
            Err(e) => return Err(e),
        }
        let (pid, mut pinfo) = self.files.remove(k);
        pinfo.children.push(file_id);
        self.files.insert(k, (pid, pinfo));
        assert(self.files@.last() == before.push((file_id, self.files@.last().1)).last());
        Ok(())
    }

    /// Creates a directory.
    pub fn mkdir(&mut self, path: &Path) -> (res: Result<(), Error>)
        requires
            old(self).wf(),
            old(self).next_file_id < usize::MAX,
        ensures
            final(self).wf(),
            add_file_post(*old(self), *final(self), *path, VfsFileType::Directory, res),
    {
        self.add_file(path, VfsFileType::Directory)
    }

    /// Creates the device file /dev/`file_name`.
    pub fn add_dev_file(&mut self, dev: DeviceId, file_name: &str) -> (res: Result<(), Error>)
        requires
            old(self).wf(),
            old(self).next_file_id < usize::MAX,
        ensures
            final(self).wf(),
            exists|p: Path|
                p@ == join_chars(join_chars(seq!['/'], seq!['d', 'e', 'v']), file_name@)
                    && #[trigger] add_file_post(*old(self), *final(self), p, VfsFileType::DeviceFile(dev), res),
    {
        proof {
            reveal_strlit("dev");
            assert("dev"@ =~= seq!['d', 'e', 'v']);
        }
        let dev_file_path = Path::root().join("dev").join(file_name);
        let res = self.add_file(&dev_file_path, VfsFileType::DeviceFile(dev));
        assert(add_file_post(*old(self), *self, dev_file_path, VfsFileType::DeviceFile(dev), res));
        res
    }

    /// Mounts a file system on a directory of the tree.
    pub fn mount_fs(&mut self, path: &Path, fs: F) -> (res: Result<(), Error>)
        requires
            old(self).wf(),
        ensures
            final(self).wf(),
            mount_fs_post(*old(self), *final(self), *path, fs, res),
    {
        let (fid, k) = match self.find_file_by_path_mut(path) {
            Some(r) => r,
            None => {
                return Err(
                    Error::Vfs(VirtualFileSystemError::NoSuchFileOrDirectory(Some(path.duplicate()))),
                )
            },
        };
        if self.files[k].1.ty != VfsFileType::Directory {
            return Err(Error::Vfs(VirtualFileSystemError::NotDirectory(Some(path.duplicate()))));
        }
        let ghost before = self.files@;
        proof {
            lemma_id_index_from(before, fid, 0);
        }
        let (id, mut info) = self.files.remove(k);
        info.fs = Some(fs);
        self.files.insert(k, (id, info));
        assert forall|i: int| 0 <= i < before.len() && i != k implies #[trigger] self.files@[i]
            == before[i] by {
            if i < k {
                assert(self.files@[i] == before.remove(k as int)[i]);
            } else {
                assert(self.files@[i] == before.remove(k as int)[i - 1]);
            }
        }
        Ok(())
    }
}

/// "/" followed by the names from position `i` joined with '/'.
fn rest_path(names: &Vec<String>, i: usize) -> (res: Path)
    requires
        i <= names@.len(),
    ensures
        res@ == seq!['/'] + join_slash(names@.map_values(|s: String| s@).skip(i as int)),
{
    let mut s = String::new();
    crate::codec::string_push(&mut s, '/');
    let ghost nv = names@.map_values(|s: String| s@);
    let ghost tail = nv.skip(i as int);
    let mut j: usize = i;
    while j < names.len()
        invariant
            i <= j <= names@.len(),
            nv == names@.map_values(|s: String| s@),
            tail == nv.skip(i as int),
            s@ == seq!['/'] + join_slash(tail.take(j - i)),
        decreases names.len() - j,
    {
        assert(tail.take(j - i + 1).drop_last() =~= tail.take(j - i));
        assert(tail.take(j - i + 1).last() == names@[j as int]@);
        if j > i {
            crate::codec::string_push(&mut s, '/');
        }
        s.append(names[j].as_str());
        j = j + 1;
        if j - i == 1 {
            assert(tail.take(1) =~= seq![names@[i as int]@]);
        }
        assert(s@ =~= seq!['/'] + join_slash(tail.take(j - i)));
    }
    assert(tail.take(names@.len() - i) =~= tail);
    Path::from_string(s)
}

/// Resolves within a mounted file system: its root is a directory; any
/// other path is what the file system reports of it, if anything.
fn resolve_mount<F: FileSystem>(mount_id: VfsFileId, fs: &F, rel_path: Path) -> (res: Option<Resolved>)
    ensures
        match res {
            None => rel_path@ != seq!['/'],
            Some(Resolved::Fs { mount_id: m, rel_path: r, metadata }) => m == mount_id && r == rel_path
                && (rel_path@ == seq!['/'] ==> metadata.file_type == FsFileType::Directory
                && metadata.size == 0),
            Some(Resolved::Vfs(_, _)) => false,
        },
{
    let s = rel_path.as_str();
    let is_root = vstd::string::StrSliceExecFns::unicode_len(s) == 1
        && vstd::string::StrSliceExecFns::get_char(s, 0) == '/';
    if is_root {
        assert(rel_path@ =~= seq!['/']);
    }
    let metadata = if is_root {
        FsMetaData { file_type: FsFileType::Directory, size: 0 }
    } else {
        match fs.metadata(&rel_path) {
            Ok(m) => m,
            Err(_) => return None,
        }
    };
    Some(Resolved::Fs { mount_id, rel_path, metadata })
}

/// Sets up the virtual file system: the root directory and /mnt,
/// /mnt/initramfs, /dev and /proc.
pub fn init<F: FileSystem>(vfs: &mut VirtualFileSystem<F>) -> (res: Result<(), Error>)
    requires
        old(vfs).wf(),
        old(vfs).next_file_id < usize::MAX - 8,
    ensures
        final(vfs).wf(),
        init_post(*old(vfs), *final(vfs), res),
{
    vfs.init()
}

/// Changes the current directory.
pub fn chdir<F: FileSystem>(vfs: &mut VirtualFileSystem<F>, path: &Path) -> (res: Result<(), Error>)
    requires
        old(vfs).wf(),
    ensures
        final(vfs).wf(),
        chdir_post(*old(vfs), *final(vfs), *path, res),
{
    vfs.chdir(path)
}

/// Mounts a file system on a directory.
pub fn mount_fs<F: FileSystem>(vfs: &mut VirtualFileSystem<F>, path: &Path, fs: F) -> (res: Result<(), Error>)
    requires
        old(vfs).wf(),
    ensures
        final(vfs).wf(),
        mount_fs_post(*old(vfs), *final(vfs), *path, fs, res),
{
    vfs.mount_fs(path, fs)
}

/// The names in a directory, without "." and "..".
pub fn entry_names<F: FileSystem>(vfs: &VirtualFileSystem<F>, path: &Path) -> (res: Result<Vec<String>, Error>)
    ensures
        entry_names_post(*vfs, *path, res),
{
    vfs.entry_names(path)
}

/// The current directory.
pub fn cwd_path<F>(vfs: &VirtualFileSystem<F>) -> (res: Result<Path, Error>)
    ensures
        match vfs.cwd_path {
            Some(c) => res == Ok::<Path, Error>(c),
            None => res == Err::<Path, Error>(Error::NotInitialized),
        },
{
    match &vfs.cwd_path {
        Some(c) => Ok(c.duplicate()),
        None => Err(Error::NotInitialized),
    }
}

/// Opens a file, creating it first when `create` and it is missing; a
/// device behind it is handed back to be opened by the caller, who closes
/// the descriptor again if that fails.
pub fn open_file<F: FileSystem>(vfs: &mut VirtualFileSystem<F>, path: &Path, create: bool) -> (res: Result<(FileDescriptorNumber, Option<DeviceId>), Error>)
    requires
        old(vfs).wf(),
        old(vfs).next_fd_num < usize::MAX,
        old(vfs).next_file_id < usize::MAX,
    ensures
        final(vfs).wf(),
        open_post(*old(vfs), *final(vfs), *path, create, res),
{
    vfs.open_file(path, create)
}

/// Closes a descriptor; a device behind it is handed back to be closed by
/// the caller.
pub fn close_file<F: FileSystem>(vfs: &mut VirtualFileSystem<F>, fd_num: FileDescriptorNumber) -> (res: Result<Option<DeviceId>, Error>)
    requires
        old(vfs).wf(),
    ensures
        final(vfs).wf(),
        close_post(*old(vfs), *final(vfs), fd_num, res),
{
    vfs.close_file(fd_num)
}

/// Reads at most `buf_len` bytes; a device is handed back to be read by the
/// caller, who then reports how much it read with `device_read_done`.
pub fn read_file<F: FileSystem>(vfs: &mut VirtualFileSystem<F>, fd_num: FileDescriptorNumber, buf_len: usize) -> (res: Result<ReadOutcome, Error>)
    requires
        old(vfs).wf(),
    ensures
        final(vfs).wf(),
        read_post(*old(vfs), *final(vfs), fd_num, buf_len, res),
{
    vfs.read_file(fd_num, buf_len)
}

/// Writes bytes; a device is handed back to be written by the caller.
pub fn write_file<F: FileSystem>(vfs: &mut VirtualFileSystem<F>, fd_num: FileDescriptorNumber, data: &[u8]) -> (res: Result<WriteOutcome, Error>)
    requires
        old(vfs).wf(),
        descriptors::fd_index(old(vfs).fds@, fd_num) matches Some(i) ==> old(vfs).fds@[i].offset
            + data@.len() <= usize::MAX,
    ensures
        final(vfs).wf(),
        write_post(*old(vfs), *final(vfs), fd_num, data@, res),
{
    vfs.write_file(fd_num, data)
}

/// The size of the file behind a descriptor.
pub fn file_size<F: FileSystem>(vfs: &VirtualFileSystem<F>, fd_num: FileDescriptorNumber) -> (res: Result<usize, Error>)
    ensures
        file_size_post(*vfs, fd_num, res),
{
    vfs.file_size(fd_num)
}

/// Moves the offset of a descriptor.
pub fn seek<F: FileSystem>(vfs: &mut VirtualFileSystem<F>, fd_num: FileDescriptorNumber, pos: SeekFrom) -> (res: Result<usize, Error>)
    requires
        old(vfs).wf(),
    ensures
        final(vfs).wf(),
        seek_post(*old(vfs), *final(vfs), fd_num, pos, res),
{
    vfs.seek(fd_num, pos)
}

/// Creates an empty file.
pub fn create_file<F: FileSystem>(vfs: &mut VirtualFileSystem<F>, path: &Path) -> (res: Result<(), Error>)
    requires
        old(vfs).wf(),
        old(vfs).next_file_id < usize::MAX,
    ensures
        final(vfs).wf(),
        add_file_post(*old(vfs), *final(vfs), *path, VfsFileType::VirtualFile, res),
{
    vfs.add_file(path, VfsFileType::VirtualFile)
}

/// Adds the device file /dev/`name` for a device.
pub fn add_dev<F: FileSystem>(vfs: &mut VirtualFileSystem<F>, dev: DeviceId, name: &str) -> (res: Result<(), Error>)
    requires
        old(vfs).wf(),
        old(vfs).next_file_id < usize::MAX,
    ensures
        final(vfs).wf(),
        exists|p: Path|
            p@ == join_chars(join_chars(seq!['/'], seq!['d', 'e', 'v']), name@)
                && #[trigger] add_file_post(*old(vfs), *final(vfs), p, VfsFileType::DeviceFile(dev), res),
{
    vfs.add_dev_file(dev, name)
}

/// Creates a pipe and opens both of its ends.
pub fn create_pipe<F: FileSystem>(vfs: &mut VirtualFileSystem<F>) -> (res: Result<(FileDescriptorNumber, FileDescriptorNumber), Error>)
    requires
        old(vfs).wf(),
        old(vfs).next_file_id < usize::MAX,
        old(vfs).next_fd_num < usize::MAX - 1,
    ensures
        final(vfs).wf(),
        create_pipe_post(*old(vfs), *final(vfs), res),
{
    vfs.create_pipe()
}

} // verus!
