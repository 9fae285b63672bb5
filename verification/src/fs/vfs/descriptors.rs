use vstd::prelude::*;
use crate::error::Error;
use crate::fs::path::{normalize_chars, Path};
use crate::codec::string_push;
use crate::text::{decimal, push_decimal};
use crate::fs::vfs::{
    add_file_post, file_of, id_index, lemma_id_index_from, path_walk, Resolved, Walk, FileBacking, FileDescriptor, FileDescriptorNumber, FileInfo,
    FileSystem, PipeBuffer, PipeEnd, ReadOutcome, SeekFrom, DeviceId, WriteOutcome, VfsFileId, VfsFileType, VirtualFileSystem,
    VirtualFileSystemError,
};
use crate::codec::{resize_bytes, slice_from, slice_range};
use crate::text::{sat_add_i64, saturating_add_i64};

verus! {

/// The position of the descriptor numbered `num` in `fds`, searching from `i`.
pub open spec fn fd_index_from(fds: Seq<FileDescriptor>, num: FileDescriptorNumber, i: int) -> Option<int>
    decreases fds.len() - i,
{
    if i < 0 || i >= fds.len() {
        None
    } else if fds[i].num == num {
        Some(i)
    } else {
        fd_index_from(fds, num, i + 1)
    }
}

pub open spec fn fd_index(fds: Seq<FileDescriptor>, num: FileDescriptorNumber) -> Option<int> {
    fd_index_from(fds, num, 0)
}

pub proof fn lemma_fd_index_from(fds: Seq<FileDescriptor>, num: FileDescriptorNumber, i: int)
    requires
        0 <= i,
    ensures
        fd_index_from(fds, num, i) matches Some(k) ==> i <= k < fds.len() && fds[k].num == num,
        fd_index_from(fds, num, i) is None ==> forall|k: int| i <= k < fds.len() ==> fds[k].num != num,
    decreases fds.len() - i,
{
    if i < fds.len() {
        lemma_fd_index_from(fds, num, i + 1);
    }
}

/// Removing an element and inserting another at the same place replaces it.
pub proof fn lemma_remove_insert<A>(s: Seq<A>, i: int, x: A)
    requires
        0 <= i < s.len(),
    ensures
        s.remove(i).insert(i, x) == s.update(i, x),
{
    assert(s.remove(i).insert(i, x) =~= s.update(i, x));
}

/// The absolute path of a file reached by following parents from `parent`,
/// with `s` the path below it so far; at most `fuel` parents are followed.
pub open spec fn path_up<F>(files: Seq<(VfsFileId, FileInfo<F>)>, root: VfsFileId, parent: VfsFileId, s: Seq<char>, fuel: nat) -> Option<Seq<char>>
    decreases fuel,
{
    if parent == root {
        Some(seq!['/'] + s)
    } else if fuel == 0 {
        None
    } else {
        match id_index(files, parent) {
            None => None,
            Some(k) => path_up(
                files,
                root,
                files[k].1.parent,
                files[k].1.name@ + seq!['/'] + s,
                (fuel - 1) as nat,
            ),
        }
    }
}

/// The absolute path of `file` in the tree, if its parents lead to the root.
pub open spec fn abs_path_of<F>(vfs: VirtualFileSystem<F>, file: FileInfo<F>) -> Option<Seq<char>> {
    match vfs.root_id {
        None => None,
        Some(root) => match path_up(vfs.files@, root, file.parent, file.name@, vfs.files@.len()) {
            None => None,
            Some(s) => Some(normalize_chars(s)),
        },
    }
}

/// The byte range `[start, end)` that a read of at most `max_len` bytes at
/// `offset` takes from `len` bytes.
pub open spec fn read_window(len: int, offset: int, max_len: int) -> (int, int) {
    let start = if offset < len { offset } else { len };
    let end = if len - start < max_len { len } else { start + max_len };
    (start, end)
}

pub fn read_window_exec(len: usize, offset: usize, max_len: usize) -> (res: (usize, usize))
    ensures
        res.0 as int == read_window(len as int, offset as int, max_len as int).0,
        res.1 as int == read_window(len as int, offset as int, max_len as int).1,
        res.0 <= res.1 <= len,
{
    let start = if offset < len { offset } else { len };
    let end = if len - start < max_len { len } else { start + max_len };
    (start, end)
}

/// The file system mounted on the file `id`, if the file is present.
pub open spec fn mounted_fs<F>(files: Seq<(VfsFileId, FileInfo<F>)>, id: VfsFileId) -> Option<F> {
    match id_index(files, id) {
        Some(k) => files[k].1.fs,
        None => None,
    }
}

pub open spec fn opt_path_view(p: Option<Path>) -> Option<Seq<char>> {
    match p {
        Some(q) => Some(q@),
        None => None,
    }
}

pub open spec fn with_offset(fd: FileDescriptor, offset: usize) -> FileDescriptor {
    FileDescriptor {
        num: fd.num,
        backing: fd.backing,
        offset: offset,
        pipe_end: fd.pipe_end,
        fs_content_cache: fd.fs_content_cache,
    }
}

/// Everything but the open descriptors is the same.
pub open spec fn tree_unchanged<F>(a: VirtualFileSystem<F>, b: VirtualFileSystem<F>) -> bool {
    &&& a.cwd_path == b.cwd_path
    &&& a.root_id == b.root_id
    &&& a.files == b.files
    &&& a.next_file_id == b.next_file_id
    &&& a.next_fd_num == b.next_fd_num
}

/// Only the pipe buffer of the file at position `k` changed, to `buf` (the
/// write-closed flag kept).
pub open spec fn pipe_buf_set<F>(a: VirtualFileSystem<F>, b: VirtualFileSystem<F>, k: int, buf: Seq<u8>) -> bool {
    &&& a.cwd_path == b.cwd_path
    &&& a.root_id == b.root_id
    &&& a.fds == b.fds
    &&& a.next_file_id == b.next_file_id
    &&& a.next_fd_num == b.next_fd_num
    &&& b.files@.len() == a.files@.len()
    &&& forall|j: int| 0 <= j < a.files@.len() && j != k ==> #[trigger] b.files@[j] == a.files@[j]
    &&& b.files@[k].0 == a.files@[k].0
    &&& b.files@[k].1.ty == a.files@[k].1.ty
    &&& b.files@[k].1.name == a.files@[k].1.name
    &&& b.files@[k].1.fs == a.files@[k].1.fs
    &&& b.files@[k].1.parent == a.files@[k].1.parent
    &&& b.files@[k].1.children == a.files@[k].1.children
    &&& b.files@[k].1.buf == a.files@[k].1.buf
    &&& b.files@[k].1.pipe_buf is Some
    &&& a.files@[k].1.pipe_buf is Some
    &&& b.files@[k].1.pipe_buf.unwrap().buf@ == buf
    &&& b.files@[k].1.pipe_buf.unwrap().write_closed == a.files@[k].1.pipe_buf.unwrap().write_closed
}

/// What reading at most `max_len` bytes from the descriptor `num` does.
pub open spec fn read_post<F>(a: VirtualFileSystem<F>, b: VirtualFileSystem<F>, num: FileDescriptorNumber, max_len: usize, res: Result<ReadOutcome, Error>) -> bool {
    match fd_index(a.fds@, num) {
        None => res == Err::<ReadOutcome, Error>(
            Error::Vfs(VirtualFileSystemError::ReleasedFileResource(num)),
        ) && b == a,
        Some(i) => {
            let fd = a.fds@[i];
            match fd.backing {
                FileBacking::Fs { mount_id, .. } => if fd.fs_content_cache is None && mounted_fs(
                    a.files@,
                    mount_id,
                ) is None {
                    res == Err::<ReadOutcome, Error>(
                        Error::Vfs(VirtualFileSystemError::NoSuchFileOrDirectory(None)),
                    ) && b == a
                } else {
                    match res {
                        Ok(ReadOutcome::Data(bytes)) => tree_unchanged(a, b) && b.fds@.len()
                            == a.fds@.len() && (forall|j: int|
                            0 <= j < a.fds@.len() && j != i ==> #[trigger] b.fds@[j] == a.fds@[j])
                            && b.fds@[i].num == fd.num && b.fds@[i].backing == fd.backing
                            && b.fds@[i].pipe_end == fd.pipe_end && (b.fds@[i].fs_content_cache matches Some(
                            c,
                        ) && (fd.fs_content_cache matches Some(c0) ==> c == c0) && {
                            let w = read_window(c@.len() as int, fd.offset as int, max_len as int);
                            bytes@ == c@.subrange(w.0, w.1) && b.fds@[i].offset == w.1
                        }),
                        Ok(ReadOutcome::Device { .. }) => false,
                        Err(_) => fd.fs_content_cache is None && b == a,
                    }
                },
                FileBacking::Vfs(id) => match id_index(a.files@, id) {
                    None => res == Err::<ReadOutcome, Error>(
                        Error::Vfs(VirtualFileSystemError::NoSuchFileOrDirectory(None)),
                    ) && b == a,
                    Some(k) => {
                        let f = a.files@[k].1;
                        match f.ty {
                            VfsFileType::Pipe => match f.pipe_buf {
                                None => res == Err::<ReadOutcome, Error>(
                                    Error::Vfs(VirtualFileSystemError::NoSuchFileOrDirectory(None)),
                                ) && b == a,
                                Some(p) => if p.buf@.len() == 0 {
                                    b == a && if p.write_closed {
                                        res matches Ok(ReadOutcome::Data(bytes)) && bytes@.len() == 0
                                    } else {
                                        res == Err::<ReadOutcome, Error>(Error::BufferEmpty)
                                    }
                                } else {
                                    let n = if max_len < p.buf@.len() { max_len as int } else { p.buf@.len() as int };
                                    res matches Ok(ReadOutcome::Data(bytes)) && bytes@ == p.buf@.take(n)
                                        && pipe_buf_set(a, b, k, p.buf@.skip(n))
                                },
                            },
                            VfsFileType::DeviceFile(dev) => res == Ok::<ReadOutcome, Error>(
                                ReadOutcome::Device { dev, offset: fd.offset },
                            ) && b == a,
                            VfsFileType::VirtualFile => {
                                let buf = match f.buf {
                                    Some(v) => v@,
                                    None => Seq::<u8>::empty(),
                                };
                                let w = read_window(buf.len() as int, fd.offset as int, max_len as int);
                                res matches Ok(ReadOutcome::Data(bytes)) && bytes@ == buf.subrange(w.0, w.1)
                                    && tree_unchanged(a, b) && b.fds@ == a.fds@.update(
                                    i,
                                    with_offset(fd, w.1 as usize),
                                )
                            },
                            VfsFileType::Directory => res matches Err(Error::Vfs(VirtualFileSystemError::NotFile(p)))
                                && opt_path_view(p) == abs_path_of(a, f) && b == a,
                        }
                    },
                },
            }
        },
    }
}

/// The content after writing `data` at `offset` over `old`: first extended
/// with zeros to reach the end of the write if it is short.
pub open spec fn write_bytes(old: Seq<u8>, offset: int, data: Seq<u8>) -> Seq<u8> {
    let end = offset + data.len();
    let base = if end > old.len() {
        old + Seq::new((end - old.len()) as nat, |t: int| 0u8)
    } else {
        old
    };
    base.take(offset) + data + base.skip(end)
}

/// Whether a descriptor reads the file `rel_path` of the file system mounted
/// on `mount_id`.
pub open spec fn backs_fs_path(fd: FileDescriptor, mount_id: VfsFileId, rel_path: Seq<char>) -> bool {
    fd.backing matches FileBacking::Fs { mount_id: m, rel_path: p } && m == mount_id && p@ == rel_path
}

/// The descriptor with its cached content dropped when it reads the file
/// `rel_path` of the file system mounted on `mount_id`.
pub open spec fn invalidated(fd: FileDescriptor, mount_id: VfsFileId, rel_path: Seq<char>) -> FileDescriptor {
    if backs_fs_path(fd, mount_id, rel_path) {
        FileDescriptor {
            num: fd.num,
            backing: fd.backing,
            offset: fd.offset,
            pipe_end: fd.pipe_end,
            fs_content_cache: None,
        }
    } else {
        fd
    }
}

/// What writing `data` to the descriptor `num` does.
pub open spec fn write_post<F>(a: VirtualFileSystem<F>, b: VirtualFileSystem<F>, num: FileDescriptorNumber, data: Seq<u8>, res: Result<WriteOutcome, Error>) -> bool {
    match fd_index(a.fds@, num) {
        None => res == Err::<WriteOutcome, Error>(
            Error::Vfs(VirtualFileSystemError::ReleasedFileResource(num)),
        ) && b == a,
        Some(i) => {
            let fd = a.fds@[i];
            match fd.backing {
                FileBacking::Fs { mount_id, rel_path } => if mounted_fs(a.files@, mount_id) is None {
                    res == Err::<WriteOutcome, Error>(
                        Error::Vfs(VirtualFileSystemError::NoSuchFileOrDirectory(None)),
                    ) && b == a
                } else {
                    match res {
                        Ok(WriteOutcome::Done) => tree_unchanged(a, b) && b.fds@ == a.fds@.map_values(
                            |d: FileDescriptor| invalidated(d, mount_id, rel_path@),
                        ).update(
                            i,
                            with_offset(
                                invalidated(fd, mount_id, rel_path@),
                                (fd.offset + data.len()) as usize,
                            ),
                        ),
                        Ok(WriteOutcome::Device(_)) => false,
                        Err(_) => b == a,
                    }
                },
                FileBacking::Vfs(id) => match id_index(a.files@, id) {
                    None => res == Err::<WriteOutcome, Error>(
                        Error::Vfs(VirtualFileSystemError::NoSuchFileOrDirectory(None)),
                    ) && b == a,
                    Some(k) => {
                        let f = a.files@[k].1;
                        match f.ty {
                            VfsFileType::VirtualFile => {
                                let old_buf = match f.buf {
                                    Some(v) => v@,
                                    None => Seq::<u8>::empty(),
                                };
                                &&& res == Ok::<WriteOutcome, Error>(WriteOutcome::Done)
                                &&& b.fds@ == a.fds@.update(i, with_offset(fd, (fd.offset + data.len()) as usize))
                                &&& b.cwd_path == a.cwd_path
                                &&& b.root_id == a.root_id
                                &&& b.next_file_id == a.next_file_id
                                &&& b.next_fd_num == a.next_fd_num
                                &&& b.files@.len() == a.files@.len()
                                &&& forall|j: int| 0 <= j < a.files@.len() && j != k ==> #[trigger] b.files@[j] == a.files@[j]
                                &&& b.files@[k].0 == a.files@[k].0
                                &&& b.files@[k].1.ty == f.ty
                                &&& b.files@[k].1.name == f.name
                                &&& b.files@[k].1.fs == f.fs
                                &&& b.files@[k].1.parent == f.parent
                                &&& b.files@[k].1.children == f.children
                                &&& b.files@[k].1.pipe_buf == f.pipe_buf
                                &&& b.files@[k].1.buf is Some
                                &&& b.files@[k].1.buf.unwrap()@ == write_bytes(old_buf, fd.offset as int, data)
                            },
                            VfsFileType::DeviceFile(dev) => res == Ok::<WriteOutcome, Error>(
                                WriteOutcome::Device(dev),
                            ) && b == a,
                            VfsFileType::Pipe => match f.pipe_buf {
                                None => res == Err::<WriteOutcome, Error>(
                                    Error::Vfs(VirtualFileSystemError::NoSuchFileOrDirectory(None)),
                                ) && b == a,
                                Some(p) => res == Ok::<WriteOutcome, Error>(WriteOutcome::Done)
                                    && pipe_buf_set(a, b, k, p.buf@ + data),
                            },
                            VfsFileType::Directory => res matches Err(Error::Vfs(VirtualFileSystemError::NotFile(p)))
                                && opt_path_view(p) == abs_path_of(a, f) && b == a,
                        }
                    },
                },
            }
        },
    }
}

/// What asking the size of the file behind the descriptor `num` gives; on a
/// file of a mounted file system the answer is that file system's.
pub open spec fn file_size_post<F>(a: VirtualFileSystem<F>, num: FileDescriptorNumber, res: Result<usize, Error>) -> bool {
    match fd_index(a.fds@, num) {
        None => res == Err::<usize, Error>(Error::Vfs(VirtualFileSystemError::ReleasedFileResource(num))),
        Some(i) => match a.fds@[i].backing {
            FileBacking::Fs { mount_id, .. } => mounted_fs(a.files@, mount_id) is None ==> res == Err::<
                usize,
                Error,
            >(Error::Vfs(VirtualFileSystemError::NoSuchFileOrDirectory(None))),
            FileBacking::Vfs(id) => match id_index(a.files@, id) {
                None => res == Err::<usize, Error>(
                    Error::Vfs(VirtualFileSystemError::NoSuchFileOrDirectory(None)),
                ),
                Some(k) => {
                    let f = a.files@[k].1;
                    match f.ty {
                        VfsFileType::VirtualFile => res == Ok::<usize, Error>(
                            match f.buf {
                                Some(v) => v@.len() as usize,
                                None => 0usize,
                            },
                        ),
                        VfsFileType::DeviceFile(_) => res == Ok::<usize, Error>(0usize),
                        _ => res matches Err(Error::Vfs(VirtualFileSystemError::InvalidFileType(p)))
                            && opt_path_view(p) == abs_path_of(a, f),
                    }
                },
            },
        },
    }
}

/// The offset a seek aims at, before it is checked to be non-negative.
pub open spec fn seek_target(cur: i64, pos: SeekFrom, size: i64) -> i64 {
    match pos {
        SeekFrom::Start(o) => o,
        SeekFrom::Current(o) => saturating_add_i64(cur, o),
        SeekFrom::End(o) => saturating_add_i64(size, o),
    }
}

/// How many descriptors of `fds` are on the file `id` (only the write ends
/// of a pipe when `writers_only`).
pub open spec fn count_backing(fds: Seq<FileDescriptor>, id: VfsFileId, writers_only: bool) -> nat
    decreases fds.len(),
{
    if fds.len() == 0 {
        0
    } else {
        count_backing(fds.drop_last(), id, writers_only) + if fds.last().backing == FileBacking::Vfs(id)
            && (!writers_only || fds.last().pipe_end == Some(PipeEnd::Write)) {
            1nat
        } else {
            0nat
        }
    }
}

/// The device behind the file `id`, if it is a device file.
pub open spec fn device_of<F>(files: Seq<(VfsFileId, FileInfo<F>)>, id: VfsFileId) -> Option<DeviceId> {
    match id_index(files, id) {
        Some(k) => match files[k].1.ty {
            VfsFileType::DeviceFile(d) => Some(d),
            _ => None,
        },
        None => None,
    }
}

/// What releasing an end of a pipe does to the files, with `fds` the
/// descriptors still open: a pipe no descriptor is on goes away; once its
/// last write end is released, its readers see the end of the data.
pub open spec fn release_post<F>(files: Seq<(VfsFileId, FileInfo<F>)>, fds: Seq<FileDescriptor>, id: VfsFileId, pipe_end: Option<PipeEnd>, after: Seq<(VfsFileId, FileInfo<F>)>) -> bool {
    match id_index(files, id) {
        Some(k) => if files[k].1.ty != VfsFileType::Pipe {
            after == files
        } else if count_backing(fds, id, false) == 0 {
            after == files.remove(k)
        } else if pipe_end == Some(PipeEnd::Write) && count_backing(fds, id, true) == 0 {
            let f = files[k].1;
            match f.pipe_buf {
                Some(p) => after == files.update(
                    k,
                    (
                        id,
                        FileInfo {
                            ty: f.ty,
                            name: f.name,
                            fs: f.fs,
                            parent: f.parent,
                            children: f.children,
                            buf: f.buf,
                            pipe_buf: Some(PipeBuffer { buf: p.buf, write_closed: true }),
                        },
                    ),
                ),
                None => after == files,
            }
        } else {
            after == files
        },
        None => after == files,
    }
}

/// The position of the first descriptor of `fds` on the file `id`, from `i`.
pub open spec fn backing_index_from(fds: Seq<FileDescriptor>, id: VfsFileId, i: int) -> Option<int>
    decreases fds.len() - i,
{
    if i < 0 || i >= fds.len() {
        None
    } else if fds[i].backing == FileBacking::Vfs(id) {
        Some(i)
    } else {
        backing_index_from(fds, id, i + 1)
    }
}

/// The descriptor that `open_file` adds, as the last of `fds` after the call.
pub open spec fn opened_fd(a: Seq<FileDescriptor>, b: Seq<FileDescriptor>, num: FileDescriptorNumber) -> bool {
    &&& b.len() == a.len() + 1
    &&& b.drop_last() == a
    &&& b.last().num == num
    &&& b.last().offset == 0
    &&& b.last().pipe_end is None
    &&& b.last().fs_content_cache is None
}

/// What seeking the descriptor `fd_num` to `pos` does.
pub open spec fn seek_post<F>(a: VirtualFileSystem<F>, b: VirtualFileSystem<F>, fd_num: FileDescriptorNumber, pos: SeekFrom, res: Result<usize, Error>) -> bool {
    &&& (match fd_index(a.fds@, fd_num) {
        None => res == Err::<usize, Error>(
            Error::Vfs(VirtualFileSystemError::ReleasedFileResource(fd_num)),
        ) && b == a,
        Some(i) => {
            let fd = a.fds@[i];
            let cur = fd.offset as i64;
            &&& (pos !is End ==> if seek_target(cur, pos, 0) < 0 {
                res == Err::<usize, Error>(Error::InvalidData) && b == a
            } else {
                res == Ok::<usize, Error>(seek_target(cur, pos, 0) as usize)
            })
            &&& (pos is End ==> exists|sr: Result<usize, Error>|
                #![trigger file_size_post(a, fd_num, sr)]
                file_size_post(a, fd_num, sr) && match sr {
                    Err(e) => res == Err::<usize, Error>(e),
                    Ok(size) => if seek_target(cur, pos, size as i64) < 0 {
                        res == Err::<usize, Error>(Error::InvalidData)
                    } else {
                        res == Ok::<usize, Error>(seek_target(cur, pos, size as i64) as usize)
                    },
                })
            &&& (res matches Ok(t) ==> tree_unchanged(a, b)
                && b.fds@ == a.fds@.update(i, with_offset(fd, t)))
            &&& (res is Err ==> b == a)
        },
    })
}

/// What closing the descriptor `fd_num` does.
pub open spec fn close_post<F>(a: VirtualFileSystem<F>, b: VirtualFileSystem<F>, fd_num: FileDescriptorNumber, res: Result<Option<DeviceId>, Error>) -> bool {
    &&& (match fd_index(a.fds@, fd_num) {
        None => res == Err::<Option<DeviceId>, Error>(
            Error::Vfs(VirtualFileSystemError::ReleasedFileResource(fd_num)),
        ) && b == a,
        Some(i) => {
            &&& b.fds@ == a.fds@.remove(i)
            &&& b.cwd_path == a.cwd_path
            &&& b.root_id == a.root_id
            &&& b.next_file_id == a.next_file_id
            &&& b.next_fd_num == a.next_fd_num
            &&& match a.fds@[i].backing {
                FileBacking::Vfs(id) => res == Ok::<Option<DeviceId>, Error>(
                    device_of(a.files@, id),
                ) && release_post(
                    a.files@,
                    a.fds@.remove(i),
                    id,
                    a.fds@[i].pipe_end,
                    b.files@,
                ),
                FileBacking::Fs { .. } => res == Ok::<Option<DeviceId>, Error>(None)
                    && b.files == a.files,
            }
        },
    })
}

/// What opening the file at `path` does.
pub open spec fn open_post<F>(a: VirtualFileSystem<F>, b: VirtualFileSystem<F>, path: Path, create: bool, res: Result<(FileDescriptorNumber, Option<DeviceId>), Error>) -> bool {
    &&& (res matches Ok((n, _)) ==> n.0 == a.next_fd_num && b.next_fd_num
        == a.next_fd_num + 1 && opened_fd(a.fds@, b.fds@, n))
    &&& (res is Err ==> b.fds == a.fds && b.next_fd_num
        == a.next_fd_num)
    &&& (b.cwd_path == a.cwd_path)
    &&& (b.root_id == a.root_id)
    &&& (match path_walk(a, path@) {
        Walk::Vfs(id) => {
            let f = file_of(a.files@, id);
            if !(f.ty is VirtualFile || f.ty is DeviceFile) {
                res matches Err(Error::Vfs(VirtualFileSystemError::NotFile(Some(p)))) && p@
                    == path@ && b == a
            } else {
                match backing_index_from(a.fds@, id, 0) {
                    Some(j) => res == Err::<(FileDescriptorNumber, Option<DeviceId>), Error>(
                        Error::Vfs(VirtualFileSystemError::BlockingFileResource(a.fds@[j].num)),
                    ) && b == a,
                    None => res matches Ok((n, d)) && d == device_of(a.files@, id)
                        && b.fds@.last().backing == FileBacking::Vfs(id)
                        && b.files == a.files,
                }
            }
        },
        Walk::Mount(m, rel) => {
            &&& rel == seq!['/'] ==> (res matches Err(
                Error::Vfs(VirtualFileSystemError::NotFile(Some(p))),
            ) && p@ == path@ && b == a)
            &&& !create ==> b.files == a.files
            &&& (!create && res is Ok) ==> (b.fds@.last().backing matches FileBacking::Fs {
                mount_id,
                rel_path,
            } && mount_id == m && rel_path@ == rel)
            &&& res matches Ok((n, d)) ==> d is None
        },
        Walk::NotFound => if !create {
            res matches Err(Error::Vfs(VirtualFileSystemError::NoSuchFileOrDirectory(Some(p))))
                && p@ == path@ && b == a
        } else {
            &&& res matches Ok((n, d)) ==> d is None && b.fds@.last().backing is Vfs
            &&& exists|mid: VirtualFileSystem<F>, r: Result<(), Error>|
                #![trigger add_file_post(a, mid, path, VfsFileType::VirtualFile, r)]
                add_file_post(a, mid, path, VfsFileType::VirtualFile, r) && (r matches Err(e) ==> res
                    == Err::<(FileDescriptorNumber, Option<DeviceId>), Error>(e) && b.files == a.files) && (
                r is Ok ==> b.files == mid.files && b.next_file_id == mid.next_file_id)
        },
    })
}

/// What creating a pipe does.
pub open spec fn create_pipe_post<F>(a: VirtualFileSystem<F>, b: VirtualFileSystem<F>, res: Result<(FileDescriptorNumber, FileDescriptorNumber), Error>) -> bool {
    &&& (match a.root_id {
        None => res == Err::<(FileDescriptorNumber, FileDescriptorNumber), Error>(Error::NotInitialized)
            && b == a,
        Some(root) => res matches Ok((r, w)) && {
            let id = VfsFileId(a.next_file_id);
            let f = b.files@.last().1;
            &&& r.0 == a.next_fd_num
            &&& w.0 == a.next_fd_num + 1
            &&& b.next_fd_num == a.next_fd_num + 2
            &&& b.next_file_id == a.next_file_id + 1
            &&& b.cwd_path == a.cwd_path
            &&& b.root_id == a.root_id
            &&& b.files@.len() == a.files@.len() + 1
            &&& b.files@.drop_last() == a.files@
            &&& b.files@.last().0 == id
            &&& f.ty == VfsFileType::Pipe
            &&& f.name@ == seq!['p', 'i', 'p', 'e', ':'] + decimal(id.0 as nat)
            &&& f.parent == root
            &&& f.children@.len() == 0
            &&& f.fs is None
            &&& f.buf is None
            &&& f.pipe_buf matches Some(p) && p.buf@.len() == 0 && !p.write_closed
            &&& b.fds@ == a.fds@.push(
                FileDescriptor {
                    num: r,
                    backing: FileBacking::Vfs(id),
                    offset: 0,
                    pipe_end: Some(PipeEnd::Read),
                    fs_content_cache: None,
                },
            ).push(
                FileDescriptor {
                    num: w,
                    backing: FileBacking::Vfs(id),
                    offset: 0,
                    pipe_end: Some(PipeEnd::Write),
                    fs_content_cache: None,
                },
            )
        },
    })
}

impl<F: FileSystem> VirtualFileSystem<F> {
    /// The position of the open descriptor numbered `num`.
    pub fn find_fd(&self, num: FileDescriptorNumber) -> (res: Option<usize>)
        ensures
            match res {
                Some(i) => fd_index(self.fds@, num) == Some(i as int) && i < self.fds@.len(),
                None => fd_index(self.fds@, num) is None,
            },
    {
        let mut i: usize = 0;
        while i < self.fds.len()
            invariant
                i <= self.fds@.len(),
                fd_index(self.fds@, num) == fd_index_from(self.fds@, num, i as int),
            decreases self.fds.len() - i,
        {
            if self.fds[i].num == num {
                return Some(i);
            }
            i = i + 1;
        }
        None
    }

    /// The absolute path of a file, built by following its parents to the
    /// root; gives up after as many steps as there are files.
    pub fn abs_path_by_file(&self, file_ref: &FileInfo<F>) -> (res: Option<Path>)
        ensures
            match abs_path_of(*self, *file_ref) {
                Some(p) => res matches Some(r) && r@ == p,
                None => res is None,
            },
    {
        let root = match self.root_id {
            Some(r) => r,
            None => return None,
        };
        let mut s = file_ref.name.clone();
        let mut parent_id = file_ref.parent;
        let mut fuel: usize = self.files.len();
        let ghost total = self.files@.len();
        while parent_id != root
            invariant
                fuel <= total,
                total == self.files@.len(),
                self.root_id == Some(root),
                path_up(self.files@, root, file_ref.parent, file_ref.name@, total) == path_up(
                    self.files@,
                    root,
                    parent_id,
                    s@,
                    fuel as nat,
                ),
            decreases fuel,
        {
            if fuel == 0 {
                return None;
            }
            let k = match self.find_index(parent_id) {
                Some(k) => k,
                None => return None,
            };
            let mut t = self.files[k].1.name.clone();
            crate::codec::string_push(&mut t, '/');
            t.append(s.as_str());
            assert(t@ =~= self.files@[k as int].1.name@ + seq!['/'] + s@);
            s = t;
            parent_id = self.files[k].1.parent;
            fuel = fuel - 1;
        }
        let mut full = String::new();
        crate::codec::string_push(&mut full, '/');
        full.append(s.as_str());
        assert(full@ =~= seq!['/'] + s@);
        Some(Path::from_string(full).normalize())
    }

    /// Sets the offset of the descriptor at position `i`.
    fn set_fd_offset(&mut self, i: usize, offset: usize)
        requires
            i < old(self).fds@.len(),
        ensures
            tree_unchanged(*old(self), *final(self)),
            final(self).fds@ == old(self).fds@.update(i as int, with_offset(old(self).fds@[i as int], offset)),
    {
        let mut fd = self.fds.remove(i);
        fd.offset = offset;
        self.fds.insert(i, fd);
        proof {
            lemma_remove_insert(old(self).fds@, i as int, with_offset(old(self).fds@[i as int], offset));
        }
    }

    /// Reads at most `max_len` bytes from an open descriptor: from the
    /// cached content of a file of a mounted file system (read whole on the
    /// first read), from the buffer of a file of this tree, or from a pipe; a
    /// device is left to the caller, with the offset to read at.
    pub fn read_file(&mut self, fd_num: FileDescriptorNumber, max_len: usize) -> (res: Result<ReadOutcome, Error>)
        requires
            old(self).wf(),
        ensures
            final(self).wf(),
            read_post(*old(self), *final(self), fd_num, max_len, res),
    {
        let i = match self.find_fd(fd_num) {
            Some(i) => i,
            None => return Err(Error::Vfs(VirtualFileSystemError::ReleasedFileResource(fd_num))),
        };
        let offset = self.fds[i].offset;
        let backing = self.fds[i].backing.duplicate();
        match backing {
            FileBacking::Fs { mount_id, rel_path } => {
                if self.fds[i].fs_content_cache.is_none() {
                    let content = match self.mount_fs_ref(mount_id) {
                        Ok(fs) => match fs.read_file(&rel_path, 0, usize::MAX) {
                            Ok(c) => c,
                            Err(e) => return Err(e),
                        },
                        Err(e) => return Err(e),
                    };
                    let mut fd = self.fds.remove(i);
                    fd.fs_content_cache = Some(content);
                    self.fds.insert(i, fd);
                }
                let (end, bytes) = match &self.fds[i].fs_content_cache {
                    Some(c) => {
                        let w = read_window_exec(c.len(), offset, max_len);
                        (w.1, slice_range(c.as_slice(), w.0, w.1))
                    },
                    None => {
                        proof {
                            assert(false);
                        }
                        return Err(Error::Vfs(VirtualFileSystemError::NoSuchFileOrDirectory(None)));
                    },
                };
                self.set_fd_offset(i, end);
                Ok(ReadOutcome::Data(bytes))
            },
            FileBacking::Vfs(file_id) => {
                let k = match self.find_index(file_id) {
                    Some(k) => k,
                    None => return Err(Error::Vfs(VirtualFileSystemError::NoSuchFileOrDirectory(None))),
                };
                match self.files[k].1.ty {
                    VfsFileType::Pipe => {
                        let (n, empty, closed) = match &self.files[k].1.pipe_buf {
                            Some(p) => (
                                if max_len < p.buf.len() { max_len } else { p.buf.len() },
                                p.buf.len() == 0,
                                p.write_closed,
                            ),
                            None => return Err(Error::Vfs(VirtualFileSystemError::NoSuchFileOrDirectory(None))),
                        };
                        if empty {
                            if closed {
                                return Ok(ReadOutcome::Data(Vec::new()));
                            } else {
                                return Err(Error::BufferEmpty);
                            }
                        }
                        let ghost before = *self;
                        let (fid, mut info) = self.files.remove(k);
                        let bytes = match info.pipe_buf {
                            Some(p) => {
                                let taken = slice_range(p.buf.as_slice(), 0, n);
                                let rest = slice_from(p.buf.as_slice(), n);
                                assert(taken@ =~= p.buf@.take(n as int));
                                info.pipe_buf = Some(PipeBuffer { buf: rest, write_closed: p.write_closed });
                                taken
                            },
                            None => Vec::new(),
                        };
                        self.files.insert(k, (fid, info));
                        assert forall|j: int| 0 <= j < before.files@.len() && j != k implies #[trigger] self.files@[j]
                            == before.files@[j] by {
                            if j < k {
                                assert(self.files@[j] == before.files@.remove(k as int)[j]);
                            } else {
                                assert(self.files@[j] == before.files@.remove(k as int)[j - 1]);
                            }
                        }
                        Ok(ReadOutcome::Data(bytes))
                    },
                    VfsFileType::DeviceFile(dev) => Ok(ReadOutcome::Device { dev, offset }),
                    VfsFileType::VirtualFile => {
                        let (end, bytes) = match &self.files[k].1.buf {
                            Some(b) => {
                                let w = read_window_exec(b.len(), offset, max_len);
                                (w.1, slice_range(b.as_slice(), w.0, w.1))
                            },
                            None => {
                                let e: Vec<u8> = Vec::new();
                                let w = read_window_exec(0, offset, max_len);
                                assert(e@.subrange(w.0 as int, w.1 as int) =~= Seq::<u8>::empty());
                                (w.1, e)
                            },
                        };
                        self.set_fd_offset(i, end);
                        Ok(ReadOutcome::Data(bytes))
                    },
                    VfsFileType::Directory => {
                        let file_path = self.abs_path_by_file(&self.files[k].1);
                        Err(Error::Vfs(VirtualFileSystemError::NotFile(file_path)))
                    },
                }
            },
        }
    }

    /// Writes `data` through an open descriptor: to a file of a mounted file
    /// system (dropping the cached content of every descriptor on that
    /// file), to the buffer of a file of this tree, or to a pipe; a device is
    /// left to the caller.
    pub fn write_file(&mut self, fd_num: FileDescriptorNumber, data: &[u8]) -> (res: Result<WriteOutcome, Error>)
        requires
            old(self).wf(),
            fd_index(old(self).fds@, fd_num) matches Some(i) ==> old(self).fds@[i].offset + data@.len()
                <= usize::MAX,
        ensures
            final(self).wf(),
            write_post(*old(self), *final(self), fd_num, data@, res),
    {
        let i = match self.find_fd(fd_num) {
            Some(i) => i,
            None => return Err(Error::Vfs(VirtualFileSystemError::ReleasedFileResource(fd_num))),
        };
        let offset = self.fds[i].offset;
        let end = offset + data.len();
        let backing = self.fds[i].backing.duplicate();
        match backing {
            FileBacking::Fs { mount_id, rel_path } => {
                match self.mount_fs_ref(mount_id) {
                    Ok(fs) => match fs.write_file(&rel_path, offset, data) {
                        Ok(()) => {},
                        Err(e) => return Err(e),
                    },
                    Err(e) => return Err(e),
                }
                let ghost a = *self;
                let mut j: usize = 0;
                while j < self.fds.len()
                    invariant
                        j <= self.fds@.len(),
                        self.fds@.len() == a.fds@.len(),
                        tree_unchanged(a, *self),
                        forall|t: int| 0 <= t < j ==> #[trigger] self.fds@[t] == invalidated(a.fds@[t], mount_id, rel_path@),
                        forall|t: int| j <= t < self.fds@.len() ==> #[trigger] self.fds@[t] == a.fds@[t],
                    decreases self.fds.len() - j,
                {
                    let hit = match &self.fds[j].backing {
                        FileBacking::Fs { mount_id: m, rel_path: p } => *m == mount_id && p.0 == rel_path.0,
                        FileBacking::Vfs(_) => false,
                    };
                    if hit {
                        let ghost cur = self.fds@;
                        let mut fd = self.fds.remove(j);
                        fd.fs_content_cache = None;
                        self.fds.insert(j, fd);
                        proof {
                            lemma_remove_insert(cur, j as int, self.fds@[j as int]);
                        }
                    }
                    j = j + 1;
                }
                assert(self.fds@ =~= a.fds@.map_values(
                    |d: FileDescriptor| invalidated(d, mount_id, rel_path@),
                ));
                self.set_fd_offset(i, end);
                Ok(WriteOutcome::Done)
            },
            FileBacking::Vfs(file_id) => {
                let k = match self.find_index(file_id) {
                    Some(k) => k,
                    None => return Err(Error::Vfs(VirtualFileSystemError::NoSuchFileOrDirectory(None))),
                };
                match self.files[k].1.ty {
                    VfsFileType::VirtualFile => {
                        let ghost before = *self;
                        let (fid, mut info) = self.files.remove(k);
                        let mut buf = match info.buf {
                            Some(b) => b,
                            None => Vec::new(),
                        };
                        let ghost old_buf = buf@;
                        if end > buf.len() {
                            resize_bytes(&mut buf, end, 0);
                        }
                        let ghost base = buf@;
                        let mut t: usize = 0;
                        while t < data.len()
                            invariant
                                t <= data@.len(),
                                end == offset + data@.len(),
                                end <= base.len(),
                                buf@.len() == base.len(),
                                forall|q: int| 0 <= q < base.len() ==> #[trigger] buf@[q] == if offset <= q < offset + t {
                                    data@[q - offset]
                                } else {
                                    base[q]
                                },
                            decreases data.len() - t,
                        {
                            buf.set(offset + t, data[t]);
                            t = t + 1;
                        }
                        assert(buf@ =~= write_bytes(old_buf, offset as int, data@));
                        info.buf = Some(buf);
                        self.files.insert(k, (fid, info));
                        assert forall|j: int| 0 <= j < before.files@.len() && j != k implies #[trigger] self.files@[j]
                            == before.files@[j] by {
                            if j < k {
                                assert(self.files@[j] == before.files@.remove(k as int)[j]);
                            } else {
                                assert(self.files@[j] == before.files@.remove(k as int)[j - 1]);
                            }
                        }
                        self.set_fd_offset(i, end);
                        Ok(WriteOutcome::Done)
                    },
                    VfsFileType::DeviceFile(dev) => Ok(WriteOutcome::Device(dev)),
                    VfsFileType::Pipe => {
                        if self.files[k].1.pipe_buf.is_none() {
                            return Err(Error::Vfs(VirtualFileSystemError::NoSuchFileOrDirectory(None)));
                        }
                        let ghost before = *self;
                        let (fid, mut info) = self.files.remove(k);
                        match info.pipe_buf {
                            Some(p) => {
                                let mut nb = p.buf;
                                crate::codec::extend_from_slice(&mut nb, data);
                                info.pipe_buf = Some(PipeBuffer { buf: nb, write_closed: p.write_closed });
                            },
                            None => {},
                        }
                        self.files.insert(k, (fid, info));
                        assert forall|j: int| 0 <= j < before.files@.len() && j != k implies #[trigger] self.files@[j]
                            == before.files@[j] by {
                            if j < k {
                                assert(self.files@[j] == before.files@.remove(k as int)[j]);
                            } else {
                                assert(self.files@[j] == before.files@.remove(k as int)[j - 1]);
                            }
                        }
                        Ok(WriteOutcome::Done)
                    },
                    VfsFileType::Directory => {
                        let file_path = self.abs_path_by_file(&self.files[k].1);
                        Err(Error::Vfs(VirtualFileSystemError::NotFile(file_path)))
                    },
                }
            },
        }
    }

    /// The size of the file behind an open descriptor: that of its buffer,
    /// 0 for a device, or what the mounted file system reports.
    pub fn file_size(&self, fd_num: FileDescriptorNumber) -> (res: Result<usize, Error>)
        ensures
            file_size_post(*self, fd_num, res),
    {
        let i = match self.find_fd(fd_num) {
            Some(i) => i,
            None => return Err(Error::Vfs(VirtualFileSystemError::ReleasedFileResource(fd_num))),
        };
        match &self.fds[i].backing {
            FileBacking::Fs { mount_id, rel_path } => match self.mount_fs_ref(*mount_id) {
                Ok(fs) => match fs.metadata(rel_path) {
                    Ok(m) => Ok(m.size),
                    Err(e) => Err(e),
                },
                Err(e) => Err(e),
            },
            FileBacking::Vfs(file_id) => {
                let k = match self.find_index(*file_id) {
                    Some(k) => k,
                    None => return Err(Error::Vfs(VirtualFileSystemError::NoSuchFileOrDirectory(None))),
                };
                match self.files[k].1.ty {
                    VfsFileType::VirtualFile => match &self.files[k].1.buf {
                        Some(b) => Ok(b.len()),
                        None => Ok(0),
                    },
                    VfsFileType::DeviceFile(_) => Ok(0),
                    _ => {
                        let file_path = self.abs_path_by_file(&self.files[k].1);
                        Err(Error::Vfs(VirtualFileSystemError::InvalidFileType(file_path)))
                    },
                }
            },
        }
    }

    /// Moves the offset of an open descriptor; a target below zero is
    /// refused.
    pub fn seek(&mut self, fd_num: FileDescriptorNumber, pos: SeekFrom) -> (res: Result<usize, Error>)
        requires
            old(self).wf(),
        ensures
            final(self).wf(),
            seek_post(*old(self), *final(self), fd_num, pos, res),
    {
        let i = match self.find_fd(fd_num) {
            Some(i) => i,
            None => return Err(Error::Vfs(VirtualFileSystemError::ReleasedFileResource(fd_num))),
        };
        let cur = self.fds[i].offset as i64;
        let target = match pos {
            SeekFrom::Start(offset) => offset,
            SeekFrom::Current(offset) => sat_add_i64(cur, offset),
            SeekFrom::End(offset) => {
                let size = match self.file_size(fd_num) {
                    Ok(s) => s,
                    Err(e) => return Err(e),
                };
                sat_add_i64(size as i64, offset)
            },
        };
        if target < 0 {
            return Err(Error::InvalidData);
        }
        let target = target as usize;
        self.set_fd_offset(i, target);
        Ok(target)
    }

    /// Releases an end of a pipe after its descriptor was closed.
    pub fn release_pipe_end(&mut self, file_id: VfsFileId, pipe_end: Option<PipeEnd>)
        requires
            old(self).wf(),
        ensures
            final(self).wf(),
            final(self).fds == old(self).fds,
            final(self).cwd_path == old(self).cwd_path,
            final(self).root_id == old(self).root_id,
            final(self).next_file_id == old(self).next_file_id,
            final(self).next_fd_num == old(self).next_fd_num,
            release_post(old(self).files@, old(self).fds@, file_id, pipe_end, final(self).files@),
    {
        let k = match self.find_index(file_id) {
            Some(k) => k,
            None => return,
        };
        if self.files[k].1.ty != VfsFileType::Pipe {
            return;
        }
        let mut remaining: usize = 0;
        let mut writers: usize = 0;
        let mut j: usize = 0;
        while j < self.fds.len()
            invariant
                j <= self.fds@.len(),
                remaining <= j,
                writers <= j,
                remaining == count_backing(self.fds@.take(j as int), file_id, false),
                writers == count_backing(self.fds@.take(j as int), file_id, true),
            decreases self.fds.len() - j,
        {
            assert(self.fds@.take(j + 1).drop_last() =~= self.fds@.take(j as int));
            let on_file = match &self.fds[j].backing {
                FileBacking::Vfs(id) => *id == file_id,
                FileBacking::Fs { .. } => false,
            };
            if on_file {
                remaining = remaining + 1;
                let is_writer = match self.fds[j].pipe_end {
                    Some(PipeEnd::Write) => true,
                    _ => false,
                };
                if is_writer {
                    writers = writers + 1;
                }
            }
            j = j + 1;
        }
        assert(self.fds@.take(self.fds@.len() as int) =~= self.fds@);
        proof {
            lemma_id_index_from(self.files@, file_id, 0);
        }
        if remaining == 0 {
            let ghost before = self.files@;
            self.files.remove(k);
            assert forall|a: int, b: int| 0 <= a < b < self.files@.len() implies #[trigger] self.files@[a].0
                != #[trigger] self.files@[b].0 by {
                let a0 = if a < k { a } else { a + 1 };
                let b0 = if b < k { b } else { b + 1 };
                assert(self.files@[a] == before[a0]);
                assert(self.files@[b] == before[b0]);
            }
            assert forall|a: int| 0 <= a < self.files@.len() implies #[trigger] self.files@[a].0.0
                < self.next_file_id by {
                let a0 = if a < k { a } else { a + 1 };
                assert(self.files@[a] == before[a0]);
            }
            return;
        }
        let last_writer = match pipe_end {
            Some(PipeEnd::Write) => true,
            _ => false,
        };
        if last_writer && writers == 0 && self.files[k].1.pipe_buf.is_some() {
            let ghost before = self.files@;
            let (fid, mut info) = self.files.remove(k);
            match info.pipe_buf {
                Some(p) => {
                    info.pipe_buf = Some(PipeBuffer { buf: p.buf, write_closed: true });
                },
                None => {},
            }
            self.files.insert(k, (fid, info));
            proof {
                lemma_remove_insert(before, k as int, self.files@[k as int]);
            }
        }
    }

    /// Closes an open descriptor; a device behind it is handed back for the
    /// caller to close.
    pub fn close_file(&mut self, fd_num: FileDescriptorNumber) -> (res: Result<Option<DeviceId>, Error>)
        requires
            old(self).wf(),
        ensures
            final(self).wf(),
            close_post(*old(self), *final(self), fd_num, res),
    {
        let i = match self.find_fd(fd_num) {
            Some(i) => i,
            None => return Err(Error::Vfs(VirtualFileSystemError::ReleasedFileResource(fd_num))),
        };
        let ghost before = self.fds@;
        let fd = self.fds.remove(i);
        assert forall|a: int, b: int| 0 <= a < b < self.fds@.len() implies #[trigger] self.fds@[a].num
            != #[trigger] self.fds@[b].num by {
            let a0 = if a < i { a } else { a + 1 };
            let b0 = if b < i { b } else { b + 1 };
            assert(self.fds@[a] == before[a0]);
            assert(self.fds@[b] == before[b0]);
        }
        assert forall|a: int| 0 <= a < self.fds@.len() implies #[trigger] self.fds@[a].num.0
            < self.next_fd_num by {
            let a0 = if a < i { a } else { a + 1 };
            assert(self.fds@[a] == before[a0]);
        }
        match fd.backing {
            FileBacking::Vfs(file_id) => {
                let dev_close = match self.find_index(file_id) {
                    Some(k) => match self.files[k].1.ty {
                        VfsFileType::DeviceFile(dev) => Some(dev),
                        _ => None,
                    },
                    None => None,
                };
                self.release_pipe_end(file_id, fd.pipe_end);
                Ok(dev_close)
            },
            FileBacking::Fs { .. } => Ok(None),
        }
    }

    /// Adds a descriptor with a fresh number on `backing`.
    fn push_fd(&mut self, backing: FileBacking, pipe_end: Option<PipeEnd>) -> (res: FileDescriptorNumber)
        requires
            old(self).wf(),
            old(self).next_fd_num < usize::MAX,
        ensures
            final(self).wf(),
            res.0 == old(self).next_fd_num,
            final(self).next_fd_num == old(self).next_fd_num + 1,
            final(self).fds@ == old(self).fds@.push(
                FileDescriptor { num: res, backing, offset: 0, pipe_end, fs_content_cache: None },
            ),
            final(self).cwd_path == old(self).cwd_path,
            final(self).root_id == old(self).root_id,
            final(self).files == old(self).files,
            final(self).next_file_id == old(self).next_file_id,
    {
        let fd_num = FileDescriptorNumber::new(&mut self.next_fd_num);
        self.fds.push(FileDescriptor { num: fd_num, backing, offset: 0, pipe_end, fs_content_cache: None });
        fd_num
    }

    /// Opens a file of this tree or of a mounted file system; with `create`,
    /// a missing file is first created. A file of the tree can be open only
    /// once; a device behind it is handed back for the caller to open.
    pub fn open_file(&mut self, path: &Path, create: bool) -> (res: Result<(FileDescriptorNumber, Option<DeviceId>), Error>)
        requires
            old(self).wf(),
            old(self).next_fd_num < usize::MAX,
            old(self).next_file_id < usize::MAX,
        ensures
            final(self).wf(),
            open_post(*old(self), *final(self), *path, create, res),
    {
        let mut dev_open: Option<DeviceId> = None;
        let backing = match self.find_file_by_path(path) {
            Some(Resolved::Vfs(file_id, ty)) => {
                proof {
                    if let Some(abs) = crate::fs::vfs::absolutize_chars(self.cwd_path, path@) {
                        if let Some(root) = self.root_id {
                            crate::fs::vfs::lemma_walk_ends_present(
                                self.files@,
                                crate::fs::path::path_names(abs),
                                0,
                                root,
                            );
                        }
                    }
                }
                match ty {
                    VfsFileType::VirtualFile => {},
                    VfsFileType::DeviceFile(dev) => {
                        dev_open = Some(dev);
                    },
                    _ => return Err(Error::Vfs(VirtualFileSystemError::NotFile(Some(path.duplicate())))),
                }
                let mut j: usize = 0;
                #[verifier::loop_isolation(false)]
                while j < self.fds.len()
                    invariant
                        j <= self.fds@.len(),
                        *self == *old(self),
                        backing_index_from(self.fds@, file_id, 0) == backing_index_from(
                            self.fds@,
                            file_id,
                            j as int,
                        ),
                    decreases self.fds.len() - j,
                {
                    let on_file = match &self.fds[j].backing {
                        FileBacking::Vfs(id) => *id == file_id,
                        FileBacking::Fs { .. } => false,
                    };
                    if on_file {
                        return Err(Error::Vfs(VirtualFileSystemError::BlockingFileResource(self.fds[j].num)));
                    }
                    j = j + 1;
                }
                FileBacking::Vfs(file_id)
            },
            Some(resolved) => {
                match resolved.vfs_type() {
                    VfsFileType::VirtualFile => {},
                    _ => return Err(Error::Vfs(VirtualFileSystemError::NotFile(Some(path.duplicate())))),
                }
                resolved.backing()
            },
            None => {
                if !create {
                    return Err(
                        Error::Vfs(VirtualFileSystemError::NoSuchFileOrDirectory(Some(path.duplicate()))),
                    );
                }
                let ghost before = *self;
                let r = self.add_file(path, VfsFileType::VirtualFile);
                let ghost mid = *self;
                proof {
                    assert(add_file_post(before, mid, *path, VfsFileType::VirtualFile, r));
                }
                match r {
                    Ok(()) => {},
                    Err(e) => return Err(e),
                }
                match self.find_file_by_path(path) {
                    Some(Resolved::Vfs(file_id, _)) => FileBacking::Vfs(file_id),
                    _ => {
                        return Err(
                            Error::Vfs(VirtualFileSystemError::NoSuchFileOrDirectory(Some(path.duplicate()))),
                        )
                    },
                }
            },
        };
        let fd_num = self.push_fd(backing, None);
        assert(self.fds@.drop_last() =~= old(self).fds@);
        Ok((fd_num, dev_open))
    }

    /// Creates a pipe, a file under the root named "pipe:" and its id, with
    /// a descriptor on its read end and one on its write end.
    pub fn create_pipe(&mut self) -> (res: Result<(FileDescriptorNumber, FileDescriptorNumber), Error>)
        requires
            old(self).wf(),
            old(self).next_file_id < usize::MAX,
            old(self).next_fd_num < usize::MAX - 1,
        ensures
            final(self).wf(),
            create_pipe_post(*old(self), *final(self), res),
    {
        let root_id = match self.root_id {
            Some(r) => r,
            None => return Err(Error::NotInitialized),
        };
        let file_id = VfsFileId::new(&mut self.next_file_id);
        let mut name = String::new();
        string_push(&mut name, 'p');
        string_push(&mut name, 'i');
        string_push(&mut name, 'p');
        string_push(&mut name, 'e');
        string_push(&mut name, ':');
        push_decimal(&mut name, file_id.0);
        assert(name@ =~= seq!['p', 'i', 'p', 'e', ':'] + decimal(file_id.0 as nat));
        let mut info = FileInfo::new(VfsFileType::Pipe, name, root_id);
        info.pipe_buf = Some(PipeBuffer { buf: Vec::new(), write_closed: false });
        self.files.push((file_id, info));
        assert(self.files@.drop_last() =~= old(self).files@);
        let read_fd_num = self.push_fd(FileBacking::Vfs(file_id), Some(PipeEnd::Read));
        let write_fd_num = self.push_fd(FileBacking::Vfs(file_id), Some(PipeEnd::Write));
        Ok((read_fd_num, write_fd_num))
    }

    /// Records that `read_len` bytes were read from a device at `offset`:
    /// the descriptor, if still open, moves past them.
    pub fn device_read_done(&mut self, fd_num: FileDescriptorNumber, offset: usize, read_len: usize)
        requires
            old(self).wf(),
        ensures
            final(self).wf(),
            tree_unchanged(*old(self), *final(self)),
            match fd_index(old(self).fds@, fd_num) {
                Some(i) => final(self).fds@ == old(self).fds@.update(
                    i,
                    with_offset(
                        old(self).fds@[i],
                        if offset + read_len > usize::MAX { usize::MAX } else { (offset + read_len) as usize },
                    ),
                ),
                None => final(self).fds == old(self).fds,
            },
    {
        if let Some(i) = self.find_fd(fd_num) {
            let end = if read_len > usize::MAX - offset { usize::MAX } else { offset + read_len };
            self.set_fd_offset(i, end);
        }
    }

    /// The file system mounted on the file `mount_id`.
    pub fn mount_fs_ref(&self, mount_id: VfsFileId) -> (res: Result<&F, Error>)
        ensures
            match id_index(self.files@, mount_id) {
                Some(k) => match self.files@[k].1.fs {
                    Some(fs) => res == Ok::<&F, Error>(&fs),
                    None => res == Err::<&F, Error>(
                        Error::Vfs(VirtualFileSystemError::NoSuchFileOrDirectory(None)),
                    ),
                },
                None => res == Err::<&F, Error>(
                    Error::Vfs(VirtualFileSystemError::NoSuchFileOrDirectory(None)),
                ),
            },
    {
        match self.find_index(mount_id) {
            Some(k) => match &self.files[k].1.fs {
                Some(fs) => Ok(fs),
                None => Err(Error::Vfs(VirtualFileSystemError::NoSuchFileOrDirectory(None))),
            },
            None => Err(Error::Vfs(VirtualFileSystemError::NoSuchFileOrDirectory(None))),
        }
    }
}

/// Two file lists with the same ids in the same places find every id at the
/// same place.
pub proof fn lemma_id_index_same_ids<F>(f1: Seq<(VfsFileId, FileInfo<F>)>, f2: Seq<(VfsFileId, FileInfo<F>)>, id: VfsFileId, i: int)
    requires
        f1.len() == f2.len(),
        forall|j: int| 0 <= j < f1.len() ==> #[trigger] f1[j].0 == f2[j].0,
    ensures
        crate::fs::vfs::id_index_from(f1, id, i) == crate::fs::vfs::id_index_from(f2, id, i),
    decreases f1.len() - i,
{
    if 0 <= i < f1.len() {
        lemma_id_index_same_ids(f1, f2, id, i + 1);
    }
}

/// Two descriptor lists with the same numbers in the same places find every
/// number at the same place.
pub proof fn lemma_fd_index_same_nums(d1: Seq<FileDescriptor>, d2: Seq<FileDescriptor>, num: FileDescriptorNumber, i: int)
    requires
        d1.len() == d2.len(),
        forall|j: int| 0 <= j < d1.len() ==> #[trigger] d1[j].num == d2[j].num,
    ensures
        fd_index_from(d1, num, i) == fd_index_from(d2, num, i),
    decreases d1.len() - i,
{
    if 0 <= i < d1.len() {
        lemma_fd_index_same_nums(d1, d2, num, i + 1);
    }
}

/// Reading back what was written: after bytes are written through a
/// descriptor on a file of the tree and the descriptor is moved back to where
/// the write began, a read of as many bytes gives the bytes written.
pub proof fn lemma_write_seek_read<F>(
    a: VirtualFileSystem<F>,
    b: VirtualFileSystem<F>,
    c: VirtualFileSystem<F>,
    d: VirtualFileSystem<F>,
    num: FileDescriptorNumber,
    data: Seq<u8>,
    r1: Result<WriteOutcome, Error>,
    r2: Result<usize, Error>,
    r3: Result<ReadOutcome, Error>,
)
    requires
        fd_index(a.fds@, num) matches Some(i) && (a.fds@[i].backing matches FileBacking::Vfs(id) && (id_index(
            a.files@,
            id,
        ) matches Some(k) && a.files@[k].1.ty == VfsFileType::VirtualFile)) && a.fds@[i].offset
            <= i64::MAX,
        write_post(a, b, num, data, r1),
        seek_post(b, c, num, SeekFrom::Start(a.fds@[fd_index(a.fds@, num).unwrap()].offset as i64), r2),
        read_post(c, d, num, data.len() as usize, r3),
        data.len() <= usize::MAX,
    ensures
        r3 matches Ok(ReadOutcome::Data(bytes)) && bytes@ == data,
{
    let i = fd_index(a.fds@, num).unwrap();
    let fd = a.fds@[i];
    let o = fd.offset;
    let id = fd.backing->Vfs_0;
    let k = id_index(a.files@, id).unwrap();
    lemma_fd_index_from(a.fds@, num, 0);
    crate::fs::vfs::lemma_id_index_from(a.files@, id, 0);
    // after the write
    assert(b.fds@ == a.fds@.update(i, with_offset(fd, (o + data.len()) as usize)));
    assert forall|j: int| 0 <= j < a.fds@.len() implies #[trigger] a.fds@[j].num == b.fds@[j].num by {
        if j == i {
        }
    }
    lemma_fd_index_same_nums(a.fds@, b.fds@, num, 0);
    assert forall|j: int| 0 <= j < a.files@.len() implies #[trigger] a.files@[j].0 == b.files@[j].0 by {
        if j == k {
        }
    }
    lemma_id_index_same_ids(a.files@, b.files@, id, 0);
    // after the seek
    assert(fd_index(b.fds@, num) == Some(i));
    assert(c.fds@ == b.fds@.update(i, with_offset(b.fds@[i], o)));
    assert forall|j: int| 0 <= j < b.fds@.len() implies #[trigger] b.fds@[j].num == c.fds@[j].num by {
        if j == i {
        }
    }
    lemma_fd_index_same_nums(b.fds@, c.fds@, num, 0);
    assert(fd_index(c.fds@, num) == Some(i));
    assert(c.files == b.files);
    assert(id_index(c.files@, id) == Some(k));
    assert(c.fds@[i].offset == o);
    assert(c.fds@[i].backing == FileBacking::Vfs(id));
    let old_buf = match a.files@[k].1.buf {
        Some(v) => v@,
        None => Seq::<u8>::empty(),
    };
    let nb = write_bytes(old_buf, o as int, data);
    assert(c.files@[k].1.buf.unwrap()@ == nb);
    assert(nb.len() >= o + data.len());
    assert(nb.subrange(o as int, o + data.len()) =~= data);
}

/// A pipe hands back in order what was written to it: bytes written to an
/// empty pipe are what a read of at least as many bytes gives.
pub proof fn lemma_pipe_write_read<F>(
    a: VirtualFileSystem<F>,
    b: VirtualFileSystem<F>,
    c: VirtualFileSystem<F>,
    writer: FileDescriptorNumber,
    reader: FileDescriptorNumber,
    data: Seq<u8>,
    max_len: usize,
    r1: Result<WriteOutcome, Error>,
    r2: Result<ReadOutcome, Error>,
)
    requires
        fd_index(a.fds@, writer) matches Some(i) && (a.fds@[i].backing matches FileBacking::Vfs(id) && (id_index(
            a.files@,
            id,
        ) matches Some(k) && a.files@[k].1.ty == VfsFileType::Pipe && (a.files@[k].1.pipe_buf matches Some(
            p,
        ) && p.buf@.len() == 0))),
        fd_index(a.fds@, reader) matches Some(j) && a.fds@[j].backing == a.fds@[fd_index(
            a.fds@,
            writer,
        ).unwrap()].backing,
        write_post(a, b, writer, data, r1),
        read_post(b, c, reader, max_len, r2),
        data.len() > 0,
        max_len >= data.len(),
    ensures
        r2 matches Ok(ReadOutcome::Data(bytes)) && bytes@ == data,
{
    let i = fd_index(a.fds@, writer).unwrap();
    let id = a.fds@[i].backing->Vfs_0;
    let k = id_index(a.files@, id).unwrap();
    crate::fs::vfs::lemma_id_index_from(a.files@, id, 0);
    assert(b.fds == a.fds);
    assert forall|t: int| 0 <= t < a.files@.len() implies #[trigger] a.files@[t].0 == b.files@[t].0 by {
        if t == k {
        }
    }
    lemma_id_index_same_ids(a.files@, b.files@, id, 0);
    let p = a.files@[k].1.pipe_buf.unwrap();
    assert(b.files@[k].1.pipe_buf.unwrap().buf@ == p.buf@ + data);
    assert(p.buf@ + data =~= data);
    assert(data.take(data.len() as int) =~= data);
}

} // verus!
