use vstd::prelude::*;
use crate::error::Error;
use crate::fs::path::{dot, dot_dot, Path};
use crate::fs::vfs::{
    absolutize_chars, file_of, id_index, path_walk, FileInfo, FileSystem, FsFileType, Resolved,
    VfsFileId, VfsFileType, VirtualFileSystem, VirtualFileSystemError, Walk,
};

verus! {

/// The names of the children of a directory that are present in `files`,
/// in order.
pub open spec fn present_names<F>(files: Seq<(VfsFileId, FileInfo<F>)>, children: Seq<VfsFileId>) -> Seq<Seq<char>>
    decreases children.len(),
{
    if children.len() == 0 {
        Seq::empty()
    } else {
        let rest = present_names(files, children.drop_last());
        match id_index(files, children.last()) {
            Some(k) => rest.push(files[k].1.name@),
            None => rest,
        }
    }
}

/// The names other than "." and "..", in order.
pub open spec fn without_dots(names: Seq<Seq<char>>) -> Seq<Seq<char>>
    decreases names.len(),
{
    if names.len() == 0 {
        Seq::empty()
    } else {
        let rest = without_dots(names.drop_last());
        if names.last() == dot() || names.last() == dot_dot() {
            rest
        } else {
            rest.push(names.last())
        }
    }
}

pub open spec fn names_view(v: Seq<String>) -> Seq<Seq<char>> {
    v.map_values(|s: String| s@)
}

fn is_dot_name(name: &String) -> (res: bool)
    ensures
        res == (name@ == dot() || name@ == dot_dot()),
{
    let s = name.as_str();
    let n = vstd::string::StrSliceExecFns::unicode_len(s);
    if n == 1 {
        let r = vstd::string::StrSliceExecFns::get_char(s, 0) == '.';
        if r {
            assert(name@ =~= dot());
        }
        return r;
    }
    if n == 2 {
        let r = vstd::string::StrSliceExecFns::get_char(s, 0) == '.'
            && vstd::string::StrSliceExecFns::get_char(s, 1) == '.';
        if r {
            assert(name@ =~= dot_dot());
        }
        return r;
    }
    false
}

/// Drops the names "." and "..".
fn retain_real_names(names: Vec<String>) -> (res: Vec<String>)
    ensures
        names_view(res@) == without_dots(names_view(names@)),
{
    let mut out: Vec<String> = Vec::new();
    let mut i: usize = 0;
    while i < names.len()
        invariant
            i <= names@.len(),
            names_view(out@) == without_dots(names_view(names@).take(i as int)),
        decreases names.len() - i,
    {
        let ghost prev = names_view(out@);
        assert(names_view(names@).take(i + 1).drop_last() =~= names_view(names@).take(i as int));
        if !is_dot_name(&names[i]) {
            out.push(names[i].clone());
            assert(names_view(out@) =~= prev.push(names@[i as int]@));
        }
        i = i + 1;
    }
    assert(names_view(names@).take(names@.len() as int) =~= names_view(names@));
    out
}

/// The names listed for the directory at `path`.
pub open spec fn entry_names_post<F>(a: VirtualFileSystem<F>, path: Path, res: Result<Vec<String>, Error>) -> bool {
    &&& (match path_walk(a, path@) {
        Walk::NotFound => res matches Err(
            Error::Vfs(VirtualFileSystemError::NoSuchFileOrDirectory(Some(p))),
        ) && p@ == path@,
        Walk::Vfs(id) => {
            let f = file_of(a.files@, id);
            if f.ty != VfsFileType::Directory {
                res matches Err(Error::Vfs(VirtualFileSystemError::NotDirectory(Some(p))))
                    && p@ == path@
            } else {
                res matches Ok(v) && names_view(v@) == without_dots(
                    present_names(a.files@, f.children@),
                )
            }
        },
        Walk::Mount(_, _) => res matches Ok(v) ==> forall|i: int|
            0 <= i < v@.len() ==> #[trigger] v@[i]@ != dot() && v@[i]@ != dot_dot(),
    })
}

/// What changing the current directory to `path` does.
pub open spec fn chdir_post<F>(a: VirtualFileSystem<F>, b: VirtualFileSystem<F>, path: Path, res: Result<(), Error>) -> bool {
    &&& (b.root_id == a.root_id)
    &&& (b.files == a.files)
    &&& (b.fds == a.fds)
    &&& (b.next_file_id == a.next_file_id)
    &&& (b.next_fd_num == a.next_fd_num)
    &&& (res is Err ==> b == a)
    &&& (res is Ok ==> (b.cwd_path matches Some(c) && absolutize_chars(
        a.cwd_path,
        path@,
    ) == Some(c@)))
    &&& (match absolutize_chars(a.cwd_path, path@) {
        None => res == Err::<(), Error>(Error::NotInitialized),
        Some(abs) => match path_walk(a, abs) {
            Walk::NotFound => res matches Err(
                Error::Vfs(VirtualFileSystemError::NoSuchFileOrDirectory(Some(p))),
            ) && p@ == path@,
            Walk::Vfs(id) => if file_of(a.files@, id).ty == VfsFileType::Directory {
                res is Ok
            } else {
                res matches Err(Error::Vfs(VirtualFileSystemError::NotDirectory(Some(p))))
                    && p@ == path@
            },
            Walk::Mount(_, rel) => rel == seq!['/'] ==> res is Ok,
        },
    })
}

impl<F: FileSystem> VirtualFileSystem<F> {
    /// The names in a directory, without "." and "..".
    pub fn entry_names(&self, path: &Path) -> (res: Result<Vec<String>, Error>)
        ensures
            entry_names_post(*self, *path, res),
    {
        let resolved = match self.find_file_by_path(path) {
            Some(r) => r,
            None => {
                return Err(
                    Error::Vfs(VirtualFileSystemError::NoSuchFileOrDirectory(Some(path.duplicate()))),
                )
            },
        };
        match resolved.vfs_type() {
            VfsFileType::Directory => {},
            _ => return Err(Error::Vfs(VirtualFileSystemError::NotDirectory(Some(path.duplicate())))),
        }
        let names = match resolved {
            Resolved::Vfs(file_id, _) => {
                proof {
                    if let Some(abs) = absolutize_chars(self.cwd_path, path@) {
                        if let Some(root) = self.root_id {
                            crate::fs::vfs::lemma_walk_ends_present(
                                self.files@,
                                crate::fs::path::path_names(abs),
                                0,
                                root,
                            );
                        }
                    }
                }
                let k = match self.find_index(file_id) {
                    Some(k) => k,
                    None => return Err(Error::Vfs(VirtualFileSystemError::NoSuchFileOrDirectory(None))),
                };
                let children = &self.files[k].1.children;
                let mut out: Vec<String> = Vec::new();
                let mut j: usize = 0;
                while j < children.len()
                    invariant
                        j <= children@.len(),
                        names_view(out@) == present_names(self.files@, children@.take(j as int)),
                    decreases children.len() - j,
                {
                    assert(children@.take(j + 1).drop_last() =~= children@.take(j as int));
                    let ghost prev = names_view(out@);
                    match self.find_index(children[j]) {
                        Some(c) => {
                            out.push(self.files[c].1.name.clone());
                            assert(names_view(out@) =~= prev.push(self.files@[c as int].1.name@));
                        },
                        None => {},
                    }
                    j = j + 1;
                }
                assert(children@.take(children@.len() as int) =~= children@);
                out
            },
            Resolved::Fs { mount_id, rel_path, .. } => match self.mount_fs_ref(mount_id) {
                Ok(fs) => match fs.read_entry_names(&rel_path) {
                    Ok(v) => v,
                    Err(e) => return Err(e),
                },
                Err(e) => return Err(e),
            },
        };
        let res = retain_real_names(names);
        proof {
            lemma_without_dots(names_view(names@));
            assert forall|i: int| 0 <= i < res@.len() implies #[trigger] res@[i]@ != dot() && res@[i]@
                != dot_dot() by {
                assert(res@[i]@ == names_view(res@)[i]);
            }
        }
        Ok(res)
    }

    /// Makes a directory the current directory.
    pub fn chdir(&mut self, path: &Path) -> (res: Result<(), Error>)
        requires
            old(self).wf(),
        ensures
            final(self).wf(),
            chdir_post(*old(self), *final(self), *path, res),
    {
        let abs_path = match self.absolutize(path) {
            Some(p) => p,
            None => return Err(Error::NotInitialized),
        };
        let resolved = match self.find_file_by_path(&abs_path) {
            Some(r) => r,
            None => {
                return Err(
                    Error::Vfs(VirtualFileSystemError::NoSuchFileOrDirectory(Some(path.duplicate()))),
                )
            },
        };
        match resolved.vfs_type() {
            VfsFileType::Directory => {},
            _ => return Err(Error::Vfs(VirtualFileSystemError::NotDirectory(Some(path.duplicate())))),
        }
        self.cwd_path = Some(abs_path);
        Ok(())
    }
}

/// No name that is left is "." or "..".
pub proof fn lemma_without_dots(names: Seq<Seq<char>>)
    ensures
        forall|i: int|
            0 <= i < without_dots(names).len() ==> #[trigger] without_dots(names)[i] != dot()
                && without_dots(names)[i] != dot_dot(),
    decreases names.len(),
{
    if names.len() > 0 {
        lemma_without_dots(names.drop_last());
        let rest = without_dots(names.drop_last());
        assert forall|i: int| 0 <= i < without_dots(names).len() implies #[trigger] without_dots(
            names,
        )[i] != dot() && without_dots(names)[i] != dot_dot() by {
            if i < rest.len() {
                assert(without_dots(names)[i] == rest[i]);
            }
        }
    }
}

} // verus!
