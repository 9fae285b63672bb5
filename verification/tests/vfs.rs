use lib::error::Error;
use lib::fs::path::Path;
use lib::fs::vfs::{
    add_dev, chdir, close_file, create_file, create_pipe, cwd_path, entry_names, file_size, init,
    mount_fs, open_file, read_file, seek, write_file, DeviceId, FileSystem, FsFileType, FsMetaData,
    ReadOutcome, SeekFrom, VirtualFileSystem, VirtualFileSystemError, WriteOutcome,
};

struct StaticFs;

impl FileSystem for StaticFs {
    fn read_entry_names(&self, _path: &Path) -> Result<Vec<String>, Error> {
        Ok(vec![String::from("boot.cfg"), String::from("init")])
    }

    fn read_file(&self, _path: &Path, offset: usize, max_len: usize) -> Result<Vec<u8>, Error> {
        let content = b"kernel-config";
        let start = offset.min(content.len());
        let end = if max_len > content.len() - start { content.len() } else { start + max_len };
        Ok(content[start..end].to_vec())
    }

    fn write_file(&self, _path: &Path, _offset: usize, _data: &[u8]) -> Result<(), Error> {
        Ok(())
    }

    fn metadata(&self, path: &Path) -> Result<FsMetaData, Error> {
        if path.as_str() == "/boot.cfg" {
            Ok(FsMetaData { file_type: FsFileType::File, size: 13 })
        } else {
            Err(Error::Vfs(VirtualFileSystemError::NoSuchFileOrDirectory(None)))
        }
    }
}

fn ready() -> VirtualFileSystem<StaticFs> {
    let mut vfs = VirtualFileSystem::<StaticFs>::new();
    assert!(init(&mut vfs).is_ok());
    vfs
}

fn data(outcome: ReadOutcome) -> Vec<u8> {
    match outcome {
        ReadOutcome::Data(d) => d,
        ReadOutcome::Device { .. } => panic!("expected data"),
    }
}

#[test]
fn init_creates_standard_directories() {
    let vfs = ready();
    assert_eq!(cwd_path(&vfs).unwrap().as_str(), "/");
    let names = entry_names(&vfs, &Path::new("/")).unwrap();
    assert_eq!(names, vec![String::from("mnt"), String::from("dev"), String::from("proc")]);
    let mnt = entry_names(&vfs, &Path::new("/mnt")).unwrap();
    assert_eq!(mnt, vec![String::from("initramfs")]);
}

#[test]
fn uninitialized_vfs_is_refused() {
    let mut vfs = VirtualFileSystem::<StaticFs>::new();
    assert!(matches!(cwd_path(&vfs), Err(Error::NotInitialized)));
    assert!(matches!(create_file(&mut vfs, &Path::new("/a")), Err(Error::NotInitialized)));
    assert!(matches!(create_pipe(&mut vfs), Err(Error::NotInitialized)));
}

#[test]
fn mkdir_twice_reports_existing_directory() {
    let mut vfs = ready();
    assert!(vfs.mkdir(&Path::new("/home")).is_ok());
    let again = vfs.mkdir(&Path::new("/home"));
    assert!(matches!(
        again,
        Err(Error::Vfs(VirtualFileSystemError::FileOrDirectoryAlreadyExists(_)))
    ));
    let missing_parent = vfs.mkdir(&Path::new("/nowhere/dir"));
    assert!(matches!(
        missing_parent,
        Err(Error::Vfs(VirtualFileSystemError::NoSuchFileOrDirectory(_)))
    ));
}

#[test]
fn write_seek_read_round_trip() {
    let mut vfs = ready();
    assert!(create_file(&mut vfs, &Path::new("/notes.txt")).is_ok());
    let (fd, dev) = open_file(&mut vfs, &Path::new("/notes.txt"), false).unwrap();
    assert!(dev.is_none());
    assert!(matches!(write_file(&mut vfs, fd, b"hello"), Ok(WriteOutcome::Done)));
    assert_eq!(file_size(&vfs, fd).unwrap(), 5);
    assert_eq!(seek(&mut vfs, fd, SeekFrom::Start(0)).unwrap(), 0);
    let bytes = data(read_file(&mut vfs, fd, 16).unwrap());
    assert_eq!(bytes, b"hello".to_vec());
    // at the end nothing more is read
    let rest = data(read_file(&mut vfs, fd, 16).unwrap());
    assert!(rest.is_empty());
}

#[test]
fn overwrite_in_the_middle_keeps_the_rest() {
    let mut vfs = ready();
    let (fd, _) = open_file(&mut vfs, &Path::new("/f"), true).unwrap();
    assert!(write_file(&mut vfs, fd, b"abcdef").is_ok());
    assert_eq!(seek(&mut vfs, fd, SeekFrom::Start(2)).unwrap(), 2);
    assert!(write_file(&mut vfs, fd, b"XY").is_ok());
    assert_eq!(seek(&mut vfs, fd, SeekFrom::Current(-4)).unwrap(), 0);
    assert_eq!(data(read_file(&mut vfs, fd, 3).unwrap()), b"abX".to_vec());
    assert_eq!(data(read_file(&mut vfs, fd, 10).unwrap()), b"Yef".to_vec());
    assert_eq!(seek(&mut vfs, fd, SeekFrom::End(-1)).unwrap(), 5);
    assert_eq!(data(read_file(&mut vfs, fd, 10).unwrap()), b"f".to_vec());
}

#[test]
fn open_missing_file_without_create_fails() {
    let mut vfs = ready();
    let res = open_file(&mut vfs, &Path::new("/missing"), false);
    assert!(matches!(
        res,
        Err(Error::Vfs(VirtualFileSystemError::NoSuchFileOrDirectory(_)))
    ));
}

#[test]
fn a_directory_cannot_be_opened() {
    let mut vfs = ready();
    let res = open_file(&mut vfs, &Path::new("/dev"), false);
    assert!(matches!(res, Err(Error::Vfs(VirtualFileSystemError::NotFile(_)))));
}

#[test]
fn a_file_of_the_tree_is_opened_once() {
    let mut vfs = ready();
    let (fd, _) = open_file(&mut vfs, &Path::new("/once"), true).unwrap();
    let second = open_file(&mut vfs, &Path::new("/once"), false);
    assert!(matches!(
        second,
        Err(Error::Vfs(VirtualFileSystemError::BlockingFileResource(n))) if n.get() == fd.get()
    ));
    assert!(matches!(close_file(&mut vfs, fd), Ok(None)));
    assert!(open_file(&mut vfs, &Path::new("/once"), false).is_ok());
}

#[test]
fn closed_descriptor_is_released() {
    let mut vfs = ready();
    let (fd, _) = open_file(&mut vfs, &Path::new("/tmpfile"), true).unwrap();
    assert!(close_file(&mut vfs, fd).is_ok());
    assert!(matches!(
        read_file(&mut vfs, fd, 4),
        Err(Error::Vfs(VirtualFileSystemError::ReleasedFileResource(_)))
    ));
    assert!(close_file(&mut vfs, fd).is_err());
}

#[test]
fn pipe_is_first_in_first_out() {
    let mut vfs = ready();
    let (read_end, write_end) = create_pipe(&mut vfs).unwrap();
    assert!(matches!(
        read_file(&mut vfs, read_end, 4),
        Err(Error::BufferEmpty)
    ));
    assert!(write_file(&mut vfs, write_end, b"abc").is_ok());
    assert!(write_file(&mut vfs, write_end, b"de").is_ok());
    assert_eq!(data(read_file(&mut vfs, read_end, 2).unwrap()), b"ab".to_vec());
    assert_eq!(data(read_file(&mut vfs, read_end, 10).unwrap()), b"cde".to_vec());
    // closing the write end makes an empty pipe read as end of file
    assert!(close_file(&mut vfs, write_end).is_ok());
    assert!(data(read_file(&mut vfs, read_end, 10).unwrap()).is_empty());
}

#[test]
fn device_file_is_left_to_the_caller() {
    let mut vfs = ready();
    assert!(add_dev(&mut vfs, DeviceId(7), "tty").is_ok());
    let names = entry_names(&vfs, &Path::new("/dev")).unwrap();
    assert_eq!(names, vec![String::from("tty")]);
    let (fd, dev) = open_file(&mut vfs, &Path::new("/dev/tty"), false).unwrap();
    assert_eq!(dev, Some(DeviceId(7)));
    match read_file(&mut vfs, fd, 8).unwrap() {
        ReadOutcome::Device { dev, offset } => {
            assert_eq!(dev, DeviceId(7));
            assert_eq!(offset, 0);
        }
        ReadOutcome::Data(_) => panic!("expected a device"),
    }
    assert!(matches!(write_file(&mut vfs, fd, b"x"), Ok(WriteOutcome::Device(DeviceId(7)))));
    assert!(matches!(close_file(&mut vfs, fd), Ok(Some(DeviceId(7)))));
}

#[test]
fn chdir_makes_relative_paths_work() {
    let mut vfs = ready();
    assert!(vfs.mkdir(&Path::new("/home")).is_ok());
    assert!(chdir(&mut vfs, &Path::new("/home")).is_ok());
    assert_eq!(cwd_path(&vfs).unwrap().as_str(), "/home");
    let (fd, _) = open_file(&mut vfs, &Path::new("todo"), true).unwrap();
    assert!(write_file(&mut vfs, fd, b"1").is_ok());
    assert_eq!(entry_names(&vfs, &Path::new("/home")).unwrap(), vec![String::from("todo")]);
    assert!(chdir(&mut vfs, &Path::new("..")).is_ok());
    assert_eq!(cwd_path(&vfs).unwrap().as_str(), "/");
    assert!(chdir(&mut vfs, &Path::new("/nope")).is_err());
    assert_eq!(cwd_path(&vfs).unwrap().as_str(), "/");
}

#[test]
fn mounted_file_system_serves_its_files() {
    let mut vfs = ready();
    assert!(mount_fs(&mut vfs, &Path::new("/mnt/initramfs"), StaticFs).is_ok());
    let names = entry_names(&vfs, &Path::new("/mnt/initramfs")).unwrap();
    assert_eq!(names, vec![String::from("boot.cfg"), String::from("init")]);
    let (fd, dev) = open_file(&mut vfs, &Path::new("/mnt/initramfs/boot.cfg"), false).unwrap();
    assert!(dev.is_none());
    assert_eq!(data(read_file(&mut vfs, fd, 6).unwrap()), b"kernel".to_vec());
    assert_eq!(data(read_file(&mut vfs, fd, 100).unwrap()), b"-config".to_vec());
    assert!(open_file(&mut vfs, &Path::new("/mnt/initramfs/absent"), false).is_err());
}

#[test]
fn mounting_on_a_missing_directory_fails() {
    let mut vfs = ready();
    let res = mount_fs(&mut vfs, &Path::new("/media"), StaticFs);
    assert!(matches!(
        res,
        Err(Error::Vfs(VirtualFileSystemError::NoSuchFileOrDirectory(_)))
    ));
}

#[test]
fn error_messages() {
    let e = VirtualFileSystemError::NoSuchFileOrDirectory(Some(Path::new("/a/b")));
    assert_eq!(e.to_string(), "No such file or directory: /a/b");
    assert_eq!(VirtualFileSystemError::NotFile(None).to_string(), "Not a file");
    assert_eq!(
        VirtualFileSystemError::FileOrDirectoryAlreadyExists(Path::new("/x")).to_string(),
        "File or directory already exists: /x"
    );
    let mut next: usize = 42;
    let fd = lib::fs::vfs::FileDescriptorNumber::new(&mut next);
    assert_eq!(VirtualFileSystemError::BlockingFileResource(fd).to_string(), "Blocking file resource: 42");
    assert_eq!(VirtualFileSystemError::InvalidFileName.to_string(), "Invalid file name");
}

#[test]
fn seeking_from_the_end() {
    let mut vfs = ready();
    assert!(create_file(&mut vfs, &Path::new("/end.txt")).is_ok());
    let (fd, _) = open_file(&mut vfs, &Path::new("/end.txt"), false).unwrap();
    assert!(matches!(write_file(&mut vfs, fd, b"hello"), Ok(WriteOutcome::Done)));
    assert_eq!(seek(&mut vfs, fd, SeekFrom::End(-2)).unwrap(), 3);
    assert!(matches!(seek(&mut vfs, fd, SeekFrom::End(-6)), Err(Error::InvalidData)));
    // the refused seek left the offset where it was
    let bytes = data(read_file(&mut vfs, fd, 16).unwrap());
    assert_eq!(bytes, b"lo".to_vec());
}
