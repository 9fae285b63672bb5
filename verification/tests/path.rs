use lib::fs::path::Path;

#[test]
fn test_new() {
    let path = Path::new("a/b/c");
    assert_eq!(path.to_string(), "a/b/c");
}

#[test]
fn test_root() {
    let path = Path::root();
    assert_eq!(path.to_string(), Path::ROOT);
}

#[test]
fn test_normalize() {
    let path = Path::new("/a/b/../c/.").normalize();
    assert_eq!(path.to_string(), "/a/c");
    let path = Path::new("a/b/../../c").normalize();
    assert_eq!(path.to_string(), "c");
    let path = Path::new("/a/./b/c/../d").normalize();
    assert_eq!(path.to_string(), "/a/b/d");
    let path = Path::new("hoge.txt").normalize();
    assert_eq!(path.to_string(), "hoge.txt");
}

#[test]
fn test_join() {
    let path = Path::new("/a/b").join("c");
    assert_eq!(path.to_string(), "/a/b/c");
    let path = Path::new("/a/b/").join("c");
    assert_eq!(path.to_string(), "/a/b/c");
    let path = Path::new("a/b").join("c");
    assert_eq!(path.to_string(), "a/b/c");
}

#[test]
fn test_parent() {
    let path = Path::new("/a/b/c").parent();
    assert_eq!(path.to_string(), "/a/b");
    let path = Path::from_string("/a".to_string()).parent();
    assert_eq!(path.to_string(), "/");
    let path = Path::new("a/b/c").parent();
    assert_eq!(path.to_string(), "a/b");
    let path = Path::new("a").parent();
    assert_eq!(path.to_string(), ".");
}

#[test]
fn test_names() {
    let path = Path::new("/a/b/c");
    let names: Vec<String> = path.names();
    assert_eq!(names, vec!["a", "b", "c"]);
    let path = Path::new("a/b/c");
    let names: Vec<String> = path.names();
    assert_eq!(names, vec!["a", "b", "c"]);
}

#[test]
fn test_name() {
    let path = Path::new("/a/b/c");
    assert_eq!(path.name(), "c");
    let path = Path::new("a/b/c");
    assert_eq!(path.name(), "c");
}

#[test]
fn test_is_abs() {
    let path = Path::new("/a/b/c");
    assert!(path.is_abs());
    let path = Path::new("a/b/c");
    assert!(!path.is_abs());
}

#[test]
fn test_diff() {
    let path1 = Path::new("/a/b/c");
    let path2 = Path::new("/a/b");
    assert_eq!(path1.diff(&path2).to_string(), "c");
    assert_eq!(path2.diff(&path1).to_string(), "c");
    let path3 = Path::new("/a/b/c/d");
    assert_eq!(path1.diff(&path3).to_string(), "d");
}

#[test]
fn test_relative_paths() {
    let path = Path::new("a/b/../../c").normalize();
    assert_eq!(path.to_string(), "c");
    let path = Path::new("/a/b/../../../..").normalize();
    assert_eq!(path.to_string(), "/");
    let path = Path::new("../a/b/../c").normalize();
    assert_eq!(path.to_string(), "../a/c");
    let path = Path::new("../../a/b/c").normalize();
    assert_eq!(path.to_string(), "../../a/b/c");
}

#[test]
fn path_normalize_is_idempotent_on_examples() {
    for p in ["/a/b/../c/.", "../a/./b", "/", "a//b", "/x/../../y"] {
        let once = Path::new(p).normalize();
        let twice = once.normalize();
        assert_eq!(once.to_string(), twice.to_string());
    }
}

#[test]
fn path_as_str_and_duplicate() {
    let p = Path::new("/usr/bin");
    assert_eq!(p.as_str(), "/usr/bin");
    assert_eq!(p.duplicate().to_string(), "/usr/bin");
}

#[test]
fn normalizing_twice_changes_nothing() {
    for s in ["/a//b/./c/../d/", "x/../../y", "/../..", "./", "a/b/..", "//"] {
        let once = Path::new(s).normalize();
        let twice = once.normalize();
        assert_eq!(once.to_string(), twice.to_string());
        assert_eq!(once.is_abs(), Path::new(s).is_abs());
        assert!(!once.to_string().contains("//"));
    }
    assert_eq!(Path::new("/a//b/./c/../d/").normalize().to_string(), "/a/b/d");
    assert_eq!(Path::new("x/../../y").normalize().to_string(), "../y");
}
