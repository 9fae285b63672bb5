use lib::fs::fat::dir_entry::Attribute;
use lib::fs::fat::{find_file_index, FileMetaData};

fn meta(name: &str, attr: Attribute) -> FileMetaData {
    FileMetaData { name: String::from(name), attr, size: 0, target_cluster_num: 0 }
}

#[test]
fn names_are_matched_after_trimming() {
    let files = vec![
        meta("BOOT       ", Attribute::Directory),
        meta("  INIT\t", Attribute::Archive),
        meta("INIT", Attribute::Directory),
    ];
    assert_eq!(find_file_index(&files, Attribute::Archive, "INIT"), Some(1));
    assert_eq!(find_file_index(&files, Attribute::Directory, "INIT"), Some(2));
    assert_eq!(find_file_index(&files, Attribute::Directory, "BOOT"), Some(0));
    // white space inside a name is kept
    assert_eq!(find_file_index(&vec![meta("A B", Attribute::Archive)], Attribute::Archive, "AB"), None);
    assert_eq!(find_file_index(&files, Attribute::Archive, "BOOT"), None);
}
