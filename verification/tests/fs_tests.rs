use zanop::fs::{Vfs, VfsError};

fn strings(v: &[&str]) -> Vec<String> {
    v.iter().map(|s| s.to_string()).collect()
}

#[test]
fn new_filesystem_is_empty_root() {
    let mut vfs = Vfs::new();
    assert_eq!(vfs.cwd_path(), "/");
    assert!(vfs.con_here().is_empty());
}

#[test]
fn created_names_are_listed_in_order() {
    let mut vfs = Vfs::new();
    assert_eq!(vfs.cre("docs", true), Ok(()));
    assert_eq!(vfs.cre("readme", false), Ok(()));
    assert_eq!(vfs.con_here(), strings(&["docs", "readme"]));
}

#[test]
fn creating_twice_is_refused() {
    let mut vfs = Vfs::new();
    assert_eq!(vfs.cre("a", false), Ok(()));
    assert_eq!(vfs.cre("a", true), Err(VfsError::AlreadyExists));
    assert_eq!(vfs.con_here(), strings(&["a"]));
}

#[test]
fn chd_into_folder_and_back() {
    let mut vfs = Vfs::new();
    vfs.cre("docs", true).unwrap();
    assert_eq!(vfs.chd("docs"), Ok(()));
    assert_eq!(vfs.cwd_path(), "/docs");
    assert!(vfs.con_here().is_empty());
    assert_eq!(vfs.chd(".."), Ok(()));
    assert_eq!(vfs.cwd_path(), "/");
    assert_eq!(vfs.chd(".."), Ok(()));
    assert_eq!(vfs.cwd_path(), "/");
}

#[test]
fn chd_root_from_nested_folder() {
    let mut vfs = Vfs::new();
    vfs.cre("a", true).unwrap();
    vfs.chd("a").unwrap();
    vfs.cre("b", true).unwrap();
    vfs.chd("b").unwrap();
    assert_eq!(vfs.cwd_path(), "/a/b");
    assert_eq!(vfs.chd("/"), Ok(()));
    assert_eq!(vfs.cwd_path(), "/");
    assert_eq!(vfs.con_here(), strings(&["a"]));
}

#[test]
fn chd_errors() {
    let mut vfs = Vfs::new();
    vfs.cre("file.txt", false).unwrap();
    assert_eq!(vfs.chd("missing"), Err(VfsError::NotFound));
    assert_eq!(vfs.chd("file.txt"), Err(VfsError::NotADirectory));
    assert_eq!(vfs.cwd_path(), "/");
}

#[test]
fn write_then_con_reads_lines() {
    let mut vfs = Vfs::new();
    vfs.cre("readme", false).unwrap();
    assert_eq!(vfs.con("readme"), Ok(Vec::new()));
    assert_eq!(vfs.write_file("readme", "hello\nworld\n"), Ok(()));
    assert_eq!(vfs.con("readme"), Ok(strings(&["hello", "world"])));
    assert_eq!(vfs.write_file("readme", "replaced"), Ok(()));
    assert_eq!(vfs.con("readme"), Ok(strings(&["replaced"])));
}

#[test]
fn con_splits_lines_like_str_lines() {
    let mut vfs = Vfs::new();
    vfs.cre("f", false).unwrap();
    vfs.write_file("f", "a\r\nb\n\nc\r").unwrap();
    assert_eq!(vfs.con("f"), Ok(strings(&["a", "b", "", "c\r"])));
    vfs.write_file("f", "\n").unwrap();
    assert_eq!(vfs.con("f"), Ok(strings(&[""])));
}

#[test]
fn con_on_folder_lists_its_names() {
    let mut vfs = Vfs::new();
    vfs.cre("docs", true).unwrap();
    vfs.chd("docs").unwrap();
    vfs.cre("x", false).unwrap();
    vfs.cre("y", true).unwrap();
    vfs.chd("..").unwrap();
    assert_eq!(vfs.con("docs"), Ok(strings(&["x", "y"])));
    assert_eq!(vfs.con("nope"), Err(VfsError::NotFound));
}

#[test]
fn write_file_errors() {
    let mut vfs = Vfs::new();
    vfs.cre("docs", true).unwrap();
    assert_eq!(vfs.write_file("docs", "x"), Err(VfsError::IsADirectory));
    assert_eq!(vfs.write_file("nope", "x"), Err(VfsError::NotFound));
}

#[test]
fn info_reports_sizes() {
    let mut vfs = Vfs::new();
    vfs.cre("readme", false).unwrap();
    vfs.cre("docs", true).unwrap();
    assert_eq!(vfs.info("readme"), Ok(("file".to_string(), "0 bytes".to_string())));
    vfs.write_file("readme", "hello\nworld\n").unwrap();
    assert_eq!(vfs.info("readme"), Ok(("file".to_string(), "12 bytes".to_string())));
    vfs.write_file("readme", "é").unwrap();
    assert_eq!(vfs.info("readme"), Ok(("file".to_string(), "2 bytes".to_string())));
    assert_eq!(vfs.info("docs"), Ok(("directory".to_string(), "0 items".to_string())));
    vfs.chd("docs").unwrap();
    for i in 0..12 {
        vfs.cre(&format!("n{}", i), false).unwrap();
    }
    vfs.chd("..").unwrap();
    assert_eq!(vfs.info("docs"), Ok(("directory".to_string(), "12 items".to_string())));
    assert_eq!(vfs.info("nope"), Err(VfsError::NotFound));
}

#[test]
fn files_in_subfolders_are_separate() {
    let mut vfs = Vfs::new();
    vfs.cre("a", true).unwrap();
    vfs.cre("note", false).unwrap();
    vfs.write_file("note", "top").unwrap();
    vfs.chd("a").unwrap();
    vfs.cre("note", false).unwrap();
    vfs.write_file("note", "inner").unwrap();
    assert_eq!(vfs.con("note"), Ok(strings(&["inner"])));
    vfs.chd("/").unwrap();
    assert_eq!(vfs.con("note"), Ok(strings(&["top"])));
}

#[test]
fn names_stay_distinct_in_every_folder() {
    let mut vfs = Vfs::new();
    vfs.cre("x", true).unwrap();
    assert_eq!(vfs.cre("x", false), Err(VfsError::AlreadyExists));
    vfs.chd("x").unwrap();
    assert_eq!(vfs.cre("x", false), Ok(()));
    assert_eq!(vfs.cre("x", true), Err(VfsError::AlreadyExists));
    assert_eq!(vfs.con_here(), strings(&["x"]));
    vfs.chd("..").unwrap();
    assert_eq!(vfs.con_here(), strings(&["x"]));
}
