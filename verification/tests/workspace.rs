use onemore::workspace::{
    check_readable, components, decode_file, io_err, normalize_lexically, render, sort_entries,
    DirItem, PathStyle, Workspace,
};

#[test]
fn resolve_relative_and_dots() {
    let ws = Workspace::new(r"E:\proj".to_string());
    assert_eq!(ws.resolve("src/main.rs"), r"E:\proj\src\main.rs");
    assert_eq!(ws.resolve("./src/../a.txt"), r"E:\proj\a.txt");
    assert_eq!(ws.resolve(r"D:\abs\x.txt"), r"D:\abs\x.txt");
}

#[test]
fn display_prefers_relative() {
    let ws = Workspace::new(r"E:\proj".to_string());
    assert_eq!(ws.display(r"E:\proj\src\a.rs"), r"src\a.rs");
    assert_eq!(ws.display(r"D:\other\b.rs"), r"D:\other\b.rs");
}

#[test]
fn unix_paths_keep_their_separator() {
    let ws = Workspace::new("/work/proj".to_string());
    assert_eq!(ws.resolve("a/./b/../c"), "/work/proj/a/c");
    assert_eq!(ws.resolve("/etc/../x"), "/x");
    assert_eq!(ws.display("/work/proj/a"), "a");
    assert_eq!(ws.display("/work/project"), "/work/project");
    assert_eq!(ws.display("/work/proj"), "/work/proj");
    assert_eq!(ws.resolve("/../x"), "/../x");
}

#[test]
fn normal_paths_stay_as_they_are() {
    let parts = normalize_lexically(&components(PathStyle::Posix, "/a/b/../../c"));
    assert_eq!(render(PathStyle::Posix, &parts), "/c");
    let again = normalize_lexically(&parts);
    assert_eq!(render(PathStyle::Posix, &again), "/c");
}

#[test]
fn only_text_files_of_a_bounded_size_are_read() {
    assert!(check_readable("a", true, 10).is_ok());
    assert!(check_readable("a", false, 10).is_err());
    assert!(check_readable("a", true, u64::MAX).is_err());
    assert_eq!(decode_file("a", b"text".to_vec()).unwrap(), "text");
    assert!(decode_file("a", vec![0xff, 0xfe, 0x00]).is_err());
    assert!(io_err("读取", "a", "gone").contains("gone"));
}

#[test]
fn directories_come_first_in_listings() {
    let item = |name: &str, is_dir: bool| DirItem {
        name: name.to_string(),
        is_dir,
        size: 0,
    };
    let sorted = sort_entries(vec![item("b", false), item("z", true), item("A", false)]);
    let names: Vec<&str> = sorted.iter().map(|i| i.name.as_str()).collect();
    assert_eq!(names, ["z", "A", "b"]);
}

#[test]
fn paths_are_shown_as_they_are_written() {
    let ws = Workspace::new("/w".to_string());
    assert_eq!(ws.display("/w/src//a.rs"), "src//a.rs");
    assert_eq!(ws.display("//w/./src/./a.rs/./"), "src/./a.rs");
    assert_eq!(ws.display("/w/../w/a"), "../w/a");
    assert_eq!(ws.display("/w/./"), "/w/./");
    assert_eq!(Workspace::new("/".to_string()).display("//a//"), "a");
    let ws = Workspace::new(r"E:\proj".to_string());
    assert_eq!(ws.display(r"E:/proj\\src/a.rs"), "src/a.rs");
    let share = Workspace::new(r"\\server\share".to_string());
    assert_eq!(share.display(r"\\server\share\a\b"), r"a\b");
}
