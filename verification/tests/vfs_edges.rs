use dp::vfs::{file_name, parent_path, LocalFileSystem, TestFileSystem, Vfs};

fn names(list: &[&str]) -> Vec<String> {
    list.iter().map(|name| name.to_string()).collect()
}

#[test]
fn file_name_is_what_follows_the_last_slash() {
    assert_eq!(file_name("/foo/bar/hello.txt"), "hello.txt");
    assert_eq!(file_name("hello.txt"), "hello.txt");
    assert_eq!(file_name("a/b/"), "");
    assert_eq!(file_name("/"), "");
    assert_eq!(file_name(""), "");
    assert_eq!(file_name("a//b"), "b");
}

#[test]
fn parent_is_what_stands_before_the_last_slash() {
    assert_eq!(parent_path("/foo/bar/hello.txt"), "/foo/bar");
    assert_eq!(parent_path("hello.txt"), "");
    assert_eq!(parent_path("a/b/"), "a/b");
    assert_eq!(parent_path("/"), "");
    assert_eq!(parent_path(""), "");
    assert_eq!(parent_path("/hello.txt"), "");
    assert_eq!(parent_path("a//b"), "a/");
}

#[test]
fn memory_file_system_knows_what_it_was_given() {
    let vfs = TestFileSystem::new(names(&["a.txt", "b.txt"]));
    assert!(vfs.path_exists("a.txt"));
    assert!(vfs.path_exists("b.txt"));
    assert!(!vfs.path_exists("c.txt"));
    assert!(!vfs.path_exists(""));
    assert!(!vfs.path_exists("a.tx"));
}

#[test]
fn memory_file_system_holds_each_path_once() {
    let vfs = TestFileSystem::new(names(&["a.txt", "b.txt", "a.txt", "a.txt"]));
    assert_eq!(vfs.get_files(), names(&["a.txt", "b.txt"]));
}

#[test]
fn empty_memory_file_system_knows_nothing() {
    let vfs = TestFileSystem::empty();
    assert!(vfs.get_files().is_empty());
    assert!(!vfs.path_exists("a.txt"));
}

#[test]
fn memory_copy_registers_the_new_path() {
    let mut vfs = TestFileSystem::new(names(&["a.txt"]));
    assert!(vfs.copy("a.txt", "b.txt"));
    assert!(vfs.path_exists("b.txt"));
    assert!(vfs.path_exists("a.txt"));
    assert_eq!(vfs.get_files(), names(&["a.txt", "b.txt"]));
}

#[test]
fn memory_copy_succeeds_without_a_source() {
    let mut vfs = TestFileSystem::empty();
    assert!(vfs.copy("missing.txt", "b.txt"));
    assert!(vfs.path_exists("b.txt"));
    assert!(!vfs.path_exists("missing.txt"));
}

#[test]
fn memory_copy_onto_a_known_path_adds_nothing() {
    let mut vfs = TestFileSystem::new(names(&["a.txt", "b.txt"]));
    assert!(vfs.copy("a.txt", "b.txt"));
    assert_eq!(vfs.get_files(), names(&["a.txt", "b.txt"]));
}

#[test]
fn boxed_file_systems_are_file_systems() {
    let mut vfs: Box<TestFileSystem> = Box::new(TestFileSystem::empty());
    assert!(Vfs::copy(&mut vfs, "a", "b"));
    assert!(Vfs::path_exists(&vfs, "b"));
    assert_eq!(Vfs::filename(&vfs, "x/y"), "y");
    assert_eq!(Vfs::parent(&vfs, "x/y"), "x");
}

#[test]
fn local_paths_without_a_file_name() {
    let lfs = LocalFileSystem::new();
    assert_eq!(lfs.filename(".."), None);
    assert_eq!(lfs.filename("/"), None);
    assert_eq!(lfs.filename("hello.txt"), Some("hello.txt".to_string()));
}

#[test]
fn local_paths_without_a_parent() {
    let lfs = LocalFileSystem::new();
    assert_eq!(lfs.parent(""), None);
    assert_eq!(lfs.parent("/"), None);
    assert_eq!(lfs.parent("hello.txt"), Some("".to_string()));
}

#[test]
fn local_paths_are_taken_apart_the_same_way_each_time() {
    let lfs = LocalFileSystem::new();
    for path in ["/hello/there.txt", "there.txt", "a/b/", "..", "/", ""] {
        assert_eq!(lfs.filename(path), lfs.filename(path));
        assert_eq!(lfs.parent(path), lfs.parent(path));
        assert_eq!(lfs.filename(path), LocalFileSystem::new().filename(path));
        assert_eq!(lfs.parent(path), LocalFileSystem::new().parent(path));
    }
    assert_eq!(lfs.filename("a/b/"), Some("b".to_string()));
    assert_eq!(lfs.parent("a/b/"), Some("a".to_string()));
}
