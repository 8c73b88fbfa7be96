use dp::vfs::{LocalFileSystem, TestFileSystem, Vfs};

#[test]
fn vfs_test_filename() {
    let vfs = TestFileSystem::empty();
    assert_eq!(vfs.filename("/foo/bar/hello.txt"), "hello.txt");
    assert_eq!(vfs.filename("hello.txt"), "hello.txt");
}

#[test]
fn vfs_test_parent() {
    let vfs = TestFileSystem::empty();
    assert_eq!(vfs.parent("/foo/bar/hello.txt"), "/foo/bar");
    assert_eq!(vfs.parent("hello.txt"), "");
}

#[test]
fn vfs_test_local_file_system() {
    let lfs = LocalFileSystem::new();
    assert_eq!(lfs.parent("/hello/there.txt"), Some("/hello".to_string()));
    assert_eq!(lfs.filename("/hello/there.txt"), Some("there.txt".to_string()));
}

#[test]
fn lib_test_filename() {
    let vfs = TestFileSystem::empty();

    assert_eq!(vfs.filename("/foo/bar/hello.txt"), "hello.txt");
    assert_eq!(vfs.filename("hello.txt"), "hello.txt");
}

#[test]
fn lib_test_parent() {
    let vfs = TestFileSystem::empty();
    assert_eq!(vfs.parent("/foo/bar/hello.txt"), "/foo/bar");
    assert_eq!(vfs.parent("hello.txt"), "");
}

#[test]
fn lib_test_local_file_system() {
    let lfs = LocalFileSystem::new();
    assert_eq!(lfs.parent("/hello/there.txt"), Some("/hello".to_string()));
    assert_eq!(lfs.filename("/hello/there.txt"), Some("there.txt".to_string()));
}
