//! The file system as the duplicator sees it: which paths are taken, and a
//! way to copy a file to a new path.

use crate::text::{option_view, push_chars, to_chars};
use std::path::Path;
use vstd::prelude::*;

verus! {

/// Abstraction over a file system.
///
/// The duplicator needs two things of a file system: to ask whether a path is
/// taken, and to copy a file. What it knows of the file system is the set of
/// taken paths, `known`. A copy that succeeds adds the new path to that set; a
/// copy that fails leaves it as it was.
pub trait Vfs {
    /// The paths at which a file is currently known.
    spec fn known(&self) -> Set<Seq<char>>;

    /// Whether this file system, as it stands, makes the copy from `path` to
    /// `new_path` when asked to.
    spec fn copy_succeeds(&self, path: Seq<char>, new_path: Seq<char>) -> bool;

    /// Checks if a file is known at `path`.
    fn path_exists(&self, path: &str) -> (found: bool)
        ensures
            found == self.known().contains(path@),
    ;

    /// Copies the file at `path` to `new_path`. Returns true if the copy was
    /// made and false if it was not.
    fn copy(&mut self, path: &str, new_path: &str) -> (copied: bool)
        ensures
            copied == old(self).copy_succeeds(path@, new_path@),
            copied ==> final(self).known() == old(self).known().insert(new_path@),
            !copied ==> final(self).known() == old(self).known(),
    ;

    /// The file name portion of `path`, as this file system takes paths apart.
    spec fn name_of(&self, path: Seq<char>) -> Seq<char>;

    /// The parent portion of `path`, as this file system takes paths apart.
    spec fn parent_of(&self, path: Seq<char>) -> Seq<char>;

    /// File name portion of `path`: its last component.
    fn filename(&self, path: &str) -> (name: String)
        ensures
            name@ == self.name_of(path@),
    ;

    /// Parent portion of `path`: what stands before its last component.
    fn parent(&self, path: &str) -> (parent: String)
        ensures
            parent@ == self.parent_of(path@),
    ;
}

impl<V: Vfs + ?Sized> Vfs for Box<V> {
    open spec fn known(&self) -> Set<Seq<char>> {
        (**self).known()
    }

    open spec fn copy_succeeds(&self, path: Seq<char>, new_path: Seq<char>) -> bool {
        (**self).copy_succeeds(path, new_path)
    }

    fn path_exists(&self, path: &str) -> (found: bool) {
        (**self).path_exists(path)
    }

    fn copy(&mut self, path: &str, new_path: &str) -> (copied: bool) {
        (**self).copy(path, new_path)
    }

    open spec fn name_of(&self, path: Seq<char>) -> Seq<char> {
        (**self).name_of(path)
    }

    open spec fn parent_of(&self, path: Seq<char>) -> Seq<char> {
        (**self).parent_of(path)
    }

    fn filename(&self, path: &str) -> (name: String) {
        (**self).filename(path)
    }

    fn parent(&self, path: &str) -> (parent: String) {
        (**self).parent(path)
    }
}

/// The final component of `path`, as std takes paths apart, or `None`
/// where `path` has none.
pub uninterp spec fn final_component_of(path: Seq<char>) -> Option<Seq<char>>;

/// `path` without its final component, as std takes paths apart, or `None`
/// where `path` has no final component to leave out.
pub uninterp spec fn front_components_of(path: Seq<char>) -> Option<Seq<char>>;

/// `Path::file_name` of std: the final component of `path`, if there is one.
/// std reads no file system for it: the answer depends on `path` alone, by
/// the path syntax of the platform that the library is built for.
/// `final_component_of` names it.
#[verifier::external_body]
fn final_component(path: &str) -> (name: Option<String>)
    ensures
        option_view(name) == final_component_of(path@),
{
    Path::new(path).file_name().and_then(|name| name.to_str()).map(|name| name.to_string())
}

/// `Path::parent` of std: `path` without its final component, if there is
/// one; `None` for the empty path, as std documents. std reads no file
/// system for it: the answer depends on `path` alone, by the path syntax of
/// the platform that the library is built for. `front_components_of` names it.
#[verifier::external_body]
fn without_final_component(path: &str) -> (parent: Option<String>)
    ensures
        option_view(parent) == front_components_of(path@),
        path@.len() == 0 ==> parent is None,
{
    Path::new(path).parent().and_then(|parent| parent.to_str()).map(|parent| parent.to_string())
}

/// The paths of the local file system, taken apart as the platform does.
///
/// Reading and copying files is left to the program around the library,
/// which knows the disk.
pub struct LocalFileSystem {}

impl LocalFileSystem {
    /// The local file system. It holds nothing: there is one such value.
    pub fn new() -> (fs: Self) {
        Self {  }
    }

    /// File name portion of `path`: its final component as std finds it, or
    /// `None` where `path` has none, as for a path that ends in `..`.
    pub fn filename(&self, path: &str) -> (name: Option<String>)
        ensures
            option_view(name) == final_component_of(path@),
    {
        final_component(path)
    }

    /// Parent portion of `path`: what std leaves of it without its final
    /// component, or `None` where `path` has none, as for the empty path and
    /// for a root.
    pub fn parent(&self, path: &str) -> (parent: Option<String>)
        ensures
            option_view(parent) == front_components_of(path@),
            path@.len() == 0 ==> parent is None,
    {
        without_final_component(path)
    }
}

/// The place of the last `/` in `path`, or -1 where `path` holds none.
pub open spec fn last_slash(path: Seq<char>) -> int
    decreases path.len(),
{
    if path.len() == 0 {
        -1
    } else if path.last() == '/' {
        path.len() - 1
    } else {
        last_slash(path.drop_last())
    }
}

/// What follows the last `/` of `path`; all of `path` where it holds no `/`.
pub open spec fn behind_last_slash(path: Seq<char>) -> Seq<char> {
    path.subrange(last_slash(path) + 1, path.len() as int)
}

/// What stands before the last `/` of `path`; nothing where it holds no `/`.
pub open spec fn before_last_slash(path: Seq<char>) -> Seq<char> {
    if last_slash(path) < 0 {
        Seq::empty()
    } else {
        path.subrange(0, last_slash(path))
    }
}

/// The last `/` is found by its place: none stands after `at`, and `at` is -1
/// or the place of a `/`.
pub proof fn lemma_last_slash(path: Seq<char>, at: int)
    requires
        -1 <= at < path.len(),
        forall|i: int| at < i < path.len() ==> #[trigger] path[i] != '/',
        at == -1 || path[at] == '/',
    ensures
        last_slash(path) == at,
    decreases path.len(),
{
    if at + 1 < path.len() {
        lemma_last_slash(path.drop_last(), at);
    }
}

/// How many characters of `chars` stand up to and including the last `/`.
fn after_last_slash(chars: &Vec<char>) -> (cut: usize)
    ensures
        cut == last_slash(chars@) + 1,
        cut <= chars@.len(),
{
    let mut cut: usize = chars.len();
    while cut > 0 && chars[cut - 1] != '/'
        invariant
            cut <= chars@.len(),
            forall|i: int| cut <= i < chars@.len() ==> #[trigger] chars@[i] != '/',
        decreases cut,
    {
        cut -= 1;
    }
    proof {
        lemma_last_slash(chars@, cut as int - 1);
    }
    cut
}

/// The part of `path` after its last `/`.
pub fn file_name(path: &str) -> (name: String)
    ensures
        name@ == behind_last_slash(path@),
{
    let chars = to_chars(path);
    let cut = after_last_slash(&chars);
    let mut name = String::new();
    push_chars(&mut name, &chars, cut, chars.len());
    name
}

/// The part of `path` before its last `/`.
pub fn parent_path(path: &str) -> (parent: String)
    ensures
        parent@ == before_last_slash(path@),
{
    let chars = to_chars(path);
    let cut = after_last_slash(&chars);
    let mut parent = String::new();
    if cut > 0 {
        push_chars(&mut parent, &chars, 0, cut - 1);
    }
    parent
}

/// The set of the strings in `files`.
pub open spec fn paths_of(files: Seq<String>) -> Set<Seq<char>> {
    Set::new(|path: Seq<char>| exists|i: int| 0 <= i < files.len() && #[trigger] files[i]@ == path)
}

/// Whether no string occurs twice in `files`.
pub open spec fn distinct(files: Seq<String>) -> bool {
    forall|i: int, j: int|
        0 <= i < j < files.len() ==> #[trigger] files[i]@ != #[trigger] files[j]@
}

/// One more string in the list is one more path in the set.
pub proof fn lemma_paths_of_push(files: Seq<String>, added: String)
    ensures
        paths_of(files.push(added)) == paths_of(files).insert(added@),
{
    let more = files.push(added);
    assert forall|p: Seq<char>| paths_of(more).contains(p) <==> paths_of(files).insert(
        added@,
    ).contains(p) by {
        if paths_of(more).contains(p) {
            let k = choose|k: int| 0 <= k < more.len() && #[trigger] more[k]@ == p;
            assert(k < files.len() ==> files[k]@ == p);
        }
        if paths_of(files).contains(p) {
            let k = choose|k: int| 0 <= k < files.len() && #[trigger] files[k]@ == p;
            assert(more[k]@ == p);
        }
        if p == added@ {
            assert(more[files.len() as int]@ == p);
        }
    }
}

/// A file system in memory: a set of known paths and nothing else.
///
/// Copying always succeeds and registers the new path. Nothing is read or
/// written, so runs against it give the same result every time.
pub struct TestFileSystem {
    files: Vec<String>,
}

impl TestFileSystem {
    #[verifier::type_invariant]
    spec fn no_path_twice(&self) -> bool {
        distinct(self.files@)
    }

    /// The known paths, in the order in which they were registered.
    pub closed spec fn listing(&self) -> Seq<String> {
        self.files@
    }

    /// A file system that knows the paths in `files`.
    pub fn new(files: Vec<String>) -> (fs: Self)
        ensures
            fs.known() == paths_of(files@),
    {
        let mut fs = TestFileSystem { files: Vec::new() };
        let mut i: usize = 0;
        while i < files.len()
            invariant
                i <= files@.len(),
                fs.known() == paths_of(files@.take(i as int)),
            decreases files@.len() - i,
        {
            fs.register(files[i].as_str());
            proof {
                assert(files@.take(i + 1) =~= files@.take(i as int).push(files@[i as int]));
                lemma_paths_of_push(files@.take(i as int), files@[i as int]);
            }
            i += 1;
        }
        proof {
            assert(files@.take(files@.len() as int) =~= files@);
        }
        fs
    }

    /// A file system that knows no path.
    pub fn empty() -> (fs: Self)
        ensures
            fs.known() == Set::<Seq<char>>::empty(),
    {
        let fs = TestFileSystem { files: Vec::new() };
        fs
    }

    /// The known paths, each once.
    pub fn get_files(&self) -> (files: Vec<String>)
        ensures
            files@ == self.listing(),
            distinct(files@),
    {
        proof {
            use_type_invariant(self);
        }
        let mut files: Vec<String> = Vec::new();
        let mut i: usize = 0;
        while i < self.files.len()
            invariant
                i <= self.files@.len(),
                files@ == self.files@.take(i as int),
            decreases self.files@.len() - i,
        {
            files.push(self.files[i].clone());
            i += 1;
        }
        files
    }

    /// Whether `path` is among the known paths.
    fn holds(&self, path: &str) -> (found: bool)
        ensures
            found == self.known().contains(path@),
    {
        let wanted = String::from_str(path);
        let mut i: usize = 0;
        while i < self.files.len()
            invariant
                i <= self.files@.len(),
                wanted@ == path@,
                forall|k: int| 0 <= k < i ==> #[trigger] self.files@[k]@ != path@,
            decreases self.files@.len() - i,
        {
            if self.files[i] == wanted {
                return true;
            }
            i += 1;
        }
        false
    }

    /// Makes `path` known.
    fn register(&mut self, path: &str)
        ensures
            final(self).known() == old(self).known().insert(path@),
    {
        proof {
            use_type_invariant(&*self);
        }
        if !self.holds(path) {
            let added = String::from_str(path);
            proof {
                lemma_paths_of_push(self.files@, added);
            }
            let mut files: Vec<String> = Vec::new();
            core::mem::swap(&mut self.files, &mut files);
            files.push(added);
            core::mem::swap(&mut self.files, &mut files);
        }
    }
}

impl Vfs for TestFileSystem {
    open spec fn known(&self) -> Set<Seq<char>> {
        paths_of(self.listing())
    }

    open spec fn copy_succeeds(&self, path: Seq<char>, new_path: Seq<char>) -> bool {
        true
    }

    fn path_exists(&self, path: &str) -> (found: bool) {
        self.holds(path)
    }

    fn copy(&mut self, path: &str, new_path: &str) -> (copied: bool) {
        self.register(new_path);
        true
    }

    open spec fn name_of(&self, path: Seq<char>) -> Seq<char> {
        behind_last_slash(path)
    }

    open spec fn parent_of(&self, path: Seq<char>) -> Seq<char> {
        before_last_slash(path)
    }

    fn filename(&self, path: &str) -> (name: String) {
        file_name(path)
    }

    fn parent(&self, path: &str) -> (parent: String) {
        parent_path(path)
    }
}

} // verus!
