//! File descriptors: what the compiler reports of each schema file.

use vstd::prelude::*;

verus! {

/// One top-level message declaration of a file.
#[derive(Debug, Clone)]
pub struct MessageDescriptor {
    pub name: Option<String>,
}

/// One compiled schema file: its import name, its package, its top-level
/// message declarations in order, and the import names of the files it
/// depends on, in order.
#[derive(Debug, Clone)]
pub struct FileDescriptor {
    pub name: Option<String>,
    pub package: Option<String>,
    pub message_type: Vec<MessageDescriptor>,
    pub dependency: Vec<String>,
}

/// A [`FileDescriptor`] with its texts as character sequences; a message
/// declaration is its name.
pub struct FileDescriptorView {
    pub name: Option<Seq<char>>,
    pub package: Option<Seq<char>>,
    pub message_type: Seq<Option<Seq<char>>>,
    pub dependency: Seq<Seq<char>>,
}

/// The characters of an optional string.
pub open spec fn opt_text(s: Option<String>) -> Option<Seq<char>> {
    match s {
        Some(s) => Some(s@),
        None => None,
    }
}

/// The characters of each string of a sequence.
pub open spec fn texts_of(names: Seq<String>) -> Seq<Seq<char>> {
    names.map_values(|s: String| s@)
}

impl View for MessageDescriptor {
    type V = Option<Seq<char>>;

    open spec fn view(&self) -> Option<Seq<char>> {
        opt_text(self.name)
    }
}

impl View for FileDescriptor {
    type V = FileDescriptorView;

    open spec fn view(&self) -> FileDescriptorView {
        FileDescriptorView {
            name: opt_text(self.name),
            package: opt_text(self.package),
            message_type: self.message_type@.map_values(|m: MessageDescriptor| m@),
            dependency: texts_of(self.dependency@),
        }
    }
}

/// The views of the descriptors of a set, in order.
pub open spec fn files_of(fds: Seq<FileDescriptor>) -> Seq<FileDescriptorView> {
    fds.map_values(|fd: FileDescriptor| fd@)
}

/// `i` is the first position of `files` whose descriptor goes by `name`.
pub open spec fn is_first_match(files: Seq<FileDescriptorView>, name: Seq<char>, i: int) -> bool {
    &&& 0 <= i < files.len()
    &&& files[i].name == Some(name)
    &&& forall|j: int| 0 <= j < i ==> (#[trigger] files[j]).name != Some(name)
}

/// The first position of `files` whose descriptor goes by `name`, if any.
pub open spec fn find_file(files: Seq<FileDescriptorView>, name: Seq<char>) -> Option<int> {
    if exists|i: int| is_first_match(files, name, i) {
        Some(choose|i: int| is_first_match(files, name, i))
    } else {
        None
    }
}

/// At most one position is the first match.
pub proof fn lemma_first_match_unique(
    files: Seq<FileDescriptorView>,
    name: Seq<char>,
    i: int,
    j: int,
)
    requires
        is_first_match(files, name, i),
        is_first_match(files, name, j),
    ensures
        i == j,
{
}

/// The first descriptor of `fds` that goes by `name`, with its position.
pub fn find_descriptor<'a>(fds: &'a [FileDescriptor], name: &String) -> (r: Option<
    (usize, &'a FileDescriptor),
>)
    ensures
        match r {
            Some((i, fd)) => find_file(files_of(fds@), name@) == Some(i as int) && i < fds.len()
                && *fd == fds@[i as int],
            None => find_file(files_of(fds@), name@) is None,
        },
{
    let ghost files = files_of(fds@);
    let mut i: usize = 0;
    while i < fds.len()
        invariant
            i <= fds.len(),
            files == files_of(fds@),
            forall|j: int| 0 <= j < i ==> (#[trigger] files[j]).name != Some(name@),
        decreases fds.len() - i,
    {
        let fd = &fds[i];
        let hit = match &fd.name {
            Some(n) => *n == *name,
            None => false,
        };
        if hit {
            proof {
                let found = choose|k: int| is_first_match(files, name@, k);
                lemma_first_match_unique(files, name@, i as int, found);
            }
            return Some((i, fd));
        }
        i = i + 1;
    }
    None
}

} // verus!
