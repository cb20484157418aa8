//! The search for the source text of each file of a descriptor set.
//!
//! The loader decides, the caller touches the disk. For each file of the set,
//! in the set's order, the search roots are tried in their order and the
//! first under which the file exists is read; the text is filed under the
//! file's name, stripped of comments where that was asked for.

use vstd::prelude::*;
use crate::comments::{strip, strip_comments};
use crate::descriptor::{files_of, opt_text, FileDescriptor, FileDescriptorView};
use crate::error::{Error, ErrorView};
use crate::references::SchemaTexts;

verus! {

/// What the loader asks of its caller next.
#[derive(Debug)]
pub enum LoadRequest {
    /// Tell whether `name`, joined to the search root at position `root`, is
    /// a regular file.
    Probe { root: usize, name: String },
    /// Read `name`, joined to the search root at position `root`, as text.
    Read { root: usize, name: String },
    /// Every file has its text.
    Done,
    /// The search has failed.
    Failed(Error),
}

/// What the caller found out for the loader.
#[derive(Debug)]
pub enum LoadEvent {
    /// Whether the file that was asked about exists.
    Probed(bool),
    /// The text of the file that was to be read.
    Read(String),
    /// Why the file that was to be read could not be read.
    Unreadable(String),
    /// Why what the file holds is no text: its bytes are not valid UTF-8.
    NotText(String),
}

/// A [`LoadRequest`] with its texts as character sequences.
pub enum RequestView {
    Probe { root: nat, name: Seq<char> },
    Read { root: nat, name: Seq<char> },
    Done,
    Failed(ErrorView),
}

/// A [`LoadEvent`] with its text as a character sequence.
pub enum EventView {
    Probed(bool),
    Read(Seq<char>),
    Unreadable(Seq<char>),
    NotText(Seq<char>),
}

impl View for LoadRequest {
    type V = RequestView;

    open spec fn view(&self) -> RequestView {
        match *self {
            LoadRequest::Probe { root, name } => RequestView::Probe {
                root: root as nat,
                name: name@,
            },
            LoadRequest::Read { root, name } => RequestView::Read {
                root: root as nat,
                name: name@,
            },
            LoadRequest::Done => RequestView::Done,
            LoadRequest::Failed(e) => RequestView::Failed(e@),
        }
    }
}

impl View for LoadEvent {
    type V = EventView;

    open spec fn view(&self) -> EventView {
        match *self {
            LoadEvent::Probed(found) => EventView::Probed(found),
            LoadEvent::Read(text) => EventView::Read(text@),
            LoadEvent::Unreadable(reason) => EventView::Unreadable(reason@),
            LoadEvent::NotText(reason) => EventView::NotText(reason@),
        }
    }
}

/// Where a search stands: the names of the files, the number of search roots,
/// whether comments are stripped, the file and the root it has come to,
/// whether that file was found and is to be read, the failure of a file
/// that could not be read or holds no text, and the texts so far.
pub struct LoaderView {
    pub names: Seq<Option<Seq<char>>>,
    pub roots: nat,
    pub strip: bool,
    pub file: nat,
    pub root: nat,
    pub reading: bool,
    pub failed: Option<ErrorView>,
    pub texts: Map<Seq<char>, Seq<char>>,
}

/// The names of the files of a set, in order.
pub open spec fn names_of(files: Seq<FileDescriptorView>) -> Seq<Option<Seq<char>>> {
    files.map_values(|f: FileDescriptorView| f.name)
}

/// A search that has not begun.
pub open spec fn start_of(files: Seq<FileDescriptorView>, roots: nat, strip: bool) -> LoaderView {
    LoaderView {
        names: names_of(files),
        roots,
        strip,
        file: 0,
        root: 0,
        reading: false,
        failed: None,
        texts: Map::empty(),
    }
}

/// What a search asks next.
pub open spec fn request_of(s: LoaderView) -> RequestView {
    if let Some(e) = s.failed {
        RequestView::Failed(e)
    } else if s.file >= s.names.len() {
        RequestView::Done
    } else {
        match s.names[s.file as int] {
            None => RequestView::Failed(ErrorView::MissingName),
            Some(name) => if s.reading {
                RequestView::Read { root: s.root, name }
            } else if s.root >= s.roots {
                RequestView::Failed(ErrorView::SourceNotFound(name))
            } else {
                RequestView::Probe { root: s.root, name }
            },
        }
    }
}

/// The text that is filed for a file whose source is `text`.
pub open spec fn filed_text(strip_comments: bool, text: Seq<char>) -> Seq<char> {
    if strip_comments {
        strip(text)
    } else {
        text
    }
}

/// Where a search stands after an event. A file that exists is read next; one
/// that does not sends the search to the next root; a text that was read is
/// filed and the search goes on with the next file, from the first root; a
/// file that cannot be read, or that holds no text, ends the search. An
/// event that does not answer the request changes nothing.
pub open spec fn after(s: LoaderView, event: EventView) -> LoaderView {
    match (request_of(s), event) {
        (RequestView::Probe { .. }, EventView::Probed(true)) => LoaderView { reading: true, ..s },
        (RequestView::Probe { .. }, EventView::Probed(false)) => LoaderView {
            root: s.root + 1,
            ..s
        },
        (RequestView::Read { name, .. }, EventView::Read(text)) => LoaderView {
            file: s.file + 1,
            root: 0,
            reading: false,
            texts: s.texts.insert(name, filed_text(s.strip, text)),
            ..s
        },
        (RequestView::Read { .. }, EventView::Unreadable(reason)) => LoaderView {
            failed: Some(ErrorView::Io(reason)),
            ..s
        },
        (RequestView::Read { .. }, EventView::NotText(reason)) => LoaderView {
            failed: Some(ErrorView::Encoding(reason)),
            ..s
        },
        _ => s,
    }
}

/// A search for the source texts of a descriptor set.
pub struct SourceLoader {
    names: Vec<Option<String>>,
    roots: usize,
    strip: bool,
    file: usize,
    root: usize,
    reading: bool,
    unreadable: Option<String>,
    not_text: Option<String>,
    texts: SchemaTexts,
}

impl View for SourceLoader {
    type V = LoaderView;

    closed spec fn view(&self) -> LoaderView {
        LoaderView {
            names: self.names@.map_values(|n: Option<String>| opt_text(n)),
            roots: self.roots as nat,
            strip: self.strip,
            file: self.file as nat,
            root: self.root as nat,
            reading: self.reading,
            failed: match (self.unreadable, self.not_text) {
                (Some(reason), _) => Some(ErrorView::Io(reason@)),
                (None, Some(reason)) => Some(ErrorView::Encoding(reason@)),
                (None, None) => None,
            },
            texts: self.texts@,
        }
    }
}

impl SourceLoader {
    /// A search for the texts of `fds` under `roots` search roots, which has
    /// not begun.
    pub fn new(fds: &[FileDescriptor], roots: usize, strip_comments: bool) -> (loader: SourceLoader)
        ensures
            loader@ == start_of(files_of(fds@), roots as nat, strip_comments),
    {
        let mut names: Vec<Option<String>> = Vec::with_capacity(fds.len());
        let mut i: usize = 0;
        while i < fds.len()
            invariant
                i <= fds.len(),
                names@.len() == i,
                forall|k: int|
                    0 <= k < i ==> opt_text(#[trigger] names@[k])
                        == files_of(fds@)[k].name,
            decreases fds.len() - i,
        {
            let name = match &fds[i].name {
                Some(n) => Some(n.clone()),
                None => None,
            };
            names.push(name);
            i = i + 1;
        }
        let loader = SourceLoader {
            names,
            roots,
            strip: strip_comments,
            file: 0,
            root: 0,
            reading: false,
            unreadable: None,
            not_text: None,
            texts: SchemaTexts::new(),
        };
        assert(loader@.names =~= names_of(files_of(fds@)));
        loader
    }

    /// What the search asks next.
    pub fn request(&self) -> (r: LoadRequest)
        ensures
            r@ == request_of(self@),
    {
        match &self.unreadable {
            Some(reason) => {
                return LoadRequest::Failed(Error::Io(reason.clone()));
            },
            None => {},
        }
        match &self.not_text {
            Some(reason) => {
                return LoadRequest::Failed(Error::Encoding(reason.clone()));
            },
            None => {},
        }
        if self.file >= self.names.len() {
            return LoadRequest::Done;
        }
        match &self.names[self.file] {
            None => LoadRequest::Failed(Error::MissingName),
            Some(name) => {
                if self.reading {
                    LoadRequest::Read { root: self.root, name: name.clone() }
                } else if self.root >= self.roots {
                    LoadRequest::Failed(Error::SourceNotFound(name.clone()))
                } else {
                    LoadRequest::Probe { root: self.root, name: name.clone() }
                }
            },
        }
    }

    /// Takes in what the caller found out for the last request.
    pub fn advance(&mut self, event: LoadEvent)
        ensures
            final(self)@ == after(old(self)@, event@),
    {
        if self.unreadable.is_some() || self.not_text.is_some() || self.file >= self.names.len() {
            return ;
        }
        let name = match &self.names[self.file] {
            None => {
                return ;
            },
            Some(name) => name.clone(),
        };
        match event {
            LoadEvent::Probed(found) => {
                if !self.reading && self.root < self.roots {
                    if found {
                        self.reading = true;
                    } else {
                        self.root = self.root + 1;
                    }
                }
            },
            LoadEvent::Read(text) => {
                if self.reading {
                    let filed = if self.strip {
                        strip_comments(text)
                    } else {
                        text
                    };
                    self.reading = false;
                    self.root = 0;
                    self.texts.insert(name, filed);
                    self.file = self.file + 1;
                }
            },
            LoadEvent::Unreadable(reason) => {
                if self.reading {
                    self.unreadable = Some(reason);
                }
            },
            LoadEvent::NotText(reason) => {
                if self.reading {
                    self.not_text = Some(reason);
                }
            },
        }
    }

    /// The texts that were filed so far; all of them once the search is done.
    pub fn into_texts(self) -> (texts: SchemaTexts)
        ensures
            texts@ == self@.texts,
    {
        self.texts
    }
}

} // verus!
