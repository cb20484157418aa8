//! The reference tree of a schema file: one node for each import, nested as
//! the imports are.

use vstd::prelude::*;
use vstd::hash_map::StringHashMap;
use crate::descriptor::{
    files_of, find_descriptor, find_file, opt_text, texts_of, FileDescriptor,
    FileDescriptorView,
};
use crate::error::{Error, ErrorView};

verus! {

/// The source text of each file of a descriptor set, by the file's name.
pub struct SchemaTexts {
    map: StringHashMap<String>,
}

impl View for SchemaTexts {
    type V = Map<Seq<char>, Seq<char>>;

    closed spec fn view(&self) -> Map<Seq<char>, Seq<char>> {
        Map::new(|name: Seq<char>| self.map@.contains_key(name), |name: Seq<char>| self.map@[name]@)
    }
}

impl SchemaTexts {
    /// No texts.
    pub fn new() -> (texts: SchemaTexts)
        ensures
            texts@ == Map::<Seq<char>, Seq<char>>::empty(),
    {
        let texts = SchemaTexts { map: StringHashMap::new() };
        texts
    }

    /// Files `text` under `name`, in place of any text filed there before.
    pub fn insert(&mut self, name: String, text: String)
        ensures
            final(self)@ == old(self)@.insert(name@, text@),
    {
        self.map.insert(name, text);
    }

    /// The text filed under `name`.
    pub fn get(&self, name: &str) -> (text: Option<&String>)
        ensures
            match text {
                Some(t) => self@.contains_key(name@) && t@ == self@[name@],
                None => !self@.contains_key(name@),
            },
    {
        self.map.get(name)
    }

    /// Whether a text is filed under `name`.
    pub fn contains(&self, name: &str) -> (found: bool)
        ensures
            found == self@.contains_key(name@),
    {
        self.map.contains_key(name)
    }
}

/// One imported file: its import name, the subject it is registered under,
/// its source text, and the references for its own imports.
#[derive(Debug, PartialEq, Eq)]
pub struct SchemaReference {
    pub name: String,
    pub subject: String,
    pub schema: String,
    pub references: Vec<SchemaReference>,
}

/// A [`SchemaReference`] with its texts as character sequences.
pub struct ReferenceView {
    pub name: Seq<char>,
    pub subject: Seq<char>,
    pub schema: Seq<char>,
    pub references: Seq<ReferenceView>,
}

/// The view of one reference.
pub open spec fn node_view(r: SchemaReference) -> ReferenceView
    decreases r,
{
    ReferenceView {
        name: r.name@,
        subject: r.subject@,
        schema: r.schema@,
        references: views_of(r.references@),
    }
}

/// The views of a list of references, in order.
pub open spec fn views_of(refs: Seq<SchemaReference>) -> Seq<ReferenceView>
    decreases refs,
{
    if refs.len() == 0 {
        Seq::<ReferenceView>::empty()
    } else {
        views_of(refs.drop_last()).push(node_view(refs.last()))
    }
}

/// The views of a list are the views of its references, one for one.
pub proof fn lemma_views_of(refs: Seq<SchemaReference>)
    ensures
        views_of(refs).len() == refs.len(),
        forall|i: int| 0 <= i < refs.len() ==> #[trigger] views_of(refs)[i] == node_view(refs[i]),
    decreases refs.len(),
{
    if refs.len() > 0 {
        lemma_views_of(refs.drop_last());
    }
}

impl View for SchemaReference {
    type V = ReferenceView;

    open spec fn view(&self) -> ReferenceView {
        node_view(*self)
    }
}

/// What building a list of references gave, as views.
pub open spec fn outcome_of(r: Result<Vec<SchemaReference>, Error>) -> Result<
    Seq<ReferenceView>,
    ErrorView,
> {
    match r {
        Ok(refs) => Ok(views_of(refs@)),
        Err(e) => Err(e@),
    }
}

/// What building one reference gave, as a view.
pub open spec fn node_outcome_of(r: Result<SchemaReference, Error>) -> Result<
    ReferenceView,
    ErrorView,
> {
    match r {
        Ok(node) => Ok(node@),
        Err(e) => Err(e@),
    }
}

/// The subject of a file: its package, a dot, and the name of its first
/// top-level message. Without a package, or with an empty one, the message
/// name alone; without a message name, the package alone.
pub open spec fn subject_of(package: Option<Seq<char>>, message: Option<Seq<char>>) -> Seq<char> {
    let prefix = match package {
        Some(p) => p,
        None => Seq::<char>::empty(),
    };
    match message {
        None => prefix,
        Some(m) => if prefix.len() == 0 {
            m
        } else {
            prefix + seq!['.'] + m
        },
    }
}

/// The reference for the import `name`: the first descriptor of that name
/// gives the subject and the nested references, `texts` gives the source.
/// `depth` is how many further levels of imports may follow below this one.
/// A file that is found with no level left ends a chain of imports that is
/// longer than there are files, so the chain passes through one file twice:
/// the imports run in a circle.
pub open spec fn reference_for(
    files: Seq<FileDescriptorView>,
    texts: Map<Seq<char>, Seq<char>>,
    name: Seq<char>,
    depth: nat,
) -> Result<ReferenceView, ErrorView>
    decreases depth, 0nat,
{
    match find_file(files, name) {
        None => Err(ErrorView::DependencyNotFound(name)),
        Some(i) => {
            let file = files[i];
            if file.message_type.len() == 0 {
                Err(ErrorView::NoMessageType(name))
            } else if !texts.contains_key(name) {
                Err(ErrorView::MissingText(name))
            } else if depth == 0 {
                Err(ErrorView::CyclicDependency(name))
            } else {
                match references_for(files, texts, file.dependency, (depth - 1) as nat) {
                    Err(e) => Err(e),
                    Ok(nested) => Ok(
                        ReferenceView {
                            name: name,
                            subject: subject_of(file.package, file.message_type[0]),
                            schema: texts[name],
                            references: nested,
                        },
                    ),
                }
            }
        },
    }
}

/// The references for the imports `names`, in their order; the first import
/// that fails decides the error.
pub open spec fn references_for(
    files: Seq<FileDescriptorView>,
    texts: Map<Seq<char>, Seq<char>>,
    names: Seq<Seq<char>>,
    depth: nat,
) -> Result<Seq<ReferenceView>, ErrorView>
    decreases depth, 1 + names.len(),
{
    if names.len() == 0 {
        Ok(Seq::<ReferenceView>::empty())
    } else {
        match references_for(files, texts, names.drop_last(), depth) {
            Err(e) => Err(e),
            Ok(before) => match reference_for(files, texts, names.last(), depth) {
                Err(e) => Err(e),
                Ok(node) => Ok(before.push(node)),
            },
        }
    }
}

/// The subject that a file with this package and this first message is
/// registered under.
pub fn subject_for(package: &Option<String>, message: &Option<String>) -> (subject: String)
    ensures
        subject@ == subject_of(opt_text(*package), opt_text(*message)),
{
    let mut subject = String::new();
    match package {
        Some(p) => {
            subject.append(p.as_str());
        },
        None => {},
    }
    match message {
        Some(m) => {
            if !subject.as_str().is_empty() {
                subject.push('.');
            }
            subject.append(m.as_str());
        },
        None => {},
    }
    subject
}

/// The reference for one import, with at most `depth` levels below it.
fn reference_node(name: &String, fds: &[FileDescriptor], schemas: &SchemaTexts, depth: usize) -> (r:
    Result<SchemaReference, Error>)
    ensures
        node_outcome_of(r) == reference_for(files_of(fds@), schemas@, name@, depth as nat),
    decreases depth, 0nat,
{
    let fd = match find_descriptor(fds, name) {
        None => {
            return Err(Error::DependencyNotFound(name.clone()));
        },
        Some((_, fd)) => fd,
    };
    if fd.message_type.len() == 0 {
        return Err(Error::NoMessageType(name.clone()));
    }
    let subject = subject_for(&fd.package, &fd.message_type[0].name);
    let schema = match schemas.get(name.as_str()) {
        None => {
            return Err(Error::MissingText(name.clone()));
        },
        Some(text) => text.clone(),
    };
    if depth == 0 {
        return Err(Error::CyclicDependency(name.clone()));
    }
    let nested = match references_within(&fd.dependency, fds, schemas, depth - 1) {
        Err(e) => {
            return Err(e);
        },
        Ok(nested) => nested,
    };
    let node = SchemaReference { name: name.clone(), subject, schema, references: nested };
    Ok(node)
}

/// The references for a list of imports, with at most `depth` levels below
/// each.
fn references_within(
    names: &Vec<String>,
    fds: &[FileDescriptor],
    schemas: &SchemaTexts,
    depth: usize,
) -> (r: Result<Vec<SchemaReference>, Error>)
    ensures
        outcome_of(r) == references_for(files_of(fds@), schemas@, texts_of(names@), depth as nat),
    decreases depth, 1 + names.len(),
{
    let ghost files = files_of(fds@);
    let ghost wanted = texts_of(names@);
    let mut refs: Vec<SchemaReference> = Vec::with_capacity(names.len());
    let mut i: usize = 0;
    while i < names.len()
        invariant
            i <= names.len(),
            files == files_of(fds@),
            wanted == texts_of(names@),
            references_for(files, schemas@, wanted.take(i as int), depth as nat) == Ok::<
                Seq<ReferenceView>,
                ErrorView,
            >(views_of(refs@)),
        decreases names.len() - i,
    {
        proof {
            assert(wanted.take(i + 1).drop_last() =~= wanted.take(i as int));
        }
        match reference_node(&names[i], fds, schemas, depth) {
            Err(e) => {
                proof {
                    lemma_error_stays(files, schemas@, wanted, i + 1, depth as nat);
                }
                return Err(e);
            },
            Ok(node) => {
                assert(refs@.push(node).drop_last() =~= refs@);
                refs.push(node);
            },
        }
        i = i + 1;
    }
    assert(wanted.take(i as int) =~= wanted);
    Ok(refs)
}

/// Once the first `upto` imports have failed, the whole list fails with the
/// same error.
pub proof fn lemma_error_stays(
    files: Seq<FileDescriptorView>,
    texts: Map<Seq<char>, Seq<char>>,
    names: Seq<Seq<char>>,
    upto: int,
    depth: nat,
)
    requires
        0 <= upto <= names.len(),
        references_for(files, texts, names.take(upto), depth) is Err,
    ensures
        references_for(files, texts, names, depth) == references_for(
            files,
            texts,
            names.take(upto),
            depth,
        ),
    decreases names.len() - upto,
{
    if upto < names.len() {
        assert(names.take(upto + 1).drop_last() =~= names.take(upto));
        lemma_error_stays(files, texts, names, upto + 1, depth);
    } else {
        assert(names.take(upto) =~= names);
    }
}

/// The references for the imports of `fd`, in the order of its dependency
/// list. Each import is looked up by name among `fds`, takes its subject from
/// its package and first message and its source from `schemas`, and carries
/// the references for its own imports. A file that two others import appears
/// under each of them. Below each import as many levels are followed as
/// there are files in `fds`; a chain that goes deeper runs in a circle and
/// fails with [`Error::CyclicDependency`], where following it further would
/// never end.
pub fn get_protobuf_references(
    fd: &FileDescriptor,
    fds: &[FileDescriptor],
    schemas: &SchemaTexts,
) -> (r: Result<Vec<SchemaReference>, Error>)
    ensures
        outcome_of(r) == references_for(
            files_of(fds@),
            schemas@,
            fd@.dependency,
            fds@.len(),
        ),
{
    references_within(&fd.dependency, fds, schemas, fds.len())
}

} // verus!

