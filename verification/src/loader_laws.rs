//! What a search files when it is run against a disk.

use vstd::prelude::*;
use crate::error::ErrorView;
use crate::loader::{after, filed_text, request_of, EventView, LoaderView, RequestView};

verus! {

/// What reading a file gives: its text, the reason why it cannot be read, or
/// the reason why what it holds is no text.
pub enum Reading {
    Text(Seq<char>),
    Unreadable(Seq<char>),
    NotText(Seq<char>),
}

/// What a disk holds: whether a file of a name exists under the search root
/// at a position, and what reading it gives.
pub struct Disk {
    pub exists: spec_fn(nat, Seq<char>) -> bool,
    pub read: spec_fn(nat, Seq<char>) -> Reading,
}

/// What reading `name` under the search root `root` adds to `texts`.
pub open spec fn filed(
    texts: Map<Seq<char>, Seq<char>>,
    strip: bool,
    disk: Disk,
    root: nat,
    name: Seq<char>,
) -> Result<Map<Seq<char>, Seq<char>>, ErrorView> {
    match (disk.read)(root, name) {
        Reading::Text(text) => Ok(texts.insert(name, filed_text(strip, text))),
        Reading::Unreadable(reason) => Err(ErrorView::Io(reason)),
        Reading::NotText(reason) => Err(ErrorView::Encoding(reason)),
    }
}

/// `root` is the first of `roots` search roots under which `name` exists.
pub open spec fn is_first_root(disk: Disk, roots: nat, name: Seq<char>, root: nat) -> bool {
    &&& root < roots
    &&& (disk.exists)(root, name)
    &&& forall|q: nat| q < root ==> !#[trigger] (disk.exists)(q, name)
}

/// The first search root under which `name` exists, if any.
pub open spec fn first_root(disk: Disk, roots: nat, name: Seq<char>) -> Option<nat> {
    if exists|root: nat| is_first_root(disk, roots, name, root) {
        Some(choose|root: nat| is_first_root(disk, roots, name, root))
    } else {
        None
    }
}

/// The texts of the files `names`, each read under the first search root
/// that holds it and filed under its name; the first file that has no name,
/// that no root holds, that cannot be read, or that holds no text decides
/// the error.
pub open spec fn loaded(names: Seq<Option<Seq<char>>>, roots: nat, strip: bool, disk: Disk)
    -> Result<Map<Seq<char>, Seq<char>>, ErrorView>
    decreases names.len(),
{
    if names.len() == 0 {
        Ok(Map::empty())
    } else {
        match loaded(names.drop_last(), roots, strip, disk) {
            Err(e) => Err(e),
            Ok(texts) => match names.last() {
                None => Err(ErrorView::MissingName),
                Some(name) => match first_root(disk, roots, name) {
                    None => Err(ErrorView::SourceNotFound(name)),
                    Some(root) => filed(texts, strip, disk, root, name),
                },
            },
        }
    }
}

/// What the disk answers to a request.
pub open spec fn answer(disk: Disk, request: RequestView) -> EventView {
    match request {
        RequestView::Probe { root, name } => EventView::Probed((disk.exists)(root, name)),
        RequestView::Read { root, name } => match (disk.read)(root, name) {
            Reading::Text(text) => EventView::Read(text),
            Reading::Unreadable(reason) => EventView::Unreadable(reason),
            Reading::NotText(reason) => EventView::NotText(reason),
        },
        _ => EventView::Probed(false),
    }
}

/// Where a search stands after the disk has answered `steps` requests.
pub open spec fn run(s: LoaderView, disk: Disk, steps: nat) -> LoaderView
    decreases steps,
{
    if steps == 0 {
        s
    } else {
        let before = run(s, disk, (steps - 1) as nat);
        after(before, answer(disk, request_of(before)))
    }
}

/// What a search has come to, once it asks no more.
pub open spec fn outcome(s: LoaderView) -> Option<Result<Map<Seq<char>, Seq<char>>, ErrorView>> {
    match request_of(s) {
        RequestView::Done => Some(Ok(s.texts)),
        RequestView::Failed(e) => Some(Err(e)),
        _ => None,
    }
}

/// A search that stands before file `file`, at the first root, with `texts`
/// filed.
pub open spec fn standing_at(s: LoaderView, file: nat, texts: Map<Seq<char>, Seq<char>>)
    -> LoaderView {
    LoaderView { file, root: 0, reading: false, texts, ..s }
}

/// Texts that were loaded hold a text for every file that has a name.
pub proof fn lemma_loaded_covers(
    names: Seq<Option<Seq<char>>>,
    roots: nat,
    strip: bool,
    disk: Disk,
    texts: Map<Seq<char>, Seq<char>>,
)
    requires
        loaded(names, roots, strip, disk) == Ok::<Map<Seq<char>, Seq<char>>, ErrorView>(texts),
    ensures
        forall|i: int|
            0 <= i < names.len() ==> match #[trigger] names[i] {
                Some(name) => texts.contains_key(name),
                None => true,
            },
    decreases names.len(),
{
    if names.len() > 0 {
        let front = names.drop_last();
        match loaded(front, roots, strip, disk) {
            Ok(before) => {
                lemma_loaded_covers(front, roots, strip, disk, before);
                assert forall|i: int| 0 <= i < names.len() implies match #[trigger] names[i] {
                    Some(name) => texts.contains_key(name),
                    None => true,
                } by {
                    if i < front.len() {
                        assert(front[i] == names[i]);
                    }
                }
            },
            Err(_) => {},
        }
    }
}

/// At most one root is the first that holds a file.
pub proof fn lemma_first_root_unique(disk: Disk, roots: nat, name: Seq<char>, a: nat, b: nat)
    requires
        is_first_root(disk, roots, name, a),
        is_first_root(disk, roots, name, b),
    ensures
        a == b,
{
}

/// Running on is running from where the search has come to.
pub proof fn lemma_run_on(s: LoaderView, disk: Disk, a: nat, b: nat)
    ensures
        run(s, disk, a + b) == run(run(s, disk, a), disk, b),
    decreases b,
{
    if b > 0 {
        lemma_run_on(s, disk, a, (b - 1) as nat);
    }
}

/// A search that asks no more stays where it is.
pub proof fn lemma_run_stays(s: LoaderView, disk: Disk, steps: nat)
    requires
        outcome(s) is Some,
    ensures
        run(s, disk, steps) == s,
    decreases steps,
{
    if steps > 0 {
        lemma_run_stays(s, disk, (steps - 1) as nat);
    }
}

/// From a root before which no root holds the file, the search comes to the
/// failure that no root holds it, that it cannot be read, or that it holds no
/// text, or past the file with its text filed from the first root that holds
/// it.
proof fn lemma_probing(s: LoaderView, disk: Disk, name: Seq<char>) -> (steps: nat)
    requires
        s.file < s.names.len(),
        s.names[s.file as int] == Some(name),
        !s.reading,
        s.failed is None,
        s.root <= s.roots,
        forall|q: nat| q < s.root ==> !#[trigger] (disk.exists)(q, name),
    ensures
        match first_root(disk, s.roots, name) {
            None => outcome(run(s, disk, steps)) == Some(
                Err::<Map<Seq<char>, Seq<char>>, ErrorView>(ErrorView::SourceNotFound(name)),
            ),
            Some(root) => match filed(s.texts, s.strip, disk, root, name) {
                Ok(texts) => run(s, disk, steps) == standing_at(s, s.file + 1, texts),
                Err(e) => outcome(run(s, disk, steps)) == Some(
                    Err::<Map<Seq<char>, Seq<char>>, ErrorView>(e),
                ),
            },
        },
    decreases s.roots - s.root,
{
    if s.root >= s.roots {
        0
    } else if (disk.exists)(s.root, name) {
        assert(is_first_root(disk, s.roots, name, s.root));
        let found = choose|root: nat| is_first_root(disk, s.roots, name, root);
        lemma_first_root_unique(disk, s.roots, name, s.root, found);
        assert(run(s, disk, 0) == s);
        assert(run(s, disk, 1) == LoaderView { reading: true, ..s });
        2
    } else {
        let next = LoaderView { root: s.root + 1, ..s };
        assert(run(s, disk, 0) == s);
        assert(run(s, disk, 1) == next);
        let more = lemma_probing(next, disk, name);
        lemma_run_on(s, disk, 1, more);
        1 + more
    }
}

/// After enough answers a search stands before file `file` with the texts of
/// the files before it, or at the failure that one of them gave.
proof fn lemma_files(s: LoaderView, disk: Disk, file: nat) -> (steps: nat)
    requires
        s.file == 0,
        s.root == 0,
        !s.reading,
        s.failed is None,
        s.texts == Map::<Seq<char>, Seq<char>>::empty(),
        file <= s.names.len(),
    ensures
        match loaded(s.names.take(file as int), s.roots, s.strip, disk) {
            Ok(texts) => run(s, disk, steps) == standing_at(s, file, texts),
            Err(e) => outcome(run(s, disk, steps)) == Some(
                Err::<Map<Seq<char>, Seq<char>>, ErrorView>(e),
            ),
        },
    decreases file,
{
    if file == 0 {
        0
    } else {
        let before = (file - 1) as nat;
        let steps = lemma_files(s, disk, before);
        let upto = s.names.take(file as int);
        assert(upto.drop_last() =~= s.names.take(before as int));
        let t = run(s, disk, steps);
        match loaded(s.names.take(before as int), s.roots, s.strip, disk) {
            Err(e) => steps,
            Ok(texts) => match s.names[before as int] {
                None => steps,
                Some(name) => {
                    let more = lemma_probing(t, disk, name);
                    lemma_run_on(s, disk, steps, more);
                    steps + more
                },
            },
        }
    }
}

/// Run against a disk from its start, a search comes to an end, and what it
/// has come to is the text of every file, read under the first search root
/// that holds it, or the failure of the first file that has no name, that no
/// root holds, that cannot be read, or that holds no text.
pub proof fn lemma_search_files_first_roots(s: LoaderView, disk: Disk) -> (steps: nat)
    requires
        s.file == 0,
        s.root == 0,
        !s.reading,
        s.failed is None,
        s.texts == Map::<Seq<char>, Seq<char>>::empty(),
    ensures
        outcome(run(s, disk, steps)) == Some(loaded(s.names, s.roots, s.strip, disk)),
        forall|more: nat| steps <= more ==> #[trigger] run(s, disk, more) == run(s, disk, steps),
{
    let steps = lemma_files(s, disk, s.names.len());
    assert(s.names.take(s.names.len() as int) =~= s.names);
    let end = run(s, disk, steps);
    assert forall|more: nat| steps <= more implies #[trigger] run(s, disk, more) == end by {
        let extra = (more - steps) as nat;
        lemma_run_on(s, disk, steps, extra);
        lemma_run_stays(end, disk, extra);
    }
    steps
}

} // verus!
