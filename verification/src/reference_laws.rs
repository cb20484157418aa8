//! What holds of every reference tree that is built.

use vstd::prelude::*;
use crate::descriptor::{find_file, FileDescriptorView};
use crate::error::ErrorView;
use crate::references::{lemma_error_stays, reference_for, references_for, ReferenceView};

verus! {

/// The number of nodes of the trees in `refs`, nested ones included.
pub open spec fn node_count(refs: Seq<ReferenceView>) -> nat
    decreases refs,
{
    if refs.len() == 0 {
        0
    } else {
        node_count(refs.drop_last()) + 1 + node_count(refs.last().references)
    }
}

/// The number of import chains that start with one of `names` and go on
/// through the dependency lists of the files they reach, each chain at most
/// `depth + 1` files long. A file that is reached along two chains counts
/// twice.
pub open spec fn import_chains(
    files: Seq<FileDescriptorView>,
    names: Seq<Seq<char>>,
    depth: nat,
) -> nat
    decreases depth, names.len(),
{
    if names.len() == 0 {
        0
    } else {
        let below: nat = if depth == 0 {
            0
        } else {
            match find_file(files, names.last()) {
                Some(i) => import_chains(files, files[i].dependency, (depth - 1) as nat),
                None => 0,
            }
        };
        import_chains(files, names.drop_last(), depth) + 1 + below
    }
}

/// `refs` mirrors the imports `names`: as many nodes, in the same order, under
/// the same names, and each node's own references mirror the dependency list
/// of the file that its name resolves to.
pub open spec fn mirrors(
    refs: Seq<ReferenceView>,
    files: Seq<FileDescriptorView>,
    names: Seq<Seq<char>>,
) -> bool
    decreases refs,
{
    &&& refs.len() == names.len()
    &&& forall|k: int|
        0 <= k < refs.len() ==> {
            &&& (#[trigger] refs[k]).name == names[k]
            &&& match find_file(files, names[k]) {
                Some(j) => mirrors(refs[k].references, files, files[j].dependency),
                None => false,
            }
        }
}

/// `rank` numbers the files so that every import leads to a file of lower
/// number. Such a numbering exists exactly where the imports do not run in a
/// circle.
pub open spec fn import_order(files: Seq<FileDescriptorView>, rank: Seq<nat>) -> bool {
    &&& rank.len() == files.len()
    &&& forall|i: int| 0 <= i < files.len() ==> (#[trigger] rank[i]) < files.len()
    &&& forall|i: int, k: int|
        0 <= i < files.len() && 0 <= k < files[i].dependency.len() ==> match find_file(
            files,
            #[trigger] files[i].dependency[k],
        ) {
            Some(j) => rank[j] < rank[i],
            None => true,
        }
}

/// The imports among `files` do not run in a circle.
pub open spec fn acyclic(files: Seq<FileDescriptorView>) -> bool {
    exists|rank: Seq<nat>| import_order(files, rank)
}

/// A set in which every file stands behind the files it imports, as a
/// compiler writes it, has no circle.
pub proof fn lemma_ordered_is_acyclic(files: Seq<FileDescriptorView>)
    requires
        forall|i: int, k: int|
            0 <= i < files.len() && 0 <= k < files[i].dependency.len() ==> match find_file(
                files,
                #[trigger] files[i].dependency[k],
            ) {
                Some(j) => j < i,
                None => true,
            },
    ensures
        acyclic(files),
{
    let rank = Seq::new(files.len(), |i: int| i as nat);
    assert forall|i: int, k: int|
        0 <= i < files.len() && 0 <= k < files[i].dependency.len() implies match find_file(
        files,
        #[trigger] files[i].dependency[k],
    ) {
        Some(j) => rank[j] < rank[i],
        None => true,
    } by {}
    assert(import_order(files, rank));
}

/// A file whose import leads back to itself makes a circle.
pub proof fn lemma_self_import_is_cyclic(files: Seq<FileDescriptorView>, i: int, k: int)
    requires
        0 <= i < files.len(),
        0 <= k < files[i].dependency.len(),
        find_file(files, files[i].dependency[k]) == Some(i),
    ensures
        !acyclic(files),
{
    if acyclic(files) {
        let rank = choose|rank: Seq<nat>| import_order(files, rank);
        assert(rank[i] < rank[i]);
    }
}

/// Every name of `names` that resolves leads to a file whose rank is below
/// `bound`.
pub open spec fn ranks_below(
    files: Seq<FileDescriptorView>,
    rank: Seq<nat>,
    names: Seq<Seq<char>>,
    bound: nat,
) -> bool {
    forall|k: int|
        0 <= k < names.len() ==> match find_file(files, #[trigger] names[k]) {
            Some(j) => rank[j] < bound,
            None => true,
        }
}

/// A tree that was built has one node for each import chain: a file that is
/// imported along several chains appears once for each, not once in all.
pub proof fn lemma_node_count(
    files: Seq<FileDescriptorView>,
    texts: Map<Seq<char>, Seq<char>>,
    names: Seq<Seq<char>>,
    depth: nat,
    refs: Seq<ReferenceView>,
)
    requires
        references_for(files, texts, names, depth) == Ok::<Seq<ReferenceView>, ErrorView>(refs),
    ensures
        node_count(refs) == import_chains(files, names, depth),
    decreases depth, names.len(),
{
    if names.len() > 0 {
        let before = references_for(files, texts, names.drop_last(), depth);
        let node = reference_for(files, texts, names.last(), depth);
        match (before, node) {
            (Ok(b), Ok(n)) => {
                lemma_node_count(files, texts, names.drop_last(), depth, b);
                let i = find_file(files, names.last())->Some_0;
                lemma_node_count(
                    files,
                    texts,
                    files[i].dependency,
                    (depth - 1) as nat,
                    n.references,
                );
                assert(refs.drop_last() =~= b);
            },
            _ => {},
        }
    }
}

/// A tree that was built mirrors the imports it was built for.
pub proof fn lemma_mirrors(
    files: Seq<FileDescriptorView>,
    texts: Map<Seq<char>, Seq<char>>,
    names: Seq<Seq<char>>,
    depth: nat,
    refs: Seq<ReferenceView>,
)
    requires
        references_for(files, texts, names, depth) == Ok::<Seq<ReferenceView>, ErrorView>(refs),
    ensures
        mirrors(refs, files, names),
    decreases depth, names.len(),
{
    if names.len() > 0 {
        let before = references_for(files, texts, names.drop_last(), depth);
        let node = reference_for(files, texts, names.last(), depth);
        match (before, node) {
            (Ok(b), Ok(n)) => {
                lemma_mirrors(files, texts, names.drop_last(), depth, b);
                let i = find_file(files, names.last())->Some_0;
                lemma_mirrors(files, texts, files[i].dependency, (depth - 1) as nat, n.references);
                assert(refs =~= b.push(n));
                assert forall|k: int| 0 <= k < refs.len() implies {
                    &&& (#[trigger] refs[k]).name == names[k]
                    &&& match find_file(files, names[k]) {
                        Some(j) => mirrors(refs[k].references, files, files[j].dependency),
                        None => false,
                    }
                } by {
                    if k < b.len() {
                        assert(refs[k] == b[k]);
                        assert(names.drop_last()[k] == names[k]);
                    } else {
                        assert(refs[k] == n);
                    }
                }
            },
            _ => {},
        }
    }
}

/// With the files numbered in import order and `depth` above the rank of
/// every file that `names` leads to, no circle is reported.
pub proof fn lemma_ranked_never_cyclic(
    files: Seq<FileDescriptorView>,
    texts: Map<Seq<char>, Seq<char>>,
    names: Seq<Seq<char>>,
    depth: nat,
    rank: Seq<nat>,
)
    requires
        import_order(files, rank),
        ranks_below(files, rank, names, depth),
    ensures
        !(references_for(files, texts, names, depth) matches Err(
            ErrorView::CyclicDependency(_),
        )),
    decreases depth, names.len(),
{
    if names.len() > 0 {
        let front = names.drop_last();
        lemma_ranked_never_cyclic(files, texts, front, depth, rank);
        let name = names[names.len() - 1];
        let node = reference_for(files, texts, name, depth);
        assert(!(node matches Err(ErrorView::CyclicDependency(_)))) by {
            match find_file(files, name) {
                Some(i) => {
                    let below = files[i].dependency;
                    let lower = (depth - 1) as nat;
                    lemma_ranked_never_cyclic(files, texts, below, lower, rank);
                },
                None => {},
            }
        }
    }
}

/// Where the imports among `files` do not run in a circle, no circle is
/// reported, whatever list of imports the tree is built for.
pub proof fn lemma_acyclic_never_cyclic(
    files: Seq<FileDescriptorView>,
    texts: Map<Seq<char>, Seq<char>>,
    names: Seq<Seq<char>>,
)
    requires
        acyclic(files),
    ensures
        !(references_for(files, texts, names, files.len()) matches Err(
            ErrorView::CyclicDependency(_),
        )),
{
    let rank = choose|rank: Seq<nat>| import_order(files, rank);
    lemma_ranked_never_cyclic(files, texts, names, files.len(), rank);
}

/// With the files numbered in import order, looking deeper than the ranks
/// reach finds no further chain: the count is the number of all import chains
/// that start with one of `names`.
pub proof fn lemma_chains_settle(
    files: Seq<FileDescriptorView>,
    names: Seq<Seq<char>>,
    rank: Seq<nat>,
    low: nat,
    high: nat,
)
    requires
        import_order(files, rank),
        ranks_below(files, rank, names, low),
        low <= high,
    ensures
        import_chains(files, names, low) == import_chains(files, names, high),
    decreases low, names.len(),
{
    if names.len() > 0 {
        let front = names.drop_last();
        lemma_chains_settle(files, front, rank, low, high);
        let name = names[names.len() - 1];
        match find_file(files, name) {
            Some(i) => {
                let below = files[i].dependency;
                let lower = (low - 1) as nat;
                lemma_chains_settle(files, below, rank, lower, (high - 1) as nat);
            },
            None => {},
        }
    }
}

/// `texts` holds a text for every file of `files` that has a name.
pub open spec fn covers(texts: Map<Seq<char>, Seq<char>>, files: Seq<FileDescriptorView>) -> bool {
    forall|i: int|
        0 <= i < files.len() ==> match (#[trigger] files[i]).name {
            Some(name) => texts.contains_key(name),
            None => true,
        }
}

/// Where every file has its text, no text is found missing.
pub proof fn lemma_covered_never_missing(
    files: Seq<FileDescriptorView>,
    texts: Map<Seq<char>, Seq<char>>,
    names: Seq<Seq<char>>,
    depth: nat,
)
    requires
        covers(texts, files),
    ensures
        !(references_for(files, texts, names, depth) matches Err(ErrorView::MissingText(_))),
    decreases depth, names.len(),
{
    if names.len() > 0 {
        lemma_covered_never_missing(files, texts, names.drop_last(), depth);
        let name = names.last();
        let node = reference_for(files, texts, name, depth);
        assert(!(node matches Err(ErrorView::MissingText(_)))) by {
            match find_file(files, name) {
                Some(i) => {
                    if depth > 0 {
                        lemma_covered_never_missing(
                            files,
                            texts,
                            files[i].dependency,
                            (depth - 1) as nat,
                        );
                    }
                },
                None => {},
            }
        }
    }
}

/// Where the import at position `k` is the first to fail, because no file
/// goes by its name, the whole list fails with exactly that error.
pub proof fn lemma_first_unresolved_import(
    files: Seq<FileDescriptorView>,
    texts: Map<Seq<char>, Seq<char>>,
    names: Seq<Seq<char>>,
    depth: nat,
    k: int,
)
    requires
        0 <= k < names.len(),
        find_file(files, names[k]) is None,
        references_for(files, texts, names.take(k), depth) is Ok,
    ensures
        references_for(files, texts, names, depth) == Err::<Seq<ReferenceView>, ErrorView>(
            ErrorView::DependencyNotFound(names[k]),
        ),
{
    let upto = names.take(k + 1);
    assert(upto.drop_last() =~= names.take(k));
    assert(reference_for(files, texts, names[k], depth) == Err::<ReferenceView, ErrorView>(
        ErrorView::DependencyNotFound(names[k]),
    ));
    assert(references_for(files, texts, upto, depth) == Err::<Seq<ReferenceView>, ErrorView>(
        ErrorView::DependencyNotFound(names[k]),
    ));
    lemma_error_stays(files, texts, names, k + 1, depth);
}

/// Where no file goes by the name of one of the imports, no list of
/// references is returned.
pub proof fn lemma_unresolved_import_fails(
    files: Seq<FileDescriptorView>,
    texts: Map<Seq<char>, Seq<char>>,
    names: Seq<Seq<char>>,
    depth: nat,
    k: int,
)
    requires
        0 <= k < names.len(),
        find_file(files, names[k]) is None,
    ensures
        references_for(files, texts, names, depth) is Err,
{
    if references_for(files, texts, names.take(k), depth) is Ok {
        lemma_first_unresolved_import(files, texts, names, depth, k);
    } else {
        lemma_error_stays(files, texts, names, k, depth);
    }
}

} // verus!
