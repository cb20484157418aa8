//! What is handed to the schema compiler, and what is made of its answer.
//!
//! Paths are the caller's: they are passed through as they are, of whatever
//! type the caller holds them in, and never looked into.

use vstd::prelude::*;
use crate::error::{Error, ErrorView};

verus! {

/// One argument for the compiler: a word of the compiler's own, or a path of
/// the caller's.
#[derive(Debug, PartialEq, Eq)]
pub enum Arg<P> {
    Flag(String),
    Path(P),
}

/// An [`Arg`] with its word as a character sequence.
pub enum ArgView<P> {
    Flag(Seq<char>),
    Path(P),
}

impl<P> View for Arg<P> {
    type V = ArgView<P>;

    open spec fn view(&self) -> ArgView<P> {
        match *self {
            Arg::Flag(word) => ArgView::Flag(word@),
            Arg::Path(path) => ArgView::Path(path),
        }
    }
}

/// The views of a list of arguments, in order.
pub open spec fn args_of<P>(args: Seq<Arg<P>>) -> Seq<ArgView<P>> {
    args.map_values(|arg: Arg<P>| arg@)
}

/// An `-I` flag before each directory of `includes`, in order.
pub open spec fn include_flags<P>(includes: Seq<P>) -> Seq<ArgView<P>>
    decreases includes.len(),
{
    if includes.len() == 0 {
        Seq::<ArgView<P>>::empty()
    } else {
        include_flags(includes.drop_last()).push(ArgView::Flag("-I"@)).push(
            ArgView::Path(includes.last()),
        )
    }
}

/// Each path of `paths` as an argument, in order.
pub open spec fn path_args<P>(paths: Seq<P>) -> Seq<ArgView<P>> {
    paths.map_values(|path: P| ArgView::Path(path))
}

/// The compiler's arguments: imported files and source locations are asked
/// for, the descriptor set goes to `output`, the caller's include directories
/// come before the compiler's own, and the schema files come last.
pub open spec fn compiler_args<P>(
    output: P,
    includes: Seq<P>,
    protoc_include: P,
    protos: Seq<P>,
) -> Seq<ArgView<P>> {
    seq![
        ArgView::Flag("--include_imports"@),
        ArgView::Flag("--include_source_info"@),
        ArgView::Flag("-o"@),
        ArgView::Path(output),
    ] + include_flags(includes) + seq![ArgView::Flag("-I"@), ArgView::Path(protoc_include)]
        + path_args(protos)
}

/// The directories that the compiler is given: the root file's own directory
/// first, where it has one, then the caller's, in their order.
pub open spec fn include_dirs_of<P>(parent: Option<P>, includes: Seq<P>) -> Seq<P> {
    match parent {
        Some(dir) => seq![dir] + includes,
        None => includes,
    }
}

/// The arguments for one run of the compiler that writes the descriptor set
/// of `protos`, with everything they import, to `output`.
pub fn protoc_args<P>(output: P, includes: Vec<P>, protoc_include: P, protos: Vec<P>) -> (args:
    Vec<Arg<P>>)
    ensures
        args_of(args@) == compiler_args(output, includes@, protoc_include, protos@),
{
    let ghost dirs = includes@;
    let ghost files = protos@;
    let mut args: Vec<Arg<P>> = Vec::new();
    args.push(Arg::Flag("--include_imports".to_owned()));
    args.push(Arg::Flag("--include_source_info".to_owned()));
    args.push(Arg::Flag("-o".to_owned()));
    args.push(Arg::Path(output));
    let ghost head = args_of(args@);
    assert(head =~= seq![
        ArgView::Flag("--include_imports"@),
        ArgView::Flag("--include_source_info"@),
        ArgView::Flag("-o"@),
        ArgView::Path(output),
    ]);
    for dir in it: includes
        invariant
            it.seq() == dirs,
            args_of(args@) == head + include_flags(dirs.take(it.index())),
    {
        let ghost before = args_of(args@);
        let ghost upto = dirs.take(it.index() + 1);
        args.push(Arg::Flag("-I".to_owned()));
        args.push(Arg::Path(dir));
        proof {
            assert(upto.drop_last() =~= dirs.take(it.index()));
            assert(upto.last() == dir);
            assert(args_of(args@) =~= before.push(ArgView::Flag("-I"@)).push(ArgView::Path(dir)));
        }
    }
    assert(dirs.take(dirs.len() as int) =~= dirs);
    let ghost flagged = args_of(args@);
    args.push(Arg::Flag("-I".to_owned()));
    args.push(Arg::Path(protoc_include));
    assert(args_of(args@) =~= flagged + seq![
        ArgView::Flag("-I"@),
        ArgView::Path(protoc_include),
    ]);
    let ghost fixed = args_of(args@);
    for file in it: protos
        invariant
            it.seq() == files,
            args_of(args@) == fixed + path_args(files.take(it.index())),
    {
        let ghost before = args_of(args@);
        args.push(Arg::Path(file));
        proof {
            assert(args_of(args@) =~= before.push(ArgView::Path(file)));
            assert(path_args(files.take(it.index() + 1)) =~= path_args(
                files.take(it.index()),
            ).push(ArgView::Path(file)));
        }
    }
    assert(files.take(files.len() as int) =~= files);
    args
}

/// The include directories for the compiler: the directory of the root file,
/// then those that the caller named.
pub fn include_dirs<P>(parent: Option<P>, includes: Vec<P>) -> (dirs: Vec<P>)
    ensures
        dirs@ == include_dirs_of(parent, includes@),
{
    match parent {
        None => includes,
        Some(dir) => {
            let mut dirs: Vec<P> = Vec::with_capacity(1);
            dirs.push(dir);
            let mut includes = includes;
            dirs.append(&mut includes);
            dirs
        },
    }
}

/// The directories in which source files are looked for: the include
/// directories in their order, and the compiler's own directory last.
pub fn search_roots<P>(includes: Vec<P>, protoc_include: P) -> (roots: Vec<P>)
    ensures
        roots@ == includes@.push(protoc_include),
{
    let mut roots = includes;
    roots.push(protoc_include);
    roots
}

/// What the compiler's exit means: success lets the work go on, a failure
/// ends it with what the compiler wrote to its error stream.
pub fn compiler_outcome(success: bool, stderr: String) -> (r: Result<(), Error>)
    ensures
        success ==> r is Ok,
        !success ==> r is Err && r->Err_0@ == ErrorView::Compile(stderr@),
{
    if success {
        Ok(())
    } else {
        Err(Error::Compile(stderr))
    }
}

} // verus!
