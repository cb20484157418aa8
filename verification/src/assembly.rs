//! Putting the schema together that is handed to the registry.

use vstd::prelude::*;
use crate::descriptor::{files_of, FileDescriptor, FileDescriptorView};
use crate::error::{Error, ErrorView};
use crate::references::{
    get_protobuf_references, references_for, views_of, ReferenceView, SchemaReference,
    SchemaTexts,
};
use crate::schema_type::SchemaType;
use crate::text::str_eq;

verus! {

/// A schema as it is handed to the registry: its kind, its source text, and
/// the references for what it imports.
#[derive(Debug, PartialEq, Eq)]
pub struct SuppliedSchema {
    pub name: Option<String>,
    pub schema_type: SchemaType,
    pub schema: String,
    pub references: Vec<SchemaReference>,
}

/// The root of a descriptor set is its last file, and it goes by the name of
/// the root file.
pub open spec fn root_of(files: Seq<FileDescriptorView>, file_name: Seq<char>) -> Result<
    int,
    ErrorView,
> {
    if files.len() == 0 {
        Err(ErrorView::EmptyDescriptorSet)
    } else if files.last().name != Some(file_name) {
        Err(ErrorView::RootMismatch { file_name, descriptor_name: files.last().name })
    } else {
        Ok(files.len() - 1)
    }
}

/// Parts the root file's descriptor, which is the last one, from the others.
/// Fails with [`Error::EmptyDescriptorSet`] on an empty set and with
/// [`Error::RootMismatch`] where the last descriptor does not go by
/// `file_name`, the last segment of the root file's path.
pub fn take_root(fds: Vec<FileDescriptor>, file_name: &str) -> (r: Result<
    (FileDescriptor, Vec<FileDescriptor>),
    Error,
>)
    ensures
        match r {
            Ok((root, rest)) => {
                &&& root_of(files_of(fds@), file_name@) == Ok::<int, ErrorView>(fds@.len() - 1)
                &&& root == fds@.last()
                &&& rest@ == fds@.drop_last()
            },
            Err(e) => root_of(files_of(fds@), file_name@) == Err::<int, ErrorView>(e@),
        },
{
    let mut fds = fds;
    match fds.pop() {
        None => Err(Error::EmptyDescriptorSet),
        Some(root) => {
            let named = match &root.name {
                Some(name) => str_eq(name.as_str(), file_name),
                None => false,
            };
            if named {
                Ok((root, fds))
            } else {
                Err(
                    Error::RootMismatch {
                        file_name: file_name.to_owned(),
                        descriptor_name: root.name,
                    },
                )
            }
        },
    }
}

/// The Protocol-Buffer schema for the root file: its source text as it is,
/// never stripped, and the references for its imports, looked up among the
/// other files `rest` and their texts. Fails exactly where the references
/// fail, with their error.
pub fn assemble_schema(
    root_text: String,
    root: &FileDescriptor,
    rest: &[FileDescriptor],
    texts: &SchemaTexts,
) -> (r: Result<SuppliedSchema, Error>)
    ensures
        match r {
            Ok(schema) => {
                &&& schema.name is None
                &&& schema.schema_type == SchemaType::Protobuf
                &&& schema.schema@ == root_text@
                &&& references_for(files_of(rest@), texts@, root@.dependency, rest@.len()) == Ok::<
                    Seq<ReferenceView>,
                    ErrorView,
                >(views_of(schema.references@))
            },
            Err(e) => references_for(files_of(rest@), texts@, root@.dependency, rest@.len())
                == Err::<Seq<ReferenceView>, ErrorView>(e@),
        },
{
    match get_protobuf_references(root, rest, texts) {
        Err(e) => Err(e),
        Ok(references) => Ok(
            SuppliedSchema {
                name: None,
                schema_type: SchemaType::Protobuf,
                schema: root_text,
                references,
            },
        ),
    }
}

/// Avro schemas cannot be posted yet.
pub fn post_avro_schema() -> (r: Result<SuppliedSchema, Error>)
    ensures
        r is Err,
        r->Err_0@ == ErrorView::NotSupported("avro"@),
{
    Err(Error::NotSupported("avro".to_owned()))
}

/// JSON schemas cannot be posted yet.
pub fn post_json_schema() -> (r: Result<SuppliedSchema, Error>)
    ensures
        r is Err,
        r->Err_0@ == ErrorView::NotSupported("json"@),
{
    Err(Error::NotSupported("json".to_owned()))
}

} // verus!
