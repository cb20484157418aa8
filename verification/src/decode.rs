//! Decoding of the compiler's binary descriptor set.

use prost::Message;
use vstd::prelude::*;
use crate::descriptor::{files_of, FileDescriptor, FileDescriptorView, MessageDescriptor};
use crate::error::Error;

verus! {

/// Why `prost` could not decode a message.
#[verifier::external_type_specification]
#[verifier::external_body]
pub struct ExDecodeError(prost::DecodeError);

/// The files that `bytes` decode to as a `FileDescriptorSet`, each reduced to
/// its name, package, top-level message names and dependency list; `None`
/// where `bytes` are not such a set.
pub uninterp spec fn decoded_files(bytes: Seq<u8>) -> Option<Seq<FileDescriptorView>>;

/// `prost::Message::decode` on `prost_types::FileDescriptorSet`. Decoding
/// reads nothing but the bytes, so the same bytes always give the same files
/// or always fail. Of each decoded file the name, the package, the names of
/// the top-level messages and the dependency list are carried over, in order.
#[verifier::external_body]
fn decode_files(bytes: &[u8]) -> (r: Result<Vec<FileDescriptor>, prost::DecodeError>)
    ensures
        match r {
            Ok(fds) => decoded_files(bytes@) == Some(files_of(fds@)),
            Err(_) => decoded_files(bytes@) is None,
        },
{
    let set = prost_types::FileDescriptorSet::decode(bytes)?;
    let messages = |f: Vec<prost_types::DescriptorProto>| {
        f.into_iter().map(|m| MessageDescriptor { name: m.name }).collect()
    };
    Ok(set.file.into_iter().map(|f| FileDescriptor {
        name: f.name,
        package: f.package,
        message_type: messages(f.message_type),
        dependency: f.dependency,
    }).collect())
}

/// `prost::DecodeError`'s `Display`: the decoder's description of what is
/// wrong with the bytes. Nothing is claimed of the text.
#[verifier::external_body]
fn decode_error_text(e: &prost::DecodeError) -> (text: String) {
    e.to_string()
}

/// Decodes a binary descriptor set into its file descriptors, in the order in
/// which the set holds them. Fails with [`Error::Decode`] exactly where the
/// bytes are no descriptor set.
pub fn decode_descriptor_set(bytes: &[u8]) -> (r: Result<Vec<FileDescriptor>, Error>)
    ensures
        match r {
            Ok(fds) => decoded_files(bytes@) == Some(files_of(fds@)),
            Err(e) => decoded_files(bytes@) is None && e is Decode,
        },
{
    match decode_files(bytes) {
        Ok(fds) => Ok(fds),
        Err(e) => Err(Error::Decode(decode_error_text(&e))),
    }
}

} // verus!
