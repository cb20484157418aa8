use prost::Message;
use prost_types::{DescriptorProto, EnumDescriptorProto, FileDescriptorProto, FileDescriptorSet};
use schema_resolver::decode::decode_descriptor_set;
use schema_resolver::error::Error;

fn message(name: &str) -> DescriptorProto {
    let mut m = DescriptorProto::default();
    m.name = Some(name.to_string());
    m
}

fn proto(name: &str, package: Option<&str>, messages: &[&str], imports: &[&str]) -> FileDescriptorProto {
    let mut f = FileDescriptorProto::default();
    f.name = Some(name.to_string());
    f.package = package.map(|p| p.to_string());
    f.message_type = messages.iter().map(|m| message(m)).collect();
    f.dependency = imports.iter().map(|d| d.to_string()).collect();
    f
}

fn encode(files: Vec<FileDescriptorProto>) -> Vec<u8> {
    let mut set = FileDescriptorSet::default();
    set.file = files;
    set.encode_to_vec()
}

#[test]
fn empty_bytes_are_an_empty_set() {
    let fds = decode_descriptor_set(&[]).unwrap();
    assert!(fds.is_empty());
}

#[test]
fn decoded_files_keep_their_order_and_fields() {
    let bytes = encode(vec![
        proto("z.proto", Some("pz"), &["Z"], &[]),
        proto("y.proto", None, &["Y1", "Y2"], &["z.proto"]),
        proto("x.proto", Some("a.b"), &[], &["y.proto", "z.proto"]),
    ]);
    let fds = decode_descriptor_set(&bytes).unwrap();
    assert_eq!(fds.len(), 3);
    assert_eq!(fds[0].name.as_deref(), Some("z.proto"));
    assert_eq!(fds[0].package.as_deref(), Some("pz"));
    assert_eq!(fds[0].message_type.len(), 1);
    assert_eq!(fds[0].message_type[0].name.as_deref(), Some("Z"));
    assert!(fds[0].dependency.is_empty());
    assert_eq!(fds[1].name.as_deref(), Some("y.proto"));
    assert_eq!(fds[1].package, None);
    assert_eq!(fds[1].message_type.len(), 2);
    assert_eq!(fds[1].message_type[0].name.as_deref(), Some("Y1"));
    assert_eq!(fds[1].message_type[1].name.as_deref(), Some("Y2"));
    assert_eq!(fds[1].dependency, vec!["z.proto".to_string()]);
    assert_eq!(fds[2].name.as_deref(), Some("x.proto"));
    assert_eq!(fds[2].package.as_deref(), Some("a.b"));
    assert!(fds[2].message_type.is_empty());
    assert_eq!(fds[2].dependency, vec!["y.proto".to_string(), "z.proto".to_string()]);
}

#[test]
fn file_without_name_decodes_without_name() {
    let mut f = FileDescriptorProto::default();
    f.package = Some("p".to_string());
    let fds = decode_descriptor_set(&encode(vec![f])).unwrap();
    assert_eq!(fds.len(), 1);
    assert_eq!(fds[0].name, None);
    assert_eq!(fds[0].package.as_deref(), Some("p"));
}

#[test]
fn enums_are_no_messages() {
    let mut f = proto("e.proto", None, &[], &[]);
    let mut e = EnumDescriptorProto::default();
    e.name = Some("E".to_string());
    f.enum_type = vec![e];
    let fds = decode_descriptor_set(&encode(vec![f])).unwrap();
    assert!(fds[0].message_type.is_empty());
}

#[test]
fn truncated_bytes_are_refused() {
    let bytes = encode(vec![proto("x.proto", Some("p"), &["X"], &[])]);
    let err = decode_descriptor_set(&bytes[..bytes.len() - 1]).unwrap_err();
    assert!(matches!(err, Error::Decode(_)));
    assert!(err.message().starts_with("failed to decode Protobuf message"));
}

#[test]
fn wrong_wire_type_is_refused() {
    // Field 1 of the set must be length-delimited; here it is a varint.
    let err = decode_descriptor_set(&[0x08, 0x01]).unwrap_err();
    assert!(matches!(err, Error::Decode(_)));
}

#[test]
fn same_bytes_decode_alike() {
    let bytes = encode(vec![proto("x.proto", Some("p"), &["X"], &["y.proto"])]);
    let one = decode_descriptor_set(&bytes).unwrap();
    let two = decode_descriptor_set(&bytes).unwrap();
    assert_eq!(one.len(), two.len());
    assert_eq!(one[0].name, two[0].name);
    assert_eq!(one[0].dependency, two[0].dependency);
}
