use schema_resolver::descriptor::{find_descriptor, FileDescriptor, MessageDescriptor};
use schema_resolver::error::Error;
use schema_resolver::references::{
    get_protobuf_references, subject_for, SchemaReference, SchemaTexts,
};

fn file(name: &str, package: Option<&str>, messages: &[&str], imports: &[&str]) -> FileDescriptor {
    FileDescriptor {
        name: Some(name.to_string()),
        package: package.map(|p| p.to_string()),
        message_type: messages
            .iter()
            .map(|m| MessageDescriptor { name: Some(m.to_string()) })
            .collect(),
        dependency: imports.iter().map(|d| d.to_string()).collect(),
    }
}

fn texts_for(names: &[&str]) -> SchemaTexts {
    let mut texts = SchemaTexts::new();
    for name in names {
        texts.insert(name.to_string(), format!("// source of {}", name));
    }
    texts
}

fn leaf(name: &str, subject: &str) -> SchemaReference {
    node(name, subject, vec![])
}

fn node(name: &str, subject: &str, references: Vec<SchemaReference>) -> SchemaReference {
    SchemaReference {
        name: name.to_string(),
        subject: subject.to_string(),
        schema: format!("// source of {}", name),
        references,
    }
}

fn count(refs: &[SchemaReference]) -> usize {
    refs.iter().map(|r| 1 + count(&r.references)).sum()
}

#[test]
fn subject_joins_package_and_first_message() {
    assert_eq!(subject_for(&Some("a.b".to_string()), &Some("M".to_string())), "a.b.M");
}

#[test]
fn subject_without_package_is_the_message() {
    assert_eq!(subject_for(&None, &Some("M".to_string())), "M");
    assert_eq!(subject_for(&Some(String::new()), &Some("M".to_string())), "M");
}

#[test]
fn subject_without_message_name_is_the_package() {
    assert_eq!(subject_for(&Some("a.b".to_string()), &None), "a.b");
    assert_eq!(subject_for(&None, &None), "");
}

#[test]
fn file_is_found_by_exact_name() {
    let fds = vec![
        file("a.proto", None, &["A"], &[]),
        file("dir/a.proto", None, &["B"], &[]),
        file("a.proto", None, &["C"], &[]),
    ];
    let (at, fd) = find_descriptor(&fds, &"a.proto".to_string()).unwrap();
    assert_eq!(at, 0);
    assert_eq!(fd.message_type[0].name.as_deref(), Some("A"));
    let (at, _) = find_descriptor(&fds, &"dir/a.proto".to_string()).unwrap();
    assert_eq!(at, 1);
    assert!(find_descriptor(&fds, &"A.proto".to_string()).is_none());
    assert!(find_descriptor(&fds, &"a.prot".to_string()).is_none());
}

#[test]
fn file_without_name_is_never_found() {
    let mut unnamed = file("", None, &["A"], &[]);
    unnamed.name = None;
    let fds = vec![unnamed];
    assert!(find_descriptor(&fds, &String::new()).is_none());
}

#[test]
fn no_imports_give_no_references() {
    let root = file("x.proto", Some("p"), &["X"], &[]);
    let refs = get_protobuf_references(&root, &[], &SchemaTexts::new()).unwrap();
    assert!(refs.is_empty());
}

#[test]
fn references_follow_the_order_of_the_imports() {
    let root = file("x.proto", None, &["X"], &["c.proto", "a.proto", "b.proto"]);
    let fds = vec![
        file("a.proto", Some("pa"), &["A"], &[]),
        file("b.proto", None, &["B", "B2"], &[]),
        file("c.proto", Some("pc.sub"), &["C"], &[]),
    ];
    let texts = texts_for(&["a.proto", "b.proto", "c.proto"]);
    let refs = get_protobuf_references(&root, &fds, &texts).unwrap();
    assert_eq!(
        refs,
        vec![leaf("c.proto", "pc.sub.C"), leaf("a.proto", "pa.A"), leaf("b.proto", "B")]
    );
}

#[test]
fn chain_of_imports_nests() {
    let root = file("x.proto", None, &["X"], &["y.proto"]);
    let fds = vec![
        file("z.proto", Some("pz"), &["Z"], &[]),
        file("y.proto", Some("py"), &["Y"], &["z.proto"]),
    ];
    let texts = texts_for(&["y.proto", "z.proto"]);
    let refs = get_protobuf_references(&root, &fds, &texts).unwrap();
    assert_eq!(refs, vec![node("y.proto", "py.Y", vec![leaf("z.proto", "pz.Z")])]);
}

#[test]
fn shared_import_appears_under_each_importer() {
    let root = file("x.proto", None, &["X"], &["b.proto", "c.proto"]);
    let fds = vec![
        file("e.proto", None, &["E"], &[]),
        file("d.proto", None, &["D"], &["e.proto"]),
        file("b.proto", None, &["B"], &["d.proto"]),
        file("c.proto", None, &["C"], &["d.proto"]),
    ];
    let texts = texts_for(&["b.proto", "c.proto", "d.proto", "e.proto"]);
    let refs = get_protobuf_references(&root, &fds, &texts).unwrap();
    let d = || node("d.proto", "D", vec![leaf("e.proto", "E")]);
    assert_eq!(refs, vec![node("b.proto", "B", vec![d()]), node("c.proto", "C", vec![d()])]);
    assert_eq!(count(&refs), 6);
}

#[test]
fn import_listed_twice_gives_two_references() {
    let root = file("x.proto", None, &["X"], &["a.proto", "a.proto"]);
    let fds = vec![file("a.proto", None, &["A"], &[])];
    let refs = get_protobuf_references(&root, &fds, &texts_for(&["a.proto"])).unwrap();
    assert_eq!(refs, vec![leaf("a.proto", "A"), leaf("a.proto", "A")]);
}

#[test]
fn first_file_of_a_name_is_taken() {
    let root = file("x.proto", None, &["X"], &["a.proto"]);
    let fds = vec![file("a.proto", None, &["First"], &[]), file("a.proto", None, &["Second"], &[])];
    let refs = get_protobuf_references(&root, &fds, &texts_for(&["a.proto"])).unwrap();
    assert_eq!(refs, vec![leaf("a.proto", "First")]);
}

#[test]
fn missing_file_fails_the_whole_list() {
    let root = file("x.proto", None, &["X"], &["a.proto", "gone.proto"]);
    let fds = vec![file("a.proto", None, &["A"], &[])];
    let err = get_protobuf_references(&root, &fds, &texts_for(&["a.proto"])).unwrap_err();
    assert!(matches!(err, Error::DependencyNotFound(ref name) if name == "gone.proto"));
    assert_eq!(err.message(), "failed to locate file for dependency: gone.proto");
}

#[test]
fn missing_file_below_fails_the_whole_list() {
    let root = file("x.proto", None, &["X"], &["a.proto"]);
    let fds = vec![file("a.proto", None, &["A"], &["gone.proto"])];
    let err = get_protobuf_references(&root, &fds, &texts_for(&["a.proto"])).unwrap_err();
    assert!(matches!(err, Error::DependencyNotFound(ref name) if name == "gone.proto"));
}

#[test]
fn root_is_not_among_the_files_it_can_import() {
    let root = file("x.proto", None, &["X"], &["x.proto"]);
    let err = get_protobuf_references(&root, &[], &texts_for(&["x.proto"])).unwrap_err();
    assert!(matches!(err, Error::DependencyNotFound(ref name) if name == "x.proto"));
}

#[test]
fn file_without_message_has_no_subject() {
    let root = file("x.proto", None, &["X"], &["enums.proto"]);
    let fds = vec![file("enums.proto", Some("p"), &[], &[])];
    let err = get_protobuf_references(&root, &fds, &texts_for(&["enums.proto"])).unwrap_err();
    assert!(matches!(err, Error::NoMessageType(ref name) if name == "enums.proto"));
    assert_eq!(err.message(), "failed to locate a top-level message type in: enums.proto");
}

#[test]
fn file_without_text_is_reported() {
    let root = file("x.proto", None, &["X"], &["a.proto"]);
    let fds = vec![file("a.proto", None, &["A"], &[])];
    let err = get_protobuf_references(&root, &fds, &SchemaTexts::new()).unwrap_err();
    assert!(matches!(err, Error::MissingText(ref name) if name == "a.proto"));
    assert_eq!(err.message(), "failed to locate schema for: a.proto");
}

#[test]
fn earlier_import_decides_the_error() {
    let root = file("x.proto", None, &["X"], &["enums.proto", "gone.proto"]);
    let fds = vec![file("enums.proto", None, &[], &[])];
    let err = get_protobuf_references(&root, &fds, &texts_for(&["enums.proto"])).unwrap_err();
    assert!(matches!(err, Error::NoMessageType(_)));
}

#[test]
fn missing_message_comes_before_missing_text() {
    let root = file("x.proto", None, &["X"], &["a.proto"]);
    let fds = vec![file("a.proto", None, &[], &[])];
    let err = get_protobuf_references(&root, &fds, &SchemaTexts::new()).unwrap_err();
    assert!(matches!(err, Error::NoMessageType(_)));
}

#[test]
fn file_that_imports_itself_is_a_circle() {
    let root = file("x.proto", None, &["X"], &["a.proto"]);
    let fds = vec![file("a.proto", None, &["A"], &["a.proto"])];
    let err = get_protobuf_references(&root, &fds, &texts_for(&["a.proto"])).unwrap_err();
    assert!(matches!(err, Error::CyclicDependency(ref name) if name == "a.proto"));
    assert_eq!(err.message(), "imports run in a circle through: a.proto");
}

#[test]
fn two_files_that_import_each_other_are_a_circle() {
    let root = file("x.proto", None, &["X"], &["a.proto"]);
    let fds = vec![
        file("a.proto", None, &["A"], &["b.proto"]),
        file("b.proto", None, &["B"], &["a.proto"]),
    ];
    let err =
        get_protobuf_references(&root, &fds, &texts_for(&["a.proto", "b.proto"])).unwrap_err();
    assert!(matches!(err, Error::CyclicDependency(_)));
}

#[test]
fn longest_chain_without_circle_is_built() {
    let root = file("x.proto", None, &["X"], &["a.proto"]);
    let fds = vec![
        file("a.proto", None, &["A"], &["b.proto"]),
        file("b.proto", None, &["B"], &["c.proto"]),
        file("c.proto", None, &["C"], &[]),
    ];
    let texts = texts_for(&["a.proto", "b.proto", "c.proto"]);
    let refs = get_protobuf_references(&root, &fds, &texts).unwrap();
    assert_eq!(
        refs,
        vec![node("a.proto", "A", vec![node("b.proto", "B", vec![leaf("c.proto", "C")])])]
    );
    assert_eq!(count(&refs), 3);
}

#[test]
fn later_text_replaces_earlier_text() {
    let mut texts = SchemaTexts::new();
    texts.insert("a.proto".to_string(), "old".to_string());
    texts.insert("a.proto".to_string(), "new".to_string());
    assert_eq!(texts.get("a.proto").map(|t| t.as_str()), Some("new"));
    assert!(texts.contains("a.proto"));
    assert!(!texts.contains("b.proto"));
    assert!(texts.get("b.proto").is_none());
}
