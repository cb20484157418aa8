use schema_resolver::error::Error;
use schema_resolver::registered::{
    render_reference, render_schema, RegisteredReference, RegisteredSchema,
};
use schema_resolver::schema_type::{
    subject_name_strategy_from_settings, SchemaType, SchemaTypeOpt, SubjectNameStrategy,
};
use schema_resolver::text::{chars_of, str_eq, string_of};
use schema_resolver::version::{version, BuildInfo};

fn schema(id: u32, kind: SchemaType, text: &str, references: Vec<RegisteredReference>) -> RegisteredSchema {
    RegisteredSchema { id, schema_type: kind, schema: text.to_string(), references }
}

fn reference(name: &str, subject: &str, version: u32) -> RegisteredReference {
    RegisteredReference { name: name.to_string(), subject: subject.to_string(), version }
}

fn build() -> BuildInfo {
    BuildInfo {
        pkg_name: "srctl".to_string(),
        pkg_version: "0.3.1".to_string(),
        git_version: Some("v0.3.1-4-gabc1234".to_string()),
        profile: "release".to_string(),
        cfg_os: "linux".to_string(),
        cfg_target_arch: "x86_64".to_string(),
        built_time_utc: "Mon, 01 Mar 2021 10:00:00 +0000".to_string(),
    }
}

#[test]
fn version_line_has_all_parts() {
    assert_eq!(
        version(&build()),
        "srctl 0.3.1 (v0.3.1-4-gabc1234, release build, linux [x86_64], Mon, 01 Mar 2021 10:00:00 +0000)"
    );
}

#[test]
fn version_line_without_revision() {
    let mut info = build();
    info.git_version = None;
    info.profile = "debug".to_string();
    assert_eq!(
        version(&info),
        "srctl 0.3.1 (unknown, debug build, linux [x86_64], Mon, 01 Mar 2021 10:00:00 +0000)"
    );
}

#[test]
fn schema_type_words() {
    assert_eq!(SchemaTypeOpt::Avro.name(), "avro");
    assert_eq!(SchemaTypeOpt::Json.name(), "json");
    assert_eq!(SchemaTypeOpt::Protobuf.name(), "protobuf");
    assert_eq!(SchemaTypeOpt::default(), SchemaTypeOpt::Avro);
}

#[test]
fn schema_type_is_parsed_from_its_word() {
    assert_eq!(SchemaTypeOpt::parse("avro").unwrap(), SchemaTypeOpt::Avro);
    assert_eq!(SchemaTypeOpt::parse("json").unwrap(), SchemaTypeOpt::Json);
    assert_eq!(SchemaTypeOpt::parse("protobuf").unwrap(), SchemaTypeOpt::Protobuf);
    assert_eq!("protobuf".parse::<SchemaTypeOpt>().unwrap(), SchemaTypeOpt::Protobuf);
    for kind in [SchemaTypeOpt::Avro, SchemaTypeOpt::Json, SchemaTypeOpt::Protobuf] {
        assert_eq!(SchemaTypeOpt::parse(&kind.name()).unwrap(), kind);
    }
}

#[test]
fn other_words_name_no_schema_type() {
    for word in ["", "Avro", "proto", "protobuf ", "xml"] {
        let err = SchemaTypeOpt::parse(word).unwrap_err();
        assert!(matches!(err, Error::UnknownSchemaType(ref w) if w == word));
        assert_eq!(err.message(), "unsupported schema type");
    }
    assert!("JSON".parse::<SchemaTypeOpt>().is_err());
}

#[test]
fn schema_type_carries_over() {
    assert_eq!(SchemaType::from(SchemaTypeOpt::Avro), SchemaType::Avro);
    assert_eq!(SchemaType::from(SchemaTypeOpt::Json), SchemaType::Json);
    assert_eq!(SchemaType::from(SchemaTypeOpt::Protobuf), SchemaType::Protobuf);
}

#[test]
fn topic_and_record_name_the_subject_together() {
    let sns = subject_name_strategy_from_settings(
        Some("orders".to_string()),
        Some("Order".to_string()),
        true,
    )
    .unwrap();
    assert_eq!(
        sns,
        SubjectNameStrategy::TopicRecordNameStrategy("orders".to_string(), "Order".to_string())
    );
}

#[test]
fn topic_alone_takes_the_key_flag() {
    let key = subject_name_strategy_from_settings(Some("orders".to_string()), None, true).unwrap();
    assert_eq!(key, SubjectNameStrategy::TopicNameStrategy("orders".to_string(), true));
    let value =
        subject_name_strategy_from_settings(Some("orders".to_string()), None, false).unwrap();
    assert_eq!(value, SubjectNameStrategy::TopicNameStrategy("orders".to_string(), false));
}

#[test]
fn record_alone_names_the_subject() {
    let sns = subject_name_strategy_from_settings(None, Some("Order".to_string()), true).unwrap();
    assert_eq!(sns, SubjectNameStrategy::RecordNameStrategy("Order".to_string()));
}

#[test]
fn neither_topic_nor_record_is_refused() {
    for key in [true, false] {
        let err = subject_name_strategy_from_settings(None, None, key).unwrap_err();
        assert!(matches!(err, Error::MissingSubject));
        assert_eq!(err.message(), "either `--topic' or `--record' are required");
    }
}

#[test]
fn reference_is_shown_in_three_lines() {
    assert_eq!(
        render_reference(&reference("y.proto", "a.b.Y", 12)),
        vec!["\tname: y.proto", "\tsubject: a.b.Y", "\tversion: 12"]
    );
}

#[test]
fn schema_is_shown_line_by_line() {
    let shown = render_schema(&schema(
        7,
        SchemaType::Protobuf,
        "syntax = \"proto3\";\n\nmessage X {}\n",
        vec![],
    ));
    assert_eq!(
        shown,
        vec!["id: 7", "type: protobuf", "schema:", "\tsyntax = \"proto3\";", "\t", "\tmessage X {}"]
    );
}

#[test]
fn schema_with_references_shows_them_last() {
    let shown = render_schema(&schema(
        100,
        SchemaType::Avro,
        "{}",
        vec![reference("a", "sa", 1), reference("b", "sb", 4294967295)],
    ));
    assert_eq!(
        shown,
        vec![
            "id: 100",
            "type: avro",
            "schema:",
            "\t{}",
            "references:",
            "\tname: a",
            "\tsubject: sa",
            "\tversion: 1",
            "\tname: b",
            "\tsubject: sb",
            "\tversion: 4294967295",
        ]
    );
}

#[test]
fn kinds_are_shown_by_their_words() {
    for (kind, word) in [
        (SchemaType::Avro, "avro"),
        (SchemaType::Json, "json"),
        (SchemaType::Protobuf, "protobuf"),
        (SchemaType::Other("thrift".to_string()), "thrift"),
    ] {
        let shown = render_schema(&schema(0, kind, "", vec![]));
        assert_eq!(shown, vec!["id: 0".to_string(), format!("type: {}", word), "schema:".to_string()]);
    }
}

#[test]
fn numbers_are_shown_in_decimal() {
    for n in [0u32, 1, 9, 10, 11, 99, 100, 101, 1000, 65535, 1234567890, u32::MAX] {
        let shown = render_schema(&schema(n, SchemaType::Json, "", vec![]));
        assert_eq!(shown[0], format!("id: {}", n));
    }
}

#[test]
fn lines_are_split_as_the_standard_library_splits_them() {
    for text in [
        "",
        "\n",
        "\n\n",
        "a",
        "a\n",
        "a\nb",
        "a\r\nb\r\n",
        "a\r",
        "a\rb\n",
        "\r\n",
        "\r",
        "a\n\r\n\rb\r\r\n",
        "é\nü",
    ] {
        let shown = render_schema(&schema(1, SchemaType::Json, text, vec![]));
        let expected: Vec<String> = text.lines().map(|line| format!("\t{}", line)).collect();
        assert_eq!(shown[3..].to_vec(), expected, "on {:?}", text);
    }
}

#[test]
fn characters_go_to_a_vector_and_back() {
    for text in ["", "a", "a/b", "é日本\n"] {
        let chars = chars_of(text);
        assert_eq!(chars, text.chars().collect::<Vec<char>>());
        assert_eq!(string_of(&chars), text);
    }
    assert!(str_eq("abc", "abc"));
    assert!(!str_eq("abc", "abd"));
    assert!(!str_eq("abc", "ab"));
}
