//! The kinds of schema that a registry knows.

use vstd::prelude::*;
use vstd::std_specs::convert::FromSpecImpl;
use crate::descriptor::opt_text;
use crate::error::{Error, ErrorView};
use crate::text::str_eq;

verus! {

/// The kind of schema that the caller asks to post.
#[derive(Debug, Clone, Copy, PartialEq, Eq, Structural)]
pub enum SchemaTypeOpt {
    Avro,
    Json,
    Protobuf,
}

/// The kind of a schema as the registry reports it; a kind that the registry
/// knows and this library does not is kept by its name.
#[derive(Debug, Clone, PartialEq, Eq)]
pub enum SchemaType {
    Avro,
    Json,
    Protobuf,
    Other(String),
}

/// The kind that goes by the word `word`, if any.
pub open spec fn schema_type_named(word: Seq<char>) -> Option<SchemaTypeOpt> {
    if word == "avro"@ {
        Some(SchemaTypeOpt::Avro)
    } else if word == "json"@ {
        Some(SchemaTypeOpt::Json)
    } else if word == "protobuf"@ {
        Some(SchemaTypeOpt::Protobuf)
    } else {
        None
    }
}

impl SchemaTypeOpt {
    /// The word for this kind.
    pub open spec fn word(self) -> Seq<char> {
        match self {
            SchemaTypeOpt::Avro => "avro"@,
            SchemaTypeOpt::Json => "json"@,
            SchemaTypeOpt::Protobuf => "protobuf"@,
        }
    }

    /// The word for this kind: `avro`, `json` or `protobuf`.
    pub fn name(&self) -> (word: String)
        ensures
            word@ == self.word(),
    {
        match self {
            SchemaTypeOpt::Avro => "avro".to_owned(),
            SchemaTypeOpt::Json => "json".to_owned(),
            SchemaTypeOpt::Protobuf => "protobuf".to_owned(),
        }
    }

    /// The kind that `word` names. Any word but `avro`, `json` and `protobuf`
    /// is refused.
    pub fn parse(word: &str) -> (r: Result<SchemaTypeOpt, Error>)
        ensures
            match r {
                Ok(kind) => schema_type_named(word@) == Some(kind),
                Err(e) => schema_type_named(word@) is None && e@ == ErrorView::UnknownSchemaType(
                    word@,
                ),
            },
    {
        if str_eq(word, "avro") {
            Ok(SchemaTypeOpt::Avro)
        } else if str_eq(word, "json") {
            Ok(SchemaTypeOpt::Json)
        } else if str_eq(word, "protobuf") {
            Ok(SchemaTypeOpt::Protobuf)
        } else {
            Err(Error::UnknownSchemaType(word.to_owned()))
        }
    }
}

impl Default for SchemaTypeOpt {
    fn default() -> (kind: SchemaTypeOpt)
        ensures
            kind == SchemaTypeOpt::Avro,
    {
        SchemaTypeOpt::Avro
    }
}

impl std::str::FromStr for SchemaTypeOpt {
    type Err = Error;

    fn from_str(word: &str) -> (r: Result<SchemaTypeOpt, Error>)
        ensures
            match r {
                Ok(kind) => schema_type_named(word@) == Some(kind),
                Err(e) => schema_type_named(word@) is None && e@ == ErrorView::UnknownSchemaType(
                    word@,
                ),
            },
    {
        SchemaTypeOpt::parse(word)
    }
}

impl From<SchemaTypeOpt> for SchemaType {
    fn from(src: SchemaTypeOpt) -> (kind: SchemaType) {
        match src {
            SchemaTypeOpt::Avro => SchemaType::Avro,
            SchemaTypeOpt::Json => SchemaType::Json,
            SchemaTypeOpt::Protobuf => SchemaType::Protobuf,
        }
    }
}

impl FromSpecImpl<SchemaTypeOpt> for SchemaType {
    open spec fn obeys_from_spec() -> bool {
        true
    }

    open spec fn from_spec(src: SchemaTypeOpt) -> SchemaType {
        match src {
            SchemaTypeOpt::Avro => SchemaType::Avro,
            SchemaTypeOpt::Json => SchemaType::Json,
            SchemaTypeOpt::Protobuf => SchemaType::Protobuf,
        }
    }
}

/// How the subject of a schema is named: by the record alone, by the topic
/// and whether the schema is for its keys, or by topic and record together.
#[derive(Debug, Clone, PartialEq, Eq)]
pub enum SubjectNameStrategy {
    RecordNameStrategy(String),
    TopicNameStrategy(String, bool),
    TopicRecordNameStrategy(String, String),
}

/// A [`SubjectNameStrategy`] with its texts as character sequences.
pub enum StrategyView {
    RecordName(Seq<char>),
    TopicName(Seq<char>, bool),
    TopicRecordName(Seq<char>, Seq<char>),
}

impl View for SubjectNameStrategy {
    type V = StrategyView;

    open spec fn view(&self) -> StrategyView {
        match *self {
            SubjectNameStrategy::RecordNameStrategy(record) => StrategyView::RecordName(record@),
            SubjectNameStrategy::TopicNameStrategy(topic, key) => StrategyView::TopicName(
                topic@,
                key,
            ),
            SubjectNameStrategy::TopicRecordNameStrategy(topic, record) =>
                StrategyView::TopicRecordName(topic@, record@),
        }
    }
}

/// The strategy that a topic, a record and the key flag stand for: both names
/// together where both are given, else the one that is given; the key flag
/// counts only with a topic alone. With neither there is none.
pub open spec fn strategy_of(
    topic: Option<Seq<char>>,
    record: Option<Seq<char>>,
    topic_key: bool,
) -> Option<StrategyView> {
    match (topic, record) {
        (Some(t), Some(r)) => Some(StrategyView::TopicRecordName(t, r)),
        (Some(t), None) => Some(StrategyView::TopicName(t, topic_key)),
        (None, Some(r)) => Some(StrategyView::RecordName(r)),
        (None, None) => None,
    }
}

/// The subject name strategy for the given topic and record. Fails with
/// [`Error::MissingSubject`] exactly where neither is given.
pub fn subject_name_strategy_from_settings(
    topic: Option<String>,
    record: Option<String>,
    topic_key: bool,
) -> (r: Result<SubjectNameStrategy, Error>)
    ensures
        match r {
            Ok(sns) => strategy_of(opt_text(topic), opt_text(record), topic_key) == Some(sns@),
            Err(e) => topic is None && record is None && e is MissingSubject,
        },
{
    match topic {
        Some(topic) => match record {
            Some(record) => Ok(SubjectNameStrategy::TopicRecordNameStrategy(topic, record)),
            None => Ok(SubjectNameStrategy::TopicNameStrategy(topic, topic_key)),
        },
        None => match record {
            Some(record) => Ok(SubjectNameStrategy::RecordNameStrategy(record)),
            None => Err(Error::MissingSubject),
        },
    }
}

} // verus!
