//! Schemas as the registry reports them, and how they are shown.

use vstd::prelude::*;
use crate::comments::{find_line_end, line_ends_at};
use crate::schema_type::SchemaType;
use crate::text::chars_of;

verus! {

/// A reference of a registered schema: the import name, and the subject and
/// version under which the imported schema is registered.
#[derive(Debug, Clone, PartialEq, Eq)]
pub struct RegisteredReference {
    pub name: String,
    pub subject: String,
    pub version: u32,
}

/// A schema as the registry holds it.
#[derive(Debug, Clone, PartialEq, Eq)]
pub struct RegisteredSchema {
    pub id: u32,
    pub schema_type: SchemaType,
    pub schema: String,
    pub references: Vec<RegisteredReference>,
}

/// The character for a digit below ten.
pub open spec fn digit_char(d: nat) -> char {
    if d == 0 {
        '0'
    } else if d == 1 {
        '1'
    } else if d == 2 {
        '2'
    } else if d == 3 {
        '3'
    } else if d == 4 {
        '4'
    } else if d == 5 {
        '5'
    } else if d == 6 {
        '6'
    } else if d == 7 {
        '7'
    } else if d == 8 {
        '8'
    } else {
        '9'
    }
}

/// The decimal digits of `n`, the highest first, without leading zeros.
pub open spec fn decimal(n: nat) -> Seq<char>
    decreases n,
{
    if n < 10 {
        seq![digit_char(n)]
    } else {
        decimal(n / 10).push(digit_char(n % 10))
    }
}

/// The lines of `text` from position `from` on. A line ends with a line feed
/// or with the text; the line feed is not part of the line, nor is a
/// carriage return that stands directly before it. After a last line feed no
/// empty line follows.
pub open spec fn lines_from(text: Seq<char>, from: int) -> Seq<Seq<char>>
    decreases text.len() - from,
{
    if 0 <= from < text.len() {
        if exists|end: int| line_ends_at(text, from, end) {
            let end = choose|end: int| line_ends_at(text, from, end);
            if end < text.len() {
                seq![line_between(text, from, end)] + lines_from(text, end + 1)
            } else {
                seq![line_between(text, from, end)]
            }
        } else {
            Seq::<Seq<char>>::empty()
        }
    } else {
        Seq::<Seq<char>>::empty()
    }
}

/// The line that starts at `from` and ends at `end`.
pub open spec fn line_between(text: Seq<char>, from: int, end: int) -> Seq<char> {
    if from < end < text.len() && text[end - 1] == '\r' {
        text.subrange(from, end - 1)
    } else {
        text.subrange(from, end)
    }
}

/// The lines of `text`.
pub open spec fn lines_of(text: Seq<char>) -> Seq<Seq<char>> {
    lines_from(text, 0)
}

/// The word for the kind of a schema.
pub open spec fn kind_word(kind: SchemaType) -> Seq<char> {
    match kind {
        SchemaType::Avro => "avro"@,
        SchemaType::Json => "json"@,
        SchemaType::Protobuf => "protobuf"@,
        SchemaType::Other(word) => word@,
    }
}

/// The three lines that show a reference.
pub open spec fn reference_lines(reference: RegisteredReference) -> Seq<Seq<char>> {
    seq![
        "\tname: "@ + reference.name@,
        "\tsubject: "@ + reference.subject@,
        "\tversion: "@ + decimal(reference.version as nat),
    ]
}

/// The lines that show each reference of `references`, in order.
pub open spec fn all_reference_lines(references: Seq<RegisteredReference>) -> Seq<Seq<char>>
    decreases references.len(),
{
    if references.len() == 0 {
        Seq::<Seq<char>>::empty()
    } else {
        all_reference_lines(references.drop_last()) + reference_lines(references.last())
    }
}

/// Each line of `lines` behind a tabulator.
pub open spec fn indented(lines: Seq<Seq<char>>) -> Seq<Seq<char>> {
    lines.map_values(|line: Seq<char>| "\t"@ + line)
}

/// The lines that show a registered schema: its id, its kind, its source
/// line by line, and its references where it has any.
pub open spec fn schema_lines(schema: RegisteredSchema) -> Seq<Seq<char>> {
    let head = seq![
        "id: "@ + decimal(schema.id as nat),
        "type: "@ + kind_word(schema.schema_type),
        "schema:"@,
    ];
    let body = indented(lines_of(schema.schema@));
    if schema.references@.len() == 0 {
        head + body
    } else {
        head + body + seq!["references:"@] + all_reference_lines(schema.references@)
    }
}

/// The characters of each string of a sequence.
pub open spec fn line_texts(lines: Seq<String>) -> Seq<Seq<char>> {
    lines.map_values(|line: String| line@)
}

/// At most one position is the end of the line that `from` is on.
pub proof fn lemma_line_end_unique(text: Seq<char>, from: int, a: int, b: int)
    requires
        line_ends_at(text, from, a),
        line_ends_at(text, from, b),
    ensures
        a == b,
{
}

fn digit(d: u32) -> (c: char)
    requires
        d < 10,
    ensures
        c == digit_char(d as nat),
{
    if d == 0 {
        '0'
    } else if d == 1 {
        '1'
    } else if d == 2 {
        '2'
    } else if d == 3 {
        '3'
    } else if d == 4 {
        '4'
    } else if d == 5 {
        '5'
    } else if d == 6 {
        '6'
    } else if d == 7 {
        '7'
    } else if d == 8 {
        '8'
    } else {
        '9'
    }
}

/// Appends the decimal digits of `n` to `out`.
fn push_decimal(n: u32, out: &mut String)
    ensures
        final(out)@ == old(out)@ + decimal(n as nat),
    decreases n,
{
    if n >= 10 {
        push_decimal(n / 10, out);
    }
    out.push(digit(n % 10));
}

/// `label` followed by the decimal digits of `n`.
fn labelled_number(label: &str, n: u32) -> (line: String)
    ensures
        line@ == label@ + decimal(n as nat),
{
    let mut line = label.to_owned();
    push_decimal(n, &mut line);
    line
}

/// `label` followed by `text`.
fn labelled(label: &str, text: &str) -> (line: String)
    ensures
        line@ == label@ + text@,
{
    let mut line = label.to_owned();
    line.append(text);
    line
}

/// Appends the characters `lo..hi` of `src` to `out`.
fn push_chars(src: &[char], lo: usize, hi: usize, out: &mut String)
    requires
        lo <= hi <= src.len(),
    ensures
        final(out)@ == old(out)@ + src@.subrange(lo as int, hi as int),
{
    let mut i: usize = lo;
    while i < hi
        invariant
            lo <= i <= hi <= src.len(),
            out@ == old(out)@ + src@.subrange(lo as int, i as int),
        decreases hi - i,
    {
        out.push(src[i]);
        i = i + 1;
    }
}

/// Appends each line of `text`, behind a tabulator, to `out`.
fn push_indented_lines(text: &str, out: &mut Vec<String>)
    ensures
        line_texts(final(out)@) == line_texts(old(out)@) + indented(lines_of(text@)),
{
    let chars = chars_of(text);
    let n = chars.len();
    let ghost all = chars@;
    let mut from: usize = 0;
    while from < n
        invariant
            n == chars.len(),
            all == chars@,
            all == text@,
            from <= n,
            line_texts(out@) + indented(lines_from(all, from as int)) == line_texts(old(out)@)
                + indented(lines_of(all)),
        decreases n - from,
    {
        let end = find_line_end(chars.as_slice(), from);
        let stop = if from < end && end < n && chars[end - 1] == '\r' {
            end - 1
        } else {
            end
        };
        let mut line = "\t".to_owned();
        push_chars(chars.as_slice(), from, stop, &mut line);
        proof {
            let chosen = choose|e: int| line_ends_at(all, from as int, e);
            lemma_line_end_unique(all, from as int, end as int, chosen);
            let rest = if end < n {
                lines_from(all, end + 1)
            } else {
                Seq::<Seq<char>>::empty()
            };
            assert(lines_from(all, from as int) =~= seq![line_between(all, from as int, end as int)]
                + rest);
        }
        out.push(line);
        if end < n {
            from = end + 1;
        } else {
            from = n;
        }
    }
}

/// The word for the kind of a schema.
fn kind_name(kind: &SchemaType) -> (word: String)
    ensures
        word@ == kind_word(*kind),
{
    match kind {
        SchemaType::Avro => "avro".to_owned(),
        SchemaType::Json => "json".to_owned(),
        SchemaType::Protobuf => "protobuf".to_owned(),
        SchemaType::Other(word) => word.clone(),
    }
}

/// The lines that show a reference: its name, its subject and its version,
/// each behind a tabulator.
pub fn render_reference(reference: &RegisteredReference) -> (lines: Vec<String>)
    ensures
        line_texts(lines@) == reference_lines(*reference),
{
    let mut lines: Vec<String> = Vec::with_capacity(3);
    lines.push(labelled("\tname: ", reference.name.as_str()));
    lines.push(labelled("\tsubject: ", reference.subject.as_str()));
    lines.push(labelled_number("\tversion: ", reference.version));
    lines
}

/// The lines that show a registered schema, in the order in which they are
/// printed.
pub fn render_schema(schema: &RegisteredSchema) -> (lines: Vec<String>)
    ensures
        line_texts(lines@) == schema_lines(*schema),
{
    let mut lines: Vec<String> = Vec::new();
    lines.push(labelled_number("id: ", schema.id));
    let kind = kind_name(&schema.schema_type);
    lines.push(labelled("type: ", kind.as_str()));
    lines.push("schema:".to_owned());
    let ghost head = line_texts(lines@);
    assert(head =~= seq![
        "id: "@ + decimal(schema.id as nat),
        "type: "@ + kind_word(schema.schema_type),
        "schema:"@,
    ]);
    push_indented_lines(schema.schema.as_str(), &mut lines);
    if schema.references.len() > 0 {
        lines.push("references:".to_owned());
        let ghost fixed = line_texts(lines@);
        let mut i: usize = 0;
        while i < schema.references.len()
            invariant
                i <= schema.references.len(),
                line_texts(lines@) == fixed + all_reference_lines(
                    schema.references@.take(i as int),
                ),
            decreases schema.references.len() - i,
        {
            let ghost so_far = line_texts(lines@);
            let mut shown = render_reference(&schema.references[i]);
            let ghost added = line_texts(shown@);
            lines.append(&mut shown);
            proof {
                let upto = schema.references@.take(i + 1);
                assert(upto.drop_last() =~= schema.references@.take(i as int));
                assert(line_texts(lines@) =~= so_far + added);
            }
            i = i + 1;
        }
        assert(schema.references@.take(i as int) =~= schema.references@);
    }
    lines
}

} // verus!
