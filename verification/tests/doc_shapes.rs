//! Reading payload shapes from documentation and comparing them with a registry.

use fluxora_stream::doc_agreement::{doc_mismatches, DocMismatch};
use fluxora_stream::doc_schemas::doc_schemas;
use fluxora_stream::schema::{EventField, EventSchema};
use fluxora_stream::text::chars_of;

fn text(s: &[char]) -> String {
    s.iter().collect()
}

fn shape_of(s: &EventSchema) -> (String, Vec<(String, String)>) {
    (
        text(&s.struct_name),
        s.fields.iter().map(|f| (text(&f.name), text(&f.typ))).collect(),
    )
}

fn shapes_of(doc: &str) -> Vec<(String, Vec<(String, String)>)> {
    doc_schemas(&chars_of(doc)).iter().map(shape_of).collect()
}

fn pair(a: &str, b: &str) -> (String, String) {
    (a.to_string(), b.to_string())
}

fn schema(name: &str, fields: &[(&str, &str)]) -> EventSchema {
    EventSchema::new(name, fields.iter().map(|(n, t)| EventField::new(n, t)).collect())
}

#[test]
fn struct_blocks_are_read_from_fences() {
    let doc = "Intro\n```rust\npub struct Foo {\n    pub a: u64,\n    pub b: soroban_sdk::Option< Address >, // later\n    c: u32,\n}\n```\n";
    assert_eq!(
        shapes_of(doc),
        vec![(
            "Foo".to_string(),
            vec![pair("a", "u64"), pair("b", "Option<Address>,")]
        )]
    );
}

#[test]
fn only_the_stream_event_enum_is_read() {
    let doc = "```\npub enum StreamEvent {\n    Paused(u64),\n    Resumed( u64 ),\n}\n```\n\n```\npub enum Other {\n    A(u64),\n}\n```\n";
    assert_eq!(
        shapes_of(doc),
        vec![("StreamEvent".to_string(), vec![pair("Paused", "u64"), pair("Resumed", "u64")])]
    );
}

#[test]
fn data_blocks_are_read_when_the_name_follows_the_colon() {
    let doc = "topics: [\"withdrew\"]\ndata:Withdrawal {\n  stream_id: u64,\n  // note: skipped\n  amount: i128,\n}\n\nafter\n";
    assert_eq!(
        shapes_of(doc),
        vec![("Withdrawal".to_string(), vec![pair("stream_id", "u64"), pair("amount", "i128")])]
    );
}

#[test]
fn data_blocks_after_spaces_are_read() {
    assert_eq!(
        shapes_of("data:   Withdrawal {\n  amount: i128,\n}\n"),
        vec![("Withdrawal".to_string(), vec![pair("amount", "i128")])]
    );
}

#[test]
fn data_blocks_with_lower_case_or_empty_bodies_yield_nothing() {
    assert!(shapes_of("data:withdrawal {\n  amount: i128,\n}\n").is_empty());
    assert!(shapes_of("data:Empty {\n}\n").is_empty());
}

#[test]
fn fenced_shapes_come_first_and_names_are_not_repeated() {
    let doc = "data:Foo {\n  x: u64,\n}\n\n```\npub struct Foo {\n    pub y: bool,\n}\n```\n\ndata:Bar {\n  z: i128\n}";
    assert_eq!(
        shapes_of(doc),
        vec![
            ("Foo".to_string(), vec![pair("y", "bool")]),
            ("Bar".to_string(), vec![pair("z", "i128")]),
        ]
    );
}

#[test]
fn agreeing_registry_has_no_mismatches() {
    let reg = vec![schema("A", &[("x", "u64"), ("y", "Option<Map<Bytes, Bytes>>")])];
    let docs = vec![
        schema("A", &[("x", "u32")]),
        schema("A", &[("y", "Option<Map<Bytes,Bytes>>"), ("x", "u64")]),
        schema("Known", &[]),
    ];
    let known = vec![chars_of("Known")];
    assert!(doc_mismatches(&reg, &docs, &known).is_empty());
}

#[test]
fn every_kind_of_mismatch_is_reported() {
    let reg = vec![
        schema("A", &[("x", "u64"), ("y", "i128")]),
        schema("B", &[("z", "bool")]),
    ];
    let docs = vec![
        schema("A", &[("x", "u64"), ("w", "u32")]),
        schema("C", &[]),
        schema("C", &[]),
    ];
    assert_eq!(
        doc_mismatches(&reg, &docs, &Vec::new()),
        vec![
            DocMismatch::FieldNotDocumented { registry: 0, doc: 0, field: 1 },
            DocMismatch::FieldNotInRegistry { registry: 0, doc: 0, field: 1 },
            DocMismatch::NotDocumented { registry: 1 },
            DocMismatch::NotInRegistry { doc: 1 },
        ]
    );
}
