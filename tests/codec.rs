use nickelhardcover::{decode_review, encode_review, journal_review, node_text_of, trim, Json};

fn s(x: &str) -> String {
    x.to_string()
}

fn obj(members: Vec<(&str, Json)>) -> Json {
    Json::Object(members.into_iter().map(|(k, v)| (s(k), v)).collect())
}

fn paragraph_lines(doc: &Json) -> Vec<String> {
    let Json::Object(top) = doc else { panic!("not an object") };
    assert_eq!(top.len(), 1);
    assert_eq!(top[0].0, "document");
    let Json::Object(d) = &top[0].1 else { panic!("no document") };
    assert_eq!(d[0].0, "children");
    assert_eq!(d[1].0, "object");
    assert!(matches!(&d[1].1, Json::Str(t) if t == "document"));
    let Json::Array(ps) = &d[0].1 else { panic!("no children") };
    ps.iter()
        .map(|p| {
            let Json::Object(m) = p else { panic!("paragraph is not an object") };
            let keys: Vec<&str> = m.iter().map(|(k, _)| k.as_str()).collect();
            assert_eq!(keys, vec!["children", "data", "object", "type"]);
            assert!(matches!(&m[2].1, Json::Str(t) if t == "block"));
            assert!(matches!(&m[3].1, Json::Str(t) if t == "paragraph"));
            let Json::Array(c) = &m[0].1 else { panic!("no leaf") };
            let Json::Object(leaf) = &c[0] else { panic!("leaf is not an object") };
            assert_eq!(leaf[0].0, "object");
            assert!(matches!(&leaf[0].1, Json::Str(t) if t == "text"));
            match &leaf[1].1 {
                Json::Str(t) => t.clone(),
                _ => panic!("leaf without text"),
            }
        })
        .collect()
}

#[test]
fn review_round_trip_collapses_blank_lines() {
    let doc = encode_review("Hello\n\nWorld");
    let decoded = decode_review(&doc);
    assert_eq!(decoded, "\n\nHello\n\nWorld");
    assert_eq!(trim(&decoded), "Hello\n\nWorld");
}

#[test]
fn encode_makes_one_paragraph_per_non_empty_line() {
    let doc = encode_review("\nfirst line\n\n\nsecond\nthird\n");
    assert_eq!(paragraph_lines(&doc), vec![s("first line"), s("second"), s("third")]);
    assert_eq!(decode_review(&doc), "\n\nfirst line\n\nsecond\n\nthird");
}

#[test]
fn encode_of_empty_text_has_no_paragraphs() {
    let doc = encode_review("");
    assert!(paragraph_lines(&doc).is_empty());
    assert_eq!(decode_review(&doc), "");
    assert!(paragraph_lines(&encode_review("\n\n")).is_empty());
}

#[test]
fn decode_concatenates_leaves_in_order() {
    let leaf = |t: &str| obj(vec![("object", Json::Str(s("text"))), ("text", Json::Str(s(t)))]);
    let doc = obj(vec![(
        "document",
        obj(vec![
            (
                "children",
                Json::Array(vec![
                    obj(vec![
                        ("children", Json::Array(vec![leaf("a"), leaf("b")])),
                        ("object", Json::Str(s("block"))),
                        ("type", Json::Str(s("paragraph"))),
                    ]),
                    obj(vec![("children", Json::Array(vec![leaf("c")])), ("type", Json::Str(s("heading")))]),
                    Json::Number(s("3")),
                    Json::Null,
                    Json::Bool(true),
                ]),
            ),
            ("object", Json::Str(s("document"))),
        ]),
    )]);
    assert_eq!(decode_review(&doc), "\n\nabc");
}

#[test]
fn decode_without_document_is_empty() {
    assert_eq!(decode_review(&obj(vec![])), "");
    assert_eq!(decode_review(&Json::Null), "");
    assert_eq!(node_text_of(&Json::Str(s("loose"))), "");
}

#[test]
fn text_leaf_without_text_reads_as_nothing() {
    let leaf = obj(vec![("object", Json::Str(s("text")))]);
    assert_eq!(node_text_of(&leaf), "");
}

#[test]
fn journal_metadata_review_is_decoded_and_trimmed() {
    let review = obj(vec![
        ("children", Json::Array(vec![obj(vec![("object", Json::Str(s("text"))), ("text", Json::Str(s(" Great ")))])])),
        ("type", Json::Str(s("paragraph"))),
    ]);
    let metadata = obj(vec![("review", review)]);
    assert_eq!(journal_review(&metadata), Some(s("Great")));
    assert_eq!(journal_review(&obj(vec![("other", Json::Null)])), None);
}
