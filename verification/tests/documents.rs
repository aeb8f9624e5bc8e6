use markflow::documents::{encode_untitled_doc, has_json_extension, untitled_doc_file_name, UntitledDoc};
use markflow::drafts::{
    draft_file_name_for, draft_hash_key, encode_draft, settle_draft, uri_write_outcome, DraftLoad,
    DraftRead, DraftSave, DraftSaveEvent, DraftSaveStep, UriWriteReply,
};

#[test]
fn untitled_doc_is_written_as_json_in_field_order() {
    let doc = UntitledDoc {
        id: "u-1".to_string(),
        name: "Untitled 1".to_string(),
        content: "# Title\n\"quoted\"".to_string(),
    };
    assert_eq!(
        encode_untitled_doc(&doc),
        "{\"id\":\"u-1\",\"name\":\"Untitled 1\",\"content\":\"# Title\\n\\\"quoted\\\"\"}"
    );
    let back: serde_json::Value = serde_json::from_str(&encode_untitled_doc(&doc)).unwrap();
    assert_eq!(back["content"], serde_json::Value::String(doc.content.clone()));
}

#[test]
fn untitled_doc_file_names() {
    assert_eq!(untitled_doc_file_name("u-1"), "u-1.json");
    assert!(has_json_extension(&untitled_doc_file_name("u-1")));
}

#[test]
fn json_extension_follows_path_extension() {
    for name in ["a.json", "..json", "a.b.json", "x.json", ".a.json", "", ".json", "a.JSON", "json", "a.json.bak", "a.", "..", "."] {
        let expected = std::path::Path::new(name).extension().map_or(false, |e| e == "json");
        assert_eq!(has_json_extension(name), expected, "{}", name);
    }
    assert!(has_json_extension("a.json"));
    assert!(!has_json_extension(".json"));
}

#[test]
fn draft_key_and_file_name() {
    assert_eq!(draft_hash_key(""), "untitled");
    assert_eq!(draft_hash_key("content://doc/1"), "content://doc/1");
    assert_eq!(draft_file_name_for(0xff), "00000000000000ff.json");
    assert_eq!(draft_file_name_for(u64::MAX), "ffffffffffffffff.json");
}

#[test]
fn draft_is_written_with_sorted_keys() {
    let text = encode_draft("content://a", "a.md", "hi\n", 1_712_345_678_901);
    let mut obj = serde_json::Map::new();
    obj.insert("uri".to_string(), serde_json::Value::String("content://a".to_string()));
    obj.insert("name".to_string(), serde_json::Value::String("a.md".to_string()));
    obj.insert("content".to_string(), serde_json::Value::String("hi\n".to_string()));
    obj.insert("updatedAt".to_string(), serde_json::Value::from(1_712_345_678_901u64));
    assert_eq!(text, serde_json::to_string(&serde_json::Value::Object(obj)).unwrap());
}

#[test]
fn drafts_are_settled() {
    assert!(matches!(settle_draft(DraftRead::Missing), DraftLoad::Absent));
    assert!(matches!(settle_draft(DraftRead::Unreadable("denied".to_string())), DraftLoad::Failed(e) if e == "denied"));
    assert!(matches!(settle_draft(DraftRead::Contents("{\"uri\":\"".to_string())), DraftLoad::Corrupted));
    match settle_draft(DraftRead::Contents("{\"name\":\"a.md\"}".to_string())) {
        DraftLoad::Draft(v) => assert_eq!(v["name"], serde_json::Value::String("a.md".to_string())),
        other => panic!("{:?}", other),
    }
    assert!(matches!(settle_draft(DraftRead::Contents("null".to_string())), DraftLoad::Draft(serde_json::Value::Null)));
}

#[test]
fn uri_write_outcomes() {
    assert_eq!(uri_write_outcome(UriWriteReply { ok: Some(true), error: None }), Ok(()));
    assert_eq!(
        uri_write_outcome(UriWriteReply { ok: Some(false), error: Some("denied".to_string()) }),
        Err("denied".to_string())
    );
    assert_eq!(
        uri_write_outcome(UriWriteReply { ok: None, error: None }),
        Err("Unknown error writing file".to_string())
    );
}

#[test]
fn different_uris_get_different_draft_slots() {
    assert_ne!(draft_hash_key("content://a"), draft_hash_key("content://b"));
    assert_eq!(draft_hash_key(""), draft_hash_key("untitled"));
    assert_ne!(draft_file_name_for(1), draft_file_name_for(16));
}

#[test]
fn saved_draft_loads_back_with_its_fields() {
    for uri in ["", "content://doc/7"] {
        let text = encode_draft(uri, "notes.md", "# Hi\n\"x\"\t\u{1}", 1_712_345_678_901);
        match settle_draft(DraftRead::Contents(text.clone())) {
            DraftLoad::Draft(v) => {
                assert_eq!(v, serde_json::from_str::<serde_json::Value>(&text).unwrap());
                assert_eq!(v["uri"], serde_json::Value::String(uri.to_string()));
                assert_eq!(v["name"], serde_json::Value::String("notes.md".to_string()));
                assert_eq!(v["content"], serde_json::Value::String("# Hi\n\"x\"\t\u{1}".to_string()));
                assert_eq!(v["updatedAt"], serde_json::Value::from(1_712_345_678_901u64));
            }
            other => panic!("{:?}", other),
        }
    }
    let largest = encode_draft("u", "n", "c", u64::MAX as u128);
    assert!(largest.contains(&format!("\"updatedAt\":{}", u64::MAX)));
}

#[test]
fn saved_untitled_docs_load_back() {
    let docs = [
        UntitledDoc { id: "a".to_string(), name: "Untitled 1".to_string(), content: "x\ny".to_string() },
        UntitledDoc { id: "b".to_string(), name: "\"odd\" name".to_string(), content: "\\\u{7}".to_string() },
    ];
    for doc in &docs {
        let text = encode_untitled_doc(doc);
        let v: serde_json::Value = serde_json::from_str(&text).unwrap();
        assert_eq!(v["id"], serde_json::Value::String(doc.id.clone()));
        assert_eq!(v["name"], serde_json::Value::String(doc.name.clone()));
        assert_eq!(v["content"], serde_json::Value::String(doc.content.clone()));
        assert!(has_json_extension(&untitled_doc_file_name(&doc.id)));
    }
}

#[test]
fn draft_save_writes_temp_then_replaces() {
    let (mut save, step) = DraftSave::save_android_draft("content://a", "a.md", "x", 5);
    assert_eq!(step, DraftSaveStep::PrepareDirectory);
    let step = save.resume(DraftSaveEvent::DirectoryReady(Ok(())));
    assert_eq!(step, DraftSaveStep::WriteTemp(encode_draft("content://a", "a.md", "x", 5)));
    assert_eq!(save.resume(DraftSaveEvent::TempWritten(Ok(()))), DraftSaveStep::ReplaceDraft);
    assert_eq!(save.resume(DraftSaveEvent::DraftReplaced(Ok(()))), DraftSaveStep::Finish(Ok(())));
}

#[test]
fn draft_save_errors_pass_through() {
    let (mut save, _) = DraftSave::save_android_draft("", "n", "c", 0);
    assert_eq!(
        save.resume(DraftSaveEvent::DirectoryReady(Err("no dir".to_string()))),
        DraftSaveStep::Finish(Err("no dir".to_string()))
    );
    let (mut save, _) = DraftSave::save_android_draft("", "n", "c", 0);
    save.resume(DraftSaveEvent::DirectoryReady(Ok(())));
    assert_eq!(
        save.resume(DraftSaveEvent::TempWritten(Err("full".to_string()))),
        DraftSaveStep::Finish(Err("full".to_string()))
    );
    let (mut save, _) = DraftSave::save_android_draft("", "n", "c", 0);
    save.resume(DraftSaveEvent::DirectoryReady(Ok(())));
    save.resume(DraftSaveEvent::TempWritten(Ok(())));
    assert_eq!(
        save.resume(DraftSaveEvent::DraftReplaced(Err("busy".to_string()))),
        DraftSaveStep::Finish(Err("busy".to_string()))
    );
}
