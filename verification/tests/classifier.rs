use portbridge::events::{
    classify, port_file_name_bytes, AccessMode, Classification, CreateKind, EventKind, ModifyKind,
    RawChangeEvent, RemoveKind,
};

fn event(kind: EventKind, path: &[u8]) -> RawChangeEvent {
    RawChangeEvent { kind, paths: vec![path.to_vec()] }
}

#[test]
fn port_file_name_is_forwarded_port() {
    assert_eq!(port_file_name_bytes(), b"forwarded_port".to_vec());
}

#[test]
fn unrelated_file_is_irrelevant() {
    // A file with another name, created in the watched directory, is noise.
    let verdict = classify(&event(EventKind::Create(CreateKind::File), b"/w/notes.txt"));
    assert_eq!(verdict, Classification::Irrelevant);
}

#[test]
fn close_write_on_target_is_settled() {
    let verdict = classify(&event(
        EventKind::AccessClose(AccessMode::Write),
        b"/w/forwarded_port",
    ));
    assert_eq!(
        verdict,
        Classification::SettledWrite(b"/w/forwarded_port".to_vec())
    );
}

#[test]
fn create_file_on_target_is_settled() {
    let verdict = classify(&event(EventKind::Create(CreateKind::File), b"/w/forwarded_port"));
    assert_eq!(
        verdict,
        Classification::SettledWrite(b"/w/forwarded_port".to_vec())
    );
}

#[test]
fn other_kinds_on_target_are_irrelevant() {
    let kinds = [
        EventKind::AccessClose(AccessMode::Read),
        EventKind::AccessClose(AccessMode::Execute),
        EventKind::AccessClose(AccessMode::Any),
        EventKind::AccessClose(AccessMode::Other),
        EventKind::Create(CreateKind::Folder),
        EventKind::Create(CreateKind::Any),
        EventKind::Create(CreateKind::Other),
        EventKind::Modify(ModifyKind::Data),
        EventKind::Modify(ModifyKind::Metadata),
        EventKind::Modify(ModifyKind::Name),
        EventKind::Remove(RemoveKind::File),
        EventKind::Remove(RemoveKind::Folder),
        EventKind::Other,
    ];
    for kind in kinds {
        let verdict = classify(&event(kind, b"/w/forwarded_port"));
        assert_eq!(verdict, Classification::Irrelevant);
    }
}

#[test]
fn name_match_is_by_final_segment_substring() {
    // The name occurring inside the final segment is enough.
    let verdict = classify(&event(
        EventKind::AccessClose(AccessMode::Write),
        b"/w/forwarded_port.tmp",
    ));
    assert_eq!(
        verdict,
        Classification::SettledWrite(b"/w/forwarded_port.tmp".to_vec())
    );
    // A directory named like the target does not make its children relevant.
    let verdict = classify(&event(
        EventKind::AccessClose(AccessMode::Write),
        b"/w/forwarded_port/notes.txt",
    ));
    assert_eq!(verdict, Classification::Irrelevant);
}

#[test]
fn target_deep_in_tree_is_settled() {
    let verdict = classify(&event(
        EventKind::AccessClose(AccessMode::Write),
        b"/w/a/b/forwarded_port",
    ));
    assert_eq!(
        verdict,
        Classification::SettledWrite(b"/w/a/b/forwarded_port".to_vec())
    );
}

#[test]
fn classification_is_pure() {
    // Equal events always receive equal verdicts: no history is consulted.
    let first = classify(&event(EventKind::Create(CreateKind::File), b"/w/forwarded_port"));
    let second = classify(&event(EventKind::Create(CreateKind::File), b"/w/forwarded_port"));
    assert_eq!(first, second);
}
