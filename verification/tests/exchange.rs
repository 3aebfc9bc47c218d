use loro_containers::container::Container;
use loro_containers::doc::LoroDoc;
use loro_containers::err::ErrorKind;
use loro_containers::exchange::EncodedBlobMode;
use loro_containers::exchange::ExportMode;
use loro_containers::exchange::IdSpan;
use loro_containers::undo::CounterSpan;
use loro_containers::value::ContainerType;
use loro_containers::value::LoroValue;
use loro_containers::value::ID;

fn word(s: &str) -> LoroValue {
    LoroValue(loro::LoroValue::from(s))
}

fn two_pushes() -> LoroDoc {
    let mut doc = LoroDoc::new();
    let list = doc.get_list("list");
    list.push(&mut doc, word("A")).unwrap();
    doc.commit();
    list.push(&mut doc, word("B")).unwrap();
    doc.commit();
    doc
}

fn form_in_head(bytes: &[u8]) -> u16 {
    u16::from(bytes[20]) * 256 + u16::from(bytes[21])
}

#[test]
fn exported_bytes_begin_with_the_head() {
    let doc = two_pushes();
    let peer = doc.peer_id();
    let modes = vec![
        (ExportMode::Snapshot, 3),
        (ExportMode::Updates { from: vec![] }, 4),
        (
            ExportMode::UpdatesInRange {
                spans: vec![IdSpan { peer, counter: CounterSpan { start: 0, end: 2 } }],
            },
            4,
        ),
        (ExportMode::ShallowSnapshot { frontiers: vec![ID::new(peer, 1)] }, 3),
        (ExportMode::StateOnly { frontiers: None }, 3),
        (ExportMode::StateOnly { frontiers: Some(vec![ID::new(peer, 1)]) }, 3),
        (ExportMode::SnapshotAt { version: vec![ID::new(peer, 1)] }, 3),
    ];
    for (mode, form) in modes {
        let bytes = doc.export(mode.clone()).unwrap();
        assert!(bytes.len() >= 22, "{:?}", mode);
        assert_eq!(&bytes[..4], b"loro", "{:?}", mode);
        assert_eq!(form_in_head(&bytes), form, "{:?}", mode);
    }
}

#[test]
fn the_form_read_is_one_that_the_head_allows() {
    let doc = two_pushes();
    let peer = doc.peer_id();
    let updates = doc.export(ExportMode::Updates { from: vec![] }).unwrap();
    assert_eq!(form_in_head(&updates), 4);
    assert_eq!(
        LoroDoc::decode_import_blob_meta(&updates, true).unwrap().mode,
        EncodedBlobMode::Updates
    );
    let whole = doc.export(ExportMode::Snapshot).unwrap();
    assert_eq!(form_in_head(&whole), 3);
    assert_eq!(
        LoroDoc::decode_import_blob_meta(&whole, true).unwrap().mode,
        EncodedBlobMode::Snapshot
    );
    let shallow = doc.export(ExportMode::ShallowSnapshot { frontiers: vec![ID::new(peer, 1)] }).unwrap();
    assert_eq!(form_in_head(&shallow), 3);
    let mode = LoroDoc::decode_import_blob_meta(&shallow, true).unwrap().mode;
    assert!(mode == EncodedBlobMode::ShallowSnapshot || mode == EncodedBlobMode::Snapshot);
}

#[test]
fn bytes_without_a_head_are_not_read() {
    let whole = two_pushes().export(ExportMode::Snapshot).unwrap();
    let mut other_letters = whole.clone();
    other_letters[0] = b'L';
    let short: Vec<u8> = whole[..21].to_vec();
    let cases: Vec<Vec<u8>> = vec![vec![], b"nothing".to_vec(), vec![0; 22], other_letters, short];
    for bytes in cases {
        assert_eq!(
            LoroDoc::decode_import_blob_meta(&bytes, true).err(),
            Some(ErrorKind::Other),
            "{:?}",
            bytes
        );
        assert_eq!(
            LoroDoc::decode_import_blob_meta(&bytes, false).err(),
            Some(ErrorKind::Other),
            "{:?}",
            bytes
        );
    }
}

#[test]
fn bytes_without_a_head_are_not_merged() {
    let mut doc = two_pushes();
    let list = doc.get_list("list");
    let before = list.get_deep_value(&doc).unwrap().0;
    let whole = doc.export(ExportMode::Snapshot).unwrap();
    let mut other_letters = whole.clone();
    other_letters[3] = b'O';
    let cases: Vec<Vec<u8>> = vec![vec![], b"nothing".to_vec(), vec![7; 40], other_letters];
    for bytes in cases {
        let mut target = LoroDoc::new();
        assert!(!target.import(&bytes), "{:?}", bytes);
        assert_eq!(target.get_list("list").len(&target), 0);
        assert!(!doc.import(&bytes));
        assert_eq!(list.get_deep_value(&doc).unwrap().0, before);
        assert_eq!(list.len(&doc), 2);
    }
    let mut target = LoroDoc::new();
    let peer = target.peer_id();
    assert!(target.import(&whole));
    assert_eq!(target.get_list("list").len(&target), 2);
    assert_eq!(target.peer_id(), peer);
    assert!(target.peer_id() != doc.peer_id());
}

#[test]
fn a_change_holds_the_operation_asked_for() {
    let doc = two_pushes();
    let peer = doc.peer_id();
    for counter in 0..2 {
        let change = doc.get_change(ID::new(peer, counter)).unwrap();
        assert_eq!(change.id.peer, peer);
        assert!(change.id.counter <= counter);
        assert!(i64::from(counter) < i64::from(change.id.counter) + change.len as i64);
    }
    assert!(doc.get_change(ID::new(peer, 2)).is_none());
    assert!(doc.get_change(ID::new(peer.wrapping_add(1), 0)).is_none());
}

#[test]
fn the_last_editor_is_the_peer_that_wrote_last() {
    let mut a = LoroDoc::new();
    let mut b = LoroDoc::new();
    assert!(a.peer_id() != b.peer_id());
    let map = a.get_map("map");
    assert_eq!(map.get_last_editor(&a, "k"), None);
    map.insert(&mut a, "k", word("one")).unwrap();
    map.insert(&mut a, "only a", word("x")).unwrap();
    a.commit();
    assert_eq!(map.get_last_editor(&a, "k"), Some(a.peer_id()));
    assert!(b.import(&a.export(ExportMode::Updates { from: vec![] }).unwrap()));
    assert_eq!(map.get_last_editor(&b, "k"), Some(a.peer_id()));
    map.insert(&mut b, "k", word("two")).unwrap();
    b.commit();
    assert_eq!(map.get_last_editor(&b, "k"), Some(b.peer_id()));
    assert_eq!(map.get_last_editor(&b, "only a"), Some(a.peer_id()));
    assert!(a.import(&b.export(ExportMode::Updates { from: vec![] }).unwrap()));
    assert_eq!(map.get_last_editor(&a, "k"), Some(b.peer_id()));
    map.delete(&mut a, "k").unwrap();
    assert_eq!(map.get_last_editor(&a, "k"), Some(a.peer_id()));
    assert_eq!(map.get_last_editor(&a, "never"), None);
}

#[test]
fn the_last_editor_of_a_map_that_is_not_held_is_unknown() {
    let mut doc = LoroDoc::new();
    let list = doc.get_list("list");
    let inner = match list.insert_container(&mut doc, 0, ContainerType::Mapping).unwrap() {
        Container::Mapping(m) => m,
        _ => panic!("not a map"),
    };
    inner.insert(&mut doc, "k", word("v")).unwrap();
    assert_eq!(inner.get_last_editor(&doc, "k"), Some(doc.peer_id()));
    let other = LoroDoc::new();
    assert!(!inner.is_attached(&other));
    assert_eq!(inner.get_last_editor(&other, "k"), None);
}

#[test]
fn a_new_container_is_held_by_its_document_alone() {
    let mut doc = LoroDoc::new();
    let other = LoroDoc::new();
    let list = doc.get_list("list");
    let map = doc.get_map("map");
    assert!(list.is_attached(&other));
    assert!(map.is_attached(&other));
    assert!(doc.get_tree("tree").is_attached(&other));
    let kinds = vec![ContainerType::List, ContainerType::Mapping, ContainerType::Tree];
    for kind in kinds {
        let in_list = list.insert_container(&mut doc, 0, kind).unwrap();
        let pushed = list.push_container(&mut doc, kind).unwrap();
        let in_map = map.insert_container(&mut doc, "child", kind).unwrap();
        for c in vec![in_list, pushed, in_map] {
            match c {
                Container::List(l) => {
                    assert!(l.is_attached(&doc));
                    assert!(!l.is_attached(&other));
                },
                Container::Mapping(m) => {
                    assert!(m.is_attached(&doc));
                    assert!(!m.is_attached(&other));
                },
                Container::Tree(t) => {
                    assert!(t.is_attached(&doc));
                    assert!(!t.is_attached(&other));
                },
                _ => panic!("another kind"),
            }
        }
    }
}

#[test]
fn a_mode_with_a_counter_below_zero_is_refused() {
    let doc = two_pushes();
    let peer = doc.peer_id();
    let modes = vec![
        ExportMode::Updates { from: vec![(peer, -1)] },
        ExportMode::Updates { from: vec![(peer, 1), (7, i32::MIN)] },
        ExportMode::UpdatesInRange {
            spans: vec![IdSpan { peer, counter: CounterSpan { start: -1, end: 2 } }],
        },
        ExportMode::UpdatesInRange {
            spans: vec![IdSpan { peer, counter: CounterSpan { start: 0, end: i32::MIN } }],
        },
        ExportMode::ShallowSnapshot { frontiers: vec![ID::new(peer, -5)] },
        ExportMode::StateOnly { frontiers: Some(vec![ID::new(peer, -1)]) },
        ExportMode::SnapshotAt { version: vec![ID::new(peer, 1), ID::new(peer, -1)] },
    ];
    for mode in modes {
        assert!(!mode.is_numbered(), "{:?}", mode);
        assert_eq!(doc.export(mode.clone()).err(), Some(ErrorKind::Other), "{:?}", mode);
    }
    let backwards = ExportMode::UpdatesInRange {
        spans: vec![IdSpan { peer, counter: CounterSpan { start: 2, end: 0 } }],
    };
    assert!(backwards.is_numbered());
    assert!(doc.export(backwards).is_ok());
    assert!(ExportMode::Snapshot.is_numbered());
    assert!(ExportMode::StateOnly { frontiers: None }.is_numbered());
    assert!(doc.get_change(ID::new(peer, -1)).is_none());
    assert!(doc.get_change(ID::new(peer, i32::MIN)).is_none());
}
