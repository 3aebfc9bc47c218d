use loro_containers::container::tree::LoroTree;
use loro_containers::doc::LoroDoc;
use loro_containers::event::DiffEvent;
use loro_containers::event::EventTriggerKind;
use loro_containers::exchange::EncodedBlobMode;
use loro_containers::exchange::ExportMode;
use loro_containers::exchange::IdSpan;
use loro_containers::undo::CounterSpan;
use loro_containers::value::ID;
use loro_containers::value::LoroValue;
use loro_containers::value::TreeID;
use loro_containers::value::TreeParentId;

fn note(s: &str) -> LoroValue {
    LoroValue(loro::LoroValue::from(s))
}

fn state(doc: &LoroDoc) -> (Vec<loro::LoroValue>, loro::LoroValue, loro::LoroValue, Vec<(TreeID, TreeParentId, String, usize)>) {
    let list = doc.get_list("list");
    let map = doc.get_map("map");
    let tree = doc.get_tree("tree");
    let mut nodes: Vec<_> = tree
        .get_nodes(doc, true)
        .into_iter()
        .map(|n| (n.id, n.parent, n.fractional_index, n.index))
        .collect();
    nodes.sort_by_key(|n| (n.0.peer, n.0.counter));
    (
        list.to_vec(doc).into_iter().map(|v| v.0).collect(),
        map.get_deep_value(doc).unwrap().0,
        tree.get_value(doc).unwrap().0,
        nodes,
    )
}

fn no_cycle(doc: &LoroDoc, tree: &LoroTree) {
    let nodes = tree.nodes(doc);
    for start in nodes.iter() {
        let mut at = *start;
        let mut steps = 0;
        while let Some(TreeParentId::Node(p)) = tree.parent(doc, at) {
            assert!(p != *start, "a node is its own ancestor");
            at = p;
            steps += 1;
            assert!(steps <= nodes.len());
        }
    }
}

#[test]
fn replicas_converge_in_any_order_of_merging() {
    let mut a = LoroDoc::new();
    let mut b = LoroDoc::new();
    let (la, ma, ta) = (a.get_list("list"), a.get_map("map"), a.get_tree("tree"));
    let (lb, mb, tb) = (b.get_list("list"), b.get_map("map"), b.get_tree("tree"));
    let x = ta.create(&mut a, TreeParentId::Root).unwrap();
    let y = ta.create(&mut a, TreeParentId::Root).unwrap();
    la.push(&mut a, note("shared")).unwrap();
    ma.insert(&mut a, "k", note("first")).unwrap();
    a.commit();
    assert!(b.import(&a.export(ExportMode::Updates { from: vec![] }).unwrap()));
    assert_eq!(state(&a), state(&b));

    ta.mov(&mut a, x, TreeParentId::Node(y)).unwrap();
    la.insert(&mut a, 0, note("from a")).unwrap();
    ma.insert(&mut a, "k", note("a")).unwrap();
    ta.create_at(&mut a, TreeParentId::Root, 0).unwrap();
    a.commit();
    tb.mov(&mut b, y, TreeParentId::Node(x)).unwrap();
    lb.insert(&mut b, 0, note("from b")).unwrap();
    mb.insert(&mut b, "k", note("b")).unwrap();
    tb.create_at(&mut b, TreeParentId::Root, 0).unwrap();
    tb.delete(&mut b, x).unwrap();
    b.commit();

    let from_a = a.export(ExportMode::Updates { from: vec![] }).unwrap();
    let from_b = b.export(ExportMode::Updates { from: vec![] }).unwrap();
    let mut c = LoroDoc::new();
    let mut d = LoroDoc::new();
    assert!(c.import(&from_a));
    assert!(c.import(&from_b));
    assert!(d.import(&from_b));
    assert!(d.import(&from_a));
    assert!(a.import(&from_b));
    assert!(b.import(&from_a));
    assert!(a.import(&from_b));
    let reference = state(&a);
    assert_eq!(state(&b), reference);
    assert_eq!(state(&c), reference);
    assert_eq!(state(&d), reference);
    assert_eq!(reference.0.len(), 3);
    for doc in [&a, &b, &c, &d] {
        no_cycle(doc, &doc.get_tree("tree"));
    }
    let xy = (ta.parent(&a, x), ta.parent(&a, y));
    assert!(xy.0 != Some(TreeParentId::Node(y)) || xy.1 != Some(TreeParentId::Node(x)));
}

#[test]
fn merged_changes_are_reported_as_imports() {
    let mut a = LoroDoc::new();
    let list = a.get_list("list");
    list.push(&mut a, note("A")).unwrap();
    a.commit();
    let mut b = LoroDoc::new();
    let seen = std::sync::Arc::new(std::sync::Mutex::new(Vec::new()));
    let sink = seen.clone();
    let _sub = b.subscribe_root(move |e: DiffEvent| sink.lock().unwrap().push(e.triggered_by));
    assert!(b.import(&a.export(ExportMode::Updates { from: vec![] }).unwrap()));
    assert!(!b.import(b"not an update"));
    assert_eq!(*seen.lock().unwrap(), vec![EventTriggerKind::Import]);
    assert_eq!(b.get_list("list").len(&b), 1);
    assert!(a.peer_id() != b.peer_id());
}

#[test]
fn keys_with_jitter_seldom_collide() {
    let mut keys = std::collections::HashSet::new();
    let trials = 1000;
    for _ in 0..trials {
        let mut doc = LoroDoc::new();
        let tree = doc.get_tree("tree");
        tree.disable_fractional_index(&mut doc);
        tree.enable_fractional_index(&mut doc, 8);
        tree.create(&mut doc, TreeParentId::Root).unwrap();
        tree.create(&mut doc, TreeParentId::Root).unwrap();
        let mid = tree.create_at(&mut doc, TreeParentId::Root, 1).unwrap();
        let roots = tree.roots(&doc);
        assert_eq!(roots[1], mid);
        let low = tree.fractional_index(&doc, roots[0]).unwrap();
        let key = tree.fractional_index(&doc, mid).unwrap();
        let high = tree.fractional_index(&doc, roots[2]).unwrap();
        assert!(low < key && key < high);
        keys.insert(key);
    }
    assert!(keys.len() * 100 >= trials * 99, "{} distinct keys", keys.len());
}

#[test]
fn keys_without_jitter_are_the_same_everywhere() {
    let mut keys = std::collections::HashSet::new();
    for _ in 0..20 {
        let mut doc = LoroDoc::new();
        let tree = doc.get_tree("tree");
        tree.create(&mut doc, TreeParentId::Root).unwrap();
        tree.create(&mut doc, TreeParentId::Root).unwrap();
        let mid = tree.create_at(&mut doc, TreeParentId::Root, 1).unwrap();
        keys.insert(tree.fractional_index(&doc, mid).unwrap());
    }
    assert_eq!(keys.len(), 1);
}

#[test]
fn exports_in_every_mode_can_be_imported() {
    let mut a = LoroDoc::new();
    let list = a.get_list("list");
    list.push(&mut a, note("A")).unwrap();
    a.commit();
    let first = list.get_id_at(&a, 0).unwrap();
    list.push(&mut a, note("B")).unwrap();
    a.commit();
    let peer = a.peer_id();
    let modes = vec![
        ExportMode::Snapshot,
        ExportMode::Updates { from: vec![] },
        ExportMode::UpdatesInRange {
            spans: vec![IdSpan { peer, counter: CounterSpan { start: 0, end: 2 } }],
        },
        ExportMode::ShallowSnapshot { frontiers: vec![ID::new(peer, 1)] },
        ExportMode::StateOnly { frontiers: None },
        ExportMode::SnapshotAt { version: vec![ID::new(peer, 1)] },
    ];
    for mode in modes {
        let bytes = a.export(mode.clone()).unwrap();
        let mut b = LoroDoc::new();
        assert!(b.import(&bytes), "{:?}", mode);
        assert_eq!(state(&b).0, state(&a).0, "{:?}", mode);
    }
    let partial = a.export(ExportMode::Updates { from: vec![(peer, 1)] }).unwrap();
    let meta = LoroDoc::decode_import_blob_meta(&partial, true).unwrap();
    assert_eq!(meta.mode, EncodedBlobMode::Updates);
    assert_eq!(meta.change_num, 1);
    assert_eq!(meta.partial_start_vv, vec![(peer, 1)]);
    assert_eq!(meta.partial_end_vv, vec![(peer, 2)]);
    assert_eq!(meta.start_frontiers, vec![first]);
    let whole = a.export(ExportMode::Snapshot).unwrap();
    assert_eq!(LoroDoc::decode_import_blob_meta(&whole, true).unwrap().mode, EncodedBlobMode::Snapshot);
    assert!(LoroDoc::decode_import_blob_meta(b"nothing", true).is_err());
    assert_eq!(
        a.export(ExportMode::SnapshotAt { version: vec![ID::new(77, 5)] }).err(),
        Some(loro_containers::err::ErrorKind::Other)
    );
    let change = a.get_change(first).unwrap();
    assert_eq!(change.id.peer, peer);
    assert!(change.len >= 1);
    assert_eq!(change.message, None);
    assert!(a.get_change(ID::new(77, 5)).is_none());
    assert_eq!(EncodedBlobMode::from_code(1), EncodedBlobMode::OutdatedSnapshot);
    assert_eq!(EncodedBlobMode::from_code(2), EncodedBlobMode::ShallowSnapshot);
    assert_eq!(EncodedBlobMode::from_code(3), EncodedBlobMode::OutdatedRle);
}
