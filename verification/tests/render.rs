use loro_containers::container::ValueOrContainer;
use loro_containers::doc::LoroDoc;
use loro_containers::err::ErrorKind;
use loro_containers::event::ContainerDiff;
use loro_containers::event::Diff;
use loro_containers::event::DiffEvent;
use loro_containers::event::EventTriggerKind;
use loro_containers::event::Index;
use loro_containers::event::ListDiffItem;
use loro_containers::event::MapDelta;
use loro_containers::event::PathItem;
use loro_containers::event::TextDelta;
use loro_containers::event::TreeDiff;
use loro_containers::event::TreeDiffItem;
use loro_containers::event::TreeExternalDiff;
use loro_containers::value::ContainerID;
use loro_containers::value::ContainerType;
use loro_containers::value::LoroValue;
use loro_containers::value::TreeID;
use loro_containers::value::TreeParentId;
use loro_containers::value::ID;

fn num(i: i64) -> LoroValue {
    LoroValue(loro::LoroValue::from(i))
}

#[test]
fn identifiers_as_text() {
    assert_eq!(ID::new(5, 2).to_string(), "2@5");
    assert_eq!(ID::new(0, 0).to_string(), "0@0");
    assert_eq!(ID::new(u64::MAX, i32::MAX).to_string(), format!("{}@{}", i32::MAX, u64::MAX));
    assert_eq!(ID::new(10, i32::MIN).to_string(), format!("{}@10", i32::MIN));
    assert_eq!(ID::new(1234567890, -907).to_string(), "-907@1234567890");
    assert_eq!(TreeID::new(7, 100).to_string(), "100@7");
    assert_eq!(ContainerID::new_root("notes", ContainerType::Mapping).to_string(), "cid:root-notes:Map");
    assert_eq!(ContainerID::new_normal(ID::new(9, 4), ContainerType::MovableList).to_string(), "cid:4@9:MovableList");
    assert_eq!(ContainerID::new_normal(ID::new(9, 4), ContainerType::Unknown(42)).to_string(), "cid:4@9:Unknown(42)");
    let theirs = loro::ContainerID::new_normal(loro::ID::new(9, 4), loro::ContainerType::Tree);
    assert_eq!(ContainerID::new_normal(ID::new(9, 4), ContainerType::Tree).to_string(), theirs.to_string());
    let theirs = loro::ContainerID::new_root("notes", loro::ContainerType::Text);
    assert_eq!(ContainerID::new_root("notes", ContainerType::Text).to_string(), theirs.to_string());
}

#[test]
fn error_names() {
    assert_eq!(ErrorKind::ContainerNotFound.name(), "ContainerNotFound");
    assert_eq!(ErrorKind::TreeNodeNotExist.name(), "TreeNodeNotExist");
    assert_eq!(ErrorKind::CyclicMoveRejected.name(), "CyclicMoveRejected");
    assert_eq!(ErrorKind::FractionalIndexDisabled.name(), "FractionalIndexDisabled");
    assert_eq!(ErrorKind::KeyExhausted.name(), "KeyExhausted");
    assert_eq!(ErrorKind::IndexOutOfBounds.name(), "IndexOutOfBounds");
    assert_eq!(ErrorKind::InvalidValueType.name(), "InvalidValueType");
    assert_eq!(ErrorKind::Other.name(), "Other");
}

#[test]
fn steps_of_a_path_as_text() {
    assert_eq!(Index::Key("k".to_string()).to_string(), "Key(key='k')");
    assert_eq!(Index::Sequence(3).to_string(), "Seq(index=3)");
    assert_eq!(Index::Sequence(u32::MAX).to_string(), "Seq(index=4294967295)");
    assert_eq!(Index::Node(TreeID::new(5, 2)).to_string(), "Node(target=2@5)");
    let item = PathItem { container: ContainerID::new_root("l", ContainerType::List), index: Index::Sequence(0) };
    assert_eq!(item.to_string(), "PathItem(container=cid:root-l:List, index=Seq(index=0))");
}

#[test]
fn tree_changes_as_text() {
    let node = TreeParentId::Node(TreeID::new(12, 3));
    let create = TreeExternalDiff::Create { parent: TreeParentId::Root, index: 1, fractional_index: "80".to_string() };
    assert_eq!(create.to_string(), "Create(parent=Root, index=1, fractional_index='80')");
    let mov = TreeExternalDiff::Move {
        parent: node,
        index: 0,
        fractional_index: "8180".to_string(),
        old_parent: TreeParentId::Deleted,
        old_index: 7,
    };
    assert_eq!(
        mov.to_string(),
        format!(
            "Move(parent={:?}, index=0, fractional_index='8180', old_parent={:?}, old_index=7)",
            node,
            TreeParentId::Deleted
        )
    );
    assert_eq!(
        mov.to_string(),
        "Move(parent=Node(TreeID { peer: 12, counter: 3 }), index=0, fractional_index='8180', old_parent=Deleted, old_index=7)"
    );
    let delete = TreeExternalDiff::Delete { old_parent: TreeParentId::Unexist, old_index: 0 };
    assert_eq!(delete.to_string(), "Delete(old_parent=Unexist, old_index=0)");
    let item = TreeDiffItem { target: TreeID::new(1, 0), action: delete.clone() };
    assert_eq!(item.to_string(), "TreeDiffItem(target=0@1, action=Delete(old_parent=Unexist, old_index=0))");
    let diff = TreeDiff { diff: vec![item.clone(), TreeDiffItem { target: TreeID::new(1, 1), action: create }] };
    assert_eq!(
        diff.to_string(),
        "TreeDiff(diff=[TreeDiffItem(target=0@1, action=Delete(old_parent=Unexist, old_index=0)), TreeDiffItem(target=1@1, action=Create(parent=Root, index=1, fractional_index='80'))])"
    );
    assert_eq!(TreeDiff { diff: vec![] }.to_string(), "TreeDiff(diff=[])");
    assert_eq!(Diff::Tree(TreeDiff { diff: vec![item] }).to_string(), "Tree(TreeDiff(diff=[TreeDiffItem(target=0@1, action=Delete(old_parent=Unexist, old_index=0))]))");
}

#[test]
fn list_and_text_changes_as_text() {
    let insert = ListDiffItem::Insert {
        insert: vec![ValueOrContainer::Value(num(1)), ValueOrContainer::Value(num(2))],
        is_move: false,
    };
    assert_eq!(insert.to_string(), "Insert(insert=[I64(1), I64(2)], is_move=false)");
    let moved = ListDiffItem::Insert { insert: vec![], is_move: true };
    assert_eq!(moved.to_string(), "Insert(insert=[], is_move=true)");
    assert_eq!(ListDiffItem::Delete { delete: 12 }.to_string(), "Delete(delete=12)");
    assert_eq!(ListDiffItem::Retain { retain: 0 }.to_string(), "Retain(retain=0)");
    let diff = Diff::List(vec![ListDiffItem::Retain { retain: 1 }, ListDiffItem::Delete { delete: 2 }]);
    assert_eq!(diff.to_string(), "List([Retain(retain=1), Delete(delete=2)])");
    assert_eq!(Diff::List(vec![]).to_string(), "List([])");

    let plain = TextDelta::Retain { retain: 4, attributes: None };
    assert_eq!(plain.to_string(), "Retain(retain=4, attributes=None)");
    let bold = TextDelta::Insert {
        insert: "hi".to_string(),
        attributes: Some(vec![
            ("bold".to_string(), LoroValue(loro::LoroValue::from(true))),
            ("size".to_string(), num(3)),
        ]),
    };
    assert_eq!(bold.to_string(), "Insert(insert='hi', attributes={'bold': Bool(true), 'size': I64(3)})");
    let none = TextDelta::Insert { insert: String::new(), attributes: Some(vec![]) };
    assert_eq!(none.to_string(), "Insert(insert='', attributes={})");
    assert_eq!(TextDelta::Delete { delete: 9 }.to_string(), "Delete(delete=9)");
    let diff = Diff::Text(vec![plain, TextDelta::Delete { delete: 9 }]);
    assert_eq!(diff.to_string(), "Text([Retain(retain=4, attributes=None), Delete(delete=9)])");
}

#[test]
fn map_and_counter_changes_as_text() {
    let mut doc = LoroDoc::new();
    let list = doc.get_list("l");
    let child = list.push_container(&mut doc, ContainerType::Text).unwrap();
    let cid = child.id().to_string();
    let delta = MapDelta {
        updated: vec![
            ("a".to_string(), Some(ValueOrContainer::Value(num(1)))),
            ("b".to_string(), None),
            ("c".to_string(), Some(ValueOrContainer::Container(child))),
        ],
    };
    let expected = format!("MapDelta(updated={{'a': I64(1), 'b': None, 'c': Container({})}})", cid);
    assert_eq!(delta.to_string(), expected);
    assert_eq!(Diff::Mapping(delta).to_string(), format!("Map({})", expected));
    assert_eq!(MapDelta { updated: vec![] }.to_string(), "MapDelta(updated={})");
    assert_eq!(Diff::Counter(LoroValue(loro::LoroValue::Double(1.5))).to_string(), "Counter(1.5)");
    assert_eq!(Diff::Counter(LoroValue(loro::LoroValue::Double(-2.0))).to_string(), "Counter(-2)");
    assert_eq!(Diff::Unknown.to_string(), "Unknown()");
    assert_eq!(LoroValue(loro::LoroValue::Null).to_string(), "Null");
    assert_eq!(ValueOrContainer::Value(num(-4)).to_string(), "I64(-4)");
}

#[test]
fn events_as_text() {
    assert_eq!(EventTriggerKind::Local.to_string(), "Local");
    assert_eq!(EventTriggerKind::Import.to_string(), "Import");
    assert_eq!(EventTriggerKind::Checkout.to_string(), "Checkout");
    let first = ContainerDiff {
        target: ContainerID::new_root("l", ContainerType::List),
        path: vec![PathItem {
            container: ContainerID::new_root("l", ContainerType::List),
            index: Index::Key("l".to_string()),
        }],
        is_unknown: false,
        diff: Diff::List(vec![ListDiffItem::Delete { delete: 1 }]),
    };
    let first_text = "ContainerDiff(target=cid:root-l:List, path=[PathItem(container=cid:root-l:List, index=Key(key='l'))], is_unknown=false, diff=List([Delete(delete=1)]))";
    assert_eq!(first.to_string(), first_text);
    let second = ContainerDiff {
        target: ContainerID::new_normal(ID::new(3, 1), ContainerType::Unknown(9)),
        path: vec![],
        is_unknown: true,
        diff: Diff::Unknown,
    };
    let second_text = "ContainerDiff(target=cid:1@3:Unknown(9), path=[], is_unknown=true, diff=Unknown())";
    assert_eq!(second.to_string(), second_text);
    let event = DiffEvent {
        triggered_by: EventTriggerKind::Import,
        origin: "sync".to_string(),
        current_target: Some(ContainerID::new_root("l", ContainerType::List)),
        events: vec![first, second],
    };
    assert_eq!(
        event.to_string(),
        format!(
            "DiffEvent(triggered_by=Import, origin='sync', current_target=cid:root-l:List, events={}, {})",
            first_text, second_text
        )
    );
    let empty = DiffEvent {
        triggered_by: EventTriggerKind::Checkout,
        origin: String::new(),
        current_target: None,
        events: vec![],
    };
    assert_eq!(empty.to_string(), "DiffEvent(triggered_by=Checkout, origin='', current_target=None, events=)");
}

#[test]
fn a_reported_event_as_text() {
    let mut doc = LoroDoc::new();
    let tree = doc.get_tree("t");
    let seen = std::sync::Arc::new(std::sync::Mutex::new(Vec::new()));
    let sink = seen.clone();
    let _sub = doc.subscribe_root(move |e: DiffEvent| sink.lock().unwrap().push(e.to_string()));
    let a = tree.create(&mut doc, TreeParentId::Root).unwrap();
    doc.commit();
    let key = tree.fractional_index(&doc, a).unwrap();
    let seen = seen.lock().unwrap();
    assert_eq!(
        seen[0],
        format!(
            "DiffEvent(triggered_by=Local, origin='', current_target=None, events=ContainerDiff(target=cid:root-t:Tree, path=[PathItem(container=cid:root-t:Tree, index=Key(key='t'))], is_unknown=false, diff=Tree(TreeDiff(diff=[TreeDiffItem(target={}, action=Create(parent=Root, index=0, fractional_index='{}'))]))))",
            a.to_string(),
            key
        )
    );
}

#[test]
fn values_compare_by_content() {
    let a = LoroValue(loro::LoroValue::from(vec![loro::LoroValue::from(1), loro::LoroValue::from("x")]));
    let b = LoroValue(loro::LoroValue::from(vec![loro::LoroValue::from(1), loro::LoroValue::from("x")]));
    let c = LoroValue(loro::LoroValue::from(vec![loro::LoroValue::from(1), loro::LoroValue::from("y")]));
    assert!(a.equals(&b));
    assert!(!a.equals(&c));
    assert!(a.duplicate().equals(&a));
    assert!(!num(1).equals(&LoroValue(loro::LoroValue::from(true))));
    assert!(ContainerID::new_root("a", ContainerType::List).same(&ContainerID::new_root("a", ContainerType::List)));
    assert!(!ContainerID::new_root("a", ContainerType::List).same(&ContainerID::new_root("a", ContainerType::Text)));
    assert!(!ContainerID::new_root("a", ContainerType::List).same(&ContainerID::new_normal(ID::new(1, 1), ContainerType::List)));
    let id = ContainerID::new_normal(ID::new(1, 1), ContainerType::Counter);
    assert!(id.duplicate().same(&id));
    assert!(!id.is_root());
    assert_eq!(id.container_type(), ContainerType::Counter);
    assert_eq!(ContainerType::from_code(ContainerType::Tree.code()), ContainerType::Tree);
    assert_eq!(ContainerType::from_code(77), ContainerType::Unknown(77));
    assert_eq!(ContainerType::Unknown(3).code(), 3);
    assert_eq!(loro_containers::key::ContainerKey::of(&id).id(), id);
    let key = loro_containers::key::ContainerKey::of(&ContainerID::new_root("r", ContainerType::Mapping));
    assert_eq!(key.duplicate().id(), ContainerID::new_root("r", ContainerType::Mapping));
}
