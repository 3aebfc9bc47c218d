use loro_containers::container::list::LoroList;
use loro_containers::container::Container;
use loro_containers::container::ValueOrContainer;
use loro_containers::doc::LoroDoc;
use loro_containers::err::ErrorKind;
use loro_containers::value::ContainerID;
use loro_containers::value::ContainerType;
use loro_containers::value::LoroValue;
use loro_containers::value::Side;

fn setup() -> (LoroDoc, LoroList) {
    let doc = LoroDoc::new();
    let list = doc.get_list("list");
    (doc, list)
}

fn text(s: &str) -> LoroValue {
    LoroValue(loro::LoroValue::from(s))
}

fn values(doc: &LoroDoc, list: &LoroList) -> Vec<loro::LoroValue> {
    list.to_vec(doc).into_iter().map(|v| v.0).collect()
}

fn abc(doc: &mut LoroDoc, list: &LoroList) {
    list.push(doc, text("A")).unwrap();
    list.push(doc, text("B")).unwrap();
    list.push(doc, text("C")).unwrap();
}

#[test]
fn cursor_follows_its_item() {
    let (mut doc, list) = setup();
    abc(&mut doc, &list);
    let cursor = list.get_cursor(&doc, 1, Side::Middle).unwrap();
    assert_eq!(cursor.id(), list.get_id_at(&doc, 1));
    assert_eq!(cursor.side(), Side::Middle);
    assert_eq!(cursor.container(), list.id());
    assert_eq!(doc.get_cursor_pos(&cursor).unwrap().current.pos, 1);
    list.insert(&mut doc, 0, text("X")).unwrap();
    let found = doc.get_cursor_pos(&cursor).unwrap();
    assert_eq!(found.current.pos, 2);
    assert!(found.update.is_none());
    list.delete(&mut doc, 0, 2).unwrap();
    assert_eq!(values(&doc, &list), vec![loro::LoroValue::from("B"), loro::LoroValue::from("C")]);
    let found = doc.get_cursor_pos(&cursor).unwrap();
    assert_eq!(found.current.pos, 0);
    assert_eq!(found.current.side, Side::Middle);
    assert!(found.update.is_none());
}

#[test]
fn cursor_of_a_deleted_item_finds_a_neighbour() {
    let (mut doc, list) = setup();
    abc(&mut doc, &list);
    let cursor = list.get_cursor(&doc, 1, Side::Middle).unwrap();
    list.delete(&mut doc, 1, 1).unwrap();
    let found = doc.get_cursor_pos(&cursor).unwrap();
    assert!(found.current.pos <= 2);
    assert_eq!(found.current.pos, 1);
    let fresh = found.update.unwrap();
    assert_eq!(fresh.id(), list.get_id_at(&doc, 1));
    assert_eq!(doc.get_cursor_pos(&fresh).unwrap().current.pos, 1);
    list.clear(&mut doc).unwrap();
    let found = doc.get_cursor_pos(&cursor).unwrap();
    assert_eq!(found.current.pos, 0);
}

#[test]
fn cursors_at_the_ends() {
    let (mut doc, list) = setup();
    let empty = list.get_cursor(&doc, 0, Side::Middle).unwrap();
    assert_eq!(empty.id(), None);
    assert_eq!(empty.side(), Side::Left);
    assert_eq!(doc.get_cursor_pos(&empty).unwrap().current.pos, 0);
    assert!(list.get_cursor(&doc, 1, Side::Middle).is_none());
    abc(&mut doc, &list);
    let end = list.get_cursor(&doc, 3, Side::Left).unwrap();
    assert_eq!(end.id(), None);
    assert_eq!(end.side(), Side::Right);
    assert_eq!(doc.get_cursor_pos(&end).unwrap().current.pos, 3);
    assert_eq!(doc.get_cursor_pos(&empty).unwrap().current.pos, 0);
    assert!(list.get_cursor(&doc, 4, Side::Middle).is_none());
    list.push(&mut doc, text("D")).unwrap();
    assert_eq!(doc.get_cursor_pos(&end).unwrap().current.pos, 4);
    let copy = end.duplicate();
    assert_eq!(copy.0, end.0);
}

#[test]
fn insert_and_delete_by_position() {
    let (mut doc, list) = setup();
    assert!(list.is_empty(&doc));
    assert!(list.is_attached(&doc));
    assert_eq!(list.insert(&mut doc, 1, text("A")), Err(ErrorKind::IndexOutOfBounds));
    assert_eq!(list.insert(&mut doc, 0, text("B")), Ok(()));
    assert_eq!(list.insert(&mut doc, 0, text("A")), Ok(()));
    assert_eq!(list.insert(&mut doc, 2, text("C")), Ok(()));
    assert_eq!(list.len(&doc), 3);
    assert_eq!(
        values(&doc, &list),
        vec![loro::LoroValue::from("A"), loro::LoroValue::from("B"), loro::LoroValue::from("C")]
    );
    assert_eq!(list.delete(&mut doc, 2, 2), Err(ErrorKind::IndexOutOfBounds));
    assert_eq!(list.delete(&mut doc, usize::MAX, 2), Err(ErrorKind::IndexOutOfBounds));
    assert_eq!(list.delete(&mut doc, 9, 0), Ok(()));
    assert_eq!(list.len(&doc), 3);
    assert_eq!(list.delete(&mut doc, 0, 2), Ok(()));
    assert_eq!(values(&doc, &list), vec![loro::LoroValue::from("C")]);
    match list.get(&doc, 0) {
        Some(ValueOrContainer::Value(v)) => assert_eq!(v.0, loro::LoroValue::from("C")),
        _ => panic!("no value at 0"),
    }
    assert!(list.get(&doc, 1).is_none());
    assert_eq!(list.pop(&mut doc).unwrap().unwrap().0, loro::LoroValue::from("C"));
    assert!(list.pop(&mut doc).unwrap().is_none());
    assert!(list.is_empty(&doc));
}

#[test]
fn items_keep_their_inserting_operation() {
    let (mut doc, list) = setup();
    abc(&mut doc, &list);
    let a = list.get_id_at(&doc, 0).unwrap();
    let b = list.get_id_at(&doc, 1).unwrap();
    let c = list.get_id_at(&doc, 2).unwrap();
    assert!(a != b && b != c && a != c);
    assert_eq!(list.get_id_at(&doc, 3), None);
    list.insert(&mut doc, 1, text("X")).unwrap();
    let x = list.get_id_at(&doc, 1).unwrap();
    assert!(x != a && x != b && x != c);
    assert_eq!(list.get_id_at(&doc, 0), Some(a));
    assert_eq!(list.get_id_at(&doc, 2), Some(b));
    assert_eq!(list.get_id_at(&doc, 3), Some(c));
    list.delete(&mut doc, 0, 2).unwrap();
    assert_eq!(list.get_id_at(&doc, 0), Some(b));
    assert_eq!(list.get_id_at(&doc, 1), Some(c));
    assert!(a.precedes(&b) && b.precedes(&c) && c.precedes(&x));
    assert!(!b.precedes(&a) && !a.precedes(&a));
}

#[test]
fn list_refuses_values_that_name_a_container() {
    let (mut doc, list) = setup();
    let cid = loro::ContainerID::new_root("other", loro::ContainerType::List);
    let named = LoroValue(loro::LoroValue::Container(cid.clone()));
    assert_eq!(list.insert(&mut doc, 0, named), Err(ErrorKind::InvalidValueType));
    let nested = LoroValue(loro::LoroValue::from(vec![loro::LoroValue::Container(cid.clone())]));
    assert_eq!(list.push(&mut doc, nested), Err(ErrorKind::InvalidValueType));
    let out_of_range = LoroValue(loro::LoroValue::Container(cid));
    assert_eq!(list.insert(&mut doc, 5, out_of_range), Err(ErrorKind::IndexOutOfBounds));
    assert_eq!(list.len(&doc), 0);
    assert_eq!(list.push(&mut doc, LoroValue(loro::LoroValue::Double(1.5))), Ok(()));
    assert_eq!(values(&doc, &list), vec![loro::LoroValue::Double(1.5)]);
}

#[test]
fn containers_inside_a_list() {
    let (mut doc, list) = setup();
    list.push(&mut doc, text("A")).unwrap();
    let child = list.insert_container(&mut doc, 0, ContainerType::Tree).unwrap();
    let tree = match child {
        Container::Tree(t) => t,
        _ => panic!("not a tree"),
    };
    assert!(matches!(tree.id(), ContainerID::Normal { container_type: ContainerType::Tree, .. }));
    assert!(tree.is_attached(&doc));
    let root = tree.create(&mut doc, loro_containers::value::TreeParentId::Root).unwrap();
    assert_eq!(tree.roots(&doc), vec![root]);
    match list.get(&doc, 0) {
        Some(ValueOrContainer::Container(c)) => {
            assert_eq!(c.id(), tree.id());
            assert_eq!(c.get_type(), ContainerType::Tree);
        }
        _ => panic!("no container at 0"),
    }
    let pushed = list.push_container(&mut doc, ContainerType::Mapping).unwrap();
    assert_eq!(pushed.get_type(), ContainerType::Mapping);
    assert_eq!(list.len(&doc), 3);
    match list.get(&doc, 2) {
        Some(ValueOrContainer::Container(c)) => assert_eq!(c.id(), pushed.id()),
        _ => panic!("no container at 2"),
    }
    assert_eq!(
        list.insert_container(&mut doc, 0, ContainerType::Unknown(9)).err(),
        Some(ErrorKind::InvalidValueType)
    );
    assert_eq!(
        list.insert_container(&mut doc, 7, ContainerType::List).err(),
        Some(ErrorKind::IndexOutOfBounds)
    );
    assert_eq!(list.len(&doc), 3);
    let shallow = list.get_value(&doc).unwrap().0;
    let deep = list.get_deep_value(&doc).unwrap().0;
    assert_eq!(shallow.as_list().unwrap().len(), 3);
    assert_eq!(deep.as_list().unwrap().len(), 3);
    assert!(shallow.as_list().unwrap()[0].as_container().is_some());
    assert!(deep.as_list().unwrap()[0].as_list().is_some());
}

#[test]
fn other_containers_are_left_alone() {
    let mut doc = LoroDoc::new();
    let one = doc.get_list("one");
    let two = doc.get_list("two");
    let map = doc.get_map("map");
    let tree = doc.get_tree("tree");
    one.push(&mut doc, text("A")).unwrap();
    map.insert(&mut doc, "k", text("v")).unwrap();
    let root = tree.create(&mut doc, loro_containers::value::TreeParentId::Root).unwrap();
    two.push(&mut doc, text("B")).unwrap();
    two.delete(&mut doc, 0, 1).unwrap();
    assert_eq!(values(&doc, &one), vec![loro::LoroValue::from("A")]);
    assert_eq!(map.len(&doc), 1);
    assert_eq!(tree.roots(&doc), vec![root]);
    assert_eq!(one.insert(&mut doc, 3, text("Z")), Err(ErrorKind::IndexOutOfBounds));
    assert_eq!(values(&doc, &one), vec![loro::LoroValue::from("A")]);
}

#[test]
fn a_cursor_of_another_document_is_not_resolved() {
    let (mut doc, list) = setup();
    abc(&mut doc, &list);
    let cursor = list.get_cursor(&doc, 1, Side::Middle).unwrap();
    let other = LoroDoc::new();
    assert_eq!(other.get_cursor_pos(&cursor).err(), Some(ErrorKind::Other));
    assert_eq!(doc.get_cursor_pos(&cursor).unwrap().current.pos, 1);
}

#[test]
fn for_each_visits_the_items_in_order() {
    let (mut doc, list) = setup();
    abc(&mut doc, &list);
    let seen = std::sync::Mutex::new(Vec::new());
    list.for_each(&doc, |item| match item {
        ValueOrContainer::Value(v) => seen.lock().unwrap().push(v.0),
        _ => panic!("a container"),
    });
    assert_eq!(
        seen.into_inner().unwrap(),
        vec![loro::LoroValue::from("A"), loro::LoroValue::from("B"), loro::LoroValue::from("C")]
    );
}

#[test]
fn popping_a_container_gives_the_value_that_names_it() {
    let (mut doc, list) = setup();
    let child = list.push_container(&mut doc, ContainerType::Mapping).unwrap();
    let popped = list.pop(&mut doc).unwrap().unwrap();
    assert_eq!(popped.to_string(), format!("Container({:?})", loro::ContainerID::try_from(child.id().to_string().as_str()).unwrap()));
    assert!(list.is_empty(&doc));
}
