use loro_containers::container::map::LoroMap;
use loro_containers::container::Container;
use loro_containers::container::ValueOrContainer;
use loro_containers::doc::LoroDoc;
use loro_containers::err::ErrorKind;
use loro_containers::value::ContainerType;
use loro_containers::value::LoroValue;
use loro_containers::value::TreeParentId;

fn map_setup() -> (LoroDoc, LoroMap) {
    let doc = LoroDoc::new();
    let map = doc.get_map("map");
    (doc, map)
}

fn number(i: i64) -> LoroValue {
    LoroValue(loro::LoroValue::from(i))
}

#[test]
fn set_get_delete() {
    let (mut doc, map) = map_setup();
    assert!(map.is_empty(&doc));
    assert!(map.is_attached(&doc));
    assert_eq!(map.insert(&mut doc, "a", number(1)), Ok(()));
    assert_eq!(map.insert(&mut doc, "b", number(2)), Ok(()));
    assert_eq!(map.insert(&mut doc, "a", number(3)), Ok(()));
    assert_eq!(map.len(&doc), 2);
    match map.get(&doc, "a") {
        Some(ValueOrContainer::Value(v)) => assert_eq!(v.0, loro::LoroValue::from(3)),
        _ => panic!("no value under a"),
    }
    assert!(map.get(&doc, "c").is_none());
    let mut keys = map.keys(&doc);
    keys.sort();
    assert_eq!(keys, vec!["a".to_string(), "b".to_string()]);
    let mut values: Vec<i64> = map
        .values(&doc)
        .into_iter()
        .map(|v| match v {
            ValueOrContainer::Value(v) => *v.0.as_i64().unwrap(),
            _ => panic!("a container"),
        })
        .collect();
    values.sort();
    assert_eq!(values, vec![2, 3]);
    assert_eq!(map.delete(&mut doc, "a"), Ok(()));
    assert_eq!(map.delete(&mut doc, "zzz"), Ok(()));
    assert_eq!(map.len(&doc), 1);
    assert!(map.get(&doc, "a").is_none());
    assert!(map.get_last_editor(&doc, "b").is_some());
    assert!(map.get_last_editor(&doc, "never").is_none());
    assert_eq!(map.clear(&mut doc), Ok(()));
    assert!(map.is_empty(&doc));
    assert_eq!(map.keys(&doc), Vec::<String>::new());
}

#[test]
fn map_refuses_values_that_name_a_container() {
    let (mut doc, map) = map_setup();
    let cid = loro::ContainerID::new_root("other", loro::ContainerType::List);
    let named = LoroValue(loro::LoroValue::Container(cid));
    assert_eq!(map.insert(&mut doc, "a", named), Err(ErrorKind::InvalidValueType));
    assert_eq!(map.len(&doc), 0);
}

#[test]
fn containers_inside_a_map() {
    let (mut doc, map) = map_setup();
    let child = map.insert_container(&mut doc, "list", ContainerType::List).unwrap();
    let list = match child {
        Container::List(l) => l,
        _ => panic!("not a list"),
    };
    list.push(&mut doc, number(7)).unwrap();
    assert_eq!(list.len(&doc), 1);
    let again = map.get_or_create_container(&mut doc, "list", ContainerType::List).unwrap();
    assert_eq!(again.id(), list.id());
    assert_eq!(
        map.get_or_create_container(&mut doc, "list", ContainerType::Mapping).err(),
        Some(ErrorKind::InvalidValueType)
    );
    map.insert(&mut doc, "n", number(1)).unwrap();
    assert_eq!(
        map.get_or_create_container(&mut doc, "n", ContainerType::List).err(),
        Some(ErrorKind::InvalidValueType)
    );
    let fresh = map.get_or_create_container(&mut doc, "tree", ContainerType::Tree).unwrap();
    assert_eq!(fresh.get_type(), ContainerType::Tree);
    assert_eq!(map.len(&doc), 3);
    assert_eq!(
        map.insert_container(&mut doc, "u", ContainerType::Unknown(7)).err(),
        Some(ErrorKind::InvalidValueType)
    );
    assert_eq!(
        map.get_or_create_container(&mut doc, "u", ContainerType::Unknown(7)).err(),
        Some(ErrorKind::InvalidValueType)
    );
    assert_eq!(map.len(&doc), 3);
    let shallow = map.get_value(&doc).unwrap().0;
    let deep = map.get_deep_value(&doc).unwrap().0;
    assert!(shallow.as_map().unwrap().get("list").unwrap().as_container().is_some());
    assert_eq!(
        deep.as_map().unwrap().get("list").unwrap().as_list().unwrap()[0],
        loro::LoroValue::from(7)
    );
}

#[test]
fn every_node_has_a_map_of_its_own() {
    let mut doc = LoroDoc::new();
    let tree = doc.get_tree("tree");
    let a = tree.create(&mut doc, TreeParentId::Root).unwrap();
    let b = tree.create(&mut doc, TreeParentId::Root).unwrap();
    let meta_a = tree.get_meta(&doc, a).unwrap();
    let meta_b = tree.get_meta(&doc, b).unwrap();
    assert!(meta_a.id() != meta_b.id());
    assert!(meta_a.is_attached(&doc));
    meta_a.insert(&mut doc, "color", LoroValue(loro::LoroValue::from("red"))).unwrap();
    match meta_a.get(&doc, "color") {
        Some(ValueOrContainer::Value(v)) => assert_eq!(v.0, loro::LoroValue::from("red")),
        _ => panic!("no colour"),
    }
    assert!(meta_b.get(&doc, "color").is_none());
    assert_eq!(
        tree.get_meta(&doc, loro_containers::value::TreeID::new(9, 9)).err(),
        Some(ErrorKind::TreeNodeNotExist)
    );
    assert_eq!(tree.roots(&doc), vec![a, b]);
    let plain = tree.get_value(&doc).unwrap().0;
    let with_meta = tree.get_value_with_meta(&doc).unwrap().0;
    assert_eq!(plain.as_list().unwrap().len(), 2);
    assert_eq!(with_meta.as_list().unwrap().len(), 2);
}

#[test]
fn a_null_entry_makes_room_for_a_container() {
    let (mut doc, map) = map_setup();
    map.insert(&mut doc, "slot", LoroValue(loro::LoroValue::Null)).unwrap();
    assert!(map.get(&doc, "slot").is_some());
    let made = map.get_or_create_container(&mut doc, "slot", ContainerType::List).unwrap();
    assert_eq!(made.get_type(), ContainerType::List);
    match map.get(&doc, "slot") {
        Some(ValueOrContainer::Container(c)) => assert_eq!(c.id(), made.id()),
        _ => panic!("no container under slot"),
    }
    let again = map.get_or_create_container(&mut doc, "slot", ContainerType::List).unwrap();
    assert_eq!(again.id(), made.id());
}

#[test]
fn a_value_that_compares_equal_is_not_written_again() {
    let (mut doc, map) = map_setup();
    let plus = LoroValue(loro::LoroValue::Double(0.0));
    let minus = LoroValue(loro::LoroValue::Double(-0.0));
    assert!(plus.equals(&minus));
    assert_eq!(map.insert(&mut doc, "k", plus), Ok(()));
    assert_eq!(map.insert(&mut doc, "k", minus), Ok(()));
    match map.get(&doc, "k") {
        Some(ValueOrContainer::Value(v)) => match v.0 {
            loro::LoroValue::Double(x) => assert!(x == 0.0 && x.is_sign_positive()),
            _ => panic!("not a double"),
        },
        _ => panic!("no value under k"),
    }
    assert_eq!(map.insert(&mut doc, "k", number(1)), Ok(()));
    match map.get(&doc, "k") {
        Some(ValueOrContainer::Value(v)) => assert_eq!(v.0, loro::LoroValue::from(1)),
        _ => panic!("no value under k"),
    }
    assert_eq!(map.len(&doc), 1);
}

#[test]
fn an_identifier_comes_back_from_its_key_as_it_went_in() {
    let kinds = vec![
        ContainerType::Mapping,
        ContainerType::List,
        ContainerType::Text,
        ContainerType::Tree,
        ContainerType::MovableList,
        ContainerType::Counter,
        ContainerType::Unknown(3),
        ContainerType::Unknown(0),
        ContainerType::Unknown(5),
        ContainerType::Unknown(6),
        ContainerType::Unknown(255),
    ];
    for kind in kinds {
        let root = loro_containers::value::ContainerID::new_root("name", kind);
        let back = loro_containers::key::ContainerKey::of(&root).id();
        assert_eq!(back, root);
        assert_eq!(back.container_type(), kind);
        let normal = loro_containers::value::ContainerID::new_normal(loro_containers::value::ID::new(7, 9), kind);
        let back = loro_containers::key::ContainerKey::of(&normal).id();
        assert_eq!(back, normal);
        assert_eq!(back.container_type(), kind);
        assert!(back.duplicate().same(&normal));
    }
}

#[test]
fn a_value_that_the_map_would_read_as_a_container_is_refused() {
    let (mut doc, map) = map_setup();
    let own = loro::ContainerID::new_root("map", loro::ContainerType::Map);
    let mark = loro_internal::loro_common::mergeable_marker(&own, "k", loro::ContainerType::List);
    assert_eq!(map.insert(&mut doc, "k", LoroValue(mark.clone())), Err(ErrorKind::InvalidValueType));
    assert!(map.get(&doc, "k").is_none());
    assert!(map.is_empty(&doc));
    assert_eq!(map.insert(&mut doc, "other", LoroValue(mark.clone())), Ok(()));
    match map.get(&doc, "other") {
        Some(ValueOrContainer::Value(v)) => assert_eq!(v.0, mark),
        _ => panic!("not the value that was written"),
    }
    let elsewhere = doc.get_map("elsewhere");
    assert_eq!(elsewhere.insert(&mut doc, "k", LoroValue(mark.clone())), Ok(()));
    match elsewhere.get(&doc, "k") {
        Some(ValueOrContainer::Value(v)) => assert_eq!(v.0, mark),
        _ => panic!("not the value that was written"),
    }
    let bytes = LoroValue(loro::LoroValue::Binary(vec![1u8, 2, 3, 4, 5, 6, 7, 8].into()));
    assert_eq!(map.insert(&mut doc, "k", bytes), Ok(()));
    assert_eq!(map.len(&doc), 2);
}
