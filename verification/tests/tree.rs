use loro_containers::container::tree::LoroTree;
use loro_containers::doc::LoroDoc;
use loro_containers::err::ErrorKind;
use loro_containers::value::TreeID;
use loro_containers::value::TreeParentId;

fn forest() -> (LoroDoc, LoroTree) {
    let doc = LoroDoc::new();
    let tree = doc.get_tree("tree");
    (doc, tree)
}

#[test]
fn scenario_create_reorder_delete() {
    let (mut doc, tree) = forest();
    let r = tree.create(&mut doc, TreeParentId::Root).unwrap();
    let a = tree.create_at(&mut doc, TreeParentId::Node(r), 0).unwrap();
    let b = tree.create_at(&mut doc, TreeParentId::Node(r), 0).unwrap();
    assert_eq!(tree.children(&doc, TreeParentId::Node(r)), Some(vec![b, a]));
    tree.delete(&mut doc, a).unwrap();
    assert_eq!(tree.roots(&doc), vec![r]);
    assert_eq!(tree.children(&doc, TreeParentId::Node(r)), Some(vec![b]));
    let all = tree.get_nodes(&doc, true);
    let found: Vec<_> = all.iter().filter(|n| n.id == a).collect();
    assert_eq!(found.len(), 1);
    assert_eq!(found[0].parent, TreeParentId::Deleted);
    assert_eq!(tree.parent(&doc, a), Some(TreeParentId::Deleted));
    let live = tree.get_nodes(&doc, false);
    assert!(live.iter().all(|n| n.id != a));
    assert_eq!(live.len(), 2);
}

#[test]
fn delete_orphans_children() {
    let (mut doc, tree) = forest();
    let n = tree.create(&mut doc, TreeParentId::Root).unwrap();
    let c1 = tree.create(&mut doc, TreeParentId::Node(n)).unwrap();
    let c2 = tree.create(&mut doc, TreeParentId::Node(n)).unwrap();
    tree.delete(&mut doc, n).unwrap();
    let nodes = tree.nodes(&doc);
    assert!(nodes.contains(&c1) && nodes.contains(&c2) && nodes.contains(&n));
    assert_eq!(tree.parent(&doc, n), Some(TreeParentId::Deleted));
    assert_eq!(tree.parent(&doc, c1), Some(TreeParentId::Node(n)));
    assert_eq!(tree.parent(&doc, c2), Some(TreeParentId::Node(n)));
    assert_eq!(tree.is_node_deleted(&doc, &c1), Ok(true));
    assert_eq!(tree.is_node_deleted(&doc, &c2), Ok(true));
    assert_eq!(tree.roots(&doc), Vec::<TreeID>::new());
    assert_eq!(tree.children(&doc, TreeParentId::Node(n)), Some(vec![]));
    assert_eq!(tree.children_num(&doc, TreeParentId::Node(n)), Some(0));
    assert_eq!(tree.children(&doc, TreeParentId::Root), Some(vec![]));
    assert!(tree.is_empty(&doc));
}

#[test]
fn cyclic_moves_are_rejected() {
    let (mut doc, tree) = forest();
    let a = tree.create(&mut doc, TreeParentId::Root).unwrap();
    let b = tree.create(&mut doc, TreeParentId::Node(a)).unwrap();
    let c = tree.create(&mut doc, TreeParentId::Node(b)).unwrap();
    assert_eq!(tree.mov(&mut doc, a, TreeParentId::Node(a)), Err(ErrorKind::CyclicMoveRejected));
    assert_eq!(tree.mov(&mut doc, a, TreeParentId::Node(c)), Err(ErrorKind::CyclicMoveRejected));
    assert_eq!(tree.mov_to(&mut doc, a, TreeParentId::Node(b), 0), Err(ErrorKind::CyclicMoveRejected));
    assert_eq!(tree.mov_after(&mut doc, a, c), Err(ErrorKind::CyclicMoveRejected));
    assert_eq!(tree.mov_before(&mut doc, a, c), Err(ErrorKind::CyclicMoveRejected));
    assert_eq!(tree.parent(&doc, a), Some(TreeParentId::Root));
    assert_eq!(tree.parent(&doc, b), Some(TreeParentId::Node(a)));
    assert_eq!(tree.parent(&doc, c), Some(TreeParentId::Node(b)));
    assert_eq!(tree.mov(&mut doc, c, TreeParentId::Node(a)), Ok(()));
    assert_eq!(tree.children(&doc, TreeParentId::Node(a)), Some(vec![b, c]));
}

#[test]
fn missing_nodes_are_reported() {
    let (mut doc, tree) = forest();
    let ghost = TreeID::new(7, 7);
    let a = tree.create(&mut doc, TreeParentId::Root).unwrap();
    assert_eq!(tree.create(&mut doc, TreeParentId::Node(ghost)), Err(ErrorKind::TreeNodeNotExist));
    assert_eq!(tree.create(&mut doc, TreeParentId::Deleted), Err(ErrorKind::TreeNodeNotExist));
    assert_eq!(tree.create(&mut doc, TreeParentId::Unexist), Err(ErrorKind::TreeNodeNotExist));
    assert_eq!(tree.mov(&mut doc, ghost, TreeParentId::Root), Err(ErrorKind::TreeNodeNotExist));
    assert_eq!(tree.mov(&mut doc, a, TreeParentId::Node(ghost)), Err(ErrorKind::TreeNodeNotExist));
    assert_eq!(tree.mov(&mut doc, a, TreeParentId::Deleted), Err(ErrorKind::TreeNodeNotExist));
    assert_eq!(tree.delete(&mut doc, ghost), Err(ErrorKind::TreeNodeNotExist));
    assert_eq!(tree.is_node_deleted(&doc, &ghost), Err(ErrorKind::TreeNodeNotExist));
    assert_eq!(tree.parent(&doc, ghost), None);
    assert!(!tree.contains(&doc, ghost));
    assert_eq!(tree.children(&doc, TreeParentId::Node(ghost)), None);
    let reserved = TreeID::new(u64::MAX, i32::MAX);
    assert_eq!(tree.create(&mut doc, TreeParentId::Node(reserved)), Err(ErrorKind::TreeNodeNotExist));
    assert_eq!(tree.mov(&mut doc, a, TreeParentId::Node(reserved)), Err(ErrorKind::TreeNodeNotExist));
    assert_eq!(tree.children(&doc, TreeParentId::Node(reserved)), None);
    assert_eq!(tree.delete(&mut doc, a), Ok(()));
    assert_eq!(tree.delete(&mut doc, a), Err(ErrorKind::TreeNodeNotExist));
    assert_eq!(tree.mov(&mut doc, a, TreeParentId::Root), Err(ErrorKind::TreeNodeNotExist));
    assert!(tree.contains(&doc, a));
}

#[test]
fn positions_can_be_switched_off() {
    let (mut doc, tree) = forest();
    assert!(tree.is_fractional_index_enabled(&doc));
    let a = tree.create(&mut doc, TreeParentId::Root).unwrap();
    tree.disable_fractional_index(&mut doc);
    assert!(!tree.is_fractional_index_enabled(&doc));
    assert_eq!(tree.create_at(&mut doc, TreeParentId::Root, 0), Err(ErrorKind::FractionalIndexDisabled));
    assert_eq!(tree.create_at(&mut doc, TreeParentId::Deleted, 9), Err(ErrorKind::FractionalIndexDisabled));
    assert_eq!(tree.mov_to(&mut doc, a, TreeParentId::Root, 0), Err(ErrorKind::FractionalIndexDisabled));
    assert_eq!(tree.mov_to(&mut doc, a, TreeParentId::Deleted, 0), Err(ErrorKind::TreeNodeNotExist));
    assert_eq!(tree.mov_after(&mut doc, a, a), Err(ErrorKind::FractionalIndexDisabled));
    assert_eq!(tree.mov_before(&mut doc, a, a), Err(ErrorKind::FractionalIndexDisabled));
    let b = tree.create(&mut doc, TreeParentId::Root).unwrap();
    let c = tree.create(&mut doc, TreeParentId::Root).unwrap();
    assert_eq!(tree.roots(&doc), vec![a, b, c]);
    assert_eq!(tree.mov(&mut doc, a, TreeParentId::Root), Ok(()));
    assert_eq!(tree.roots(&doc), vec![b, c, a]);
    tree.enable_fractional_index(&mut doc, 0);
    assert!(tree.is_fractional_index_enabled(&doc));
}

#[test]
fn index_bounds() {
    let (mut doc, tree) = forest();
    let a = tree.create(&mut doc, TreeParentId::Root).unwrap();
    let b = tree.create(&mut doc, TreeParentId::Root).unwrap();
    assert_eq!(tree.create_at(&mut doc, TreeParentId::Root, 3), Err(ErrorKind::IndexOutOfBounds));
    assert_eq!(tree.create_at(&mut doc, TreeParentId::Node(TreeID::new(1, 1)), 1), Err(ErrorKind::IndexOutOfBounds));
    assert_eq!(tree.create_at(&mut doc, TreeParentId::Node(TreeID::new(1, 1)), 0), Err(ErrorKind::TreeNodeNotExist));
    let c = tree.create_at(&mut doc, TreeParentId::Root, 2).unwrap();
    assert_eq!(tree.roots(&doc), vec![a, b, c]);
    assert_eq!(tree.mov_to(&mut doc, a, TreeParentId::Root, 3), Err(ErrorKind::IndexOutOfBounds));
    assert_eq!(tree.mov_to(&mut doc, TreeID::new(1, 1), TreeParentId::Root, 4), Err(ErrorKind::IndexOutOfBounds));
    assert_eq!(tree.mov_to(&mut doc, TreeID::new(1, 1), TreeParentId::Root, 3), Err(ErrorKind::TreeNodeNotExist));
    assert_eq!(tree.mov_to(&mut doc, a, TreeParentId::Root, 2), Ok(()));
    assert_eq!(tree.roots(&doc), vec![b, c, a]);
    assert_eq!(tree.mov_to(&mut doc, a, TreeParentId::Root, 2), Ok(()));
    assert_eq!(tree.roots(&doc), vec![b, c, a]);
    assert_eq!(tree.mov_before(&mut doc, a, b), Ok(()));
    assert_eq!(tree.roots(&doc), vec![a, b, c]);
    assert_eq!(tree.mov_after(&mut doc, a, c), Ok(()));
    assert_eq!(tree.roots(&doc), vec![b, c, a]);
    assert_eq!(tree.mov_after(&mut doc, a, a), Ok(()));
    assert_eq!(tree.roots(&doc), vec![b, c, a]);
    assert_eq!(tree.mov_after(&mut doc, b, c), Ok(()));
    assert_eq!(tree.roots(&doc), vec![c, b, a]);
    assert_eq!(tree.mov_to(&mut doc, c, TreeParentId::Node(a), 0), Ok(()));
    assert_eq!(tree.roots(&doc), vec![b, a]);
    assert_eq!(tree.children(&doc, TreeParentId::Node(a)), Some(vec![c]));
}

#[test]
fn position_keys_are_ordered() {
    let (mut doc, tree) = forest();
    let a = tree.create(&mut doc, TreeParentId::Root).unwrap();
    let c = tree.create(&mut doc, TreeParentId::Root).unwrap();
    let b = tree.create_at(&mut doc, TreeParentId::Root, 1).unwrap();
    assert_eq!(tree.roots(&doc), vec![a, b, c]);
    let ka = tree.fractional_index(&doc, a).unwrap();
    let kb = tree.fractional_index(&doc, b).unwrap();
    let kc = tree.fractional_index(&doc, c).unwrap();
    assert!(ka < kb && kb < kc, "{} {} {}", ka, kb, kc);
    assert_eq!(tree.fractional_index(&doc, TreeID::new(3, 3)), None);

    let (mut doc2, tree2) = forest();
    let a2 = tree2.create(&mut doc2, TreeParentId::Root).unwrap();
    let c2 = tree2.create(&mut doc2, TreeParentId::Root).unwrap();
    let b2 = tree2.create_at(&mut doc2, TreeParentId::Root, 1).unwrap();
    assert_eq!(tree2.fractional_index(&doc2, a2).unwrap(), ka);
    assert_eq!(tree2.fractional_index(&doc2, b2).unwrap(), kb);
    assert_eq!(tree2.fractional_index(&doc2, c2).unwrap(), kc);
}

#[test]
fn last_move_and_attachment() {
    let (mut doc, tree) = forest();
    assert!(tree.is_attached(&doc));
    let a = tree.create(&mut doc, TreeParentId::Root).unwrap();
    assert_eq!(tree.get_last_move_id(&doc, &a), Some(a.id()));
    assert_eq!(tree.get_last_move_id(&doc, &TreeID::new(5, 5)), None);
    let b = tree.create(&mut doc, TreeParentId::Root).unwrap();
    tree.mov(&mut doc, a, TreeParentId::Node(b)).unwrap();
    let moved = tree.get_last_move_id(&doc, &a).unwrap();
    assert!(a.id().precedes(&moved));
    assert_eq!(tree.id().to_owned(), loro_containers::value::ContainerID::new_root("tree", loro_containers::value::ContainerType::Tree));
}

#[test]
fn below_a_deleted_node_the_tree_still_works() {
    let (mut doc, tree) = forest();
    let a = tree.create(&mut doc, TreeParentId::Root).unwrap();
    let b = tree.create(&mut doc, TreeParentId::Node(a)).unwrap();
    let c = tree.create(&mut doc, TreeParentId::Root).unwrap();
    tree.delete(&mut doc, a).unwrap();
    let d = tree.create(&mut doc, TreeParentId::Node(a)).unwrap();
    assert_eq!(tree.parent(&doc, d), Some(TreeParentId::Node(a)));
    assert_eq!(tree.is_node_deleted(&doc, &d), Ok(true));
    let e = tree.create_at(&mut doc, TreeParentId::Node(b), 0).unwrap();
    assert_eq!(tree.is_node_deleted(&doc, &e), Ok(true));
    assert_eq!(tree.mov(&mut doc, c, TreeParentId::Node(b)), Ok(()));
    assert_eq!(tree.is_node_deleted(&doc, &c), Ok(true));
    assert_eq!(tree.roots(&doc), Vec::<TreeID>::new());
    assert_eq!(tree.mov(&mut doc, b, TreeParentId::Root), Ok(()));
    assert_eq!(tree.is_node_deleted(&doc, &b), Ok(false));
    assert_eq!(tree.is_node_deleted(&doc, &c), Ok(false));
    assert_eq!(tree.roots(&doc), vec![b]);
    assert_eq!(tree.children(&doc, TreeParentId::Node(b)), Some(vec![e, c]));
    assert_eq!(tree.mov_after(&mut doc, d, e), Ok(()));
    assert_eq!(tree.children(&doc, TreeParentId::Node(b)), Some(vec![e, d, c]));
    assert_eq!(tree.mov_before(&mut doc, c, a), Err(ErrorKind::TreeNodeNotExist));
    assert_eq!(tree.mov_to(&mut doc, a, TreeParentId::Root, 0), Err(ErrorKind::TreeNodeNotExist));
    assert_eq!(tree.delete(&mut doc, d), Ok(()));
    assert_eq!(tree.children(&doc, TreeParentId::Node(b)), Some(vec![e, c]));
    assert_eq!(tree.children(&doc, TreeParentId::Deleted), None);
    assert_eq!(tree.children(&doc, TreeParentId::Unexist), None);
    assert_eq!(tree.children_num(&doc, TreeParentId::Node(a)), Some(0));
    assert_eq!(tree.children_num(&doc, TreeParentId::Node(b)), Some(2));
    let mut all = tree.nodes(&doc);
    all.sort_by_key(|n| n.counter);
    assert_eq!(all, vec![a, b, c, d, e]);
}

#[test]
fn a_traversal_reports_parents_indices_and_keys() {
    let (mut doc, tree) = forest();
    let a = tree.create(&mut doc, TreeParentId::Root).unwrap();
    let b = tree.create(&mut doc, TreeParentId::Root).unwrap();
    let c = tree.create(&mut doc, TreeParentId::Node(a)).unwrap();
    let d = tree.create_at(&mut doc, TreeParentId::Node(a), 0).unwrap();
    tree.delete(&mut doc, b).unwrap();
    let live = tree.get_nodes(&doc, false);
    let mut live_ids: Vec<_> = live.iter().map(|n| n.id).collect();
    live_ids.sort_by_key(|n| n.counter);
    assert_eq!(live_ids, vec![a, c, d]);
    for n in live.iter() {
        assert_eq!(Some(n.parent), tree.parent(&doc, n.id));
        assert_eq!(Some(n.fractional_index.clone()), tree.fractional_index(&doc, n.id));
        assert_eq!(tree.children(&doc, n.parent).unwrap()[n.index], n.id);
    }
    let all = tree.get_nodes(&doc, true);
    assert_eq!(all.len(), 4);
    let gone = all.iter().find(|n| n.id == b).unwrap();
    assert_eq!(gone.parent, TreeParentId::Deleted);
    assert_eq!(tree.fractional_index(&doc, b), None);
}

#[test]
fn a_deleted_container_refuses_changes() {
    let mut doc = LoroDoc::new();
    let list = doc.get_list("list");
    let child = list.push_container(&mut doc, loro_containers::value::ContainerType::Tree).unwrap();
    let tree = match child {
        loro_containers::container::Container::Tree(t) => t,
        _ => panic!("not a tree"),
    };
    let a = tree.create(&mut doc, TreeParentId::Root).unwrap();
    list.delete(&mut doc, 0, 1).unwrap();
    assert_eq!(tree.create(&mut doc, TreeParentId::Root), Err(ErrorKind::ContainerNotFound));
    assert_eq!(tree.delete(&mut doc, a), Err(ErrorKind::ContainerNotFound));
    assert_eq!(tree.mov(&mut doc, a, TreeParentId::Node(a)), Err(ErrorKind::ContainerNotFound));
    assert_eq!(tree.roots(&doc), vec![a]);
    let other = LoroDoc::new();
    assert!(!tree.is_attached(&other));
    assert_eq!(tree.roots(&other), Vec::<TreeID>::new());
    assert_eq!(tree.parent(&other, a), None);
}

#[test]
fn without_keys_a_node_lands_where_its_key_puts_it() {
    let (mut doc, tree) = forest();
    let a = tree.create(&mut doc, TreeParentId::Root).unwrap();
    let b = tree.create(&mut doc, TreeParentId::Root).unwrap();
    assert_eq!(tree.roots(&doc), vec![a, b]);
    assert!(tree.fractional_index(&doc, a).unwrap() < tree.fractional_index(&doc, b).unwrap());
    tree.disable_fractional_index(&mut doc);
    let c = tree.create(&mut doc, TreeParentId::Root).unwrap();
    let roots = tree.roots(&doc);
    assert_eq!(roots.len(), 3);
    assert!(roots.contains(&c));
    let others: Vec<TreeID> = roots.iter().copied().filter(|n| *n != c).collect();
    assert_eq!(others, vec![a, b]);
    assert_eq!(roots, vec![a, c, b]);
    assert_eq!(tree.parent(&doc, c), Some(TreeParentId::Root));
    assert_eq!(tree.mov(&mut doc, b, TreeParentId::Root), Ok(()));
    let roots = tree.roots(&doc);
    let others: Vec<TreeID> = roots.iter().copied().filter(|n| *n != b).collect();
    assert_eq!(others, vec![a, c]);
    assert_eq!(roots.len(), 3);
    tree.enable_fractional_index(&mut doc, 0);
    let d = tree.create(&mut doc, TreeParentId::Root).unwrap();
    let roots = tree.roots(&doc);
    assert_eq!(roots.last(), Some(&d));
    let before_d = roots[roots.len() - 2];
    assert!(tree.fractional_index(&doc, before_d).unwrap() < tree.fractional_index(&doc, d).unwrap());
    assert_eq!(tree.mov(&mut doc, a, TreeParentId::Root), Ok(()));
    assert_eq!(tree.roots(&doc).last(), Some(&a));
}

#[test]
fn a_new_key_lies_between_its_neighbours_even_where_they_had_one_key() {
    let (mut doc, tree) = forest();
    tree.disable_fractional_index(&mut doc);
    let a = tree.create(&mut doc, TreeParentId::Root).unwrap();
    let b = tree.create(&mut doc, TreeParentId::Root).unwrap();
    let c = tree.create(&mut doc, TreeParentId::Root).unwrap();
    assert_eq!(tree.roots(&doc), vec![a, b, c]);
    assert_eq!(tree.fractional_index(&doc, a), tree.fractional_index(&doc, b));
    assert_eq!(tree.fractional_index(&doc, b), tree.fractional_index(&doc, c));
    tree.enable_fractional_index(&mut doc, 0);
    let x = tree.create_at(&mut doc, TreeParentId::Root, 1).unwrap();
    assert_eq!(tree.roots(&doc), vec![a, x, b, c]);
    assert!(tree.fractional_index(&doc, a).unwrap() < tree.fractional_index(&doc, x).unwrap());
    assert!(tree.fractional_index(&doc, x).unwrap() < tree.fractional_index(&doc, b).unwrap());
    let first = tree.create_at(&mut doc, TreeParentId::Root, 0).unwrap();
    let last = tree.create_at(&mut doc, TreeParentId::Root, 5).unwrap();
    assert_eq!(tree.roots(&doc), vec![first, a, x, b, c, last]);
    assert!(tree.fractional_index(&doc, first).unwrap() < tree.fractional_index(&doc, a).unwrap());
    assert!(tree.fractional_index(&doc, c).unwrap() < tree.fractional_index(&doc, last).unwrap());
}

#[test]
fn without_chance_a_key_depends_on_its_neighbours_alone() {
    let (mut one, tree) = forest();
    let mut two = LoroDoc::new();
    let places: Vec<usize> = vec![0, 0, 1, 3, 2, 1];
    for index in places {
        let left = tree.create_at(&mut one, TreeParentId::Root, index).unwrap();
        let right = tree.create_at(&mut two, TreeParentId::Root, index).unwrap();
        assert_eq!(tree.fractional_index(&one, left), tree.fractional_index(&two, right));
        assert!(tree.fractional_index(&one, left).is_some());
    }
    let mut keys: Vec<String> = Vec::new();
    for node in tree.roots(&one) {
        keys.push(tree.fractional_index(&one, node).unwrap());
    }
    let mut sorted = keys.clone();
    sorted.sort();
    sorted.dedup();
    assert_eq!(sorted, keys);
    assert_eq!(keys.len(), 6);
}

#[test]
fn a_deleted_node_gives_up_its_key_and_no_other_key_changes() {
    let (mut doc, tree) = forest();
    let a = tree.create(&mut doc, TreeParentId::Root).unwrap();
    let b = tree.create(&mut doc, TreeParentId::Node(a)).unwrap();
    let c = tree.create(&mut doc, TreeParentId::Node(a)).unwrap();
    let d = tree.create(&mut doc, TreeParentId::Root).unwrap();
    let before: Vec<Option<String>> = vec![b, c, d].into_iter().map(|n| tree.fractional_index(&doc, n)).collect();
    assert!(tree.fractional_index(&doc, a).is_some());
    assert_eq!(tree.delete(&mut doc, a), Ok(()));
    assert_eq!(tree.fractional_index(&doc, a), None);
    let after: Vec<Option<String>> = vec![b, c, d].into_iter().map(|n| tree.fractional_index(&doc, n)).collect();
    assert_eq!(after, before);
    assert_eq!(tree.parent(&doc, b), Some(TreeParentId::Node(a)));
    assert_eq!(tree.parent(&doc, c), Some(TreeParentId::Node(a)));
}

#[test]
fn a_moved_node_gets_a_key_between_its_new_neighbours() {
    let (mut doc, tree) = forest();
    tree.enable_fractional_index(&mut doc, 0);
    let root = tree.create(&mut doc, TreeParentId::Root).unwrap();
    let root2 = tree.create(&mut doc, TreeParentId::Root).unwrap();
    assert_eq!(tree.roots(&doc), vec![root, root2]);
    assert_eq!(tree.mov_after(&mut doc, root, root2), Ok(()));
    assert_eq!(tree.roots(&doc), vec![root2, root]);
    assert_eq!(tree.parent(&doc, root), Some(TreeParentId::Root));
    assert!(tree.fractional_index(&doc, root).unwrap() > tree.fractional_index(&doc, root2).unwrap());
    let third = tree.create(&mut doc, TreeParentId::Root).unwrap();
    assert_eq!(tree.mov_to(&mut doc, third, TreeParentId::Root, 1), Ok(()));
    assert_eq!(tree.roots(&doc), vec![root2, third, root]);
    assert!(tree.fractional_index(&doc, root2).unwrap() < tree.fractional_index(&doc, third).unwrap());
    assert!(tree.fractional_index(&doc, third).unwrap() < tree.fractional_index(&doc, root).unwrap());
    assert_eq!(tree.mov_before(&mut doc, root, root2), Ok(()));
    assert_eq!(tree.roots(&doc), vec![root, root2, third]);
    assert!(tree.fractional_index(&doc, root).unwrap() < tree.fractional_index(&doc, root2).unwrap());
    assert_eq!(tree.mov(&mut doc, root, TreeParentId::Root), Ok(()));
    assert_eq!(tree.roots(&doc), vec![root2, third, root]);
    assert!(tree.fractional_index(&doc, third).unwrap() < tree.fractional_index(&doc, root).unwrap());
    let kept = tree.fractional_index(&doc, root);
    assert_eq!(tree.mov(&mut doc, root, TreeParentId::Root), Ok(()));
    assert_eq!(tree.mov_to(&mut doc, root, TreeParentId::Root, 2), Ok(()));
    assert_eq!(tree.fractional_index(&doc, root), kept);
    assert_eq!(tree.roots(&doc), vec![root2, third, root]);
}

#[test]
fn without_keys_every_node_gets_the_plain_key_and_comes_behind_its_like() {
    let (mut doc, tree) = forest();
    tree.disable_fractional_index(&mut doc);
    let a = tree.create(&mut doc, TreeParentId::Root).unwrap();
    let b = tree.create(&mut doc, TreeParentId::Root).unwrap();
    let c = tree.create(&mut doc, TreeParentId::Root).unwrap();
    for node in [a, b, c] {
        assert_eq!(tree.fractional_index(&doc, node), Some("80".to_string()));
    }
    assert_eq!(tree.roots(&doc), vec![a, b, c]);
    assert_eq!(tree.mov(&mut doc, a, TreeParentId::Root), Ok(()));
    assert_eq!(tree.roots(&doc), vec![b, c, a]);
    assert_eq!(tree.fractional_index(&doc, a), Some("80".to_string()));
    assert_eq!(tree.mov(&mut doc, c, TreeParentId::Node(b)), Ok(()));
    assert_eq!(tree.children(&doc, TreeParentId::Node(b)), Some(vec![c]));
    assert_eq!(tree.fractional_index(&doc, c), Some("80".to_string()));
}
