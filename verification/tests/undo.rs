use loro_containers::cursor::AbsolutePosition;
use loro_containers::doc::LoroDoc;
use loro_containers::event::DiffEvent;
use loro_containers::undo::CounterSpan;
use loro_containers::undo::CursorWithPos;
use loro_containers::undo::UndoItemMeta;
use loro_containers::undo::UndoManager;
use loro_containers::undo::UndoOrRedo;
use loro_containers::value::LoroValue;
use loro_containers::value::Side;
use loro_containers::value::TreeParentId;
use loro_containers::window::count_pushes;
use loro_containers::window::MergeWindow;
use loro_containers::window::PushRecord;
use std::sync::Arc;
use std::sync::Mutex;

fn letter(s: &str) -> LoroValue {
    LoroValue(loro::LoroValue::from(s))
}

fn letters(doc: &LoroDoc, list: &loro_containers::container::list::LoroList) -> Vec<loro::LoroValue> {
    list.to_vec(doc).into_iter().map(|v| v.0).collect()
}

#[test]
fn undo_and_redo_round_trip() {
    let mut doc = LoroDoc::new();
    let tree = doc.get_tree("tree");
    let a = tree.create(&mut doc, TreeParentId::Root).unwrap();
    let b = tree.create(&mut doc, TreeParentId::Root).unwrap();
    let c = tree.create(&mut doc, TreeParentId::Root).unwrap();
    doc.commit();
    let mut undo = UndoManager::new(&doc);
    assert!(!undo.can_undo());
    assert_eq!(undo.undo(&mut doc), Ok(false));
    let state = |doc: &LoroDoc| {
        let nodes = [a, b, c];
        (
            tree.roots(doc),
            tree.children(doc, TreeParentId::Node(a)),
            nodes.iter().map(|n| tree.parent(doc, *n)).collect::<Vec<_>>(),
            nodes.iter().map(|n| tree.fractional_index(doc, *n)).collect::<Vec<_>>(),
        )
    };
    let before = state(&doc);
    tree.mov_to(&mut doc, c, TreeParentId::Root, 0).unwrap();
    tree.mov(&mut doc, b, TreeParentId::Node(a)).unwrap();
    doc.commit();
    let edited = state(&doc);
    assert_eq!(edited.0, vec![c, a]);
    assert_eq!(edited.1, Some(vec![b]));
    assert!(undo.can_undo());
    assert!(!undo.can_redo());
    assert_eq!(undo.undo(&mut doc), Ok(true));
    assert_eq!(state(&doc), before);
    assert!(undo.can_redo());
    assert_eq!(undo.redo(&mut doc), Ok(true));
    assert_eq!(state(&doc), edited);
    assert_eq!(undo.redo(&mut doc), Ok(false));
    assert_eq!(undo.undo(&mut doc), Ok(true));
    assert_eq!(state(&doc), before);
}

#[test]
fn transactions_within_the_merge_interval_are_one_step() {
    let mut doc = LoroDoc::new();
    let list = doc.get_list("list");
    let mut undo = UndoManager::new(&doc);
    undo.set_merge_interval(100_000);
    list.push(&mut doc, letter("A")).unwrap();
    doc.commit();
    list.push(&mut doc, letter("B")).unwrap();
    doc.commit();
    assert_eq!(undo.undo(&mut doc), Ok(true));
    assert_eq!(letters(&doc, &list), Vec::<loro::LoroValue>::new());
    assert!(!undo.can_undo());
}

#[test]
fn without_a_merge_interval_each_transaction_is_a_step() {
    let mut doc = LoroDoc::new();
    let list = doc.get_list("list");
    let mut undo = UndoManager::new(&doc);
    undo.set_merge_interval(0);
    list.push(&mut doc, letter("A")).unwrap();
    doc.commit();
    list.push(&mut doc, letter("B")).unwrap();
    doc.commit();
    assert_eq!(undo.undo(&mut doc), Ok(true));
    assert_eq!(letters(&doc, &list), vec![loro::LoroValue::from("A")]);
    assert!(undo.can_undo());
    assert_eq!(undo.undo(&mut doc), Ok(true));
    assert!(!undo.can_undo());
    assert_eq!(undo.undo(&mut doc), Ok(false));
}

#[test]
fn a_checkpoint_closes_the_open_transaction() {
    let mut doc = LoroDoc::new();
    let list = doc.get_list("list");
    let mut undo = UndoManager::new(&doc);
    undo.set_merge_interval(0);
    list.push(&mut doc, letter("A")).unwrap();
    assert_eq!(undo.record_new_checkpoint(&mut doc), Ok(()));
    assert!(undo.can_undo());
    list.push(&mut doc, letter("B")).unwrap();
    assert_eq!(undo.record_new_checkpoint(&mut doc), Ok(()));
    assert_eq!(undo.undo(&mut doc), Ok(true));
    assert_eq!(letters(&doc, &list), vec![loro::LoroValue::from("A")]);
    assert!(undo.can_undo());
    assert_eq!(undo.undo(&mut doc), Ok(true));
    assert!(!undo.can_undo());
}

#[test]
fn a_checkpoint_ends_the_merge_window() {
    let mut doc = LoroDoc::new();
    let list = doc.get_list("list");
    let mut undo = UndoManager::new(&doc);
    undo.set_merge_interval(100_000);
    list.push(&mut doc, letter("A")).unwrap();
    assert_eq!(undo.record_new_checkpoint(&mut doc), Ok(()));
    list.push(&mut doc, letter("B")).unwrap();
    doc.commit();
    list.push(&mut doc, letter("C")).unwrap();
    doc.commit();
    assert_eq!(undo.undo(&mut doc), Ok(true));
    assert_eq!(letters(&doc, &list), vec![loro::LoroValue::from("A")]);
    assert!(undo.can_undo());
    assert_eq!(undo.redo(&mut doc), Ok(true));
    assert_eq!(
        letters(&doc, &list),
        vec![loro::LoroValue::from("A"), loro::LoroValue::from("B"), loro::LoroValue::from("C")]
    );
    assert_eq!(undo.undo(&mut doc), Ok(true));
    assert_eq!(undo.undo(&mut doc), Ok(true));
    assert_eq!(letters(&doc, &list), Vec::<loro::LoroValue>::new());
    assert_eq!(undo.undo(&mut doc), Ok(false));
    assert_eq!(undo.redo(&mut doc), Ok(true));
    assert_eq!(letters(&doc, &list), vec![loro::LoroValue::from("A")]);
    list.push(&mut doc, letter("Z")).unwrap();
    doc.commit();
    assert!(!undo.can_redo());
    assert_eq!(undo.redo(&mut doc), Ok(false));
}

#[test]
fn the_window_merges_by_time() {
    let mut window = MergeWindow::new();
    window.set_interval(100);
    window.record(1_000);
    window.record(1_050);
    assert_eq!(window.undo_len(), 1);
    assert_eq!(window.take_undo(), Some(2));
    assert_eq!(window.take_undo(), None);

    let mut window = MergeWindow::new();
    window.set_interval(0);
    window.record(1_000);
    window.record(1_050);
    assert_eq!(window.undo_len(), 2);
    assert_eq!(window.take_undo(), Some(1));

    let mut window = MergeWindow::new();
    window.set_interval(100);
    assert!(!window.merges(5));
    window.record(1_000);
    assert!(window.merges(1_099));
    assert!(!window.merges(1_100));
    window.record(1_100);
    window.record(1_199);
    assert_eq!(window.undo_len(), 2);
    window.seal();
    assert!(!window.merges(1_200));
    window.record(1_200);
    assert_eq!(window.undo_len(), 3);
    window.put_redo(4);
    window.put_redo(0);
    assert_eq!(window.redo_len(), 1);
    window.record(i64::MAX);
    assert_eq!(window.redo_len(), 0);
    window.record(i64::MIN);
    assert_eq!(window.undo_len(), 4);
    assert_eq!(window.take_undo(), Some(2));
    window.set_max_steps(2);
    assert_eq!(window.undo_len(), 2);
    assert_eq!(window.take_undo(), Some(1));
    assert_eq!(window.take_undo(), Some(2));
    window.set_max_steps(0);
    window.record(7);
    assert_eq!(window.undo_len(), 0);

    let mut window = MergeWindow::new();
    window.set_interval(10);
    let log = vec![
        PushRecord { undo: true, at: 0 },
        PushRecord { undo: false, at: 1 },
        PushRecord { undo: true, at: 5 },
        PushRecord { undo: true, at: 15 },
    ];
    window.fold(&log);
    assert_eq!(count_pushes(&log, true), 3);
    assert_eq!(count_pushes(&log, false), 1);
    assert_eq!(window.take_undo(), Some(1));
    assert_eq!(window.take_undo(), Some(2));
    window.put_undo(3);
    window.clear();
    assert_eq!(window.undo_len() + window.redo_len(), 0);
}

#[test]
fn excluded_origins_are_not_recorded() {
    let mut doc = LoroDoc::new();
    let list = doc.get_list("list");
    let mut undo = UndoManager::new(&doc);
    undo.add_exclude_origin_prefix("sys:");
    doc.set_next_commit_origin("sys:load");
    list.push(&mut doc, letter("A")).unwrap();
    doc.commit();
    assert!(!undo.can_undo());
    doc.set_next_commit_origin("user");
    list.push(&mut doc, letter("B")).unwrap();
    doc.commit();
    assert!(undo.can_undo());
    assert_eq!(undo.undo(&mut doc), Ok(true));
    assert_eq!(letters(&doc, &list), vec![loro::LoroValue::from("A")]);
    assert!(!undo.can_undo());
}

#[test]
fn the_oldest_steps_are_dropped_first() {
    let mut doc = LoroDoc::new();
    let list = doc.get_list("list");
    let mut undo = UndoManager::new(&doc);
    undo.set_max_undo_steps(2);
    for s in ["A", "B", "C"] {
        list.push(&mut doc, letter(s)).unwrap();
        doc.commit();
    }
    assert_eq!(undo.undo(&mut doc), Ok(true));
    assert_eq!(undo.undo(&mut doc), Ok(true));
    assert_eq!(undo.undo(&mut doc), Ok(false));
    assert_eq!(letters(&doc, &list), vec![loro::LoroValue::from("A")]);
    undo.clear();
    assert!(!undo.can_redo());
    assert!(!undo.can_undo());
}

#[test]
fn hooks_attach_and_return_metadata() {
    let mut doc = LoroDoc::new();
    let list = doc.get_list("list");
    list.push(&mut doc, letter("A")).unwrap();
    doc.commit();
    let cursor = list.get_cursor(&doc, 0, Side::Middle).unwrap();
    let anchor = cursor.id();
    let mut undo = UndoManager::new(&doc);
    let pushed: Arc<Mutex<Vec<(UndoOrRedo, CounterSpan, bool)>>> = Arc::new(Mutex::new(Vec::new()));
    let popped: Arc<Mutex<Vec<(UndoOrRedo, loro::LoroValue, usize)>>> = Arc::new(Mutex::new(Vec::new()));
    let pushed_in = pushed.clone();
    let popped_in = popped.clone();
    let kept = Mutex::new(Some(cursor));
    undo.set_on_push(Some(move |which: UndoOrRedo, span: CounterSpan, event: Option<DiffEvent>| {
        pushed_in.lock().unwrap().push((which, span, event.is_some()));
        let cursors = match kept.lock().unwrap().take() {
            Some(c) => vec![CursorWithPos { cursor: c, pos: AbsolutePosition { pos: 0, side: Side::Middle } }],
            None => vec![],
        };
        UndoItemMeta { value: LoroValue(loro::LoroValue::from("selection")), cursors }
    }));
    undo.set_on_pop(Some(move |which: UndoOrRedo, _span: CounterSpan, meta: UndoItemMeta| {
        popped_in.lock().unwrap().push((which, meta.value.0, meta.cursors.len()));
        if let Some(c) = meta.cursors.first() {
            assert_eq!(c.cursor.id(), anchor);
        }
    }));
    list.push(&mut doc, letter("B")).unwrap();
    doc.commit();
    {
        let pushed = pushed.lock().unwrap();
        assert_eq!(pushed.len(), 1);
        assert_eq!(pushed[0].0, UndoOrRedo::Undo);
        assert!(pushed[0].1.start < pushed[0].1.end);
        assert!(pushed[0].2);
    }
    assert_eq!(undo.undo(&mut doc), Ok(true));
    {
        let popped = popped.lock().unwrap();
        assert_eq!(popped.len(), 1);
        assert_eq!(popped[0].0, UndoOrRedo::Undo);
        assert_eq!(popped[0].1, loro::LoroValue::from("selection"));
        assert_eq!(popped[0].2, 1);
        let pushed = pushed.lock().unwrap();
        assert_eq!(pushed.len(), 2);
        assert_eq!(pushed[1].0, UndoOrRedo::Redo);
    }
    undo.set_on_push(None::<fn(UndoOrRedo, CounterSpan, Option<DiffEvent>) -> UndoItemMeta>);
    undo.set_on_pop(None::<fn(UndoOrRedo, CounterSpan, UndoItemMeta)>);
    assert_eq!(undo.redo(&mut doc), Ok(true));
    assert_eq!(popped.lock().unwrap().len(), 1);
    assert_eq!(pushed.lock().unwrap().len(), 2);
}

#[test]
fn a_manager_serves_its_own_document_only() {
    let mut doc = LoroDoc::new();
    let mut other = LoroDoc::new();
    let list = doc.get_list("list");
    let mut undo = UndoManager::new(&doc);
    assert!(undo.is_made_for(&doc));
    assert!(!undo.is_made_for(&other));
    list.push(&mut doc, letter("A")).unwrap();
    doc.commit();
    assert_eq!(undo.undo(&mut other), Err(loro_containers::err::ErrorKind::Other));
    assert_eq!(undo.redo(&mut other), Err(loro_containers::err::ErrorKind::Other));
    assert_eq!(undo.record_new_checkpoint(&mut other), Err(loro_containers::err::ErrorKind::Other));
    assert_eq!(letters(&doc, &list), vec![loro::LoroValue::from("A")]);
    assert!(undo.can_undo());
    assert_eq!(undo.undo(&mut doc), Ok(true));
    assert_eq!(letters(&doc, &list), Vec::<loro::LoroValue>::new());
}

#[test]
fn redoing_a_creation_makes_a_node_of_its_own() {
    let mut doc = LoroDoc::new();
    let tree = doc.get_tree("tree");
    let mut undo = UndoManager::new(&doc);
    let a = tree.create(&mut doc, TreeParentId::Root).unwrap();
    doc.commit();
    assert_eq!(undo.undo(&mut doc), Ok(true));
    assert_eq!(tree.parent(&doc, a), Some(TreeParentId::Deleted));
    assert_eq!(undo.redo(&mut doc), Ok(true));
    let roots = tree.roots(&doc);
    assert_eq!(roots.len(), 1);
    assert!(roots[0] != a);
    assert_eq!(tree.parent(&doc, a), Some(TreeParentId::Deleted));
    assert_eq!(tree.nodes(&doc).len(), 2);
}

#[test]
fn a_push_is_noted_with_the_time_of_the_clock() {
    assert_eq!(PushRecord::noted(true, None), PushRecord { undo: true, at: 0 });
    assert_eq!(PushRecord::noted(false, Some(0)), PushRecord { undo: false, at: 0 });
    assert_eq!(PushRecord::noted(true, Some(1_700_000_000_123)), PushRecord { undo: true, at: 1_700_000_000_123 });
    assert_eq!(PushRecord::noted(true, Some(i64::MAX as u128)), PushRecord { undo: true, at: i64::MAX });
    assert_eq!(PushRecord::noted(false, Some(i64::MAX as u128 + 1)), PushRecord { undo: false, at: i64::MAX });
    assert_eq!(PushRecord::noted(false, Some(u128::MAX)), PushRecord { undo: false, at: i64::MAX });
}

#[test]
fn an_undo_is_settled_by_what_was_taken_back() {
    let mut window = MergeWindow::new();
    window.set_interval(1000);
    window.record(10);
    window.record(20);
    window.record(30);
    assert_eq!(window.undo_len(), 1);
    assert_eq!(window.take_undo(), Some(3));
    let back = vec![
        PushRecord { undo: false, at: 40 },
        PushRecord { undo: false, at: 41 },
        PushRecord { undo: false, at: 42 },
    ];
    assert_eq!(window.settle_undo(3, 3, None, &back), Ok(true));
    assert_eq!(window.undo_len(), 0);
    assert_eq!(window.redo_len(), 1);
    assert_eq!(window.take_redo(), Some(3));
    let again = vec![PushRecord { undo: true, at: 50 }, PushRecord { undo: false, at: 51 }];
    assert_eq!(
        window.settle_redo(3, 1, Some(loro_containers::err::ErrorKind::Other), &again),
        Err(loro_containers::err::ErrorKind::Other)
    );
    assert_eq!(window.undo_len(), 1);
    assert_eq!(window.redo_len(), 1);
    assert_eq!(window.take_undo(), Some(1));
    assert_eq!(window.take_redo(), Some(2));
    assert_eq!(window.settle_undo(1, 1, None, &Vec::new()), Ok(true));
    assert_eq!(window.undo_len(), 0);
    assert_eq!(window.redo_len(), 0);
}

#[test]
fn the_listener_writes_the_push_down_and_asks_the_hook() {
    let (log, sent) = std::sync::mpsc::channel::<PushRecord>();
    let asked: Arc<Mutex<Vec<(UndoOrRedo, CounterSpan)>>> = Arc::new(Mutex::new(Vec::new()));
    let seen = asked.clone();
    let hook = Some(move |which: UndoOrRedo, span: CounterSpan, _event: Option<DiffEvent>| {
        seen.lock().unwrap().push((which, span));
        UndoItemMeta { value: letter("kept"), cursors: Vec::new() }
    });
    let meta = loro_containers::undo::listen(&log, &hook, true, 3, 5, None, Some(77));
    assert_eq!(meta.value.0, loro::LoroValue::from("kept"));
    let meta = loro_containers::undo::listen(&log, &hook, false, 5, 6, None, None);
    assert_eq!(meta.value.0, loro::LoroValue::from("kept"));
    assert_eq!(
        *asked.lock().unwrap(),
        vec![
            (UndoOrRedo::Undo, CounterSpan { start: 3, end: 5 }),
            (UndoOrRedo::Redo, CounterSpan { start: 5, end: 6 }),
        ]
    );
    let silent: Option<fn(UndoOrRedo, CounterSpan, Option<DiffEvent>) -> UndoItemMeta> = None;
    let meta = loro_containers::undo::listen(&log, &silent, true, 6, 7, None, Some(u128::MAX));
    assert_eq!(meta.value.0, loro::LoroValue::Null);
    assert!(meta.cursors.is_empty());
    let written: Vec<PushRecord> = sent.try_iter().collect();
    assert_eq!(
        written,
        vec![
            PushRecord { undo: true, at: 77 },
            PushRecord { undo: false, at: 0 },
            PushRecord { undo: true, at: i64::MAX },
        ]
    );
    let nothing = UndoItemMeta::new();
    assert_eq!(nothing.value.0, loro::LoroValue::Null);
    assert!(nothing.cursors.is_empty());
}

#[test]
fn a_checkpoint_of_the_own_document_never_fails() {
    let mut doc = LoroDoc::new();
    let mut other = LoroDoc::new();
    let mut undo = UndoManager::new(&doc);
    assert_eq!(undo.record_new_checkpoint(&mut doc), Ok(()));
    assert_eq!(undo.record_new_checkpoint(&mut other), Err(loro_containers::err::ErrorKind::Other));
    assert_eq!(undo.undo(&mut doc), Ok(false));
    assert_eq!(undo.redo(&mut doc), Ok(false));
    let list = doc.get_list("list");
    list.push(&mut doc, letter("A")).unwrap();
    assert_eq!(undo.record_new_checkpoint(&mut doc), Ok(()));
    assert!(undo.can_undo());
    assert_eq!(undo.undo(&mut doc), Ok(true));
    assert!(!undo.can_undo());
    assert!(undo.can_redo());
    assert_eq!(undo.redo(&mut doc), Ok(true));
    assert!(undo.can_undo());
    assert!(!undo.can_redo());
}
