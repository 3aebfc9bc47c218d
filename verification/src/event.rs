//! Change events: what one transaction did to each container that it touched.

use vstd::prelude::*;
use crate::container::Item;
use crate::container::RawItem;
use crate::container::ValueOrContainer;
use crate::key::key_view;
use crate::key::ContainerKey;
use crate::value::ContainerID;
use crate::value::ContainerIdView;
use crate::value::LoroValue;
use crate::value::TreeID;
use crate::value::TreeParentId;

verus! {

/// What brought a change about.
#[derive(Clone, Copy, Debug, PartialEq, Eq, Structural, Hash)]
pub enum EventTriggerKind {
    /// A transaction of this replica.
    Local,
    /// Operations of other replicas that were merged in.
    Import,
    /// A move of the document to another version.
    Checkout,
}

/// The trigger that a number stands for: 0 for `Local`, 1 for `Import`, any
/// other for `Checkout`.
pub open spec fn trigger_of_code(c: u8) -> EventTriggerKind {
    if c == 0 {
        EventTriggerKind::Local
    } else if c == 1 {
        EventTriggerKind::Import
    } else {
        EventTriggerKind::Checkout
    }
}

impl EventTriggerKind {
    pub fn from_code(c: u8) -> (k: EventTriggerKind)
        ensures
            k == trigger_of_code(c),
    {
        if c == 0 {
            EventTriggerKind::Local
        } else if c == 1 {
            EventTriggerKind::Import
        } else {
            EventTriggerKind::Checkout
        }
    }
}

/// One step on the way from the root of a document to a container: a key of a
/// map, a position in a list, or a node of a tree.
#[derive(Clone, Debug, PartialEq, Eq)]
pub enum Index {
    Key(String),
    Sequence(u32),
    Node(TreeID),
}

pub enum IndexView {
    Key(Seq<char>),
    Sequence(u32),
    Node(TreeID),
}

impl View for Index {
    type V = IndexView;

    open spec fn view(&self) -> IndexView {
        match self {
            Index::Key(k) => IndexView::Key(k@),
            Index::Sequence(i) => IndexView::Sequence(*i),
            Index::Node(t) => IndexView::Node(*t),
        }
    }
}

/// A container on the way to the one that changed, and the step that leads on
/// from it.
#[derive(Clone, Debug, PartialEq, Eq)]
pub struct PathItem {
    pub container: ContainerID,
    pub index: Index,
}

pub struct PathItemView {
    pub container: ContainerIdView,
    pub index: IndexView,
}

impl View for PathItem {
    type V = PathItemView;

    open spec fn view(&self) -> PathItemView {
        PathItemView { container: self.container@, index: self.index@ }
    }
}

/// One segment of the change of a list. The segments apply from left to right:
/// `Retain` steps over items, `Delete` takes items out, `Insert` puts in the
/// items that it carries, which were moved in from elsewhere if `is_move`.
pub enum ListDiffItem {
    Insert { insert: Vec<ValueOrContainer>, is_move: bool },
    Delete { delete: u32 },
    Retain { retain: u32 },
}

pub enum ListDiffItemView {
    Insert { insert: Seq<Item>, is_move: bool },
    Delete { delete: u32 },
    Retain { retain: u32 },
}

/// The items that handed-out items stand for.
pub open spec fn items_of(v: Seq<ValueOrContainer>) -> Seq<Item> {
    v.map_values(|x: ValueOrContainer| x.item())
}

impl View for ListDiffItem {
    type V = ListDiffItemView;

    open spec fn view(&self) -> ListDiffItemView {
        match self {
            ListDiffItem::Insert { insert, is_move } => ListDiffItemView::Insert {
                insert: items_of(insert@),
                is_move: *is_move,
            },
            ListDiffItem::Delete { delete } => ListDiffItemView::Delete { delete: *delete },
            ListDiffItem::Retain { retain } => ListDiffItemView::Retain { retain: *retain },
        }
    }
}

/// One segment of the change of a text, with the formatting of the characters
/// that it steps over or puts in.
pub enum TextDelta {
    Retain { retain: usize, attributes: Option<Vec<(String, LoroValue)>> },
    Insert { insert: String, attributes: Option<Vec<(String, LoroValue)>> },
    Delete { delete: usize },
}

pub enum TextDeltaView {
    Retain { retain: usize, attributes: Option<Seq<(Seq<char>, LoroValue)>> },
    Insert { insert: Seq<char>, attributes: Option<Seq<(Seq<char>, LoroValue)>> },
    Delete { delete: usize },
}

/// Formatting attributes, each name as a sequence of characters.
pub open spec fn attributes_of(a: Option<Vec<(String, LoroValue)>>) -> Option<
    Seq<(Seq<char>, LoroValue)>,
> {
    match a {
        Some(v) => Some(v@.map_values(|p: (String, LoroValue)| (p.0@, p.1))),
        None => None,
    }
}

impl View for TextDelta {
    type V = TextDeltaView;

    open spec fn view(&self) -> TextDeltaView {
        match self {
            TextDelta::Retain { retain, attributes } => TextDeltaView::Retain {
                retain: *retain,
                attributes: attributes_of(*attributes),
            },
            TextDelta::Insert { insert, attributes } => TextDeltaView::Insert {
                insert: insert@,
                attributes: attributes_of(*attributes),
            },
            TextDelta::Delete { delete } => TextDeltaView::Delete { delete: *delete },
        }
    }
}

/// The change of a map: each key that changed, with what stands under it now,
/// `None` for a key whose entry was deleted. Keys that did not change do not
/// appear.
pub struct MapDelta {
    pub updated: Vec<(String, Option<ValueOrContainer>)>,
}

/// What stands under a key after a change.
pub open spec fn slot_of(x: Option<ValueOrContainer>) -> Option<Item> {
    match x {
        Some(v) => Some(v.item()),
        None => None,
    }
}

impl View for MapDelta {
    type V = Seq<(Seq<char>, Option<Item>)>;

    open spec fn view(&self) -> Seq<(Seq<char>, Option<Item>)> {
        self.updated@.map_values(|p: (String, Option<ValueOrContainer>)| (p.0@, slot_of(p.1)))
    }
}

/// What happened to one node of a tree.
#[derive(Clone, Debug, PartialEq, Eq)]
pub enum TreeExternalDiff {
    Create { parent: TreeParentId, index: u32, fractional_index: String },
    Move {
        parent: TreeParentId,
        index: u32,
        fractional_index: String,
        old_parent: TreeParentId,
        old_index: u32,
    },
    Delete { old_parent: TreeParentId, old_index: u32 },
}

pub enum TreeExternalDiffView {
    Create { parent: TreeParentId, index: u32, fractional_index: Seq<char> },
    Move {
        parent: TreeParentId,
        index: u32,
        fractional_index: Seq<char>,
        old_parent: TreeParentId,
        old_index: u32,
    },
    Delete { old_parent: TreeParentId, old_index: u32 },
}

impl View for TreeExternalDiff {
    type V = TreeExternalDiffView;

    open spec fn view(&self) -> TreeExternalDiffView {
        match self {
            TreeExternalDiff::Create { parent, index, fractional_index } => {
                TreeExternalDiffView::Create {
                    parent: *parent,
                    index: *index,
                    fractional_index: fractional_index@,
                }
            },
            TreeExternalDiff::Move { parent, index, fractional_index, old_parent, old_index } => {
                TreeExternalDiffView::Move {
                    parent: *parent,
                    index: *index,
                    fractional_index: fractional_index@,
                    old_parent: *old_parent,
                    old_index: *old_index,
                }
            },
            TreeExternalDiff::Delete { old_parent, old_index } => TreeExternalDiffView::Delete {
                old_parent: *old_parent,
                old_index: *old_index,
            },
        }
    }
}

/// A node of a tree and what happened to it.
#[derive(Clone, Debug, PartialEq, Eq)]
pub struct TreeDiffItem {
    pub target: TreeID,
    pub action: TreeExternalDiff,
}

pub struct TreeDiffItemView {
    pub target: TreeID,
    pub action: TreeExternalDiffView,
}

impl View for TreeDiffItem {
    type V = TreeDiffItemView;

    open spec fn view(&self) -> TreeDiffItemView {
        TreeDiffItemView { target: self.target, action: self.action@ }
    }
}

/// The change of a tree: what happened to its nodes, in order.
#[derive(Clone, Debug, PartialEq, Eq)]
pub struct TreeDiff {
    pub diff: Vec<TreeDiffItem>,
}

impl View for TreeDiff {
    type V = Seq<TreeDiffItemView>;

    open spec fn view(&self) -> Seq<TreeDiffItemView> {
        self.diff@.map_values(|x: TreeDiffItem| x@)
    }
}

/// The change of one container, in the form of its kind. The change of a
/// counter is the amount that was added, as a value that holds a double. A
/// container of a kind that this version does not know changes in a way that it
/// cannot describe.
pub enum Diff {
    List(Vec<ListDiffItem>),
    Text(Vec<TextDelta>),
    Mapping(MapDelta),
    Tree(TreeDiff),
    Counter(LoroValue),
    Unknown,
}

pub enum DiffView {
    List(Seq<ListDiffItemView>),
    Text(Seq<TextDeltaView>),
    Mapping(Seq<(Seq<char>, Option<Item>)>),
    Tree(Seq<TreeDiffItemView>),
    Counter(LoroValue),
    Unknown,
}

impl View for Diff {
    type V = DiffView;

    open spec fn view(&self) -> DiffView {
        match self {
            Diff::List(v) => DiffView::List(v@.map_values(|x: ListDiffItem| x@)),
            Diff::Text(v) => DiffView::Text(v@.map_values(|x: TextDelta| x@)),
            Diff::Mapping(m) => DiffView::Mapping(m@),
            Diff::Tree(t) => DiffView::Tree(t@),
            Diff::Counter(c) => DiffView::Counter(*c),
            Diff::Unknown => DiffView::Unknown,
        }
    }
}

/// The change of one container: which container, the way to it from the root
/// of the document, and the change.
pub struct ContainerDiff {
    pub target: ContainerID,
    pub path: Vec<PathItem>,
    pub is_unknown: bool,
    pub diff: Diff,
}

pub struct ContainerDiffView {
    pub target: ContainerIdView,
    pub path: Seq<PathItemView>,
    pub is_unknown: bool,
    pub diff: DiffView,
}

impl View for ContainerDiff {
    type V = ContainerDiffView;

    open spec fn view(&self) -> ContainerDiffView {
        ContainerDiffView {
            target: self.target@,
            path: self.path@.map_values(|x: PathItem| x@),
            is_unknown: self.is_unknown,
            diff: self.diff@,
        }
    }
}

/// What one transaction changed: how it came about, the tag that its issuer gave
/// it, the container whose subscribers are told, and the change of each
/// container that it touched, in the order in which it touched them.
pub struct DiffEvent {
    pub triggered_by: EventTriggerKind,
    pub origin: String,
    pub current_target: Option<ContainerID>,
    pub events: Vec<ContainerDiff>,
}

pub struct DiffEventView {
    pub triggered_by: EventTriggerKind,
    pub origin: Seq<char>,
    pub current_target: Option<ContainerIdView>,
    pub events: Seq<ContainerDiffView>,
}

impl View for DiffEvent {
    type V = DiffEventView;

    open spec fn view(&self) -> DiffEventView {
        DiffEventView {
            triggered_by: self.triggered_by,
            origin: self.origin@,
            current_target: match self.current_target {
                Some(c) => Some(c@),
                None => None,
            },
            events: self.events@.map_values(|x: ContainerDiff| x@),
        }
    }
}

/// A number of items or a position as an event writes it down: the number
/// itself as far as 32 bits hold it.
pub fn narrow(n: usize) -> (r: u32)
    ensures
        r == n as u32,
        n <= u32::MAX ==> r == n,
{
    n as u32
}

/// An `Index` of `loro`, with a position as it comes.
pub enum RawIndex {
    Key(String),
    Sequence(usize),
    Node(TreeID),
}

/// The step that an `Index` of `loro` stands for.
pub open spec fn index_of_raw(r: RawIndex) -> IndexView {
    match r {
        RawIndex::Key(k) => IndexView::Key(k@),
        RawIndex::Sequence(i) => IndexView::Sequence(i as u32),
        RawIndex::Node(t) => IndexView::Node(t),
    }
}

impl Index {
    /// The step that `r` stands for.
    pub fn from_raw(r: RawIndex) -> (x: Index)
        ensures
            x@ == index_of_raw(r),
    {
        match r {
            RawIndex::Key(k) => Index::Key(k),
            RawIndex::Sequence(i) => Index::Sequence(narrow(i)),
            RawIndex::Node(t) => Index::Node(t),
        }
    }
}

/// A segment of the change of a list as `loro` reports it.
pub enum RawListItem {
    Insert { insert: Vec<RawItem>, is_move: bool },
    Delete { delete: usize },
    Retain { retain: usize },
}

/// The items that items of `loro` stand for.
pub open spec fn raw_items_of(v: Seq<RawItem>) -> Seq<Item> {
    v.map_values(|x: RawItem| x.item())
}

/// The segment that a segment of `loro` stands for.
pub open spec fn list_item_of_raw(r: RawListItem) -> ListDiffItemView {
    match r {
        RawListItem::Insert { insert, is_move } => ListDiffItemView::Insert {
            insert: raw_items_of(insert@),
            is_move,
        },
        RawListItem::Delete { delete } => ListDiffItemView::Delete { delete: delete as u32 },
        RawListItem::Retain { retain } => ListDiffItemView::Retain { retain: retain as u32 },
    }
}

/// Items of `loro` with handles in place of keys, in the same order.
pub fn settle_items(raw: Vec<RawItem>) -> (out: Vec<ValueOrContainer>)
    ensures
        items_of(out@) == raw_items_of(raw@),
{
    let ghost all = raw@;
    let mut rest = raw;
    let mut back: Vec<ValueOrContainer> = Vec::new();
    while rest.len() > 0
        invariant
            rest@.len() + back@.len() == all.len(),
            forall|i: int| 0 <= i < rest@.len() ==> rest@[i] == all[i],
            forall|i: int|
                0 <= i < back@.len() ==> (#[trigger] back@[i]).item() == all[all.len() - 1
                    - i].item(),
        decreases rest@.len(),
    {
        let x = rest.pop().unwrap();
        back.push(x.settle());
    }
    let mut out: Vec<ValueOrContainer> = Vec::new();
    while back.len() > 0
        invariant
            out@.len() + back@.len() == all.len(),
            forall|i: int|
                0 <= i < back@.len() ==> (#[trigger] back@[i]).item() == all[all.len() - 1
                    - i].item(),
            forall|i: int| 0 <= i < out@.len() ==> (#[trigger] out@[i]).item() == all[i].item(),
        decreases back@.len(),
    {
        let x = back.pop().unwrap();
        out.push(x);
    }
    assert(items_of(out@) =~= raw_items_of(all));
    out
}

impl ListDiffItem {
    /// The segment that `r` stands for.
    pub fn from_raw(r: RawListItem) -> (x: ListDiffItem)
        ensures
            x@ == list_item_of_raw(r),
    {
        match r {
            RawListItem::Insert { insert, is_move } => ListDiffItem::Insert {
                insert: settle_items(insert),
                is_move,
            },
            RawListItem::Delete { delete } => ListDiffItem::Delete { delete: narrow(delete) },
            RawListItem::Retain { retain } => ListDiffItem::Retain { retain: narrow(retain) },
        }
    }
}

/// What happened to a node of a tree, as `loro` reports it: 0 for a creation,
/// 1 for a move, any other for a deletion; parent, index and position key after
/// it, and parent and index before it. What a kind has not is `Unexist`, 0 or
/// empty.
pub struct RawTreeItem {
    pub target: TreeID,
    pub kind: u8,
    pub parent: TreeParentId,
    pub index: usize,
    pub position: String,
    pub old_parent: TreeParentId,
    pub old_index: usize,
}

/// What `r` says happened to the node.
pub open spec fn tree_item_of_raw(r: RawTreeItem) -> TreeDiffItemView {
    TreeDiffItemView {
        target: r.target,
        action: if r.kind == 0 {
            TreeExternalDiffView::Create {
                parent: r.parent,
                index: r.index as u32,
                fractional_index: r.position@,
            }
        } else if r.kind == 1 {
            TreeExternalDiffView::Move {
                parent: r.parent,
                index: r.index as u32,
                fractional_index: r.position@,
                old_parent: r.old_parent,
                old_index: r.old_index as u32,
            }
        } else {
            TreeExternalDiffView::Delete {
                old_parent: r.old_parent,
                old_index: r.old_index as u32,
            }
        },
    }
}

impl TreeDiffItem {
    /// What `r` says happened to the node.
    pub fn from_raw(r: RawTreeItem) -> (x: TreeDiffItem)
        ensures
            x@ == tree_item_of_raw(r),
    {
        let action = if r.kind == 0 {
            TreeExternalDiff::Create {
                parent: r.parent,
                index: narrow(r.index),
                fractional_index: r.position,
            }
        } else if r.kind == 1 {
            TreeExternalDiff::Move {
                parent: r.parent,
                index: narrow(r.index),
                fractional_index: r.position,
                old_parent: r.old_parent,
                old_index: narrow(r.old_index),
            }
        } else {
            TreeExternalDiff::Delete { old_parent: r.old_parent, old_index: narrow(r.old_index) }
        };
        TreeDiffItem { target: r.target, action }
    }
}

/// A key that changed and what stands under it now.
pub open spec fn raw_slot(p: (String, Option<RawItem>)) -> (Seq<char>, Option<Item>) {
    (
        p.0@,
        match p.1 {
            Some(x) => Some(x.item()),
            None => None,
        },
    )
}

/// A key that changed and what stands under it now.
pub open spec fn slot(p: (String, Option<ValueOrContainer>)) -> (Seq<char>, Option<Item>) {
    (p.0@, slot_of(p.1))
}

impl MapDelta {
    /// The change of a map from the keys that changed, each with what stands
    /// under it now, in the order in which they come.
    pub fn from_raw(raw: Vec<(String, Option<RawItem>)>) -> (m: MapDelta)
        ensures
            m@ == raw@.map_values(|p: (String, Option<RawItem>)| raw_slot(p)),
    {
        let ghost all = raw@;
        let mut rest = raw;
        let mut back: Vec<(String, Option<ValueOrContainer>)> = Vec::new();
        while rest.len() > 0
            invariant
                rest@.len() + back@.len() == all.len(),
                forall|i: int| 0 <= i < rest@.len() ==> rest@[i] == all[i],
                forall|i: int|
                    0 <= i < back@.len() ==> slot(#[trigger] back@[i]) == raw_slot(
                        all[all.len() - 1 - i],
                    ),
            decreases rest@.len(),
        {
            let pair = rest.pop().unwrap();
            let ghost was = pair;
            let settled = match pair.1 {
                Some(x) => Some(x.settle()),
                None => None,
            };
            let entry = (pair.0, settled);
            assert(slot(entry) == raw_slot(was));
            back.push(entry);
        }
        let mut updated: Vec<(String, Option<ValueOrContainer>)> = Vec::new();
        while back.len() > 0
            invariant
                updated@.len() + back@.len() == all.len(),
                forall|i: int|
                    0 <= i < back@.len() ==> slot(#[trigger] back@[i]) == raw_slot(
                        all[all.len() - 1 - i],
                    ),
                forall|i: int|
                    0 <= i < updated@.len() ==> slot(#[trigger] updated@[i]) == raw_slot(all[i]),
            decreases back@.len(),
        {
            let x = back.pop().unwrap();
            updated.push(x);
        }
        let m = MapDelta { updated };
        assert(m@ =~= all.map_values(|p: (String, Option<RawItem>)| raw_slot(p)));
        m
    }
}

/// A `loro::event::DiffEvent`, as a subscriber is handed it: all that this
/// crate knows of one is what the names below say that it holds.
#[verifier::external_body]
pub struct RawEvent<'a> {
    pub(crate) raw: loro::event::DiffEvent<'a>,
}

/// The head of an event: the number of its trigger (0 local, 1 import, 2
/// checkout), its origin, the container whose subscribers are told, and the
/// number of containers that it reports on.
pub uninterp spec fn raw_head(e: RawEvent) -> (u8, Seq<char>, Option<ContainerKey>, nat);

/// The head of what an event reports on its container number `i`: the
/// container, whether its kind is unknown, the number of steps on the way to it,
/// the number of the kind of change (0 list, 1 text, 2 map, 3 tree, 4 counter,
/// 5 unknown), and the number of segments of a change of a list, a text or a
/// tree.
pub uninterp spec fn raw_diff_head(e: RawEvent, i: int) -> (ContainerKey, bool, nat, u8, nat);

/// Step number `j` on the way to container number `i` of an event.
pub uninterp spec fn raw_path_item(e: RawEvent, i: int, j: int) -> (ContainerKey, RawIndex);

/// Segment number `j` of the change of a list, which is what an event reports
/// on its container number `i`.
pub uninterp spec fn raw_list_item(e: RawEvent, i: int, j: int) -> RawListItem;

/// Of segment number `j` of the change of a text: 0 with the number of
/// characters for `Retain`, 1 with the text for `Insert`, 2 with the number of
/// characters for `Delete`.
pub uninterp spec fn raw_text_item(e: RawEvent, i: int, j: int) -> (u8, usize, Seq<char>);

/// What happened to node number `j` of the change of a tree.
pub uninterp spec fn raw_tree_item(e: RawEvent, i: int, j: int) -> RawTreeItem;

/// The amount that was added to a counter, as a value that holds a double.
pub uninterp spec fn raw_counter(e: RawEvent, i: int) -> LoroValue;

/// The keys that changed in the map that an event reports on as its container
/// number `i`, each with what stands under it now, `None` for a key whose entry
/// was deleted.
pub uninterp spec fn raw_map_delta(e: RawEvent, i: int) -> Map<Seq<char>, Option<Item>>;

/// The formatting attributes of segment number `j` of the change of a text, if
/// the segment carries any.
pub uninterp spec fn raw_text_attributes(e: RawEvent, i: int, j: int) -> Option<
    Map<Seq<char>, LoroValue>,
>;

/// Whether the pairs `s` list the entries of `m`: each key once, with what `m`
/// has under it, and no key of `m` left out.
pub open spec fn lists<V>(s: Seq<(Seq<char>, V)>, m: Map<Seq<char>, V>) -> bool {
    &&& forall|a: int, b: int| #![trigger s[a], s[b]] 0 <= a < b < s.len() ==> s[a].0 != s[b].0
    &&& forall|a: int|
        0 <= a < s.len() ==> m.dom().contains((#[trigger] s[a]).0) && m[s[a].0] == s[a].1
    &&& forall|k: Seq<char>| #[trigger]
        m.dom().contains(k) ==> exists|a: int| 0 <= a < s.len() && (#[trigger] s[a]).0 == k
}

/// Whether the attributes `a` list those of `marks`, or there are none.
pub open spec fn marked(
    a: Option<Seq<(Seq<char>, LoroValue)>>,
    marks: Option<Map<Seq<char>, LoroValue>>,
) -> bool {
    match (a, marks) {
        (Some(s), Some(m)) => lists(s, m),
        (None, None) => true,
        _ => false,
    }
}

/// The keys that changed as `loro` reports them, each with what stands under it
/// now.
pub open spec fn raw_slots(v: Seq<(String, Option<RawItem>)>) -> Seq<(Seq<char>, Option<Item>)> {
    v.map_values(|p: (String, Option<RawItem>)| raw_slot(p))
}

/// Reads the fields `triggered_by`, `origin` and `current_target` of a
/// `DiffEvent` and the length of `events`.
#[verifier::external_body]
fn read_head(e: &RawEvent) -> (r: (u8, String, Option<ContainerKey>, usize))
    ensures
        (r.0, r.1@, r.2, r.3 as nat) == raw_head(*e),
        r.0 <= 2,
{
    let by = match e.raw.triggered_by {
        loro::EventTriggerKind::Local => 0,
        loro::EventTriggerKind::Import => 1,
        loro::EventTriggerKind::Checkout => 2,
    };
    let target = e.raw.current_target.clone().map(|c| ContainerKey { raw: c });
    (by, e.raw.origin.to_string(), target, e.raw.events.len())
}

/// Reads the fields `target` and `is_unknown` of a `ContainerDiff`, the length
/// of `path`, the variant of `diff` and the length of what it holds.
#[verifier::external_body]
fn read_diff_head(e: &RawEvent, i: usize) -> (r: (ContainerKey, bool, usize, u8, usize))
    requires
        i < raw_head(*e).3,
    ensures
        (r.0, r.1, r.2 as nat, r.3, r.4 as nat) == raw_diff_head(*e, i as int),
        r.3 <= 5,
{
    let c = &e.raw.events[i];
    let (kind, len) = match &c.diff {
        loro::event::Diff::List(l) => (0, l.len()),
        loro::event::Diff::Text(t) => (1, t.len()),
        loro::event::Diff::Map(_) => (2, 0),
        loro::event::Diff::Tree(t) => (3, t.diff.len()),
        loro::event::Diff::Counter(_) => (4, 0),
        loro::event::Diff::Unknown => (5, 0),
    };
    (ContainerKey { raw: c.target.clone() }, c.is_unknown, c.path.len(), kind, len)
}

/// Reads entry `j` of the field `path` of a `ContainerDiff`.
#[verifier::external_body]
fn read_path_item(e: &RawEvent, i: usize, j: usize) -> (r: (ContainerKey, RawIndex))
    requires
        i < raw_head(*e).3,
        j < raw_diff_head(*e, i as int).2,
    ensures
        r == raw_path_item(*e, i as int, j as int),
{
    let (container, index) = &e.raw.events[i].path[j];
    let index = match index {
        loro::Index::Key(k) => RawIndex::Key(k.to_string()),
        loro::Index::Seq(n) => RawIndex::Sequence(*n),
        loro::Index::Node(t) => RawIndex::Node(TreeID { peer: t.peer, counter: t.counter }),
    };
    (ContainerKey { raw: container.clone() }, index)
}

/// Reads entry `j` of a `Diff::List`.
#[verifier::external_body]
fn read_list_item(e: &RawEvent, i: usize, j: usize) -> (r: RawListItem)
    requires
        i < raw_head(*e).3,
        raw_diff_head(*e, i as int).3 == 0,
        j < raw_diff_head(*e, i as int).4,
    ensures
        r == raw_list_item(*e, i as int, j as int),
{
    match &e.raw.events[i].diff.as_list().unwrap()[j] {
        loro::event::ListDiffItem::Insert { insert, is_move } => RawListItem::Insert {
            insert: insert.iter().map(|x| match x {
                loro::ValueOrContainer::Value(v) => RawItem::Value(LoroValue(v.clone())),
                loro::ValueOrContainer::Container(c) => RawItem::Container(ContainerKey {
                    raw: loro::ContainerTrait::id(c),
                }),
            }).collect(),
            is_move: *is_move,
        },
        loro::event::ListDiffItem::Delete { delete } => RawListItem::Delete { delete: *delete },
        loro::event::ListDiffItem::Retain { retain } => RawListItem::Retain { retain: *retain },
    }
}

/// Reads entry `j` of a `Diff::Text`. The attributes come in the order in which
/// their map is walked, each once; a segment that deletes has none.
#[verifier::external_body]
fn read_text_item(e: &RawEvent, i: usize, j: usize) -> (r: (
    u8,
    usize,
    String,
    Option<Vec<(String, LoroValue)>>,
))
    requires
        i < raw_head(*e).3,
        raw_diff_head(*e, i as int).3 == 1,
        j < raw_diff_head(*e, i as int).4,
    ensures
        (r.0, r.1, r.2@) == raw_text_item(*e, i as int, j as int),
        r.0 <= 2,
        marked(attributes_of(r.3), raw_text_attributes(*e, i as int, j as int)),
{
    let conv = |a: &Option<loro_internal::FxHashMap<String, loro::LoroValue>>| {
        a.as_ref().map(|m| m.iter().map(|(k, v)| (k.clone(), LoroValue(v.clone()))).collect())
    };
    match &e.raw.events[i].diff.as_text().unwrap()[j] {
        loro::TextDelta::Retain { retain, attributes } => (0, *retain, String::new(), conv(attributes)),
        loro::TextDelta::Insert { insert, attributes } => (1, 0, insert.clone(), conv(attributes)),
        loro::TextDelta::Delete { delete } => (2, *delete, String::new(), None),
    }
}

/// Reads the field `updated` of a `Diff::Map`, in the order in which the map is
/// walked: each key that changed once, with what stands under it now.
#[verifier::external_body]
fn read_map_delta(e: &RawEvent, i: usize) -> (r: Vec<(String, Option<RawItem>)>)
    requires
        i < raw_head(*e).3,
        raw_diff_head(*e, i as int).3 == 2,
    ensures
        forall|a: int, b: int| 0 <= a < b < r@.len() ==> r@[a].0@ != r@[b].0@,
        lists(raw_slots(r@), raw_map_delta(*e, i as int)),
{
    e.raw.events[i].diff.as_map().unwrap().updated.iter().map(|(k, v)| (k.to_string(), v.as_ref().map(|x| match x {
        loro::ValueOrContainer::Value(v) => RawItem::Value(LoroValue(v.clone())),
        loro::ValueOrContainer::Container(c) => RawItem::Container(ContainerKey {
            raw: loro::ContainerTrait::id(c),
        }),
    }))).collect()
}

/// Reads entry `j` of a `Diff::Tree` but for the parents, which come as
/// `Unexist` here: see `read_tree_parents`.
#[verifier::external_body]
fn read_tree_item(e: &RawEvent, i: usize, j: usize) -> (r: RawTreeItem)
    requires
        i < raw_head(*e).3,
        raw_diff_head(*e, i as int).3 == 3,
        j < raw_diff_head(*e, i as int).4,
    ensures
        r == (RawTreeItem {
            parent: TreeParentId::Unexist,
            old_parent: TreeParentId::Unexist,
            ..raw_tree_item(*e, i as int, j as int)
        }),
        r.kind <= 2,
{
    let item = &e.raw.events[i].diff.as_tree().unwrap().diff[j];
    let (kind, index, position, old_index) = match &item.action {
        loro::TreeExternalDiff::Create { index, position, .. } => (0, *index, position.to_string(), 0),
        loro::TreeExternalDiff::Move { index, position, old_index, .. } => (1, *index, position.to_string(), *old_index),
        loro::TreeExternalDiff::Delete { old_index, .. } => (2, 0, String::new(), *old_index),
    };
    let target = TreeID { peer: item.target.peer, counter: item.target.counter };
    RawTreeItem { target, kind, parent: TreeParentId::Unexist, index, position, old_parent: TreeParentId::Unexist, old_index }
}

/// Reads the parent after and the parent before of entry `j` of a
/// `Diff::Tree`; `Unexist` where the entry has none.
#[verifier::external_body]
fn read_tree_parents(e: &RawEvent, i: usize, j: usize) -> (r: (TreeParentId, TreeParentId))
    requires
        i < raw_head(*e).3,
        raw_diff_head(*e, i as int).3 == 3,
        j < raw_diff_head(*e, i as int).4,
    ensures
        r.0 == raw_tree_item(*e, i as int, j as int).parent,
        r.1 == raw_tree_item(*e, i as int, j as int).old_parent,
{
    let conv = |p: &loro::TreeParentId| match p {
        loro::TreeParentId::Node(n) => TreeParentId::Node(TreeID { peer: n.peer, counter: n.counter }),
        loro::TreeParentId::Root => TreeParentId::Root,
        loro::TreeParentId::Deleted => TreeParentId::Deleted,
        loro::TreeParentId::Unexist => TreeParentId::Unexist,
    };
    match &e.raw.events[i].diff.as_tree().unwrap().diff[j].action {
        loro::TreeExternalDiff::Create { parent, .. } => (conv(parent), TreeParentId::Unexist),
        loro::TreeExternalDiff::Move { parent, old_parent, .. } => (conv(parent), conv(old_parent)),
        loro::TreeExternalDiff::Delete { old_parent, .. } => (TreeParentId::Unexist, conv(old_parent)),
    }
}

/// Reads the amount in a `Diff::Counter` into a value.
#[verifier::external_body]
fn read_counter(e: &RawEvent, i: usize) -> (r: LoroValue)
    requires
        i < raw_head(*e).3,
        raw_diff_head(*e, i as int).3 == 4,
    ensures
        r == raw_counter(*e, i as int),
{
    LoroValue(loro::LoroValue::from(*e.raw.events[i].diff.as_counter().unwrap()))
}

/// The way to container number `i` of an event.
pub open spec fn path_of(e: RawEvent, i: int) -> Seq<PathItemView> {
    Seq::new(
        raw_diff_head(e, i).2,
        |j: int|
            PathItemView {
                container: key_view(raw_path_item(e, i, j).0),
                index: index_of_raw(raw_path_item(e, i, j).1),
            },
    )
}

/// What an event reports of the change of its container number `i`: all of the
/// change of a list, a tree or a counter; of the change of a text each segment,
/// with its formatting attributes in the order in which they come; of the
/// change of a map the keys that changed, each once and with what stands under
/// it now, in the order in which they come.
pub open spec fn diff_fits(e: RawEvent, i: int, d: DiffView) -> bool {
    let kind = raw_diff_head(e, i).3;
    let len = raw_diff_head(e, i).4;
    if kind == 0 {
        d == DiffView::List(Seq::new(len, |j: int| list_item_of_raw(raw_list_item(e, i, j))))
    } else if kind == 1 {
        d matches DiffView::Text(v) && v.len() == len && forall|j: int|
            0 <= j < len ==> text_item_fits(
                raw_text_item(e, i, j),
                raw_text_attributes(e, i, j),
                #[trigger] v[j],
            )
    } else if kind == 2 {
        d matches DiffView::Mapping(v) && lists(v, raw_map_delta(e, i))
    } else if kind == 3 {
        d == DiffView::Tree(Seq::new(len, |j: int| tree_item_of_raw(raw_tree_item(e, i, j))))
    } else if kind == 4 {
        d == DiffView::Counter(raw_counter(e, i))
    } else {
        d == DiffView::Unknown
    }
}

/// Whether a segment of the change of a text is of the kind and extent that
/// `raw` gives, with the formatting attributes `marks`.
pub open spec fn text_item_fits(
    raw: (u8, usize, Seq<char>),
    marks: Option<Map<Seq<char>, LoroValue>>,
    d: TextDeltaView,
) -> bool {
    if raw.0 == 0 {
        d matches TextDeltaView::Retain { retain, attributes } && retain == raw.1 && marked(
            attributes,
            marks,
        )
    } else if raw.0 == 1 {
        d matches TextDeltaView::Insert { insert, attributes } && insert == raw.2 && marked(
            attributes,
            marks,
        )
    } else {
        d == (TextDeltaView::Delete { delete: raw.1 })
    }
}

impl Diff {
    /// The change that an event reports of its container number `i`.
    pub fn from_raw(e: &RawEvent, i: usize) -> (d: Diff)
        requires
            i < raw_head(*e).3,
        ensures
            diff_fits(*e, i as int, d@),
    {
        let head = read_diff_head(e, i);
        let kind = head.3;
        let len = head.4;
        if kind == 0 {
            let mut out: Vec<ListDiffItem> = Vec::new();
            let mut j: usize = 0;
            while j < len
                invariant
                    i < raw_head(*e).3,
                    raw_diff_head(*e, i as int).3 == 0,
                    len == raw_diff_head(*e, i as int).4,
                    j <= len,
                    out@.len() == j,
                    forall|k: int|
                        0 <= k < j ==> (#[trigger] out@[k])@ == list_item_of_raw(
                            raw_list_item(*e, i as int, k),
                        ),
                decreases len - j,
            {
                out.push(ListDiffItem::from_raw(read_list_item(e, i, j)));
                j += 1;
            }
            let d = Diff::List(out);
            assert(d@->List_0 =~= Seq::new(
                len as nat,
                |j: int| list_item_of_raw(raw_list_item(*e, i as int, j)),
            ));
            d
        } else if kind == 1 {
            let mut out: Vec<TextDelta> = Vec::new();
            let mut j: usize = 0;
            while j < len
                invariant
                    i < raw_head(*e).3,
                    raw_diff_head(*e, i as int).3 == 1,
                    len == raw_diff_head(*e, i as int).4,
                    j <= len,
                    out@.len() == j,
                    forall|k: int|
                        0 <= k < j ==> text_item_fits(
                            raw_text_item(*e, i as int, k),
                            raw_text_attributes(*e, i as int, k),
                            (#[trigger] out@[k])@,
                        ),
                decreases len - j,
            {
                let raw = read_text_item(e, i, j);
                let item = if raw.0 == 0 {
                    TextDelta::Retain { retain: raw.1, attributes: raw.3 }
                } else if raw.0 == 1 {
                    TextDelta::Insert { insert: raw.2, attributes: raw.3 }
                } else {
                    TextDelta::Delete { delete: raw.1 }
                };
                out.push(item);
                j += 1;
            }
            Diff::Text(out)
        } else if kind == 2 {
            Diff::Mapping(MapDelta::from_raw(read_map_delta(e, i)))
        } else if kind == 3 {
            let mut out: Vec<TreeDiffItem> = Vec::new();
            let mut j: usize = 0;
            while j < len
                invariant
                    i < raw_head(*e).3,
                    raw_diff_head(*e, i as int).3 == 3,
                    len == raw_diff_head(*e, i as int).4,
                    j <= len,
                    out@.len() == j,
                    forall|k: int|
                        0 <= k < j ==> (#[trigger] out@[k])@ == tree_item_of_raw(
                            raw_tree_item(*e, i as int, k),
                        ),
                decreases len - j,
            {
                let body = read_tree_item(e, i, j);
                let parents = read_tree_parents(e, i, j);
                let raw = RawTreeItem {
                    target: body.target,
                    kind: body.kind,
                    parent: parents.0,
                    index: body.index,
                    position: body.position,
                    old_parent: parents.1,
                    old_index: body.old_index,
                };
                assert(raw == raw_tree_item(*e, i as int, j as int));
                out.push(TreeDiffItem::from_raw(raw));
                j += 1;
            }
            let d = Diff::Tree(TreeDiff { diff: out });
            assert(d@->Tree_0 =~= Seq::new(
                len as nat,
                |j: int| tree_item_of_raw(raw_tree_item(*e, i as int, j)),
            ));
            d
        } else if kind == 4 {
            Diff::Counter(read_counter(e, i))
        } else {
            Diff::Unknown
        }
    }
}

/// What an event reports on its container number `i`.
pub open spec fn container_diff_fits(e: RawEvent, i: int, c: ContainerDiffView) -> bool {
    &&& c.target == key_view(raw_diff_head(e, i).0)
    &&& c.is_unknown == raw_diff_head(e, i).1
    &&& c.path == path_of(e, i)
    &&& diff_fits(e, i, c.diff)
}

impl ContainerDiff {
    /// What an event reports on its container number `i`.
    pub fn from_raw(e: &RawEvent, i: usize) -> (c: ContainerDiff)
        requires
            i < raw_head(*e).3,
        ensures
            container_diff_fits(*e, i as int, c@),
    {
        let head = read_diff_head(e, i);
        let len = head.2;
        let mut path: Vec<PathItem> = Vec::new();
        let mut j: usize = 0;
        while j < len
            invariant
                i < raw_head(*e).3,
                len == raw_diff_head(*e, i as int).2,
                j <= len,
                path@.len() == j,
                forall|k: int| 0 <= k < j ==> (#[trigger] path@[k])@ == path_of(*e, i as int)[k],
            decreases len - j,
        {
            let raw = read_path_item(e, i, j);
            path.push(PathItem { container: raw.0.id(), index: Index::from_raw(raw.1) });
            j += 1;
        }
        let diff = Diff::from_raw(e, i);
        let c = ContainerDiff { target: head.0.id(), path, is_unknown: head.1, diff };
        assert(c@.path =~= path_of(*e, i as int));
        c
    }
}

/// What a subscriber is told of an event.
pub open spec fn event_fits(e: RawEvent, v: DiffEventView) -> bool {
    &&& v.triggered_by == trigger_of_code(raw_head(e).0)
    &&& v.origin == raw_head(e).1
    &&& v.current_target == match raw_head(e).2 {
        Some(k) => Some(key_view(k)),
        None => None,
    }
    &&& v.events.len() == raw_head(e).3
    &&& forall|i: int| 0 <= i < v.events.len() ==> container_diff_fits(e, i, #[trigger] v.events[i])
}

impl DiffEvent {
    /// The event as a subscriber is told it: the changes of the containers in the
    /// order in which the transaction touched them.
    pub fn from_raw(e: &RawEvent) -> (ev: DiffEvent)
        ensures
            event_fits(*e, ev@),
    {
        let head = read_head(e);
        let len = head.3;
        let mut events: Vec<ContainerDiff> = Vec::new();
        let mut i: usize = 0;
        while i < len
            invariant
                len == raw_head(*e).3,
                i <= len,
                events@.len() == i,
                forall|k: int| 0 <= k < i ==> container_diff_fits(*e, k, (#[trigger] events@[k])@),
            decreases len - i,
        {
            events.push(ContainerDiff::from_raw(e, i));
            i += 1;
        }
        let current_target = match head.2 {
            Some(k) => Some(k.id()),
            None => None,
        };
        DiffEvent {
            triggered_by: EventTriggerKind::from_code(head.0),
            origin: head.1,
            current_target,
            events,
        }
    }
}


/// A `loro::Subscription`: while it lives, its subscriber is told of events.
#[verifier::external_body]
pub struct Registration {
    raw: loro::Subscription,
}

/// `LoroDoc::subscribe_root`: from now on `f` is told of every event of the
/// document, as `DiffEvent::from_raw` gives it.
#[verifier::external_body]
fn raw_subscribe_root<F: Fn(DiffEvent) + Send + Sync + 'static>(
    doc: &crate::doc::DocHandle,
    f: F,
) -> (r: Registration)
    requires
        forall|ev: DiffEvent| #[trigger] f.requires((ev,)),
{
    let tell = move |e: loro::event::DiffEvent<'_>| f(DiffEvent::from_raw(&RawEvent { raw: e }));
    Registration { raw: doc.raw.subscribe_root(std::sync::Arc::new(tell)) }
}

/// `LoroDoc::subscribe`: from now on `f` is told of every event that touches
/// the container `container` or one within it.
#[verifier::external_body]
fn raw_subscribe<F: Fn(DiffEvent) + Send + Sync + 'static>(
    doc: &crate::doc::DocHandle,
    container: &ContainerKey,
    f: F,
) -> (r: Registration)
    requires
        forall|ev: DiffEvent| #[trigger] f.requires((ev,)),
{
    let tell = move |e: loro::event::DiffEvent<'_>| f(DiffEvent::from_raw(&RawEvent { raw: e }));
    Registration { raw: doc.raw.subscribe(&container.raw, std::sync::Arc::new(tell)) }
}

/// `Subscription::unsubscribe`: the subscriber is told of no further event.
#[verifier::external_body]
fn raw_unsubscribe(r: Registration) {
    r.raw.unsubscribe()
}

/// A registration of a subscriber with a document. The subscriber is told of
/// events until the registration is cancelled, which takes effect once.
pub struct Subscription {
    inner: Option<Registration>,
}

impl Subscription {
    /// Whether the registration has not been cancelled.
    pub closed spec fn active(&self) -> bool {
        self.inner is Some
    }

    /// Whether the registration has not been cancelled.
    pub fn is_active(&self) -> (r: bool)
        ensures
            r == self.active(),
    {
        self.inner.is_some()
    }

    /// Cancels the registration. To cancel one that is cancelled does nothing.
    pub fn unsubscribe(&mut self) -> (r: bool)
        ensures
            !final(self).active(),
            r == old(self).active(),
    {
        match self.inner.take() {
            Some(reg) => {
                raw_unsubscribe(reg);
                true
            },
            None => false,
        }
    }
}

impl crate::doc::LoroDoc {
    /// Registers `f` to be told of every event of the document. The events of one
    /// transaction come as one `DiffEvent`, before those of the next.
    pub fn subscribe_root<F: Fn(DiffEvent) + Send + Sync + 'static>(&self, f: F) -> (s: Subscription)
        requires
            forall|ev: DiffEvent| #[trigger] f.requires((ev,)),
        ensures
            s.active(),
    {
        Subscription { inner: Some(raw_subscribe_root(&self.inner, f)) }
    }

    /// Registers `f` to be told of every event that touches `container` or a
    /// container within it.
    pub fn subscribe<F: Fn(DiffEvent) + Send + Sync + 'static>(
        &self,
        container: &ContainerID,
        f: F,
    ) -> (s: Subscription)
        requires
            forall|ev: DiffEvent| #[trigger] f.requires((ev,)),
        ensures
            s.active(),
    {
        let key = ContainerKey::of(container);
        Subscription { inner: Some(raw_subscribe(&self.inner, &key, f)) }
    }
}

} // verus!
