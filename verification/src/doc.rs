//! The document: the one owner of the state of all its containers.

use vstd::prelude::*;
use crate::container::list::LoroList;
use crate::container::map::LoroMap;
use crate::container::tree::LoroTree;
use crate::container::tree_model::TreeModel;
use crate::container::Item;
use crate::exchange::genuine;
use crate::exchange::headed;
use crate::value::ContainerIdView;
use crate::value::ContainerType;
use crate::value::ID;
use crate::value::LoroValue;
use crate::value::TreeID;
use crate::value::TreeParentId;

verus! {

/// A `loro::LoroDoc`. All that this crate knows of one is what the names below
/// say that it holds.
#[verifier::external_body]
pub struct DocHandle {
    pub(crate) raw: loro::LoroDoc,
}

/// The parent of every node that was created in the tree `tree` of `d`.
pub uninterp spec fn tree_parents(d: DocHandle, tree: ContainerIdView) -> Map<TreeID, TreeParentId>;

/// The children below each parent in the tree `tree` of `d`, in their order.
pub uninterp spec fn tree_children(d: DocHandle, tree: ContainerIdView) -> Map<
    TreeParentId,
    Seq<TreeID>,
>;

/// The trees of `d` that keep a position key for each node.
pub uninterp spec fn tree_positioned(d: DocHandle) -> Set<ContainerIdView>;

/// The position key of each node of the tree `tree` of `d` that has one, as
/// `loro` writes it: two hexadecimal digits for each byte.
pub uninterp spec fn tree_keys(d: DocHandle, tree: ContainerIdView) -> Map<TreeID, Seq<char>>;

/// The items of the list `list` of `d`, in their order.
pub uninterp spec fn list_items(d: DocHandle, list: ContainerIdView) -> Seq<Item>;

/// For each item of the list `list` of `d`, the operation that inserted it.
pub uninterp spec fn list_ids(d: DocHandle, list: ContainerIdView) -> Seq<ID>;

/// The entries of the map `map` of `d`.
pub uninterp spec fn map_entries(d: DocHandle, map: ContainerIdView) -> Map<Seq<char>, Item>;

/// For each key of the map `map` of `d` that was ever set or deleted, the peer
/// that did so last.
pub uninterp spec fn map_editors(d: DocHandle, map: ContainerIdView) -> Map<Seq<char>, u64>;

/// What `editors` has under `key`, if anything.
pub open spec fn editor_in(editors: Map<Seq<char>, u64>, key: Seq<char>) -> Option<u64> {
    if editors.dom().contains(key) {
        Some(editors[key])
    } else {
        None
    }
}

/// The container `c` of `d` as one value: with its containers as the values
/// that name them, or, if `deep`, as the values that they hold.
pub uninterp spec fn container_value(d: DocHandle, c: ContainerIdView, deep: bool) -> LoroValue;

/// Whether `d` holds the container `c`: a root container always, another one
/// once the operation that created it is known to `d`.
pub uninterp spec fn doc_holds(d: DocHandle, c: ContainerIdView) -> bool;

/// How far chance spreads the position keys that the tree `tree` of `d` makes;
/// 0 where chance has no part in them.
pub uninterp spec fn tree_jitter(d: DocHandle, tree: ContainerIdView) -> u8;

/// The position key that `loro` makes for a node between two neighbours with
/// the keys `lower` and `upper`, or at an end where one of them is missing,
/// when chance has no part in it.
pub uninterp spec fn key_between(lower: Option<Seq<char>>, upper: Option<Seq<char>>) -> Seq<char>;

/// The tree `tree` of `d`.
pub open spec fn tree_model(d: DocHandle, tree: ContainerIdView) -> TreeModel {
    TreeModel {
        parents: tree_parents(d, tree),
        children: tree_children(d, tree),
        positioned: tree_positioned(d).contains(tree),
        jitter: tree_jitter(d, tree),
    }
}

/// A root container with a name that `loro` accepts for one: not empty, without
/// `/` and the character of code 0, and not in the reserved namespace.
pub open spec fn plain_root(c: ContainerIdView) -> bool {
    match c {
        ContainerIdView::Root { name, .. } => name.len() > 0 && name[0] != '\u{1F91D}' && forall|
            i: int,
        |
            0 <= i < name.len() ==> name[i] != '/' && name[i] != '\0',
        _ => false,
    }
}

/// Every tree but `tree` is as it was.
pub open spec fn other_trees_kept(before: DocHandle, after: DocHandle, tree: ContainerIdView) -> bool {
    forall|c: ContainerIdView| c != tree ==> #[trigger] tree_model(after, c) == tree_model(before, c)
}

/// Every tree is as it was.
pub open spec fn trees_kept(before: DocHandle, after: DocHandle) -> bool {
    forall|c: ContainerIdView| #[trigger] tree_model(after, c) == tree_model(before, c)
}

/// Every list but `list` is as it was.
pub open spec fn other_lists_kept(before: DocHandle, after: DocHandle, list: ContainerIdView) -> bool {
    forall|c: ContainerIdView|
        c != list ==> #[trigger] list_items(after, c) == list_items(before, c) && list_ids(after, c)
            == list_ids(before, c)
}

/// Every list is as it was.
pub open spec fn lists_kept(before: DocHandle, after: DocHandle) -> bool {
    forall|c: ContainerIdView| #[trigger]
        list_items(after, c) == list_items(before, c) && list_ids(after, c) == list_ids(before, c)
}

/// Every map but `map` is as it was.
pub open spec fn other_maps_kept(before: DocHandle, after: DocHandle, map: ContainerIdView) -> bool {
    forall|c: ContainerIdView| c != map ==> #[trigger] map_entries(after, c) == map_entries(before, c)
}

/// Every map is as it was.
pub open spec fn maps_kept(before: DocHandle, after: DocHandle) -> bool {
    forall|c: ContainerIdView| #[trigger] map_entries(after, c) == map_entries(before, c)
}

/// All that the names above say of a document is as it was: what every
/// container holds, the position keys, the last editors, which containers the
/// document holds, which replica it is, and whether it is sound.
pub open spec fn contents_kept(before: DocHandle, after: DocHandle) -> bool {
    &&& trees_kept(before, after)
    &&& lists_kept(before, after)
    &&& maps_kept(before, after)
    &&& forall|c: ContainerIdView| #[trigger] tree_keys(after, c) == tree_keys(before, c)
    &&& forall|c: ContainerIdView| #[trigger] map_editors(after, c) == map_editors(before, c)
    &&& forall|c: ContainerIdView| #[trigger] doc_holds(after, c) == doc_holds(before, c)
    &&& forall|c: ContainerIdView, deep: bool| #[trigger]
        container_value(after, c, deep) == container_value(before, c, deep)
    &&& doc_peer(after) == doc_peer(before)
    &&& doc_sound(after) == doc_sound(before)
}

/// A document of which all is as it was is as well formed as it was.
pub proof fn lemma_contents_kept_wf(before: DocHandle, after: DocHandle)
    requires
        contents_kept(before, after) || contents_kept(after, before),
        sound_doc(before),
    ensures
        sound_doc(after),
{
    assert forall|c: ContainerIdView| #[trigger] tree_model(after, c).wf() by {
        assert(tree_model(after, c) == tree_model(before, c));
        assert(tree_model(before, c).wf());
    }
    assert forall|c: ContainerIdView| #[trigger]
        list_ids(after, c).len() == list_items(after, c).len() && list_ids(
            after,
            c,
        ).no_duplicates() && counted(list_ids(after, c)) by {
        assert(list_items(after, c) == list_items(before, c));
        assert(list_ids(after, c) == list_ids(before, c));
        assert(list_ids(before, c).len() == list_items(before, c).len());
        assert(counted(list_ids(before, c)));
    }
}

/// Whether `d` holds nothing but what documents made by their operations: it
/// is a new document, or came from such a document by operations and by
/// merging what such documents exported. What bytes of another origin leave in
/// a document is not known.
pub uninterp spec fn doc_sound(d: DocHandle) -> bool;

/// Whether `d` is such a document, with trees and lists that are well formed.
pub open spec fn sound_doc(d: DocHandle) -> bool {
    trees_wf(d) && lists_wf(d) && doc_sound(d)
}

/// Every tree, list and map is as it was.
pub open spec fn containers_kept(before: DocHandle, after: DocHandle) -> bool {
    trees_kept(before, after) && lists_kept(before, after) && maps_kept(before, after)
}

/// A table of parents without a node.
pub open spec fn no_nodes(parents: Map<TreeID, TreeParentId>) -> bool {
    parents == Map::<TreeID, TreeParentId>::empty()
}

/// Lists of children without a list.
pub open spec fn no_lists(children: Map<TreeParentId, Seq<TreeID>>) -> bool {
    children == Map::<TreeParentId, Seq<TreeID>>::empty()
}

/// A map without an entry.
pub open spec fn no_entries(entries: Map<Seq<char>, Item>) -> bool {
    entries == Map::<Seq<char>, Item>::empty()
}

/// Every tree of the document is well formed.
pub open spec fn trees_wf(d: DocHandle) -> bool {
    forall|t: ContainerIdView| #[trigger] tree_model(d, t).wf()
}

/// Whether each of these operations has a counter that an operation can have:
/// none below 0.
pub open spec fn counted(ids: Seq<ID>) -> bool {
    forall|i: int| 0 <= i < ids.len() ==> (#[trigger] ids[i]).counter >= 0
}

/// Every list of the document has one inserting operation for each item, none
/// of them twice, and each with a counter that an operation can have.
pub open spec fn lists_wf(d: DocHandle) -> bool {
    forall|c: ContainerIdView| #[trigger]
        list_ids(d, c).len() == list_items(d, c).len() && list_ids(d, c).no_duplicates()
            && counted(list_ids(d, c))
}

/// `LoroDoc::new`: a document of its own, in which every tree, list and map is
/// empty and every tree keeps position keys, in which chance has no part.
#[verifier::external_body]
fn new_handle() -> (d: DocHandle)
    ensures
        forall|t: ContainerIdView| no_nodes(#[trigger] tree_parents(d, t)),
        forall|t: ContainerIdView| no_lists(#[trigger] tree_children(d, t)),
        forall|t: ContainerIdView| #[trigger] tree_positioned(d).contains(t),
        forall|t: ContainerIdView| #[trigger] tree_jitter(d, t) == 0,
        doc_sound(d),
        forall|c: ContainerIdView| #[trigger] list_items(d, c).len() == 0,
        forall|c: ContainerIdView| #[trigger] list_ids(d, c).len() == 0,
        forall|c: ContainerIdView| no_entries(#[trigger] map_entries(d, c)),
{
    DocHandle { raw: loro::LoroDoc::new() }
}

/// `LoroDoc::commit`: closes the transaction that is open, so that its events
/// are told and the undo managers record it. No container changes by it.
#[verifier::external_body]
fn raw_commit(doc: &mut DocHandle)
    ensures
        *final(doc) == *old(doc),
{
    doc.raw.commit()
}

/// `LoroDoc::set_next_commit_origin`: the tag that the next transaction
/// carries, by which an undo manager may leave it out. No container changes by
/// it, nor anything else that the names above speak of.
#[verifier::external_body]
fn raw_set_origin(doc: &mut DocHandle, origin: &str)
    ensures
        contents_kept(*old(doc), *final(doc)),
{
    doc.raw.set_next_commit_origin(origin)
}

/// What `LoroDoc::import` of `bytes` gives on the document `d`: whether the
/// bytes could be read, and the document that is left.
pub uninterp spec fn import_step(d: DocHandle, bytes: Seq<u8>) -> (bool, DocHandle);

/// `LoroDoc::import`: merges what `bytes` hold into the document. The head of
/// the bytes is read before anything is merged: bytes without it are refused,
/// and the document stays as it was. The document stays the replica that it
/// is, whatever it merges. What documents exported merges into a state that
/// operations can reach: every tree is without a cycle afterwards as before,
/// and every item of a list has an inserting operation of its own. Of bytes of
/// another origin `loro` takes a state as it is written, so nothing is said of
/// what they leave. What is returned and left depends on the document and the
/// bytes alone.
#[verifier::external_body]
fn raw_import(doc: &mut DocHandle, bytes: &[u8]) -> (r: bool)
    ensures
        r ==> headed(bytes@),
        !r && !headed(bytes@) ==> *final(doc) == *old(doc),
        doc_peer(*final(doc)) == doc_peer(*old(doc)),
        genuine(bytes@) && sound_doc(*old(doc)) ==> sound_doc(*final(doc)),
        (r, *final(doc)) == import_step(*old(doc), bytes@),
{
    doc.raw.import(bytes).is_ok()
}

/// The identifier of the replica that `d` is.
pub uninterp spec fn doc_peer(d: DocHandle) -> u64;

/// `LoroDoc::peer_id`.
#[verifier::external_body]
fn raw_peer_id(doc: &DocHandle) -> (r: u64)
    ensures
        r == doc_peer(*doc),
{
    doc.raw.peer_id()
}

/// A document. It owns the state of its containers: a container is named by a
/// handle, and every operation on it goes through the document.
pub struct LoroDoc {
    pub(crate) inner: DocHandle,
}

impl LoroDoc {
    /// What holds of a document that operations made: each of its trees is
    /// well formed, so that none holds a cycle, and each item of each list was
    /// inserted by an operation of its own. `new` gives such a document, every
    /// operation keeps it so, and so does merging what such a document exported.
    /// Of a document that merged bytes of another origin it is not known.
    pub open(crate) spec fn wf(self) -> bool {
        sound_doc(self.inner)
    }

    /// The state of the tree that `tree` names.
    /// Whether the document holds the container `c`.
    pub open(crate) spec fn holds(self, c: ContainerIdView) -> bool {
        doc_holds(self.inner, c)
    }

    pub open(crate) spec fn tree(self, tree: ContainerIdView) -> TreeModel {
        tree_model(self.inner, tree)
    }

    /// The position key of each node of the tree that `tree` names, for the
    /// nodes that have one: two hexadecimal digits for each byte of the key.
    pub open(crate) spec fn position_keys(self, tree: ContainerIdView) -> Map<TreeID, Seq<char>> {
        tree_keys(self.inner, tree)
    }

    /// The items of the list that `list` names, in their order.
    pub open(crate) spec fn list(self, list: ContainerIdView) -> Seq<Item> {
        list_items(self.inner, list)
    }

    /// For each item of the list that `list` names, the operation that
    /// inserted it. A cursor holds on to an item by this.
    pub open(crate) spec fn list_ids(self, list: ContainerIdView) -> Seq<ID> {
        list_ids(self.inner, list)
    }

    /// The entries of the map that `map` names.
    pub open(crate) spec fn map(self, map: ContainerIdView) -> Map<Seq<char>, Item> {
        map_entries(self.inner, map)
    }

    /// The container that `c` names as one value: with its containers as the
    /// values that name them, or, if `deep`, as the values that they hold.
    /// The peer that last set or deleted the entry under `key` of the map
    /// `map`, if any did.
    pub open(crate) spec fn editor(self, map: ContainerIdView, key: Seq<char>) -> Option<u64> {
        editor_in(map_editors(self.inner, map), key)
    }

    pub open(crate) spec fn value_of(self, c: ContainerIdView, deep: bool) -> LoroValue {
        container_value(self.inner, c, deep)
    }

    /// Every tree, list and map of the document is as it was in `before`.
    /// What merging `bytes` into the document gives: whether they could be
    /// read, and the document that is left.
    pub open(crate) spec fn merged(self, bytes: Seq<u8>) -> (bool, LoroDoc) {
        (import_step(self.inner, bytes).0, LoroDoc { inner: import_step(self.inner, bytes).1 })
    }

    /// All that this crate says of a document is as it was in `before`.
    pub open(crate) spec fn keeps_all(self, before: LoroDoc) -> bool {
        contents_kept(before.inner, self.inner)
    }

    pub open spec fn keeps_containers(self, before: LoroDoc) -> bool {
        self.keeps_trees(before) && self.keeps_lists(before) && self.keeps_maps(before)
    }

    /// Every tree of the document but `tree` is as it was in `before`.
    pub open spec fn keeps_other_trees(self, before: LoroDoc, tree: ContainerIdView) -> bool {
        forall|c: ContainerIdView| c != tree ==> #[trigger] self.tree(c) == before.tree(c)
    }

    /// Every tree of the document is as it was in `before`.
    pub open spec fn keeps_trees(self, before: LoroDoc) -> bool {
        forall|c: ContainerIdView| #[trigger] self.tree(c) == before.tree(c)
    }

    /// Every list of the document but `list` is as it was in `before`.
    pub open spec fn keeps_other_lists(self, before: LoroDoc, list: ContainerIdView) -> bool {
        forall|c: ContainerIdView|
            c != list ==> #[trigger] self.list(c) == before.list(c) && self.list_ids(c)
                == before.list_ids(c)
    }

    /// Every list of the document is as it was in `before`.
    pub open spec fn keeps_lists(self, before: LoroDoc) -> bool {
        forall|c: ContainerIdView| #[trigger]
            self.list(c) == before.list(c) && self.list_ids(c) == before.list_ids(c)
    }

    /// Every map of the document but `map` is as it was in `before`.
    pub open spec fn keeps_other_maps(self, before: LoroDoc, map: ContainerIdView) -> bool {
        forall|c: ContainerIdView| c != map ==> #[trigger] self.map(c) == before.map(c)
    }

    /// Every map of the document is as it was in `before`.
    pub open spec fn keeps_maps(self, before: LoroDoc) -> bool {
        forall|c: ContainerIdView| #[trigger] self.map(c) == before.map(c)
    }

    /// The handle of the root tree named `name`. A root container needs no
    /// operation to come about: it is there, empty, under every name.
    pub fn get_tree(&self, name: &str) -> (t: LoroTree)
        ensures
            t.cid() == (ContainerIdView::Root { name: name@, container_type: ContainerType::Tree }),
    {
        LoroTree::root(name)
    }

    /// The handle of the root list named `name`.
    pub fn get_list(&self, name: &str) -> (l: LoroList)
        ensures
            l.cid() == (ContainerIdView::Root { name: name@, container_type: ContainerType::List }),
    {
        LoroList::root(name)
    }

    /// The handle of the root map named `name`.
    pub fn get_map(&self, name: &str) -> (m: LoroMap)
        ensures
            m.cid() == (ContainerIdView::Root {
                name: name@,
                container_type: ContainerType::Mapping,
            }),
    {
        LoroMap::root(name)
    }

    /// Closes the transaction that is open: what was done since the last one
    /// closed becomes one transaction, of which subscribers are told in one event
    /// and which an undo manager records as one step. What it changes lies with
    /// them and with the history; the containers were changed by the operations
    /// themselves, and hold after it what they held before.
    pub fn commit(&mut self)
        ensures
            *final(self) == *old(self),
    {
        raw_commit(&mut self.inner)
    }

    /// Gives the next transaction the tag `origin`, by which subscribers and undo
    /// managers can tell where a change came from. The tag is kept with the open
    /// transaction: what an undo manager records of that transaction, and so
    /// what an undo gives afterwards, may differ by it. The containers hold
    /// after it what they held before.
    pub fn set_next_commit_origin(&mut self, origin: &str)
        ensures
            final(self).keeps_all(*old(self)),
            final(self).wf() == old(self).wf(),
    {
        let ghost before = self.inner;
        raw_set_origin(&mut self.inner, origin);
        proof {
            if sound_doc(before) {
                lemma_contents_kept_wf(before, self.inner);
            }
            if sound_doc(self.inner) {
                lemma_contents_kept_wf(self.inner, before);
            }
        }
    }

    /// Merges the operations that another document exported into this one, and
    /// says whether they could be read. Operations merge the same way in whatever
    /// order they arrive; conflicts between them are settled, never reported.
    /// Bytes that do not begin as exported bytes do are not read, and leave the
    /// document as it was. The document stays the replica that it is. A
    /// well-formed document stays so when it merges what a well-formed document
    /// exported. Bytes of another origin are merged as they are written: what
    /// they leave is not known to be well formed, and no operation that asks
    /// for a well-formed document can be shown to be in order after them.
    pub fn import(&mut self, bytes: &[u8]) -> (r: bool)
        ensures
            old(self).wf() && (genuine(bytes@) || !headed(bytes@)) ==> final(self).wf(),
            r == old(self).merged(bytes@).0,
            *final(self) == old(self).merged(bytes@).1,
            r ==> headed(bytes@),
            !headed(bytes@) ==> !r && *final(self) == *old(self),
            final(self).peer() == old(self).peer(),
    {
        raw_import(&mut self.inner, bytes)
    }

    /// The identifier of the replica that this document is.
    pub open(crate) spec fn peer(self) -> u64 {
        doc_peer(self.inner)
    }

    /// The identifier of this replica.
    pub fn peer_id(&self) -> (r: u64)
        ensures
            r == self.peer(),
    {
        raw_peer_id(&self.inner)
    }

    /// A new, empty document.
    pub fn new() -> (d: LoroDoc)
        ensures
            d.wf(),
            forall|t: ContainerIdView| #[trigger] d.tree(t) == TreeModel::empty(),
            forall|c: ContainerIdView| #[trigger] d.list(c).len() == 0,
            forall|c: ContainerIdView| #[trigger] d.list_ids(c).len() == 0,
            forall|c: ContainerIdView| #[trigger] d.map(c) == Map::<Seq<char>, Item>::empty(),
    {
        let inner = new_handle();
        proof {
            assert forall|t: ContainerIdView| #[trigger]
                tree_model(inner, t) == TreeModel::empty() by {
                assert(tree_positioned(inner).contains(t));
                assert(no_nodes(tree_parents(inner, t)));
                assert(no_lists(tree_children(inner, t)));
            }
            assert forall|t: ContainerIdView| #[trigger] tree_model(inner, t).wf() by {
                let m = tree_model(inner, t);
                assert(m == TreeModel::empty());
                assert forall|p: TreeParentId| #[trigger] m.kids(p) == Seq::<TreeID>::empty() by {}
            }
            assert forall|c: ContainerIdView| #[trigger]
                map_entries(inner, c) == Map::<Seq<char>, Item>::empty() by {
                assert(no_entries(map_entries(inner, c)));
            }
        }
        LoroDoc { inner }
    }
}

} // verus!
