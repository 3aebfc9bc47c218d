//! The movable tree: a forest whose nodes can be created, moved and deleted by
//! several peers, and that never holds a cycle.

use vstd::prelude::*;
use crate::container::map::LoroMap;
use crate::container::tree_model::is_ancestor_or_self;
use crate::container::tree_model::is_deleted;
use crate::container::tree_model::is_place;
use crate::container::tree_model::lemma_new_node_is_no_ancestor;
use crate::container::tree_model::at_end;
use crate::container::tree_model::key_at;
use crate::container::tree_model::lemma_walk_ends;
use crate::container::tree_model::walk;
use crate::container::tree_model::keys_apart;
use crate::container::tree_model::lemma_landed_keeps_wf;
use crate::container::tree_model::lemma_placed_keeps_wf;
use crate::container::tree_model::lemma_put_beside_keeps_wf;
use crate::container::tree_model::lemma_removed_keeps_wf;
use crate::container::tree_model::lemma_same_as_keeps_wf;
use crate::container::tree_model::reserved;
use crate::container::tree_model::TreeModel;
use crate::doc::container_value;
use crate::doc::counted;
use crate::doc::doc_holds;
use crate::doc::doc_sound;
use crate::doc::list_ids;
use crate::doc::list_items;
use crate::doc::lists_kept;
use crate::doc::lists_wf;
use crate::doc::maps_kept;
use crate::doc::other_trees_kept;
use crate::doc::plain_root;
use crate::doc::key_between;
use crate::doc::tree_jitter;
use crate::doc::tree_keys;
use crate::doc::tree_model;
use crate::doc::trees_wf;
use crate::doc::DocHandle;
use crate::doc::LoroDoc;
use crate::err::error_in;
use crate::err::error_of;
use crate::err::outside_error;
use crate::err::refusal_of;
use crate::err::settle;
use crate::err::ErrorKind;
use crate::key::key_view;
use crate::key::normal_key;
use crate::key::root_key;
use crate::key::ContainerKey;
use crate::value::ContainerID;
use crate::value::ContainerIdView;
use crate::value::ContainerType;
use crate::value::ID;
use crate::value::LoroValue;
use crate::value::TreeID;
use crate::value::TreeParentId;

verus! {

/// Whether the key of a node that is made at `index` below `parent` depends on
/// the keys of its two neighbours alone: chance has no part in the keys of the
/// tree, and the neighbours do not have one and the same key.
pub open spec fn made_plainly(
    m: TreeModel,
    keys: Map<TreeID, Seq<char>>,
    parent: TreeParentId,
    index: int,
) -> bool {
    m.jitter == 0 && keys_apart(key_at(keys, m.kids(parent), index - 1), key_at(
        keys,
        m.kids(parent),
        index,
    ))
}

/// The parent that `host` stands for in a call of `loro`: the top level for
/// `None`, else the node.
pub open spec fn place(host: Option<TreeID>) -> TreeParentId {
    match host {
        None => TreeParentId::Root,
        Some(p) => TreeParentId::Node(p),
    }
}

/// What a call of `loro` that may change the tree `tree` leaves behind. `found`
/// says whether the document holds the tree, `refused` why the call was refused,
/// `rule` why the tree's rules refuse it, `expected` the tree that they ask for.
/// A refused call changes nothing. An accepted one is one that the rules accept,
/// and leaves the expected tree, and every other tree and every list and map as
/// they were. A tree that is a root container is always found, and judged by the
/// rules alone.
pub open spec fn stepped(
    before: DocHandle,
    after: DocHandle,
    tree: ContainerIdView,
    found: bool,
    refused: Option<ErrorKind>,
    rule: Option<ErrorKind>,
    expected: TreeModel,
) -> bool {
    &&& plain_root(tree) ==> found && refused == rule
    &&& (!found || refused is Some) ==> after == before
    &&& (found && refused is None) ==> {
        &&& rule is None
        &&& tree_model(after, tree).same_as(expected)
        &&& doc_sound(before) ==> doc_sound(after)
        &&& other_trees_kept(before, after, tree)
        &&& lists_kept(before, after)
        &&& maps_kept(before, after)
    }
}

/// A step to a well-formed tree keeps every tree of the document well formed.
proof fn lemma_step_keeps_wf(
    before: DocHandle,
    after: DocHandle,
    tree: ContainerIdView,
    expected: TreeModel,
)
    requires
        trees_wf(before),
        lists_wf(before),
        expected.wf(),
        tree_model(after, tree).same_as(expected),
        other_trees_kept(before, after, tree),
        lists_kept(before, after),
    ensures
        trees_wf(after),
        lists_wf(after),
{
    lemma_lists_kept_wf(before, after);
    lemma_same_as_keeps_wf(tree_model(after, tree), expected);
    assert forall|c: ContainerIdView| #[trigger] tree_model(after, c).wf() by {
        if c != tree {
            assert(tree_model(after, c) == tree_model(before, c));
            assert(tree_model(before, c).wf());
        }
    }
}

/// Lists that are as they were are as well formed as they were.
pub(crate) proof fn lemma_lists_kept_wf(before: DocHandle, after: DocHandle)
    requires
        lists_wf(before),
        lists_kept(before, after),
    ensures
        lists_wf(after),
{
    assert forall|c: ContainerIdView| #[trigger]
        list_ids(after, c).len() == list_items(after, c).len() && list_ids(
            after,
            c,
        ).no_duplicates() && counted(list_ids(after, c)) by {
        assert(list_items(after, c) == list_items(before, c));
        assert(list_ids(before, c).len() == list_items(before, c).len());
        assert(counted(list_ids(before, c)));
    }
}

/// `LoroDoc::try_get_tree`, then `LoroTree::create` with `parent`, a node
/// going in as its `TreeID`. The identifier of the new node named no node
/// before. In a tree that keeps position keys the node is the last child of
/// its parent, with a key behind that of the child before it; in one that
/// keeps none it gets the key that every node gets there, and stands among the
/// children where the keys put it.
#[verifier::external_body]
fn raw_create(doc: &mut DocHandle, tree: &ContainerKey, parent: TreeParentId) -> (r: Option<
    Result<TreeID, loro::LoroError>,
>)
    requires
        key_view(*tree).container_type() == ContainerType::Tree,
        tree_model(*old(doc), key_view(*tree)).wf(),
    ensures
        r matches Some(Ok(id)) ==> !reserved(id) && !tree_model(
            *old(doc),
            key_view(*tree),
        ).contains(id),
        stepped(
            *old(doc),
            *final(doc),
            key_view(*tree),
            r is Some,
            refusal_of(r),
            tree_model(*old(doc), key_view(*tree)).create_refusal(parent),
            match r {
                Some(Ok(id)) => tree_model(*old(doc), key_view(*tree)).landed(
                    id,
                    parent,
                    tree_model(*final(doc), key_view(*tree)).spot(id, parent),
                ),
                _ => tree_model(*old(doc), key_view(*tree)),
            },
        ),
        r matches Some(Ok(id)) ==> tree_model(*old(doc), key_view(*tree)).has_spot(
            id,
            parent,
            tree_model(*final(doc), key_view(*tree)).spot(id, parent),
        ),
        r matches Some(Ok(id)) ==> tree_model(*old(doc), key_view(*tree)).keys_fit(
            tree_keys(*old(doc), key_view(*tree)),
            tree_model(*final(doc), key_view(*tree)),
            tree_keys(*final(doc), key_view(*tree)),
            id,
            parent,
        ),
{
    let t = doc.raw.try_get_tree(&tree.raw)?;
    let parent: loro::TreeParentId = match parent {
        TreeParentId::Node(p) => loro::TreeID::new(p.peer, p.counter).into(),
        TreeParentId::Root => loro::TreeParentId::Root,
        TreeParentId::Deleted => loro::TreeParentId::Deleted,
        TreeParentId::Unexist => loro::TreeParentId::Unexist,
    };
    Some(t.create(parent).map(|x| TreeID { peer: x.peer, counter: x.counter }))
}

/// `LoroDoc::try_get_tree`, then `LoroTree::create_at` with `parent` and
/// `index`. The new node stands at `index` among the children of its parent,
/// and its identifier named no node before. Its position key is made to lie
/// between those of its neighbours; where these two had the same key, the
/// children behind it get new keys for that. Where they had not, and chance has
/// no part in the keys of the tree, the key is what `FractionalIndex::new`
/// makes of the keys of the two neighbours.
#[verifier::external_body]
fn raw_create_at(
    doc: &mut DocHandle,
    tree: &ContainerKey,
    parent: TreeParentId,
    index: usize,
) -> (r: Option<Result<TreeID, loro::LoroError>>)
    requires
        key_view(*tree).container_type() == ContainerType::Tree,
        tree_model(*old(doc), key_view(*tree)).wf(),
    ensures
        r matches Some(Ok(id)) ==> !reserved(id) && !tree_model(
            *old(doc),
            key_view(*tree),
        ).contains(id),
        stepped(
            *old(doc),
            *final(doc),
            key_view(*tree),
            r is Some,
            refusal_of(r),
            tree_model(*old(doc), key_view(*tree)).create_at_refusal(parent, index as int),
            match r {
                Some(Ok(id)) => tree_model(*old(doc), key_view(*tree)).placed(
                    id,
                    parent,
                    index as int,
                ),
                _ => tree_model(*old(doc), key_view(*tree)),
            },
        ),
        r matches Some(Ok(id)) ==> tree_model(*final(doc), key_view(*tree)).keyed(
            tree_keys(*final(doc), key_view(*tree)),
            id,
            parent,
        ),
        r matches Some(Ok(id)) ==> !made_plainly(
            tree_model(*old(doc), key_view(*tree)),
            tree_keys(*old(doc), key_view(*tree)),
            parent,
            index as int,
        ) || tree_keys(*final(doc), key_view(*tree))[id] == key_between(
            key_at(
                tree_keys(*old(doc), key_view(*tree)),
                tree_model(*old(doc), key_view(*tree)).kids(parent),
                index - 1,
            ),
            key_at(
                tree_keys(*old(doc), key_view(*tree)),
                tree_model(*old(doc), key_view(*tree)).kids(parent),
                index as int,
            ),
        ),
{
    let t = doc.raw.try_get_tree(&tree.raw)?;
    let parent: loro::TreeParentId = match parent {
        TreeParentId::Node(p) => loro::TreeID::new(p.peer, p.counter).into(),
        TreeParentId::Root => loro::TreeParentId::Root,
        TreeParentId::Deleted => loro::TreeParentId::Deleted,
        TreeParentId::Unexist => loro::TreeParentId::Unexist,
    };
    Some(t.create_at(parent, index).map(|x| TreeID { peer: x.peer, counter: x.counter }))
}

/// `LoroDoc::try_get_tree`, then `LoroTree::mov` of `target` below `host`.
/// In a tree that keeps position keys the node becomes the last child of its
/// new parent; in one that keeps none it gets the key that every node gets
/// there, and stands among the children where the keys put it.
#[verifier::external_body]
fn raw_move(doc: &mut DocHandle, tree: &ContainerKey, target: TreeID, host: Option<TreeID>) -> (r:
    Option<Result<(), loro::LoroError>>)
    requires
        key_view(*tree).container_type() == ContainerType::Tree,
        tree_model(*old(doc), key_view(*tree)).wf(),
        host matches Some(p) ==> !reserved(p),
    ensures
        stepped(
            *old(doc),
            *final(doc),
            key_view(*tree),
            r is Some,
            refusal_of(r),
            tree_model(*old(doc), key_view(*tree)).move_refusal(target, place(host)),
            tree_model(*old(doc), key_view(*tree)).landed(
                target,
                place(host),
                tree_model(*final(doc), key_view(*tree)).spot(target, place(host)),
            ),
        ),
        r matches Some(Ok(_)) ==> tree_model(*old(doc), key_view(*tree)).has_spot(
            target,
            place(host),
            tree_model(*final(doc), key_view(*tree)).spot(target, place(host)),
        ),
        r matches Some(Ok(_)) ==> tree_model(*final(doc), key_view(*tree)).same_shape(tree_model(*old(doc), key_view(*tree))) || tree_model(*old(doc), key_view(*tree)).keys_fit(
            tree_keys(*old(doc), key_view(*tree)),
            tree_model(*final(doc), key_view(*tree)),
            tree_keys(*final(doc), key_view(*tree)),
            target,
            place(host),
        ),
{
    let t = doc.raw.try_get_tree(&tree.raw)?;
    let parent = host.map(|p| loro::TreeID::new(p.peer, p.counter));
    Some(t.mov(loro::TreeID::new(target.peer, target.counter), parent))
}

/// `LoroDoc::try_get_tree`, then `LoroTree::mov_to` of `target` below `host`
/// at `index`, counted among the other children.
#[verifier::external_body]
fn raw_move_to(
    doc: &mut DocHandle,
    tree: &ContainerKey,
    target: TreeID,
    host: Option<TreeID>,
    index: usize,
) -> (r: Option<Result<(), loro::LoroError>>)
    requires
        key_view(*tree).container_type() == ContainerType::Tree,
        tree_model(*old(doc), key_view(*tree)).wf(),
        host matches Some(p) ==> !reserved(p),
    ensures
        stepped(
            *old(doc),
            *final(doc),
            key_view(*tree),
            r is Some,
            refusal_of(r),
            tree_model(*old(doc), key_view(*tree)).move_to_refusal(
                target,
                place(host),
                index as int,
            ),
            tree_model(*old(doc), key_view(*tree)).placed(target, place(host), index as int),
        ),
        r matches Some(Ok(_)) ==> tree_model(*final(doc), key_view(*tree)).same_shape(tree_model(*old(doc), key_view(*tree))) || tree_model(*final(doc), key_view(*tree)).keyed(
            tree_keys(*final(doc), key_view(*tree)),
            target,
            place(host),
        ),
{
    let t = doc.raw.try_get_tree(&tree.raw)?;
    let parent = host.map(|p| loro::TreeID::new(p.peer, p.counter));
    Some(t.mov_to(loro::TreeID::new(target.peer, target.counter), parent, index))
}

/// `LoroDoc::try_get_tree`, then `LoroTree::mov_after`: `target` comes to
/// stand right behind `sibling`, below the parent of `sibling`.
#[verifier::external_body]
fn raw_move_after(doc: &mut DocHandle, tree: &ContainerKey, target: TreeID, sibling: TreeID) -> (r:
    Option<Result<(), loro::LoroError>>)
    requires
        key_view(*tree).container_type() == ContainerType::Tree,
        tree_model(*old(doc), key_view(*tree)).wf(),
    ensures
        stepped(
            *old(doc),
            *final(doc),
            key_view(*tree),
            r is Some,
            refusal_of(r),
            tree_model(*old(doc), key_view(*tree)).move_beside_refusal(target, sibling),
            tree_model(*old(doc), key_view(*tree)).put_beside(target, sibling, true),
        ),
        r matches Some(Ok(_)) ==> tree_model(*final(doc), key_view(*tree)).same_shape(tree_model(*old(doc), key_view(*tree))) || tree_model(*final(doc), key_view(*tree)).keyed(
            tree_keys(*final(doc), key_view(*tree)),
            target,
            tree_model(*old(doc), key_view(*tree)).parents[sibling],
        ),
{
    let t = doc.raw.try_get_tree(&tree.raw)?;
    let target = loro::TreeID::new(target.peer, target.counter);
    Some(t.mov_after(target, loro::TreeID::new(sibling.peer, sibling.counter)))
}

/// `LoroDoc::try_get_tree`, then `LoroTree::mov_before`: `target` comes to
/// stand right before `sibling`, below the parent of `sibling`.
#[verifier::external_body]
fn raw_move_before(doc: &mut DocHandle, tree: &ContainerKey, target: TreeID, sibling: TreeID) -> (r:
    Option<Result<(), loro::LoroError>>)
    requires
        key_view(*tree).container_type() == ContainerType::Tree,
        tree_model(*old(doc), key_view(*tree)).wf(),
    ensures
        stepped(
            *old(doc),
            *final(doc),
            key_view(*tree),
            r is Some,
            refusal_of(r),
            tree_model(*old(doc), key_view(*tree)).move_beside_refusal(target, sibling),
            tree_model(*old(doc), key_view(*tree)).put_beside(target, sibling, false),
        ),
        r matches Some(Ok(_)) ==> tree_model(*final(doc), key_view(*tree)).same_shape(tree_model(*old(doc), key_view(*tree))) || tree_model(*final(doc), key_view(*tree)).keyed(
            tree_keys(*final(doc), key_view(*tree)),
            target,
            tree_model(*old(doc), key_view(*tree)).parents[sibling],
        ),
{
    let t = doc.raw.try_get_tree(&tree.raw)?;
    let target = loro::TreeID::new(target.peer, target.counter);
    Some(t.mov_before(target, loro::TreeID::new(sibling.peer, sibling.counter)))
}

/// `LoroDoc::try_get_tree`, then `LoroTree::delete`: `target` hangs at
/// `Deleted` afterwards, and its descendants keep their parents.
#[verifier::external_body]
fn raw_delete(doc: &mut DocHandle, tree: &ContainerKey, target: TreeID) -> (r: Option<
    Result<(), loro::LoroError>,
>)
    requires
        key_view(*tree).container_type() == ContainerType::Tree,
        tree_model(*old(doc), key_view(*tree)).wf(),
    ensures
        stepped(
            *old(doc),
            *final(doc),
            key_view(*tree),
            r is Some,
            refusal_of(r),
            tree_model(*old(doc), key_view(*tree)).delete_refusal(target),
            tree_model(*old(doc), key_view(*tree)).removed(target),
        ),
        r matches Some(Ok(_)) ==> tree_keys(*final(doc), key_view(*tree)) == tree_keys(*old(doc), key_view(*tree)).remove(target),
{
    let t = doc.raw.try_get_tree(&tree.raw)?;
    Some(t.delete(loro::TreeID::new(target.peer, target.counter)))
}


/// A node of a tree as a traversal reports it.
#[derive(Clone, Debug, PartialEq, Eq)]
pub struct TreeNode {
    /// The node.
    pub id: TreeID,
    /// Where it hangs: `Deleted` for a node that was deleted itself.
    pub parent: TreeParentId,
    /// Its position key, two hexadecimal digits for each byte.
    pub fractional_index: String,
    /// Its place among the children of its parent.
    pub index: usize,
}

/// `LoroDoc::try_get_tree`: whether the document holds the tree, as
/// `LoroDoc::has_container` tells it.
#[verifier::external_body]
fn raw_found(doc: &DocHandle, tree: &ContainerKey) -> (r: bool)
    requires
        key_view(*tree).container_type() == ContainerType::Tree,
    ensures
        r == doc_holds(*doc, key_view(*tree)),
        plain_root(key_view(*tree)) ==> r,
{
    doc.raw.try_get_tree(&tree.raw).is_some()
}

/// `LoroTree::parent`: where `target` hangs, `None` within for a node that was
/// never created.
#[verifier::external_body]
fn raw_parent(doc: &DocHandle, tree: &ContainerKey, target: TreeID) -> (r: Option<
    Option<TreeParentId>,
>)
    requires
        key_view(*tree).container_type() == ContainerType::Tree,
    ensures
        plain_root(key_view(*tree)) ==> r is Some,
        r matches Some(x) ==> x == tree_model(*doc, key_view(*tree)).parent_of(target),
{
    let t = doc.raw.try_get_tree(&tree.raw)?;
    Some(t.parent(loro::TreeID::new(target.peer, target.counter)).map(|p| match p {
        loro::TreeParentId::Node(n) => TreeParentId::Node(TreeID { peer: n.peer, counter: n.counter }),
        loro::TreeParentId::Root => TreeParentId::Root,
        loro::TreeParentId::Deleted => TreeParentId::Deleted,
        loro::TreeParentId::Unexist => TreeParentId::Unexist,
    }))
}

/// `LoroTree::contains`: whether `target` was created, deleted or not.
#[verifier::external_body]
fn raw_contains(doc: &DocHandle, tree: &ContainerKey, target: TreeID) -> (r: Option<bool>)
    requires
        key_view(*tree).container_type() == ContainerType::Tree,
    ensures
        plain_root(key_view(*tree)) ==> r is Some,
        r matches Some(b) ==> b == tree_model(*doc, key_view(*tree)).contains(target),
{
    let t = doc.raw.try_get_tree(&tree.raw)?;
    Some(t.contains(loro::TreeID::new(target.peer, target.counter)))
}

/// `LoroTree::is_node_deleted`: whether `target` or one of its ancestors hangs
/// at `Deleted`; an error for a node that was never created.
#[verifier::external_body]
fn raw_is_node_deleted(doc: &DocHandle, tree: &ContainerKey, target: TreeID) -> (r: Option<
    Result<bool, loro::LoroError>,
>)
    requires
        key_view(*tree).container_type() == ContainerType::Tree,
        tree_model(*doc, key_view(*tree)).wf(),
    ensures
        plain_root(key_view(*tree)) ==> r is Some,
        r matches Some(Ok(b)) ==> tree_model(*doc, key_view(*tree)).contains(target) && b
            == is_deleted(tree_model(*doc, key_view(*tree)).parents, target),
        r matches Some(Err(e)) ==> !tree_model(*doc, key_view(*tree)).contains(target)
            && error_of(outside_error(e)) == ErrorKind::TreeNodeNotExist,
{
    let t = doc.raw.try_get_tree(&tree.raw)?;
    Some(t.is_node_deleted(&loro::TreeID::new(target.peer, target.counter)))
}

/// `LoroTree::nodes`: every node that was created, deleted or not, each once,
/// in no stated order.
#[verifier::external_body]
fn raw_nodes(doc: &DocHandle, tree: &ContainerKey) -> (r: Option<Vec<TreeID>>)
    requires
        key_view(*tree).container_type() == ContainerType::Tree,
    ensures
        plain_root(key_view(*tree)) ==> r is Some,
        r matches Some(v) ==> v@.no_duplicates() && forall|n: TreeID|
            v@.contains(n) <==> #[trigger] tree_model(*doc, key_view(*tree)).contains(n),
{
    let t = doc.raw.try_get_tree(&tree.raw)?;
    Some(t.nodes().into_iter().map(|x| TreeID { peer: x.peer, counter: x.counter }).collect())
}

/// `LoroTree::children`: the children listed below `host`, in order; `None`
/// within where `loro` keeps no list, and then there are none.
#[verifier::external_body]
fn raw_children(doc: &DocHandle, tree: &ContainerKey, host: Option<TreeID>) -> (r: Option<
    Option<Vec<TreeID>>,
>)
    requires
        key_view(*tree).container_type() == ContainerType::Tree,
        host matches Some(p) ==> !reserved(p),
    ensures
        plain_root(key_view(*tree)) ==> r is Some,
        r matches Some(Some(v)) ==> v@ == tree_model(*doc, key_view(*tree)).kids(place(host)),
        r matches Some(None) ==> tree_model(*doc, key_view(*tree)).kids(place(host)).len() == 0,
{
    let t = doc.raw.try_get_tree(&tree.raw)?;
    let found = t.children(host.map(|p| loro::TreeID::new(p.peer, p.counter)));
    Some(found.map(|v| v.into_iter().map(|x| TreeID { peer: x.peer, counter: x.counter }).collect()))
}

/// `LoroTree::fractional_index`: the position key of `target`, if it has one.
#[verifier::external_body]
fn raw_key(doc: &DocHandle, tree: &ContainerKey, target: TreeID) -> (r: Option<Option<String>>)
    requires
        key_view(*tree).container_type() == ContainerType::Tree,
    ensures
        plain_root(key_view(*tree)) ==> r is Some,
        r matches Some(Some(s)) ==> tree_model(*doc, key_view(*tree)).contains(target) && tree_keys(
            *doc,
            key_view(*tree),
        ).dom().contains(target) && s@ == tree_keys(*doc, key_view(*tree))[target],
        r matches Some(None) ==> !tree_keys(*doc, key_view(*tree)).dom().contains(target),
{
    let t = doc.raw.try_get_tree(&tree.raw)?;
    Some(t.fractional_index(loro::TreeID::new(target.peer, target.counter)))
}

/// `LoroTree::is_fractional_index_enabled`.
#[verifier::external_body]
fn raw_positioned(doc: &DocHandle, tree: &ContainerKey) -> (r: Option<bool>)
    requires
        key_view(*tree).container_type() == ContainerType::Tree,
    ensures
        plain_root(key_view(*tree)) ==> r is Some,
        r matches Some(b) ==> b == tree_model(*doc, key_view(*tree)).positioned,
{
    let t = doc.raw.try_get_tree(&tree.raw)?;
    Some(t.is_fractional_index_enabled())
}

/// What switching the position keys of `tree` on or off leaves behind: nodes,
/// parents and order are as they were, in this tree and in every other, and so
/// is every list and map. From now on chance spreads new keys by `jitter`.
pub open spec fn switched(
    before: DocHandle,
    after: DocHandle,
    tree: ContainerIdView,
    found: bool,
    on: bool,
    jitter: u8,
) -> bool {
    &&& plain_root(tree) ==> found
    &&& !found ==> after == before
    &&& found ==> {
        &&& tree_model(after, tree) == (TreeModel {
            positioned: on,
            jitter,
            ..tree_model(before, tree)
        })
        &&& other_trees_kept(before, after, tree)
        &&& lists_kept(before, after)
        &&& maps_kept(before, after)
        &&& doc_sound(before) ==> doc_sound(after)
    }
}

/// `LoroTree::enable_fractional_index`: the tree keeps position keys from now
/// on, spread by `jitter`.
#[verifier::external_body]
fn raw_enable(doc: &mut DocHandle, tree: &ContainerKey, jitter: u8) -> (r: bool)
    requires
        key_view(*tree).container_type() == ContainerType::Tree,
    ensures
        switched(*old(doc), *final(doc), key_view(*tree), r, true, jitter),
        r ==> tree_jitter(*final(doc), key_view(*tree)) == jitter,
{
    match doc.raw.try_get_tree(&tree.raw) {
        Some(t) => {
            t.enable_fractional_index(jitter);
            true
        },
        None => false,
    }
}

/// `LoroTree::disable_fractional_index`: the tree keeps no position keys from
/// now on, so that nothing is left for chance to spread.
#[verifier::external_body]
fn raw_disable(doc: &mut DocHandle, tree: &ContainerKey) -> (r: bool)
    requires
        key_view(*tree).container_type() == ContainerType::Tree,
    ensures
        switched(
            *old(doc),
            *final(doc),
            key_view(*tree),
            r,
            false,
            tree_jitter(*old(doc), key_view(*tree)),
        ),
{
    match doc.raw.try_get_tree(&tree.raw) {
        Some(t) => {
            t.disable_fractional_index();
            true
        },
        None => false,
    }
}

/// `LoroTree::get_last_move_id`: the operation that last put `target` where it
/// hangs, for a node that was created.
#[verifier::external_body]
fn raw_last_move(doc: &DocHandle, tree: &ContainerKey, target: TreeID) -> (r: Option<Option<ID>>)
    requires
        key_view(*tree).container_type() == ContainerType::Tree,
    ensures
        plain_root(key_view(*tree)) ==> r is Some,
        r matches Some(x) ==> (x is Some <==> tree_model(*doc, key_view(*tree)).contains(target)),
{
    let t = doc.raw.try_get_tree(&tree.raw)?;
    let found = t.get_last_move_id(&loro::TreeID::new(target.peer, target.counter));
    Some(found.map(|x| ID { peer: x.peer, counter: x.counter }))
}

/// `LoroTree::get_value`: the forest as one value, the data of each node left
/// out.
#[verifier::external_body]
fn raw_value(doc: &DocHandle, tree: &ContainerKey) -> (r: Option<LoroValue>)
    requires
        key_view(*tree).container_type() == ContainerType::Tree,
    ensures
        plain_root(key_view(*tree)) ==> r is Some,
        r matches Some(v) ==> v == container_value(*doc, key_view(*tree), false),
{
    let t = doc.raw.try_get_tree(&tree.raw)?;
    Some(LoroValue(t.get_value()))
}

/// `LoroTree::get_value_with_meta`: the forest as one value, with the data of
/// each node.
#[verifier::external_body]
fn raw_value_with_meta(doc: &DocHandle, tree: &ContainerKey) -> (r: Option<LoroValue>)
    requires
        key_view(*tree).container_type() == ContainerType::Tree,
    ensures
        plain_root(key_view(*tree)) ==> r is Some,
        r matches Some(v) ==> v == container_value(*doc, key_view(*tree), true),
{
    let t = doc.raw.try_get_tree(&tree.raw)?;
    Some(LoroValue(t.get_value_with_meta()))
}

/// What a traversal reports of the tree `m`: each node once, with the parent
/// that the table gives it and, below a place, with its index in the list; the
/// nodes that are not deleted, and the deleted ones too if `with_deleted`.
pub open spec fn traversed(m: TreeModel, keys: Map<TreeID, Seq<char>>, with_deleted: bool, v: Seq<
    TreeNode,
>) -> bool {
    &&& forall|i: int, j: int| 0 <= i < j < v.len() ==> v[i].id != v[j].id
    &&& forall|i: int|
        0 <= i < v.len() ==> {
            &&& m.contains(#[trigger] v[i].id)
            &&& v[i].parent == m.parents[v[i].id]
            &&& (with_deleted || !is_deleted(m.parents, v[i].id))
            &&& (is_place(v[i].parent) ==> v[i].index < m.kids(v[i].parent).len() && m.kids(
                v[i].parent,
            )[v[i].index as int] == v[i].id)
            &&& (keys.dom().contains(v[i].id) ==> v[i].fractional_index@ == keys[v[i].id])
        }
    &&& forall|n: TreeID|
        #[trigger] m.contains(n) && (with_deleted || !is_deleted(m.parents, n)) ==> exists|i: int|
            0 <= i < v.len() && v[i].id == n
}

/// `LoroTree::get_nodes`: the nodes below the top level, and with
/// `with_deleted` those below `Deleted` too.
#[verifier::external_body]
fn raw_get_nodes(doc: &DocHandle, tree: &ContainerKey, with_deleted: bool) -> (r: Option<
    Vec<TreeNode>,
>)
    requires
        key_view(*tree).container_type() == ContainerType::Tree,
        tree_model(*doc, key_view(*tree)).wf(),
    ensures
        plain_root(key_view(*tree)) ==> r is Some,
        r matches Some(v) ==> traversed(
            tree_model(*doc, key_view(*tree)),
            tree_keys(*doc, key_view(*tree)),
            with_deleted,
            v@,
        ),
{
    let t = doc.raw.try_get_tree(&tree.raw)?;
    Some(t.get_nodes(with_deleted).into_iter().map(|x| TreeNode {
        id: TreeID { peer: x.id.peer, counter: x.id.counter },
        parent: match x.parent {
            loro::TreeParentId::Node(n) => TreeParentId::Node(TreeID { peer: n.peer, counter: n.counter }),
            loro::TreeParentId::Root => TreeParentId::Root,
            loro::TreeParentId::Deleted => TreeParentId::Deleted,
            loro::TreeParentId::Unexist => TreeParentId::Unexist,
        },
        fractional_index: x.fractional_index.to_string(),
        index: x.index,
    }).collect())
}

/// A handle of a movable tree of a document.
pub struct LoroTree {
    pub(crate) key: ContainerKey,
}

impl LoroTree {
    #[verifier::type_invariant]
    pub(crate) open spec fn inv(self) -> bool {
        key_view(self.key).container_type() == ContainerType::Tree
    }

    /// The container that the handle names.
    pub open(crate) spec fn cid(&self) -> ContainerIdView {
        key_view(self.key)
    }

    /// What a call that may change this tree leaves behind. `error` is the error
    /// that the call returned, `rule` the reason for which the tree's rules refuse
    /// the call, `expected` the tree that they ask for. A call that returns an
    /// error changes nothing. One that succeeds is one that the rules accept, and
    /// leaves the expected tree, and every other tree and every list and map as
    /// they were. On a root container the rules alone decide.
    pub open spec fn changed(
        &self,
        before: LoroDoc,
        after: LoroDoc,
        error: Option<ErrorKind>,
        rule: Option<ErrorKind>,
        expected: TreeModel,
    ) -> bool {
        &&& plain_root(self.cid()) ==> error == rule
        &&& error is Some ==> after == before
        &&& error is None ==> {
            &&& rule is None
            &&& after.tree(self.cid()).same_as(expected)
            &&& after.keeps_other_trees(before, self.cid())
            &&& after.keeps_lists(before)
            &&& after.keeps_maps(before)
        }
    }

    /// The handle of the root tree named `name`.
    pub(crate) fn root(name: &str) -> (t: LoroTree)
        ensures
            t.cid() == (ContainerIdView::Root { name: name@, container_type: ContainerType::Tree }),
    {
        LoroTree { key: root_key(name, ContainerType::Tree) }
    }

    /// The identifier of the tree.
    pub fn id(&self) -> (id: ContainerID)
        ensures
            id@ == self.cid(),
    {
        self.key.id()
    }

    /// Creates a node below `parent`, or at the top level where `parent` is
    /// `Root`, and returns its identifier. In a tree that keeps position keys the
    /// node is the last child. In one that keeps none it stands where its key,
    /// which is that of every node made there, puts it among the children; the
    /// others keep their order.
    pub fn create(&self, doc: &mut LoroDoc, parent: TreeParentId) -> (r: Result<TreeID, ErrorKind>)
        requires
            old(doc).wf(),
        ensures
            final(doc).wf(),
            r matches Ok(id) ==> !old(doc).tree(self.cid()).contains(id),
            r matches Ok(id) ==> old(doc).tree(self.cid()).has_spot(
                id,
                parent,
                final(doc).tree(self.cid()).spot(id, parent),
            ),
            r matches Ok(id) ==> old(doc).tree(self.cid()).keys_fit(old(doc).position_keys(self.cid()), final(doc).tree(self.cid()), final(doc).position_keys(self.cid()), id, parent),
            self.changed(
                *old(doc),
                *final(doc),
                error_in(r),
                old(doc).tree(self.cid()).create_refusal(parent),
                match r {
                    Ok(id) => old(doc).tree(self.cid()).landed(
                        id,
                        parent,
                        final(doc).tree(self.cid()).spot(id, parent),
                    ),
                    Err(_) => old(doc).tree(self.cid()),
                },
            ),
    {
        proof {
            use_type_invariant(self);
        }
        let ghost before = doc.inner;
        let ghost m = tree_model(before, self.cid());
        assert(m.wf());
        let raw = raw_create(&mut doc.inner, &self.key, parent);
        proof {
            if let Some(Ok(id)) = raw {
                let spot = tree_model(doc.inner, self.cid()).spot(id, parent);
                lemma_new_node_is_no_ancestor(m.parents, id, parent);
                lemma_landed_keeps_wf(m, id, parent, spot);
                lemma_step_keeps_wf(before, doc.inner, self.cid(), m.landed(id, parent, spot));
            }
        }
        settle(raw)
    }

    /// Creates a node below `parent` at `index` among its children, and
    /// returns its identifier. The position key of the node lies between those
    /// of its neighbours. Where chance has no part in the keys of the tree and
    /// the two neighbours have different keys, the key depends on those two
    /// alone: two trees in the same state make the same key.
    pub fn create_at(&self, doc: &mut LoroDoc, parent: TreeParentId, index: usize) -> (r: Result<
        TreeID,
        ErrorKind,
    >)
        requires
            old(doc).wf(),
        ensures
            final(doc).wf(),
            r matches Ok(id) ==> !old(doc).tree(self.cid()).contains(id),
            r matches Ok(id) ==> final(doc).tree(self.cid()).keyed(
                final(doc).position_keys(self.cid()),
                id,
                parent,
            ),
            r matches Ok(id) ==> !made_plainly(
                old(doc).tree(self.cid()),
                old(doc).position_keys(self.cid()),
                parent,
                index as int,
            ) || final(doc).position_keys(self.cid())[id] == key_between(
                key_at(
                    old(doc).position_keys(self.cid()),
                    old(doc).tree(self.cid()).kids(parent),
                    index - 1,
                ),
                key_at(
                    old(doc).position_keys(self.cid()),
                    old(doc).tree(self.cid()).kids(parent),
                    index as int,
                ),
            ),
            self.changed(
                *old(doc),
                *final(doc),
                error_in(r),
                old(doc).tree(self.cid()).create_at_refusal(parent, index as int),
                match r {
                    Ok(id) => old(doc).tree(self.cid()).placed(id, parent, index as int),
                    Err(_) => old(doc).tree(self.cid()),
                },
            ),
    {
        proof {
            use_type_invariant(self);
        }
        let ghost before = doc.inner;
        let ghost m = tree_model(before, self.cid());
        assert(m.wf());
        let raw = raw_create_at(&mut doc.inner, &self.key, parent, index);
        proof {
            if let Some(Ok(id)) = raw {
                lemma_new_node_is_no_ancestor(m.parents, id, parent);
                lemma_placed_keeps_wf(m, id, parent, index as int);
                lemma_step_keeps_wf(before, doc.inner, self.cid(), m.placed(id, parent, index as int));
            }
        }
        settle(raw)
    }

    /// Moves `target` below `parent`. In a tree that keeps position keys the
    /// node comes to stand behind the children that `parent` has. In one that
    /// keeps none it stands where its key, which is that of every node moved
    /// there, puts it among them; the others keep their order.
    pub fn mov(&self, doc: &mut LoroDoc, target: TreeID, parent: TreeParentId) -> (r: Result<
        (),
        ErrorKind,
    >)
        requires
            old(doc).wf(),
        ensures
            final(doc).wf(),
            r is Ok ==> old(doc).tree(self.cid()).has_spot(
                target,
                parent,
                final(doc).tree(self.cid()).spot(target, parent),
            ),
            self.changed(
                *old(doc),
                *final(doc),
                error_in(r),
                old(doc).tree(self.cid()).move_refusal(target, parent),
                old(doc).tree(self.cid()).landed(
                    target,
                    parent,
                    final(doc).tree(self.cid()).spot(target, parent),
                ),
            ),
            r is Ok ==> final(doc).tree(self.cid()).same_shape(old(doc).tree(self.cid())) || old(doc).tree(self.cid()).keys_fit(
                old(doc).position_keys(self.cid()),
                final(doc).tree(self.cid()),
                final(doc).position_keys(self.cid()),
                target,
                parent,
            ),
    {
        proof {
            use_type_invariant(self);
        }
        let ghost before = doc.inner;
        let ghost m = tree_model(before, self.cid());
        assert(m.wf());
        let host = match parent {
            TreeParentId::Root => None,
            TreeParentId::Node(p) => {
                if p.peer == u64::MAX && p.counter == i32::MAX {
                    proof {
                        assert(reserved(p));
                        assert(!m.contains(p));
                    }
                    return Err(ErrorKind::TreeNodeNotExist);
                }
                Some(p)
            },
            _ => { return Err(ErrorKind::TreeNodeNotExist); },
        };
        let raw = raw_move(&mut doc.inner, &self.key, target, host);
        proof {
            if let Some(Ok(_)) = raw {
                assert(!reserved(target)) by {
                    assert(m.contains(target));
                }
                let spot = tree_model(doc.inner, self.cid()).spot(target, parent);
                lemma_landed_keeps_wf(m, target, parent, spot);
                lemma_step_keeps_wf(before, doc.inner, self.cid(), m.landed(target, parent, spot));
            }
        }
        settle(raw)
    }

    /// Moves `target` below `parent`, to `index` among its other children.
    pub fn mov_to(&self, doc: &mut LoroDoc, target: TreeID, parent: TreeParentId, to: usize) -> (r:
        Result<(), ErrorKind>)
        requires
            old(doc).wf(),
        ensures
            final(doc).wf(),
            self.changed(
                *old(doc),
                *final(doc),
                error_in(r),
                old(doc).tree(self.cid()).move_to_refusal(target, parent, to as int),
                old(doc).tree(self.cid()).placed(target, parent, to as int),
            ),
            r is Ok ==> final(doc).tree(self.cid()).same_shape(old(doc).tree(self.cid())) || final(doc).tree(self.cid()).keyed(final(doc).position_keys(self.cid()), target, parent),
    {
        proof {
            use_type_invariant(self);
        }
        let ghost before = doc.inner;
        let ghost m = tree_model(before, self.cid());
        assert(m.wf());
        let host = match parent {
            TreeParentId::Root => None,
            TreeParentId::Node(p) => {
                if p.peer == u64::MAX && p.counter == i32::MAX {
                    return Err(ErrorKind::TreeNodeNotExist);
                }
                Some(p)
            },
            _ => { return Err(ErrorKind::TreeNodeNotExist); },
        };
        let raw = raw_move_to(&mut doc.inner, &self.key, target, host, to);
        proof {
            if let Some(Ok(_)) = raw {
                assert(!reserved(target)) by {
                    assert(m.contains(target));
                }
                lemma_placed_keeps_wf(m, target, parent, to as int);
                lemma_step_keeps_wf(before, doc.inner, self.cid(), m.placed(target, parent, to as int));
            }
        }
        settle(raw)
    }

    /// Moves `target` to stand right behind `after`, below the same parent.
    pub fn mov_after(&self, doc: &mut LoroDoc, target: TreeID, after: TreeID) -> (r: Result<
        (),
        ErrorKind,
    >)
        requires
            old(doc).wf(),
        ensures
            final(doc).wf(),
            self.changed(
                *old(doc),
                *final(doc),
                error_in(r),
                old(doc).tree(self.cid()).move_beside_refusal(target, after),
                old(doc).tree(self.cid()).put_beside(target, after, true),
            ),
            r is Ok ==> final(doc).tree(self.cid()).same_shape(old(doc).tree(self.cid())) || final(doc).tree(self.cid()).keyed(
                final(doc).position_keys(self.cid()),
                target,
                old(doc).tree(self.cid()).parents[after],
            ),
    {
        proof {
            use_type_invariant(self);
        }
        let ghost before = doc.inner;
        let ghost m = tree_model(before, self.cid());
        assert(m.wf());
        let raw = raw_move_after(&mut doc.inner, &self.key, target, after);
        proof {
            if let Some(Ok(_)) = raw {
                lemma_put_beside_keeps_wf(m, target, after, true);
                lemma_step_keeps_wf(before, doc.inner, self.cid(), m.put_beside(target, after, true));
            }
        }
        settle(raw)
    }

    /// Moves `target` to stand right before `before`, below the same parent.
    pub fn mov_before(&self, doc: &mut LoroDoc, target: TreeID, before: TreeID) -> (r: Result<
        (),
        ErrorKind,
    >)
        requires
            old(doc).wf(),
        ensures
            final(doc).wf(),
            self.changed(
                *old(doc),
                *final(doc),
                error_in(r),
                old(doc).tree(self.cid()).move_beside_refusal(target, before),
                old(doc).tree(self.cid()).put_beside(target, before, false),
            ),
            r is Ok ==> final(doc).tree(self.cid()).same_shape(old(doc).tree(self.cid())) || final(doc).tree(self.cid()).keyed(
                final(doc).position_keys(self.cid()),
                target,
                old(doc).tree(self.cid()).parents[before],
            ),
    {
        proof {
            use_type_invariant(self);
        }
        let ghost start = doc.inner;
        let ghost m = tree_model(start, self.cid());
        assert(m.wf());
        let raw = raw_move_before(&mut doc.inner, &self.key, target, before);
        proof {
            if let Some(Ok(_)) = raw {
                lemma_put_beside_keeps_wf(m, target, before, false);
                lemma_step_keeps_wf(start, doc.inner, self.cid(), m.put_beside(target, before, false));
            }
        }
        settle(raw)
    }

    /// Deletes `target`. Its descendants are not deleted with it: each keeps its
    /// parent and can still be addressed, and is shown in no list of children.
    pub fn delete(&self, doc: &mut LoroDoc, target: TreeID) -> (r: Result<(), ErrorKind>)
        requires
            old(doc).wf(),
        ensures
            final(doc).wf(),
            self.changed(
                *old(doc),
                *final(doc),
                error_in(r),
                old(doc).tree(self.cid()).delete_refusal(target),
                old(doc).tree(self.cid()).removed(target),
            ),
            r is Ok ==> final(doc).position_keys(self.cid()) == old(doc).position_keys(self.cid()).remove(target),
    {
        proof {
            use_type_invariant(self);
        }
        let ghost before = doc.inner;
        let ghost m = tree_model(before, self.cid());
        assert(m.wf());
        let raw = raw_delete(&mut doc.inner, &self.key, target);
        proof {
            if let Some(Ok(_)) = raw {
                lemma_removed_keeps_wf(m, target);
                lemma_step_keeps_wf(before, doc.inner, self.cid(), m.removed(target));
            }
        }
        settle(raw)
    }

    /// Whether the document holds this tree.
    pub fn is_attached(&self, doc: &LoroDoc) -> (r: bool)
        ensures
            r == doc.holds(self.cid()),
            plain_root(self.cid()) ==> r,
    {
        proof {
            use_type_invariant(self);
        }
        raw_found(&doc.inner, &self.key)
    }

    /// Where `target` hangs: `None` for a node that was never created,
    /// `Some(Deleted)` for one that was deleted.
    pub fn parent(&self, doc: &LoroDoc, target: TreeID) -> (r: Option<TreeParentId>)
        ensures
            r is Some ==> r == doc.tree(self.cid()).parent_of(target),
            plain_root(self.cid()) ==> r == doc.tree(self.cid()).parent_of(target),
    {
        proof {
            use_type_invariant(self);
        }
        match raw_parent(&doc.inner, &self.key, target) {
            Some(p) => p,
            None => None,
        }
    }

    /// Whether `target` was created, deleted or not.
    pub fn contains(&self, doc: &LoroDoc, target: TreeID) -> (r: bool)
        ensures
            r ==> doc.tree(self.cid()).contains(target),
            plain_root(self.cid()) ==> r == doc.tree(self.cid()).contains(target),
    {
        proof {
            use_type_invariant(self);
        }
        match raw_contains(&doc.inner, &self.key, target) {
            Some(b) => b,
            None => false,
        }
    }

    /// Whether `target` is deleted: it or one of its ancestors was deleted.
    /// `TreeNodeNotExist` for a node that was never created.
    pub fn is_node_deleted(&self, doc: &LoroDoc, target: &TreeID) -> (r: Result<bool, ErrorKind>)
        requires
            doc.wf(),
        ensures
            r matches Ok(b) ==> doc.tree(self.cid()).contains(*target) && b == is_deleted(
                doc.tree(self.cid()).parents,
                *target,
            ),
            r matches Err(e) ==> e == ErrorKind::ContainerNotFound || (e
                == ErrorKind::TreeNodeNotExist && !doc.tree(self.cid()).contains(*target)),
            plain_root(self.cid()) ==> (r is Ok <==> doc.tree(self.cid()).contains(*target)),
            plain_root(self.cid()) ==> !(r matches Err(ErrorKind::ContainerNotFound)),
    {
        proof {
            use_type_invariant(self);
            assert(tree_model(doc.inner, self.cid()).wf());
        }
        settle(raw_is_node_deleted(&doc.inner, &self.key, *target))
    }

    /// Every node that was created, the deleted ones too, each once.
    pub fn nodes(&self, doc: &LoroDoc) -> (r: Vec<TreeID>)
        ensures
            r@.no_duplicates(),
            forall|n: TreeID| r@.contains(n) ==> #[trigger] doc.tree(self.cid()).contains(n),
            plain_root(self.cid()) ==> forall|n: TreeID|
                r@.contains(n) <==> #[trigger] doc.tree(self.cid()).contains(n),
    {
        proof {
            use_type_invariant(self);
        }
        match raw_nodes(&doc.inner, &self.key) {
            Some(v) => v,
            None => Vec::new(),
        }
    }

    /// The nodes of the tree with parent, position key and index; the deleted
    /// ones too if `with_deleted`.
    pub fn get_nodes(&self, doc: &LoroDoc, with_deleted: bool) -> (r: Vec<TreeNode>)
        requires
            doc.wf(),
        ensures
            plain_root(self.cid()) || r@.len() > 0 ==> traversed(
                doc.tree(self.cid()),
                doc.position_keys(self.cid()),
                with_deleted,
                r@,
            ),
    {
        proof {
            use_type_invariant(self);
            assert(tree_model(doc.inner, self.cid()).wf());
        }
        match raw_get_nodes(&doc.inner, &self.key, with_deleted) {
            Some(v) => v,
            None => Vec::new(),
        }
    }

    /// The roots of the forest, in their order.
    pub fn roots(&self, doc: &LoroDoc) -> (r: Vec<TreeID>)
        ensures
            plain_root(self.cid()) || r@.len() > 0 ==> r@ == doc.tree(self.cid()).kids(
                TreeParentId::Root,
            ),
    {
        proof {
            use_type_invariant(self);
        }
        match raw_children(&doc.inner, &self.key, None) {
            Some(Some(v)) => v,
            _ => Vec::new(),
        }
    }

    /// The children of `parent`, in their order: those of the top level for
    /// `Root`, none below a deleted node, and `None` where `parent` is no node
    /// that was created.
    pub fn children(&self, doc: &LoroDoc, parent: TreeParentId) -> (r: Option<Vec<TreeID>>)
        requires
            doc.wf(),
        ensures
            r matches Some(v) ==> doc.tree(self.cid()).shown(parent) == Some(v@),
            plain_root(self.cid()) ==> (r is None <==> doc.tree(self.cid()).shown(parent) is None),
    {
        proof {
            use_type_invariant(self);
            assert(tree_model(doc.inner, self.cid()).wf());
        }
        let host = match parent {
            TreeParentId::Root => None,
            TreeParentId::Node(p) => {
                if p.peer == u64::MAX && p.counter == i32::MAX {
                    proof {
                        assert(reserved(p));
                        assert(!doc.tree(self.cid()).contains(p));
                    }
                    return None;
                }
                match raw_is_node_deleted(&doc.inner, &self.key, p) {
                    Some(Ok(false)) => Some(p),
                    Some(Ok(true)) => { return Some(Vec::new()); },
                    _ => { return None; },
                }
            },
            _ => { return None; },
        };
        match raw_children(&doc.inner, &self.key, host) {
            Some(Some(v)) => Some(v),
            Some(None) => Some(Vec::new()),
            None => None,
        }
    }

    /// The number of children of `parent`, as `children` shows them.
    pub fn children_num(&self, doc: &LoroDoc, parent: TreeParentId) -> (r: Option<usize>)
        requires
            doc.wf(),
        ensures
            r matches Some(n) ==> doc.tree(self.cid()).shown(parent) is Some && n == doc.tree(
                self.cid(),
            ).shown(parent)->0.len(),
            plain_root(self.cid()) ==> (r is None <==> doc.tree(self.cid()).shown(parent) is None),
    {
        match self.children(doc, parent) {
            Some(v) => Some(v.len()),
            None => None,
        }
    }

    /// The position key of `target` in hexadecimal, if the node has one.
    pub fn fractional_index(&self, doc: &LoroDoc, target: TreeID) -> (r: Option<String>)
        ensures
            r matches Some(s) ==> doc.tree(self.cid()).contains(target) && doc.position_keys(
                self.cid(),
            ).dom().contains(target) && s@ == doc.position_keys(self.cid())[target],
            plain_root(self.cid()) ==> (r is Some <==> doc.position_keys(
                self.cid(),
            ).dom().contains(target)),
    {
        proof {
            use_type_invariant(self);
        }
        match raw_key(&doc.inner, &self.key, target) {
            Some(k) => k,
            None => None,
        }
    }

    /// Whether the tree keeps a position key for each node.
    pub fn is_fractional_index_enabled(&self, doc: &LoroDoc) -> (r: bool)
        ensures
            r ==> doc.tree(self.cid()).positioned,
            plain_root(self.cid()) ==> r == doc.tree(self.cid()).positioned,
    {
        proof {
            use_type_invariant(self);
        }
        match raw_positioned(&doc.inner, &self.key) {
            Some(b) => b,
            None => false,
        }
    }

    /// Makes the tree keep position keys, so that nodes can be put at an index.
    /// With `jitter` above 0 the keys are spread at random, so that two peers
    /// that insert at one place seldom choose the same key.
    pub fn enable_fractional_index(&self, doc: &mut LoroDoc, jitter: u8)
        requires
            old(doc).wf(),
        ensures
            final(doc).wf(),
            final(doc).keeps_other_trees(*old(doc), self.cid()),
            final(doc).keeps_lists(*old(doc)),
            final(doc).keeps_maps(*old(doc)),
            plain_root(self.cid()) ==> final(doc).tree(self.cid()) == (TreeModel {
                positioned: true,
                jitter,
                ..old(doc).tree(self.cid())
            }),
            final(doc).tree(self.cid()).parents == old(doc).tree(self.cid()).parents,
            final(doc).tree(self.cid()).children == old(doc).tree(self.cid()).children,
    {
        proof {
            use_type_invariant(self);
        }
        let ghost before = doc.inner;
        let found = raw_enable(&mut doc.inner, &self.key, jitter);
        proof {
            lemma_switch_keeps_wf(before, doc.inner, self.cid(), found);
        }
    }

    /// Makes the tree keep no position keys. Nodes can then no longer be put at
    /// an index: `create_at`, `mov_to`, `mov_after` and `mov_before` fail.
    pub fn disable_fractional_index(&self, doc: &mut LoroDoc)
        requires
            old(doc).wf(),
        ensures
            final(doc).wf(),
            final(doc).keeps_other_trees(*old(doc), self.cid()),
            final(doc).keeps_lists(*old(doc)),
            final(doc).keeps_maps(*old(doc)),
            plain_root(self.cid()) ==> final(doc).tree(self.cid()) == (TreeModel {
                positioned: false,
                ..old(doc).tree(self.cid())
            }),
            final(doc).tree(self.cid()).parents == old(doc).tree(self.cid()).parents,
            final(doc).tree(self.cid()).children == old(doc).tree(self.cid()).children,
    {
        proof {
            use_type_invariant(self);
        }
        let ghost before = doc.inner;
        let found = raw_disable(&mut doc.inner, &self.key);
        proof {
            lemma_switch_keeps_wf(before, doc.inner, self.cid(), found);
        }
    }

    /// The map that holds the data of the node `target`. Every node has one of
    /// its own, named by the operation that created the node.
    pub fn get_meta(&self, doc: &LoroDoc, target: TreeID) -> (r: Result<LoroMap, ErrorKind>)
        ensures
            r matches Ok(m) ==> doc.tree(self.cid()).contains(target) && m.cid() == (
            ContainerIdView::Normal {
                peer: target.peer,
                counter: target.counter,
                container_type: ContainerType::Mapping,
            }),
            r matches Err(e) ==> e == ErrorKind::ContainerNotFound || (e
                == ErrorKind::TreeNodeNotExist && !doc.tree(self.cid()).contains(target)),
            plain_root(self.cid()) ==> (r is Ok <==> doc.tree(self.cid()).contains(target)),
    {
        proof {
            use_type_invariant(self);
        }
        match raw_contains(&doc.inner, &self.key, target) {
            None => Err(ErrorKind::ContainerNotFound),
            Some(false) => Err(ErrorKind::TreeNodeNotExist),
            Some(true) => Ok(LoroMap { key: normal_key(target.peer, target.counter, ContainerType::Mapping) }),
        }
    }

    /// The forest as one value: a list of the roots, each with its children.
    /// The data of the nodes is left out.
    pub fn get_value(&self, doc: &LoroDoc) -> (r: Option<LoroValue>)
        ensures
            plain_root(self.cid()) ==> r is Some,
            r matches Some(v) ==> v == doc.value_of(self.cid(), false),
    {
        proof {
            use_type_invariant(self);
        }
        raw_value(&doc.inner, &self.key)
    }

    /// The forest as one value, with the data of each node.
    pub fn get_value_with_meta(&self, doc: &LoroDoc) -> (r: Option<LoroValue>)
        ensures
            plain_root(self.cid()) ==> r is Some,
            r matches Some(v) ==> v == doc.value_of(self.cid(), true),
    {
        proof {
            use_type_invariant(self);
        }
        raw_value_with_meta(&doc.inner, &self.key)
    }

    /// Whether the forest has no root.
    pub fn is_empty(&self, doc: &LoroDoc) -> (r: bool)
        ensures
            plain_root(self.cid()) ==> r == (doc.tree(self.cid()).kids(TreeParentId::Root).len()
                == 0),
    {
        self.roots(doc).len() == 0
    }

    /// The operation that last put `target` where it hangs.
    pub fn get_last_move_id(&self, doc: &LoroDoc, target: &TreeID) -> (r: Option<ID>)
        ensures
            r is Some ==> doc.tree(self.cid()).contains(*target),
            plain_root(self.cid()) ==> (r is Some <==> doc.tree(self.cid()).contains(*target)),
    {
        proof {
            use_type_invariant(self);
        }
        match raw_last_move(&doc.inner, &self.key, *target) {
            Some(x) => x,
            None => None,
        }
    }
}

/// Cycle-freedom. In a document, whatever was done to it, no node of a tree is
/// its own ancestor: the walk from the parent of a node upwards never comes
/// back to the node.
pub proof fn lemma_no_node_is_its_own_ancestor(doc: LoroDoc, tree: ContainerIdView, node: TreeID)
    requires
        doc.wf(),
        doc.tree(tree).contains(node),
    ensures
        !is_ancestor_or_self(doc.tree(tree).parents, node, doc.tree(tree).parents[node]),
{
    assert(tree_model(doc.inner, tree).wf());
}

/// Cycle-freedom, with its bound. In a document, whatever was done to it, the
/// walk from a node of a tree upwards, from parent to parent, comes to the top
/// level or to where deleted nodes hang within as many steps as the tree has
/// nodes.
pub proof fn lemma_every_walk_ends(doc: LoroDoc, tree: ContainerIdView, node: TreeID)
    requires
        doc.wf(),
        doc.tree(tree).contains(node),
    ensures
        doc.tree(tree).parents.dom().finite(),
        exists|k: nat|
            k <= doc.tree(tree).parents.dom().len() && at_end(
                #[trigger] walk(doc.tree(tree).parents, TreeParentId::Node(node), k),
            ),
{
    assert(tree_model(doc.inner, tree).wf());
    lemma_walk_ends(tree_model(doc.inner, tree), node);
}

/// Delete-then-children-orphaned. Once `delete` has deleted a node, the node
/// hangs at `Deleted`. Each node that was its child is still in the tree, with
/// the deleted node as its parent; it counts as deleted, and `roots` and
/// `children` show neither it nor the deleted node, whatever parent is asked
/// about.
pub proof fn lemma_delete_orphans_children(
    tree: LoroTree,
    before: LoroDoc,
    after: LoroDoc,
    node: TreeID,
    child: TreeID,
)
    requires
        before.wf(),
        tree.changed(
            before,
            after,
            None,
            before.tree(tree.cid()).delete_refusal(node),
            before.tree(tree.cid()).removed(node),
        ),
        before.tree(tree.cid()).contains(child),
        before.tree(tree.cid()).parents[child] == TreeParentId::Node(node),
    ensures
        after.tree(tree.cid()).parents[node] == TreeParentId::Deleted,
        after.tree(tree.cid()).contains(child),
        after.tree(tree.cid()).parents[child] == TreeParentId::Node(node),
        is_deleted(after.tree(tree.cid()).parents, child),
        forall|p: TreeParentId|
            (#[trigger] after.tree(tree.cid()).shown(p)) is Some ==> !after.tree(tree.cid()).shown(
                p,
            )->0.contains(child) && !after.tree(tree.cid()).shown(p)->0.contains(node),
{
    let m = before.tree(tree.cid());
    assert(tree_model(before.inner, tree.cid()).wf());
    crate::container::tree_model::lemma_delete_orphans_children(m, node, child);
    crate::container::tree_model::lemma_same_shape_shows_same(after.tree(tree.cid()), m.removed(node));
    assert forall|p: TreeParentId| (#[trigger] after.tree(tree.cid()).shown(p)) is Some implies !after.tree(
        tree.cid(),
    ).shown(p)->0.contains(child) && !after.tree(tree.cid()).shown(p)->0.contains(node) by {
        assert(after.tree(tree.cid()).shown(p) == m.removed(node).shown(p));
    }
}

/// Switching the position keys keeps every tree of the document well formed.
proof fn lemma_switch_keeps_wf(
    before: DocHandle,
    after: DocHandle,
    tree: ContainerIdView,
    found: bool,
)
    requires
        trees_wf(before),
        lists_wf(before),
        tree_model(after, tree).parents == tree_model(before, tree).parents,
        tree_model(after, tree).children == tree_model(before, tree).children,
        !found ==> after == before,
        other_trees_kept(before, after, tree),
        lists_kept(before, after),
        maps_kept(before, after),
    ensures
        trees_wf(after),
        lists_wf(after),
        other_trees_kept(before, after, tree),
        lists_kept(before, after),
        maps_kept(before, after),
        tree_model(after, tree).parents == tree_model(before, tree).parents,
        tree_model(after, tree).children == tree_model(before, tree).children,
{
    lemma_lists_kept_wf(before, after);
    assert forall|c: ContainerIdView| #[trigger] tree_model(after, c).wf() by {
        assert(tree_model(before, c).wf());
        if found {
            if c != tree {
                assert(tree_model(after, c) == tree_model(before, c));
            } else {
                let a = tree_model(after, c);
                let b = tree_model(before, c);
                assert forall|p: TreeParentId| #[trigger] a.kids(p) == b.kids(p) by {}
                lemma_same_as_keeps_wf(a, b);
            }
        }
    }
}

} // verus!
