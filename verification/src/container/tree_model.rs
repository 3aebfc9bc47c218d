//! The mathematical model of a movable tree: a table from each node to its
//! parent, the order of the children below each parent, and what every
//! operation does to both. The laws of the tree are proved here.

use vstd::prelude::*;
use crate::err::ErrorKind;
use crate::seqs::lemma_insert;
use crate::seqs::lemma_without;
use crate::seqs::without;
use crate::value::TreeID;
use crate::value::TreeParentId;

verus! {

/// A forest as a document holds it at one moment.
pub struct TreeModel {
    /// Every node that was ever created, with the place where it hangs now.
    pub parents: Map<TreeID, TreeParentId>,
    /// The children below each parent, in their order.
    pub children: Map<TreeParentId, Seq<TreeID>>,
    /// Whether the tree keeps a position key for each node.
    pub positioned: bool,
    /// How far chance spreads the position keys that the tree makes; 0 where
    /// chance has no part in them.
    pub jitter: u8,
}

/// The one identifier that never names a node: `loro` keeps it for the place
/// where deleted nodes hang.
pub open spec fn reserved(node: TreeID) -> bool {
    node.peer == u64::MAX && node.counter == i32::MAX
}

/// A parent below which nodes are listed in order: the top level or a node.
pub open spec fn is_place(p: TreeParentId) -> bool {
    p is Root || p is Node
}

/// A parent that a caller can name for a node to hang below: the top level, or
/// a node under an identifier that can name one.
pub open spec fn real_place(p: TreeParentId) -> bool {
    match p {
        TreeParentId::Root => true,
        TreeParentId::Node(n) => !reserved(n),
        _ => false,
    }
}

/// Whether the walk that starts at `from` and goes from parent to parent meets
/// `node` within `fuel` steps.
pub open spec fn reaches(
    parents: Map<TreeID, TreeParentId>,
    from: TreeParentId,
    node: TreeID,
    fuel: nat,
) -> bool
    decreases fuel,
{
    match from {
        TreeParentId::Node(x) => x == node || (fuel > 0 && parents.dom().contains(x) && reaches(
            parents,
            parents[x],
            node,
            (fuel - 1) as nat,
        )),
        _ => false,
    }
}

/// Whether `node` is `of` itself or one of its ancestors.
pub open spec fn is_ancestor_or_self(
    parents: Map<TreeID, TreeParentId>,
    node: TreeID,
    of: TreeParentId,
) -> bool {
    exists|fuel: nat| reaches(parents, of, node, fuel)
}

/// No node is its own ancestor.
pub open spec fn acyclic(parents: Map<TreeID, TreeParentId>) -> bool {
    forall|n: TreeID, fuel: nat|
        parents.dom().contains(n) ==> !#[trigger] reaches(parents, parents[n], n, fuel)
}

/// Every parent that the table names is itself in the table, and no node hangs
/// at `Unexist`.
pub open spec fn closed(parents: Map<TreeID, TreeParentId>) -> bool {
    forall|n: TreeID| #[trigger]
        parents.dom().contains(n) ==> match parents[n] {
            TreeParentId::Node(p) => parents.dom().contains(p),
            TreeParentId::Unexist => false,
            _ => true,
        }
}

/// Whether the walk from `from` ends at `Deleted` within `fuel` steps.
pub open spec fn ends_deleted(
    parents: Map<TreeID, TreeParentId>,
    from: TreeParentId,
    fuel: nat,
) -> bool
    decreases fuel,
{
    match from {
        TreeParentId::Deleted => true,
        TreeParentId::Node(x) => fuel > 0 && parents.dom().contains(x) && ends_deleted(
            parents,
            parents[x],
            (fuel - 1) as nat,
        ),
        _ => false,
    }
}

/// Whether `node` is deleted: it or one of its ancestors hangs at `Deleted`.
pub open spec fn is_deleted(parents: Map<TreeID, TreeParentId>, node: TreeID) -> bool {
    exists|fuel: nat| ends_deleted(parents, TreeParentId::Node(node), fuel)
}

/// Whether the position key `a` comes before the key `b`. Keys are written as
/// digits and compared digit by digit; a key comes behind each of its
/// beginnings.
pub open spec fn key_before(a: Seq<char>, b: Seq<char>) -> bool
    decreases a.len(),
{
    if b.len() == 0 {
        false
    } else if a.len() == 0 {
        true
    } else if a[0] == b[0] {
        key_before(a.drop_first(), b.drop_first())
    } else {
        (a[0] as u32) < (b[0] as u32)
    }
}

/// Position keys are in order: no key comes before itself, of two keys at most
/// one comes before the other, and a key that comes before a second comes
/// before all that the second comes before.
pub proof fn lemma_key_order(a: Seq<char>, b: Seq<char>, c: Seq<char>)
    ensures
        !key_before(a, a),
        key_before(a, b) ==> !key_before(b, a),
        key_before(a, b) && key_before(b, c) ==> key_before(a, c),
    decreases a.len(),
{
    if a.len() > 0 {
        lemma_key_order(a.drop_first(), a.drop_first(), a.drop_first());
        if b.len() > 0 {
            if c.len() > 0 {
                lemma_key_order(a.drop_first(), b.drop_first(), c.drop_first());
            } else {
                lemma_key_order(a.drop_first(), b.drop_first(), b.drop_first());
            }
        }
    }
}

/// The position key that every node gets in a tree that keeps no position
/// keys.
pub open spec fn plain_key() -> Seq<char> {
    seq!['8', '0']
}

/// Whether `spot` is where a node with the plain key, put there by the newest
/// operation, stands among `others`: behind every child whose key does not
/// come behind the plain key, and before every other.
pub open spec fn plain_spot(keys: Map<TreeID, Seq<char>>, others: Seq<TreeID>, spot: int) -> bool {
    &&& forall|j: int|
        0 <= j < spot && j < others.len() ==> !key_before(
            plain_key(),
            key_of(keys, #[trigger] others[j]),
        )
    &&& forall|j: int|
        spot <= j < others.len() ==> key_before(plain_key(), key_of(keys, #[trigger] others[j]))
}

/// The position key by which `node` is placed among its siblings: its own, or
/// the plain key where it has none.
pub open spec fn key_of(keys: Map<TreeID, Seq<char>>, node: TreeID) -> Seq<char> {
    if keys.dom().contains(node) {
        keys[node]
    } else {
        plain_key()
    }
}

/// Among children that all carry the plain key, a node with the plain key that
/// the newest operation put there stands last.
pub proof fn lemma_plain_spot_is_last(keys: Map<TreeID, Seq<char>>, others: Seq<TreeID>, spot: int)
    requires
        0 <= spot <= others.len(),
        plain_spot(keys, others, spot),
        forall|j: int| 0 <= j < others.len() ==> key_of(keys, #[trigger] others[j]) == plain_key(),
    ensures
        spot == others.len(),
{
    if spot < others.len() {
        assert(key_of(keys, others[spot]) == plain_key());
        lemma_key_order(plain_key(), plain_key(), plain_key());
    }
}

/// The position key of the child at `i` among `kids`, if there is such a
/// child.
pub open spec fn key_at(keys: Map<TreeID, Seq<char>>, kids: Seq<TreeID>, i: int) -> Option<
    Seq<char>,
> {
    if 0 <= i < kids.len() {
        Some(key_of(keys, kids[i]))
    } else {
        None
    }
}

/// Whether a key for a node between two neighbours can be made from their keys
/// alone: unless both have the same key, in which case the children behind the
/// node get new keys as well.
pub open spec fn keys_apart(lower: Option<Seq<char>>, upper: Option<Seq<char>>) -> bool {
    lower is None || lower != upper
}

/// Whether the child at `i` among `kids` has a position key that lies between
/// those of its neighbours: behind that of the child before it, if there is
/// one, and before that of the child behind it, if there is one. A neighbour
/// without a key of its own counts with the plain key.
pub open spec fn keyed_at(keys: Map<TreeID, Seq<char>>, kids: Seq<TreeID>, i: int) -> bool {
    &&& keys.dom().contains(kids[i])
    &&& 0 < i ==> key_before(key_of(keys, kids[i - 1]), keys[kids[i]])
    &&& i + 1 < kids.len() ==> key_before(keys[kids[i]], key_of(keys, kids[i + 1]))
}

impl TreeModel {
    /// The tree of a new document.
    pub open spec fn empty() -> TreeModel {
        TreeModel { parents: Map::empty(), children: Map::empty(), positioned: true, jitter: 0 }
    }

    pub open spec fn contains(self, node: TreeID) -> bool {
        self.parents.dom().contains(node)
    }

    /// Where `node` hangs, if it was created.
    pub open spec fn parent_of(self, node: TreeID) -> Option<TreeParentId> {
        if self.contains(node) {
            Some(self.parents[node])
        } else {
            None
        }
    }

    /// The children listed below `p`, in order.
    pub open spec fn kids(self, p: TreeParentId) -> Seq<TreeID> {
        if self.children.dom().contains(p) {
            self.children[p]
        } else {
            Seq::empty()
        }
    }

    /// A node that can be moved or deleted: it was created and does not hang at
    /// `Deleted`.
    pub open spec fn movable(self, node: TreeID) -> bool {
        self.contains(node) && self.parents[node] != TreeParentId::Deleted
    }

    /// A parent below which a node can be put: the top level, or a node that
    /// was created.
    pub open spec fn hosts(self, parent: TreeParentId) -> bool {
        match parent {
            TreeParentId::Root => true,
            TreeParentId::Node(p) => self.contains(p),
            _ => false,
        }
    }

    /// The lists of children say what the table of parents says: a node stands
    /// below a place exactly if the table puts it there, and once only.
    pub open spec fn listed(self) -> bool {
        &&& forall|p: TreeParentId, n: TreeID|
            is_place(p) ==> (#[trigger] self.kids(p).contains(n) <==> (self.contains(n)
                && self.parents[n] == p))
        &&& forall|p: TreeParentId| is_place(p) ==> #[trigger] self.kids(p).no_duplicates()
    }

    /// What holds of the tree of every document, whatever was done to it.
    pub open spec fn wf(self) -> bool {
        &&& closed(self.parents)
        &&& acyclic(self.parents)
        &&& self.listed()
        &&& forall|n: TreeID| reserved(n) ==> !#[trigger] self.contains(n)
        &&& self.parents.dom().finite()
    }

    /// Why `create` does not put a new node below `parent`, if it does not.
    pub open spec fn create_refusal(self, parent: TreeParentId) -> Option<ErrorKind> {
        if !self.hosts(parent) {
            Some(ErrorKind::TreeNodeNotExist)
        } else {
            None
        }
    }

    /// Why `create_at` does not put a new node below `parent` at `index`.
    pub open spec fn create_at_refusal(self, parent: TreeParentId, index: int) -> Option<
        ErrorKind,
    > {
        if !self.positioned {
            Some(ErrorKind::FractionalIndexDisabled)
        } else if !real_place(parent) {
            Some(ErrorKind::TreeNodeNotExist)
        } else if index > self.kids(parent).len() {
            Some(ErrorKind::IndexOutOfBounds)
        } else if !self.hosts(parent) {
            Some(ErrorKind::TreeNodeNotExist)
        } else {
            None
        }
    }

    /// Why `mov` does not hang `target` below `parent`.
    pub open spec fn move_refusal(self, target: TreeID, parent: TreeParentId) -> Option<
        ErrorKind,
    > {
        if !self.movable(target) || !self.hosts(parent) {
            Some(ErrorKind::TreeNodeNotExist)
        } else if is_ancestor_or_self(self.parents, target, parent) {
            Some(ErrorKind::CyclicMoveRejected)
        } else {
            None
        }
    }

    /// Why `mov_to` does not put `target` below `parent` at `index`.
    pub open spec fn move_to_refusal(
        self,
        target: TreeID,
        parent: TreeParentId,
        index: int,
    ) -> Option<ErrorKind> {
        if !real_place(parent) {
            Some(ErrorKind::TreeNodeNotExist)
        } else if !self.positioned {
            Some(ErrorKind::FractionalIndexDisabled)
        } else if index > self.kids_without(parent, target).len() {
            Some(ErrorKind::IndexOutOfBounds)
        } else {
            self.move_refusal(target, parent)
        }
    }

    /// Why `mov_after` and `mov_before` do not put `target` beside `sibling`.
    pub open spec fn move_beside_refusal(self, target: TreeID, sibling: TreeID) -> Option<
        ErrorKind,
    > {
        if !self.positioned {
            Some(ErrorKind::FractionalIndexDisabled)
        } else if !self.movable(sibling) {
            Some(ErrorKind::TreeNodeNotExist)
        } else {
            self.move_refusal(target, self.parents[sibling])
        }
    }

    /// Why `delete` does not delete `target`.
    pub open spec fn delete_refusal(self, target: TreeID) -> Option<ErrorKind> {
        if !self.movable(target) {
            Some(ErrorKind::TreeNodeNotExist)
        } else {
            None
        }
    }

    /// The tree after `target` was put beside `sibling`: behind it if `after`,
    /// else before it.
    pub open spec fn put_beside(self, target: TreeID, sibling: TreeID, after: bool) -> TreeModel {
        if target == sibling {
            self
        } else {
            let parent = self.parents[sibling];
            let at = self.kids_without(parent, target).index_of(sibling);
            self.placed(
                target,
                parent,
                if after {
                    at + 1
                } else {
                    at
                },
            )
        }
    }

    /// The lists of children once `node` is taken out of the list it stands in.
    pub open spec fn unlinked(self, node: TreeID) -> Map<TreeParentId, Seq<TreeID>> {
        if self.contains(node) && is_place(self.parents[node]) {
            self.children.insert(
                self.parents[node],
                without(self.kids(self.parents[node]), node),
            )
        } else {
            self.children
        }
    }

    /// The children below `p` once `node` is taken out.
    pub open spec fn kids_without(self, p: TreeParentId, node: TreeID) -> Seq<TreeID> {
        if self.contains(node) && self.parents[node] == p {
            without(self.kids(p), node)
        } else {
            self.kids(p)
        }
    }

    /// The tree after `node`, new or old, was put below `parent` at `index` among
    /// the other children.
    pub open spec fn placed(self, node: TreeID, parent: TreeParentId, index: int) -> TreeModel {
        TreeModel {
            parents: self.parents.insert(node, parent),
            children: self.unlinked(node).insert(
                parent,
                self.kids_without(parent, node).insert(index, node),
            ),
            positioned: self.positioned,
            jitter: self.jitter,
        }
    }

    /// The tree after `node` was put below `parent` behind the other children.
    pub open spec fn appended(self, node: TreeID, parent: TreeParentId) -> TreeModel {
        self.placed(node, parent, self.kids_without(parent, node).len() as int)
    }

    /// Whether `spot` is a place among the children of `parent` other than
    /// `node`: before one of them, or behind them all.
    pub open spec fn has_spot(self, node: TreeID, parent: TreeParentId, spot: int) -> bool {
        0 <= spot <= self.kids_without(parent, node).len()
    }

    /// The place at which `node` stands among the children of `parent`.
    pub open spec fn spot(self, node: TreeID, parent: TreeParentId) -> int {
        self.kids(parent).index_of(node)
    }

    /// Whether, with the position keys `keys`, the key of `node` lies between
    /// those of its neighbours among the children of `parent`.
    pub open spec fn keyed(
        self,
        keys: Map<TreeID, Seq<char>>,
        node: TreeID,
        parent: TreeParentId,
    ) -> bool {
        keyed_at(keys, self.kids(parent), self.spot(node, parent))
    }

    /// Whether the position keys are as they are after `node` was put below
    /// `parent` with no place asked for, in the tree `self`, which had the
    /// keys `keys` and became the tree `after` with the keys `new_keys`. In a
    /// tree that keeps position keys the key of the node lies behind that of the
    /// child before it. In one that keeps none the node has the plain key and
    /// stands where that key puts what the newest operation made.
    pub open spec fn keys_fit(
        self,
        keys: Map<TreeID, Seq<char>>,
        after: TreeModel,
        new_keys: Map<TreeID, Seq<char>>,
        node: TreeID,
        parent: TreeParentId,
    ) -> bool {
        if self.positioned {
            after.keyed(new_keys, node, parent)
        } else {
            new_keys.dom().contains(node) && new_keys[node] == plain_key() && plain_spot(
                keys,
                self.kids_without(parent, node),
                after.spot(node, parent),
            )
        }
    }

    /// The tree after `node` was put below `parent` with no place asked for. A
    /// tree that keeps position keys gives the node a key behind those of the
    /// other children, so that it stands behind them. A tree that keeps none
    /// gives every node the same key, and the node stands where that key and its
    /// operation put it among the children that carry keys from before: at
    /// `spot`, with the other children in the order that they had.
    pub open spec fn landed(self, node: TreeID, parent: TreeParentId, spot: int) -> TreeModel {
        if self.positioned {
            self.appended(node, parent)
        } else {
            self.placed(node, parent, spot)
        }
    }

    /// The tree after `node` was deleted: it hangs at `Deleted` and stands in no
    /// list; its descendants keep their parents.
    pub open spec fn removed(self, node: TreeID) -> TreeModel {
        TreeModel {
            parents: self.parents.insert(node, TreeParentId::Deleted),
            children: self.unlinked(node),
            positioned: self.positioned,
            jitter: self.jitter,
        }
    }

    /// Whether both trees hold the same nodes below the same parents and list
    /// the same children below every place.
    pub open spec fn same_shape(self, other: TreeModel) -> bool {
        &&& self.parents == other.parents
        &&& forall|p: TreeParentId| is_place(p) ==> #[trigger] self.kids(p) == other.kids(p)
    }

    /// Whether both trees have the same shape, both keep position keys or
    /// neither, and both make them alike.
    pub open spec fn same_as(self, other: TreeModel) -> bool {
        &&& self.same_shape(other)
        &&& self.positioned == other.positioned
        &&& self.jitter == other.jitter
    }

    /// The children of `parent` that a caller is shown: none below a deleted
    /// node, and no list at all below a node that was never created.
    pub open spec fn shown(self, parent: TreeParentId) -> Option<Seq<TreeID>> {
        match parent {
            TreeParentId::Root => Some(self.kids(parent)),
            TreeParentId::Node(p) => if !self.contains(p) {
                None
            } else if is_deleted(self.parents, p) {
                Some(Seq::empty())
            } else {
                Some(self.kids(parent))
            },
            _ => None,
        }
    }
}

/// More fuel never loses a node that the walk met.
pub proof fn lemma_reaches_more_fuel(
    parents: Map<TreeID, TreeParentId>,
    from: TreeParentId,
    node: TreeID,
    f1: nat,
    f2: nat,
)
    requires
        reaches(parents, from, node, f1),
        f1 <= f2,
    ensures
        reaches(parents, from, node, f2),
    decreases f1,
{
    if let TreeParentId::Node(x) = from {
        if x != node {
            lemma_reaches_more_fuel(parents, parents[x], node, (f1 - 1) as nat, (f2 - 1) as nat);
        }
    }
}

/// Walks compose: what reaches `mid`, whose parent reaches `node`, reaches `node`.
pub proof fn lemma_reaches_via(
    parents: Map<TreeID, TreeParentId>,
    from: TreeParentId,
    mid: TreeID,
    node: TreeID,
    f1: nat,
    f2: nat,
)
    requires
        reaches(parents, from, mid, f1),
        parents.dom().contains(mid),
        reaches(parents, parents[mid], node, f2),
    ensures
        reaches(parents, from, node, f1 + f2 + 1),
    decreases f1,
{
    if let TreeParentId::Node(x) = from {
        if x == node {
        } else if x == mid {
            lemma_reaches_more_fuel(parents, parents[mid], node, f2, f1 + f2);
        } else {
            lemma_reaches_via(parents, parents[x], mid, node, (f1 - 1) as nat, f2);
        }
    }
}

/// After `t` was hung below `q`, a walk that meets `t` met it before as well.
proof fn lemma_walk_to_moved(
    parents: Map<TreeID, TreeParentId>,
    t: TreeID,
    q: TreeParentId,
    from: TreeParentId,
    fuel: nat,
)
    requires
        reaches(parents.insert(t, q), from, t, fuel),
    ensures
        reaches(parents, from, t, fuel),
    decreases fuel,
{
    if let TreeParentId::Node(x) = from {
        if x != t {
            lemma_walk_to_moved(parents, t, q, parents[x], (fuel - 1) as nat);
        }
    }
}

/// After `t` was hung below `q`, a walk that meets `node` either met it before,
/// or passed through `t` and went on from `q`.
proof fn lemma_walk_after_move(
    parents: Map<TreeID, TreeParentId>,
    t: TreeID,
    q: TreeParentId,
    from: TreeParentId,
    node: TreeID,
    fuel: nat,
)
    requires
        reaches(parents.insert(t, q), from, node, fuel),
    ensures
        reaches(parents, from, node, fuel) || (reaches(parents, from, t, fuel) && reaches(
            parents.insert(t, q),
            q,
            node,
            fuel,
        )),
    decreases fuel,
{
    let after = parents.insert(t, q);
    if let TreeParentId::Node(x) = from {
        if x == node {
        } else if x == t {
            lemma_reaches_more_fuel(after, q, node, (fuel - 1) as nat, fuel);
        } else {
            lemma_walk_after_move(parents, t, q, parents[x], node, (fuel - 1) as nat);
            if !reaches(parents, parents[x], node, (fuel - 1) as nat) {
                lemma_reaches_more_fuel(after, q, node, (fuel - 1) as nat, fuel);
            }
        }
    }
}

/// Cycle-freedom. In a tree without a cycle, hanging `t` below `q` makes no
/// cycle, so long as `t` is neither `q` nor one of its ancestors. Creating a
/// node, moving one and deleting one are all of this form.
pub proof fn lemma_reparent_keeps_acyclic(
    parents: Map<TreeID, TreeParentId>,
    t: TreeID,
    q: TreeParentId,
)
    requires
        acyclic(parents),
        !is_ancestor_or_self(parents, t, q),
    ensures
        acyclic(parents.insert(t, q)),
{
    let after = parents.insert(t, q);
    assert forall|n: TreeID, fuel: nat| after.dom().contains(n) implies !#[trigger] reaches(
        after,
        after[n],
        n,
        fuel,
    ) by {
        if reaches(after, after[n], n, fuel) {
            if n == t {
                lemma_walk_to_moved(parents, t, q, q, fuel);
                assert(reaches(parents, q, t, fuel));
            } else {
                lemma_walk_after_move(parents, t, q, parents[n], n, fuel);
                assert(!reaches(parents, parents[n], n, fuel));
                lemma_walk_after_move(parents, t, q, q, n, fuel);
                if reaches(parents, q, n, fuel) {
                    lemma_reaches_via(parents, q, n, t, fuel, fuel);
                    assert(reaches(parents, q, t, fuel + fuel + 1));
                } else {
                    assert(reaches(parents, q, t, fuel));
                }
            }
            assert(false);
        }
    }
}

/// In a closed table, a walk that starts inside the table stays inside it.
pub proof fn lemma_walk_stays_inside(
    parents: Map<TreeID, TreeParentId>,
    from: TreeParentId,
    node: TreeID,
    fuel: nat,
)
    requires
        closed(parents),
        reaches(parents, from, node, fuel),
        from matches TreeParentId::Node(x) ==> parents.dom().contains(x),
    ensures
        parents.dom().contains(node),
    decreases fuel,
{
    if let TreeParentId::Node(x) = from {
        if x != node {
            lemma_walk_stays_inside(parents, parents[x], node, (fuel - 1) as nat);
        }
    }
}

/// A node that is not in the table is nobody's ancestor.
pub proof fn lemma_new_node_is_no_ancestor(
    parents: Map<TreeID, TreeParentId>,
    t: TreeID,
    q: TreeParentId,
)
    requires
        closed(parents),
        !parents.dom().contains(t),
        q matches TreeParentId::Node(p) ==> parents.dom().contains(p),
    ensures
        !is_ancestor_or_self(parents, t, q),
{
    if is_ancestor_or_self(parents, t, q) {
        let fuel = choose|fuel: nat| reaches(parents, q, t, fuel);
        lemma_walk_stays_inside(parents, q, t, fuel);
    }
}

/// Hanging `t` below a parent that exists keeps the table closed.
pub proof fn lemma_reparent_keeps_closed(
    parents: Map<TreeID, TreeParentId>,
    t: TreeID,
    q: TreeParentId,
)
    requires
        closed(parents),
        q != TreeParentId::Unexist,
        q matches TreeParentId::Node(p) ==> parents.dom().contains(p),
    ensures
        closed(parents.insert(t, q)),
{
    let after = parents.insert(t, q);
    assert forall|n: TreeID| #[trigger] after.dom().contains(n) implies match after[n] {
        TreeParentId::Node(p) => after.dom().contains(p),
        TreeParentId::Unexist => false,
        _ => true,
    } by {
        if n != t {
            assert(parents.dom().contains(n));
        }
    }
}

/// Taking a node out of its list keeps the lists in step with the table, but
/// for the node itself, which then stands in no list.
proof fn lemma_unlinked(m: TreeModel, node: TreeID)
    requires
        m.listed(),
    ensures
        forall|p: TreeParentId| is_place(p) ==> #[trigger] m.kids_without(p, node).no_duplicates(),
        forall|p: TreeParentId, n: TreeID|
            is_place(p) ==> (#[trigger] m.kids_without(p, node).contains(n) <==> (n != node
                && m.contains(n) && m.parents[n] == p)),
        forall|p: TreeParentId|
            is_place(p) ==> (TreeModel {
                parents: m.parents,
                children: m.unlinked(node),
                positioned: m.positioned,
                jitter: m.jitter,
            }).kids(p) == #[trigger] m.kids_without(p, node),
{
    assert forall|p: TreeParentId| is_place(p) implies #[trigger] m.kids_without(
        p,
        node,
    ).no_duplicates() by {
        assert(m.kids(p).no_duplicates());
        lemma_without(m.kids(p), node);
    }
    assert forall|p: TreeParentId, n: TreeID| is_place(p) implies (#[trigger] m.kids_without(
        p,
        node,
    ).contains(n) <==> (n != node && m.contains(n) && m.parents[n] == p)) by {
        assert(m.kids(p).no_duplicates());
        lemma_without(m.kids(p), node);
        assert(m.kids(p).contains(n) <==> (m.contains(n) && m.parents[n] == p));
        assert(m.kids(p).contains(node) <==> (m.contains(node) && m.parents[node] == p));
    }
}

/// Putting a node below a place keeps the lists in step with the table.
pub proof fn lemma_placed_keeps_listed(m: TreeModel, node: TreeID, parent: TreeParentId, index: int)
    requires
        m.listed(),
        is_place(parent),
        0 <= index <= m.kids_without(parent, node).len(),
    ensures
        m.placed(node, parent, index).listed(),
        m.placed(node, parent, index).kids(parent) == m.kids_without(parent, node).insert(
            index,
            node,
        ),
        forall|p: TreeParentId|
            is_place(p) && p != parent ==> #[trigger] m.placed(node, parent, index).kids(p)
                == m.kids_without(p, node),
{
    let after = m.placed(node, parent, index);
    lemma_unlinked(m, node);
    let mid = TreeModel {
        parents: m.parents,
        children: m.unlinked(node),
        positioned: m.positioned,
        jitter: m.jitter,
    };
    assert forall|p: TreeParentId| is_place(p) && p != parent implies #[trigger] after.kids(p)
        == m.kids_without(p, node) by {
        assert(mid.kids(p) == m.kids_without(p, node));
    }
    let base = m.kids_without(parent, node);
    lemma_insert(base, index, node);
    assert(base.no_duplicates());
    assert(!base.contains(node));
    assert forall|p: TreeParentId, n: TreeID| is_place(p) implies (#[trigger] after.kids(
        p,
    ).contains(n) <==> (after.contains(n) && after.parents[n] == p)) by {
        if p == parent {
            assert(base.contains(n) <==> (n != node && m.contains(n) && m.parents[n] == p));
        } else {
            assert(after.kids(p) == m.kids_without(p, node));
            assert(m.kids_without(p, node).contains(n) <==> (n != node && m.contains(n)
                && m.parents[n] == p));
        }
    }
    assert forall|p: TreeParentId| is_place(p) implies #[trigger] after.kids(p).no_duplicates() by {
        if p != parent {
            assert(after.kids(p) == m.kids_without(p, node));
            assert(m.kids_without(p, node).no_duplicates());
        }
    }
}

/// Deleting a node keeps the lists in step with the table.
pub proof fn lemma_removed_keeps_listed(m: TreeModel, node: TreeID)
    requires
        m.listed(),
    ensures
        m.removed(node).listed(),
        forall|p: TreeParentId|
            is_place(p) ==> #[trigger] m.removed(node).kids(p) == m.kids_without(p, node),
{
    let after = m.removed(node);
    lemma_unlinked(m, node);
    let mid = TreeModel {
        parents: m.parents,
        children: m.unlinked(node),
        positioned: m.positioned,
        jitter: m.jitter,
    };
    assert forall|p: TreeParentId| is_place(p) implies #[trigger] after.kids(p) == m.kids_without(
        p,
        node,
    ) by {
        assert(mid.kids(p) == m.kids_without(p, node));
    }
    assert forall|p: TreeParentId, n: TreeID| is_place(p) implies (#[trigger] after.kids(
        p,
    ).contains(n) <==> (after.contains(n) && after.parents[n] == p)) by {
        assert(after.kids(p) == m.kids_without(p, node));
        assert(m.kids_without(p, node).contains(n) <==> (n != node && m.contains(n)
            && m.parents[n] == p));
    }
    assert forall|p: TreeParentId| is_place(p) implies #[trigger] after.kids(p).no_duplicates() by {
        assert(after.kids(p) == m.kids_without(p, node));
        assert(m.kids_without(p, node).no_duplicates());
    }
}

/// Putting a node below a parent that exists, and that is not below the node,
/// keeps a tree well formed.
pub proof fn lemma_placed_keeps_wf(m: TreeModel, node: TreeID, parent: TreeParentId, index: int)
    requires
        m.wf(),
        !reserved(node),
        m.hosts(parent),
        !is_ancestor_or_self(m.parents, node, parent),
        0 <= index <= m.kids_without(parent, node).len(),
    ensures
        m.placed(node, parent, index).wf(),
{
    lemma_reparent_keeps_closed(m.parents, node, parent);
    lemma_reparent_keeps_acyclic(m.parents, node, parent);
    lemma_placed_keeps_listed(m, node, parent, index);
    let after = m.placed(node, parent, index);
    assert forall|n: TreeID| reserved(n) implies !#[trigger] after.contains(n) by {
        assert(!m.contains(n));
    }
}

/// Where the walk that starts at `from` and goes from parent to parent stands
/// after `k` steps. A walk that has come to a place that is no node of the tree
/// stays there.
pub open spec fn walk(parents: Map<TreeID, TreeParentId>, from: TreeParentId, k: nat) -> TreeParentId
    decreases k,
{
    if k == 0 {
        from
    } else {
        match from {
            TreeParentId::Node(x) => if parents.dom().contains(x) {
                walk(parents, parents[x], (k - 1) as nat)
            } else {
                from
            },
            _ => from,
        }
    }
}

/// Whether a walk has come to its end: to the top level, or to where deleted
/// nodes hang.
pub open spec fn at_end(p: TreeParentId) -> bool {
    p is Root || p is Deleted
}

/// A walk of `a + b` steps is a walk of `a` steps and then one of `b` steps.
pub proof fn lemma_walk_split(parents: Map<TreeID, TreeParentId>, from: TreeParentId, a: nat, b: nat)
    ensures
        walk(parents, from, a + b) == walk(parents, walk(parents, from, a), b),
    decreases a,
{
    if a > 0 {
        match from {
            TreeParentId::Node(x) => {
                if parents.dom().contains(x) {
                    lemma_walk_split(parents, parents[x], (a - 1) as nat, b);
                } else {
                    lemma_walk_stays(parents, from, b);
                }
            },
            _ => {
                lemma_walk_stays(parents, from, b);
            },
        }
    }
}

/// A walk that stands at a place that is no node of the tree stays there.
pub proof fn lemma_walk_stays(parents: Map<TreeID, TreeParentId>, from: TreeParentId, k: nat)
    requires
        !(from matches TreeParentId::Node(x) && parents.dom().contains(x)),
    ensures
        walk(parents, from, k) == from,
{
}

/// A walk that comes to a node has met it.
pub proof fn lemma_walk_meets(
    parents: Map<TreeID, TreeParentId>,
    from: TreeParentId,
    node: TreeID,
    k: nat,
)
    requires
        walk(parents, from, k) == TreeParentId::Node(node),
    ensures
        reaches(parents, from, node, k),
    decreases k,
{
    if k > 0 {
        match from {
            TreeParentId::Node(x) => {
                if x != node && parents.dom().contains(x) {
                    lemma_walk_meets(parents, parents[x], node, (k - 1) as nat);
                }
            },
            _ => {},
        }
    }
}

/// The nodes at which a walk stands that has not come to its end within `k`
/// steps: all different, and all nodes of the tree.
proof fn lemma_walk_nodes(m: TreeModel, x: TreeID, k: nat) -> (s: Seq<TreeID>)
    requires
        m.wf(),
        m.contains(x),
        forall|j: nat| j <= k ==> !at_end(#[trigger] walk(m.parents, TreeParentId::Node(x), j)),
    ensures
        s.len() == k + 1,
        forall|j: int|
            0 <= j <= k ==> walk(m.parents, TreeParentId::Node(x), j as nat) == TreeParentId::Node(
                #[trigger] s[j],
            ) && m.contains(s[j]),
        s.no_duplicates(),
    decreases k,
{
    let start = TreeParentId::Node(x);
    if k == 0 {
        seq![x]
    } else {
        let before = lemma_walk_nodes(m, x, (k - 1) as nat);
        let last = before[k - 1];
        assert(walk(m.parents, start, (k - 1) as nat) == TreeParentId::Node(last));
        lemma_walk_split(m.parents, start, (k - 1) as nat, 1);
        assert(m.contains(last));
        assert(walk(m.parents, m.parents[last], 0) == m.parents[last]);
        assert(walk(m.parents, TreeParentId::Node(last), 1) == m.parents[last]);
        let next = walk(m.parents, start, k);
        assert(next == m.parents[last]);
        assert(!at_end(next));
        assert(m.parents.dom().contains(last));
        let p = next->Node_0;
        assert(next == TreeParentId::Node(p) && m.contains(p));
        assert forall|i: int| 0 <= i < before.len() implies before[i] != p by {
            if before[i] == p {
                let gap = (k - i) as nat;
                lemma_walk_split(m.parents, start, i as nat, gap);
                assert(walk(m.parents, TreeParentId::Node(p), gap) == TreeParentId::Node(p));
                assert(walk(m.parents, m.parents[p], (gap - 1) as nat) == TreeParentId::Node(p));
                lemma_walk_meets(m.parents, m.parents[p], p, (gap - 1) as nat);
                assert(false);
            }
        }
        let s = before.push(p);
        assert forall|j: int| 0 <= j <= k implies walk(m.parents, start, j as nat)
            == TreeParentId::Node(#[trigger] s[j]) && m.contains(s[j]) by {
            if j < k {
                assert(s[j] == before[j]);
            }
        }
        s
    }
}

/// Cycle-freedom, with its bound. In a well-formed tree the walk from a node,
/// from parent to parent, comes to the top level or to where deleted nodes
/// hang within as many steps as the tree has nodes.
pub proof fn lemma_walk_ends(m: TreeModel, x: TreeID)
    requires
        m.wf(),
        m.contains(x),
    ensures
        exists|k: nat|
            k <= m.parents.dom().len() && at_end(#[trigger] walk(m.parents, TreeParentId::Node(x), k)),
{
    let n = m.parents.dom().len();
    if forall|j: nat| j <= n ==> !at_end(#[trigger] walk(m.parents, TreeParentId::Node(x), j)) {
        let s = lemma_walk_nodes(m, x, n);
        s.unique_seq_to_set();
        assert(s.to_set().subset_of(m.parents.dom())) by {
            assert forall|e: TreeID| s.to_set().contains(e) implies m.parents.dom().contains(e) by {
                let i = choose|i: int| 0 <= i < s.len() && s[i] == e;
                assert(m.contains(s[i]));
            }
        }
        vstd::set_lib::lemma_len_subset(s.to_set(), m.parents.dom());
        assert(false);
    }
}

/// Putting a node below a parent that exists, and that is not below the node,
/// with no place asked for keeps a tree well formed, wherever the node comes to
/// stand among the children.
pub proof fn lemma_landed_keeps_wf(m: TreeModel, node: TreeID, parent: TreeParentId, spot: int)
    requires
        m.wf(),
        !reserved(node),
        m.hosts(parent),
        !is_ancestor_or_self(m.parents, node, parent),
        m.has_spot(node, parent, spot),
    ensures
        m.landed(node, parent, spot).wf(),
{
    if m.positioned {
        lemma_placed_keeps_wf(m, node, parent, m.kids_without(parent, node).len() as int);
    } else {
        lemma_placed_keeps_wf(m, node, parent, spot);
    }
}

/// Deleting a node keeps a tree well formed.
pub proof fn lemma_removed_keeps_wf(m: TreeModel, node: TreeID)
    requires
        m.wf(),
        m.contains(node),
    ensures
        m.removed(node).wf(),
{
    lemma_reparent_keeps_closed(m.parents, node, TreeParentId::Deleted);
    assert(!is_ancestor_or_self(m.parents, node, TreeParentId::Deleted));
    lemma_reparent_keeps_acyclic(m.parents, node, TreeParentId::Deleted);
    lemma_removed_keeps_listed(m, node);
    let after = m.removed(node);
    assert forall|n: TreeID| reserved(n) implies !#[trigger] after.contains(n) by {
        assert(!m.contains(n));
    }
}

/// Putting a node beside a sibling that can be moved, below a parent that is
/// not below the node, keeps a tree well formed.
pub proof fn lemma_put_beside_keeps_wf(m: TreeModel, target: TreeID, sibling: TreeID, after: bool)
    requires
        m.wf(),
        m.movable(target),
        m.movable(sibling),
        !is_ancestor_or_self(m.parents, target, m.parents[sibling]),
    ensures
        m.put_beside(target, sibling, after).wf(),
{
    if target != sibling {
        let parent = m.parents[sibling];
        assert(m.contains(sibling));
        assert(m.hosts(parent));
        lemma_unlinked(m, target);
        let base = m.kids_without(parent, target);
        assert(is_place(parent));
        assert(base.contains(sibling));
        let at = base.index_of(sibling);
        assert(!reserved(target)) by {
            assert(m.contains(target));
        }
        lemma_placed_keeps_wf(
            m,
            target,
            parent,
            if after {
                at + 1
            } else {
                at
            },
        );
    }
}

/// Delete-then-children-orphaned. After a node was deleted, it hangs at
/// `Deleted`; each of its children is still in the table with the node as its
/// parent, counts as deleted, and is shown neither among the roots nor among
/// the children of any parent.
pub proof fn lemma_delete_orphans_children(m: TreeModel, node: TreeID, child: TreeID)
    requires
        m.wf(),
        m.movable(node),
        m.contains(child),
        m.parents[child] == TreeParentId::Node(node),
    ensures
        m.removed(node).wf(),
        m.removed(node).parents[node] == TreeParentId::Deleted,
        m.removed(node).contains(child),
        m.removed(node).parents[child] == TreeParentId::Node(node),
        is_deleted(m.removed(node).parents, node),
        is_deleted(m.removed(node).parents, child),
        forall|p: TreeParentId|
            (#[trigger] m.removed(node).shown(p)) matches Some(s) ==> !s.contains(child)
                && !s.contains(node),
{
    let after = m.removed(node);
    lemma_removed_keeps_wf(m, node);
    assert(child != node) by {
        if child == node {
            assert(reaches(m.parents, m.parents[node], node, 0));
        }
    }
    assert(ends_deleted(after.parents, TreeParentId::Deleted, 0));
    assert(after.parents[node] == TreeParentId::Deleted);
    assert(ends_deleted(after.parents, TreeParentId::Node(node), 1));
    assert(after.parents[child] == TreeParentId::Node(node));
    assert(ends_deleted(after.parents, TreeParentId::Node(child), 2));
    assert forall|p: TreeParentId| (#[trigger] after.shown(p)) is Some implies !after.shown(
        p,
    )->0.contains(child) && !after.shown(p)->0.contains(node) by {
        let s = after.shown(p)->0;
        if s.len() > 0 {
            assert(s == after.kids(p));
            assert(is_place(p));
            assert(after.kids(p).contains(child) <==> (after.contains(child) && after.parents[child]
                == p));
            assert(after.kids(p).contains(node) <==> (after.contains(node) && after.parents[node]
                == p));
        }
    }
}

/// Trees of one shape deal with deletion alike, and show the same children.
pub proof fn lemma_same_shape_shows_same(a: TreeModel, b: TreeModel)
    requires
        a.same_shape(b),
    ensures
        forall|n: TreeID| #[trigger] is_deleted(a.parents, n) == is_deleted(b.parents, n),
        forall|p: TreeParentId| #[trigger] a.shown(p) == b.shown(p),
{
    assert forall|p: TreeParentId| #[trigger] a.shown(p) == b.shown(p) by {
        if is_place(p) {
            assert(a.kids(p) == b.kids(p));
        }
    }
}

/// A tree that agrees with a well-formed one is well formed.
pub proof fn lemma_same_as_keeps_wf(m: TreeModel, other: TreeModel)
    requires
        other.wf(),
        m.same_shape(other),
    ensures
        m.wf(),
{
    assert forall|p: TreeParentId, n: TreeID| is_place(p) implies (#[trigger] m.kids(p).contains(n)
        <==> (m.contains(n) && m.parents[n] == p)) by {
        assert(m.kids(p) == other.kids(p));
        assert(other.kids(p).contains(n) <==> (other.contains(n) && other.parents[n] == p));
    }
    assert forall|p: TreeParentId| is_place(p) implies #[trigger] m.kids(p).no_duplicates() by {
        assert(m.kids(p) == other.kids(p));
        assert(other.kids(p).no_duplicates());
    }
    assert forall|n: TreeID| reserved(n) implies !#[trigger] m.contains(n) by {
        assert(!other.contains(n));
    }
}

} // verus!
