//! Identifiers and values shared by every container of a document.

use vstd::prelude::*;

verus! {

/// Identifier of a replica.
pub type PeerID = u64;

/// Position of an operation in the sequence of one replica.
pub type Counter = i32;

/// Identifier of an operation: the replica that issued it and its place in that
/// replica's sequence. Two operations never share one.
#[derive(Clone, Copy, Debug, PartialEq, Eq, Structural, Hash)]
pub struct ID {
    pub peer: PeerID,
    pub counter: Counter,
}

/// The order on identifiers: by peer first, by counter among those of one peer.
pub open spec fn id_precedes(a: ID, b: ID) -> bool {
    a.peer < b.peer || (a.peer == b.peer && a.counter < b.counter)
}

impl ID {
    pub fn new(peer: PeerID, counter: Counter) -> (id: ID)
        ensures
            id.peer == peer,
            id.counter == counter,
    {
        ID { peer, counter }
    }

    /// Whether `self` comes strictly before `other`.
    pub fn precedes(&self, other: &ID) -> (r: bool)
        ensures
            r == id_precedes(*self, *other),
    {
        self.peer < other.peer || (self.peer == other.peer && self.counter < other.counter)
    }
}

/// The order on identifiers is a strict total order: no identifier precedes
/// itself, of two different ones exactly one precedes the other, and what
/// precedes an identifier precedes all that it precedes.
pub proof fn lemma_id_order(a: ID, b: ID, c: ID)
    ensures
        !id_precedes(a, a),
        a != b ==> (id_precedes(a, b) <==> !id_precedes(b, a)),
        id_precedes(a, b) && id_precedes(b, c) ==> id_precedes(a, c),
{
}

/// Identifier of a tree node: that of the operation which created it. It stays
/// the same however often the node is moved.
#[derive(Clone, Copy, Debug, PartialEq, Eq, Structural, Hash)]
pub struct TreeID {
    pub peer: PeerID,
    pub counter: Counter,
}

impl TreeID {
    pub fn new(peer: PeerID, counter: Counter) -> (id: TreeID)
        ensures
            id.peer == peer,
            id.counter == counter,
    {
        TreeID { peer, counter }
    }

    /// The identifier of the operation that created the node.
    pub fn id(&self) -> (id: ID)
        ensures
            id.peer == self.peer,
            id.counter == self.counter,
    {
        ID { peer: self.peer, counter: self.counter }
    }
}

/// Where a tree node hangs.
#[derive(Clone, Copy, Debug, PartialEq, Eq, Structural, Hash)]
pub enum TreeParentId {
    /// Below another node.
    Node(TreeID),
    /// At the top level of the forest.
    Root,
    /// The node was deleted; it can still be addressed by its identifier.
    Deleted,
    /// The node has not been created at the version asked about.
    Unexist,
}

/// The kind of a container.
#[derive(Clone, Copy, Debug, PartialEq, Eq, Structural, Hash)]
pub enum ContainerType {
    Text,
    Mapping,
    List,
    MovableList,
    Tree,
    Counter,
    Unknown(u8),
}

/// Identifier of a container. A root container is named by the application; a
/// normal one is named by the operation that created it.
#[derive(Clone, Debug, PartialEq, Eq, Hash)]
pub enum ContainerID {
    Root { name: String, container_type: ContainerType },
    Normal { peer: PeerID, counter: Counter, container_type: ContainerType },
}

/// What a `ContainerID` stands for, with the name as a sequence of characters.
pub enum ContainerIdView {
    Root { name: Seq<char>, container_type: ContainerType },
    Normal { peer: PeerID, counter: Counter, container_type: ContainerType },
}

impl ContainerIdView {
    pub open spec fn container_type(self) -> ContainerType {
        match self {
            ContainerIdView::Root { container_type, .. } => container_type,
            ContainerIdView::Normal { container_type, .. } => container_type,
        }
    }

    pub open spec fn is_root(self) -> bool {
        self is Root
    }
}

impl View for ContainerID {
    type V = ContainerIdView;

    open spec fn view(&self) -> ContainerIdView {
        match self {
            ContainerID::Root { name, container_type } => ContainerIdView::Root {
                name: name@,
                container_type: *container_type,
            },
            ContainerID::Normal { peer, counter, container_type } => ContainerIdView::Normal {
                peer: *peer,
                counter: *counter,
                container_type: *container_type,
            },
        }
    }
}

impl ContainerID {
    /// The identifier of the root container of that name and kind.
    pub fn new_root(name: &str, container_type: ContainerType) -> (id: ContainerID)
        ensures
            id@ == (ContainerIdView::Root { name: name@, container_type }),
    {
        ContainerID::Root { name: String::from_str(name), container_type }
    }

    /// The identifier of the container that the operation `id` created.
    pub fn new_normal(id: ID, container_type: ContainerType) -> (cid: ContainerID)
        ensures
            cid@ == (ContainerIdView::Normal {
                peer: id.peer,
                counter: id.counter,
                container_type,
            }),
    {
        ContainerID::Normal { peer: id.peer, counter: id.counter, container_type }
    }

    pub fn container_type(&self) -> (t: ContainerType)
        ensures
            t == self@.container_type(),
    {
        match self {
            ContainerID::Root { container_type, .. } => *container_type,
            ContainerID::Normal { container_type, .. } => *container_type,
        }
    }

    pub fn is_root(&self) -> (r: bool)
        ensures
            r == self@.is_root(),
    {
        match self {
            ContainerID::Root { .. } => true,
            ContainerID::Normal { .. } => false,
        }
    }

    /// A copy of the identifier.
    pub fn duplicate(&self) -> (id: ContainerID)
        ensures
            id@ == self@,
    {
        match self {
            ContainerID::Root { name, container_type } => ContainerID::Root {
                name: name.clone(),
                container_type: *container_type,
            },
            ContainerID::Normal { peer, counter, container_type } => ContainerID::Normal {
                peer: *peer,
                counter: *counter,
                container_type: *container_type,
            },
        }
    }

    /// Whether both identifiers name the same container.
    pub fn same(&self, other: &ContainerID) -> (r: bool)
        ensures
            r == (self@ == other@),
    {
        match (self, other) {
            (
                ContainerID::Root { name: name, container_type: kind },
                ContainerID::Root { name: other_name, container_type: other_kind },
            ) => {
                let names = *name == *other_name;
                names && *kind == *other_kind
            },
            (
                ContainerID::Normal { peer: peer, counter: counter, container_type: kind },
                ContainerID::Normal {
                    peer: other_peer,
                    counter: other_counter,
                    container_type: other_kind,
                },
            ) => *peer == *other_peer && *counter == *other_counter && *kind == *other_kind,
            _ => false,
        }
    }
}

/// A value that a container holds: null, a boolean, an integer, a double, a
/// string, bytes, a list of values, a map from strings to values, or the
/// identifier of a container. It is the value of `loro`, carried as it is.
#[verifier::external_body]
pub struct LoroValue(pub loro::LoroValue);

/// Whether two values are equal as `loro` compares them: of the same kind and
/// with equal contents, lists item by item and maps key by key.
pub uninterp spec fn values_equal(a: LoroValue, b: LoroValue) -> bool;

/// `PartialEq::eq` of `loro::LoroValue`.
#[verifier::external_body]
fn compare_values(a: &LoroValue, b: &LoroValue) -> (r: bool)
    ensures
        r == values_equal(*a, *b),
{
    a.0 == b.0
}

/// `Clone::clone` of `loro::LoroValue`.
#[verifier::external_body]
fn copy_value(v: &LoroValue) -> (r: LoroValue)
    ensures
        r == *v,
{
    LoroValue(v.0.clone())
}

impl LoroValue {
    /// Whether both values are equal: of the same kind and with equal contents.
    pub fn equals(&self, other: &LoroValue) -> (r: bool)
        ensures
            r == values_equal(*self, *other),
    {
        compare_values(self, other)
    }

    /// A copy of the value.
    pub fn duplicate(&self) -> (r: LoroValue)
        ensures
            r == *self,
    {
        copy_value(self)
    }
}

/// Which side of its anchor a cursor keeps to.
#[derive(Clone, Copy, Debug, PartialEq, Eq, Structural, Hash)]
pub enum Side {
    Left,
    Middle,
    Right,
}

} // verus!
