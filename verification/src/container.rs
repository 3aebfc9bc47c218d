//! The containers of a document.

pub mod list;
pub mod map;
pub mod tree;
pub mod tree_model;

use vstd::prelude::*;
use crate::container::list::LoroList;
use crate::container::map::LoroMap;
use crate::container::tree::LoroTree;
use crate::key::key_view;
use crate::key::ContainerKey;
use crate::value::ContainerID;
use crate::value::ContainerIdView;
use crate::value::ContainerType;
use crate::value::LoroValue;

verus! {

/// What stands at one place of a list or under one key of a map: a value, or a
/// container of its own.
pub enum Item {
    Value(LoroValue),
    Container(ContainerIdView),
}

/// Whether a value holds the identifier of a container, itself or somewhere
/// within a list or a map. `loro` takes no such value into a list or a map.
pub uninterp spec fn names_container(v: LoroValue) -> bool;

/// Whether a value is the null value.
pub uninterp spec fn holds_null(v: LoroValue) -> bool;

/// Tells the variant `Null` of `loro::LoroValue` from the others.
#[verifier::external_body]
pub(crate) fn is_null(v: &LoroValue) -> (r: bool)
    ensures
        r == holds_null(*v),
{
    matches!(v.0, loro::LoroValue::Null)
}

/// `loro::LoroValue::Null`.
#[verifier::external_body]
pub(crate) fn null_value() -> (v: LoroValue)
    ensures
        holds_null(v),
{
    LoroValue(loro::LoroValue::Null)
}

/// A handle of a text of a document.
pub struct LoroText {
    pub(crate) key: ContainerKey,
}

/// A handle of a list of a document whose items can be moved.
pub struct LoroMovableList {
    pub(crate) key: ContainerKey,
}

/// A handle of a counter of a document.
pub struct LoroCounter {
    pub(crate) key: ContainerKey,
}

/// A handle of a container of a kind that this version does not know.
pub struct LoroUnknown {
    pub(crate) key: ContainerKey,
}

impl LoroText {
    #[verifier::type_invariant]
    pub(crate) open spec fn inv(self) -> bool {
        key_view(self.key).container_type() == ContainerType::Text
    }

    pub open(crate) spec fn cid(&self) -> ContainerIdView {
        key_view(self.key)
    }

    pub fn id(&self) -> (id: ContainerID)
        ensures
            id@ == self.cid(),
    {
        self.key.id()
    }
}

impl LoroMovableList {
    #[verifier::type_invariant]
    pub(crate) open spec fn inv(self) -> bool {
        key_view(self.key).container_type() == ContainerType::MovableList
    }

    pub open(crate) spec fn cid(&self) -> ContainerIdView {
        key_view(self.key)
    }

    pub fn id(&self) -> (id: ContainerID)
        ensures
            id@ == self.cid(),
    {
        self.key.id()
    }
}

impl LoroCounter {
    #[verifier::type_invariant]
    pub(crate) open spec fn inv(self) -> bool {
        key_view(self.key).container_type() == ContainerType::Counter
    }

    pub open(crate) spec fn cid(&self) -> ContainerIdView {
        key_view(self.key)
    }

    pub fn id(&self) -> (id: ContainerID)
        ensures
            id@ == self.cid(),
    {
        self.key.id()
    }
}

impl LoroUnknown {
    #[verifier::type_invariant]
    pub(crate) open spec fn inv(self) -> bool {
        key_view(self.key).container_type() is Unknown
    }

    pub open(crate) spec fn cid(&self) -> ContainerIdView {
        key_view(self.key)
    }

    pub fn id(&self) -> (id: ContainerID)
        ensures
            id@ == self.cid(),
    {
        self.key.id()
    }
}

/// A handle of a container of any kind. The kinds are these seven and no
/// others: whoever needs to know the kind matches on them.
pub enum Container {
    List(LoroList),
    Mapping(LoroMap),
    MovableList(LoroMovableList),
    Text(LoroText),
    Tree(LoroTree),
    Counter(LoroCounter),
    Unknown(LoroUnknown),
}

impl Container {
    /// The container that the handle names.
    pub open spec fn cid(&self) -> ContainerIdView {
        match self {
            Container::List(c) => c.cid(),
            Container::Mapping(c) => c.cid(),
            Container::MovableList(c) => c.cid(),
            Container::Text(c) => c.cid(),
            Container::Tree(c) => c.cid(),
            Container::Counter(c) => c.cid(),
            Container::Unknown(c) => c.cid(),
        }
    }

    /// The variant that handles of `kind` come in.
    pub open spec fn fits(&self, kind: ContainerType) -> bool {
        match kind {
            ContainerType::List => self is List,
            ContainerType::Mapping => self is Mapping,
            ContainerType::MovableList => self is MovableList,
            ContainerType::Text => self is Text,
            ContainerType::Tree => self is Tree,
            ContainerType::Counter => self is Counter,
            ContainerType::Unknown(_) => self is Unknown,
        }
    }

    /// The handle of the container that `key` names, in the variant of its kind.
    pub fn from_key(key: ContainerKey) -> (c: Container)
        ensures
            c.cid() == key_view(key),
            c.fits(key_view(key).container_type()),
    {
        let kind = key.id().container_type();
        match kind {
            ContainerType::List => Container::List(LoroList { key }),
            ContainerType::Mapping => Container::Mapping(LoroMap { key }),
            ContainerType::MovableList => Container::MovableList(LoroMovableList { key }),
            ContainerType::Text => Container::Text(LoroText { key }),
            ContainerType::Tree => Container::Tree(LoroTree { key }),
            ContainerType::Counter => Container::Counter(LoroCounter { key }),
            ContainerType::Unknown(_) => Container::Unknown(LoroUnknown { key }),
        }
    }

    /// The identifier of the container.
    pub fn id(&self) -> (id: ContainerID)
        ensures
            id@ == self.cid(),
    {
        match self {
            Container::List(c) => c.id(),
            Container::Mapping(c) => c.id(),
            Container::MovableList(c) => c.id(),
            Container::Text(c) => c.id(),
            Container::Tree(c) => c.id(),
            Container::Counter(c) => c.id(),
            Container::Unknown(c) => c.id(),
        }
    }

    /// The kind of the container.
    pub fn get_type(&self) -> (t: ContainerType)
        ensures
            t == self.cid().container_type(),
            self.fits(t),
    {
        match self {
            Container::List(c) => {
                proof {
                    use_type_invariant(c);
                }
                ContainerType::List
            },
            Container::Mapping(c) => {
                proof {
                    use_type_invariant(c);
                }
                ContainerType::Mapping
            },
            Container::MovableList(c) => {
                proof {
                    use_type_invariant(c);
                }
                ContainerType::MovableList
            },
            Container::Text(c) => {
                proof {
                    use_type_invariant(c);
                }
                ContainerType::Text
            },
            Container::Tree(c) => {
                proof {
                    use_type_invariant(c);
                }
                ContainerType::Tree
            },
            Container::Counter(c) => {
                proof {
                    use_type_invariant(c);
                }
                ContainerType::Counter
            },
            Container::Unknown(c) => {
                proof {
                    use_type_invariant(c);
                }
                c.id().container_type()
            },
        }
    }
}

/// A value, or a handle of a container: what a list or a map hands out.
pub enum ValueOrContainer {
    Value(LoroValue),
    Container(Container),
}

impl ValueOrContainer {
    /// The item that this is.
    pub open spec fn item(&self) -> Item {
        match self {
            ValueOrContainer::Value(v) => Item::Value(*v),
            ValueOrContainer::Container(c) => Item::Container(c.cid()),
        }
    }
}

/// An item as `loro` hands it out, a container as its key.
pub enum RawItem {
    Value(LoroValue),
    Container(ContainerKey),
}

impl RawItem {
    pub open spec fn item(&self) -> Item {
        match self {
            RawItem::Value(v) => Item::Value(*v),
            RawItem::Container(k) => Item::Container(key_view(*k)),
        }
    }

    /// The item with a handle in place of the key.
    pub fn settle(self) -> (r: ValueOrContainer)
        ensures
            r.item() == self.item(),
    {
        match self {
            RawItem::Value(v) => ValueOrContainer::Value(v),
            RawItem::Container(k) => ValueOrContainer::Container(Container::from_key(k)),
        }
    }
}

} // verus!
