//! Container identifiers in the form in which `loro` takes them.

use vstd::prelude::*;
use crate::value::ContainerID;
use crate::value::ContainerIdView;
use crate::value::ContainerType;

verus! {

/// The number by which `loro` writes down a kind of container.
pub open spec fn kind_code(t: ContainerType) -> u8 {
    match t {
        ContainerType::Mapping => 0,
        ContainerType::List => 1,
        ContainerType::Text => 2,
        ContainerType::Tree => 3,
        ContainerType::MovableList => 4,
        ContainerType::Counter => 5,
        ContainerType::Unknown(k) => k,
    }
}

/// The kind of container that a number stands for. A number that names no kind
/// known here stands for `Unknown`, so that nothing written later is lost.
pub open spec fn kind_of_code(c: u8) -> ContainerType {
    if c == 0 {
        ContainerType::Mapping
    } else if c == 1 {
        ContainerType::List
    } else if c == 2 {
        ContainerType::Text
    } else if c == 3 {
        ContainerType::Tree
    } else if c == 4 {
        ContainerType::MovableList
    } else if c == 5 {
        ContainerType::Counter
    } else {
        ContainerType::Unknown(c)
    }
}

impl ContainerType {
    pub fn code(&self) -> (c: u8)
        ensures
            c == kind_code(*self),
    {
        match self {
            ContainerType::Mapping => 0,
            ContainerType::List => 1,
            ContainerType::Text => 2,
            ContainerType::Tree => 3,
            ContainerType::MovableList => 4,
            ContainerType::Counter => 5,
            ContainerType::Unknown(k) => *k,
        }
    }

    pub fn from_code(c: u8) -> (t: ContainerType)
        ensures
            t == kind_of_code(c),
    {
        if c == 0 {
            ContainerType::Mapping
        } else if c == 1 {
            ContainerType::List
        } else if c == 2 {
            ContainerType::Text
        } else if c == 3 {
            ContainerType::Tree
        } else if c == 4 {
            ContainerType::MovableList
        } else if c == 5 {
            ContainerType::Counter
        } else {
            ContainerType::Unknown(c)
        }
    }
}

/// Every number stands for a kind that is written as that number, and every
/// kind but an `Unknown` of a number below 6 is read back from its number.
pub proof fn lemma_kind_codes(c: u8, t: ContainerType)
    ensures
        kind_code(kind_of_code(c)) == c,
        !(t matches ContainerType::Unknown(k) && k < 6) ==> kind_of_code(kind_code(t)) == t,
{
}

/// A `loro::ContainerID`.
#[verifier::external_body]
pub struct ContainerKey {
    pub(crate) raw: loro::ContainerID,
}

/// What a `loro::ContainerID` holds: whether it is `Root`; the name of a root,
/// else empty; peer and counter of a normal one, else 0; its kind, an unknown
/// kind with the number that it carries.
pub uninterp spec fn key_parts(k: ContainerKey) -> (bool, Seq<char>, u64, i32, ContainerType);

/// The identifier that such parts make.
pub open spec fn parts_view(parts: (bool, Seq<char>, u64, i32, ContainerType)) -> ContainerIdView {
    if parts.0 {
        ContainerIdView::Root { name: parts.1, container_type: parts.4 }
    } else {
        ContainerIdView::Normal { peer: parts.2, counter: parts.3, container_type: parts.4 }
    }
}

/// The identifier that a key stands for.
pub open spec fn key_view(k: ContainerKey) -> ContainerIdView {
    parts_view(key_parts(k))
}

/// Builds `loro::ContainerID::Root` from a name and a kind, variant for
/// variant. The name is taken as it is, and an unknown kind keeps its number.
#[verifier::external_body]
pub(crate) fn root_key(name: &str, kind: ContainerType) -> (k: ContainerKey)
    ensures
        key_parts(k) == (true, name@, 0u64, 0i32, kind),
{
    let container_type = match kind {
        ContainerType::Mapping => loro::ContainerType::Map,
        ContainerType::List => loro::ContainerType::List,
        ContainerType::Text => loro::ContainerType::Text,
        ContainerType::Tree => loro::ContainerType::Tree,
        ContainerType::MovableList => loro::ContainerType::MovableList,
        ContainerType::Counter => loro::ContainerType::Counter,
        ContainerType::Unknown(n) => loro::ContainerType::Unknown(n),
    };
    ContainerKey { raw: loro::ContainerID::Root { name: name.into(), container_type } }
}

/// Builds `loro::ContainerID::Normal` from peer, counter and a kind, variant
/// for variant. An unknown kind keeps its number.
#[verifier::external_body]
pub(crate) fn normal_key(peer: u64, counter: i32, kind: ContainerType) -> (k: ContainerKey)
    ensures
        key_parts(k) == (false, Seq::<char>::empty(), peer, counter, kind),
{
    let container_type = match kind {
        ContainerType::Mapping => loro::ContainerType::Map,
        ContainerType::List => loro::ContainerType::List,
        ContainerType::Text => loro::ContainerType::Text,
        ContainerType::Tree => loro::ContainerType::Tree,
        ContainerType::MovableList => loro::ContainerType::MovableList,
        ContainerType::Counter => loro::ContainerType::Counter,
        ContainerType::Unknown(n) => loro::ContainerType::Unknown(n),
    };
    ContainerKey { raw: loro::ContainerID::Normal { peer, counter, container_type } }
}

/// Reads the kind of a `loro::ContainerID`, variant for variant.
#[verifier::external_body]
pub(crate) fn read_kind(k: &ContainerKey) -> (t: ContainerType)
    ensures
        t == key_parts(*k).4,
{
    match k.raw.container_type() {
        loro::ContainerType::Map => ContainerType::Mapping,
        loro::ContainerType::List => ContainerType::List,
        loro::ContainerType::Text => ContainerType::Text,
        loro::ContainerType::Tree => ContainerType::Tree,
        loro::ContainerType::MovableList => ContainerType::MovableList,
        loro::ContainerType::Counter => ContainerType::Counter,
        loro::ContainerType::Unknown(n) => ContainerType::Unknown(n),
    }
}

/// Reads the other fields of a `loro::ContainerID`.
#[verifier::external_body]
pub(crate) fn read_key(k: &ContainerKey) -> (p: (bool, String, u64, i32))
    ensures
        (p.0, p.1@, p.2, p.3, key_parts(*k).4) == key_parts(*k),
{
    match &k.raw {
        loro::ContainerID::Root { name, .. } => (true, name.to_string(), 0, 0),
        loro::ContainerID::Normal { peer, counter, .. } => (false, String::new(), *peer, *counter),
    }
}

/// `Clone::clone` of a `loro::ContainerID`: the copy holds what the key holds.
#[verifier::external_body]
pub(crate) fn copy_key(k: &ContainerKey) -> (c: ContainerKey)
    ensures
        key_parts(c) == key_parts(*k),
{
    ContainerKey { raw: k.raw.clone() }
}

impl ContainerKey {
    /// The key of the container that `id` names: the same variant with the same
    /// fields, an unknown kind with its number.
    pub fn of(id: &ContainerID) -> (k: ContainerKey)
        ensures
            key_view(k) == id@,
    {
        match id {
            ContainerID::Root { name, container_type } => root_key(name.as_str(), *container_type),
            ContainerID::Normal { peer, counter, container_type } => normal_key(
                *peer,
                *counter,
                *container_type,
            ),
        }
    }

    /// The identifier that the key stands for.
    pub fn id(&self) -> (id: ContainerID)
        ensures
            id@ == key_view(*self),
    {
        let parts = read_key(self);
        let kind = read_kind(self);
        if parts.0 {
            ContainerID::Root { name: parts.1, container_type: kind }
        } else {
            ContainerID::Normal { peer: parts.2, counter: parts.3, container_type: kind }
        }
    }

    /// A second key for the same container.
    pub fn duplicate(&self) -> (k: ContainerKey)
        ensures
            key_view(k) == key_view(*self),
    {
        copy_key(self)
    }
}

} // verus!
