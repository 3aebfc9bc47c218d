//! The list: a sequence of items that several peers edit by position.

use vstd::prelude::*;
use crate::container::names_container;
use crate::container::Container;
use crate::container::Item;
use crate::container::RawItem;
use crate::container::ValueOrContainer;
use crate::cursor::anchored;
use crate::cursor::lemma_anchor_at;
use crate::cursor::cursor_anchor;
use crate::cursor::lemma_anchor_after_delete;
use crate::cursor::lemma_anchor_after_insert;
use crate::cursor::cursor_side;
use crate::cursor::cursor_target;
use crate::cursor::Cursor;
use crate::doc::container_value;
use crate::doc::counted;
use crate::doc::doc_holds;
use crate::doc::doc_sound;
use crate::doc::list_ids;
use crate::doc::list_items;
use crate::doc::lists_wf;
use crate::doc::maps_kept;
use crate::doc::other_lists_kept;
use crate::doc::plain_root;
use crate::doc::tree_model;
use crate::doc::trees_kept;
use crate::doc::trees_wf;
use crate::doc::DocHandle;
use crate::doc::LoroDoc;
use crate::err::error_in;
use crate::err::refusal_of;
use crate::err::settle;
use crate::err::ErrorKind;
use crate::key::key_view;
use crate::key::kind_of_code;
use crate::key::root_key;
use crate::key::ContainerKey;
use crate::seqs::cut;
use crate::seqs::lemma_cut;
use crate::seqs::lemma_insert;
use crate::value::ContainerID;
use crate::value::ContainerIdView;
use crate::value::ContainerType;
use crate::value::ID;
use crate::value::LoroValue;
use crate::value::Side;

verus! {

/// Why a list of `len` items does not take the value `v` at `pos`.
pub open spec fn insert_refusal(len: nat, pos: int, v: LoroValue) -> Option<ErrorKind> {
    if pos > len {
        Some(ErrorKind::IndexOutOfBounds)
    } else if names_container(v) {
        Some(ErrorKind::InvalidValueType)
    } else {
        None
    }
}

/// Why a list of `len` items does not take a new container at `pos`.
pub open spec fn insert_container_refusal(len: nat, pos: int) -> Option<ErrorKind> {
    if pos > len {
        Some(ErrorKind::IndexOutOfBounds)
    } else {
        None
    }
}

/// Why a list of `len` items does not give up the `count` items from `pos` on.
/// To give up no item is always accepted.
pub open spec fn delete_refusal(len: nat, pos: int, count: int) -> Option<ErrorKind> {
    if count != 0 && pos + count > len {
        Some(ErrorKind::IndexOutOfBounds)
    } else {
        None
    }
}

/// The inserting operations of a list after one item was inserted at `pos`: the
/// new item has an operation of its own, which inserted no other item, and whose
/// counter is not below 0.
pub open spec fn ids_grown(before: Seq<ID>, after: Seq<ID>, pos: int) -> bool {
    exists|new: ID|
        !before.contains(new) && new.counter >= 0 && after == #[trigger] before.insert(pos, new)
}

/// What a call of `loro` that may change the list `list` leaves behind. `found`
/// says whether the document holds the list, `refused` why the call was refused,
/// `rule` why the list's rules refuse it, `items` the items that they ask for,
/// and `ids_fit` whether the inserting operations are as they ask. A refused
/// call changes nothing. An accepted one is one that the rules accept, and
/// leaves these items, every other list, and every tree and map as they were. A
/// list that is a root container is always found, and judged by the rules alone.
pub open spec fn list_stepped(
    before: DocHandle,
    after: DocHandle,
    list: ContainerIdView,
    found: bool,
    refused: Option<ErrorKind>,
    rule: Option<ErrorKind>,
    items: Seq<Item>,
    ids_fit: bool,
) -> bool {
    &&& plain_root(list) ==> found && refused == rule
    &&& (!found || refused is Some) ==> after == before
    &&& (found && refused is None) ==> {
        &&& rule is None
        &&& list_items(after, list) == items
        &&& doc_sound(before) ==> doc_sound(after)
        &&& ids_fit
        &&& other_lists_kept(before, after, list)
        &&& trees_kept(before, after)
        &&& maps_kept(before, after)
    }
}

/// `LoroDoc::try_get_list`, then `LoroList::insert` of a copy of `v` at `pos`.
#[verifier::external_body]
fn raw_insert(doc: &mut DocHandle, list: &ContainerKey, pos: usize, v: &LoroValue) -> (r: Option<
    Result<(), loro::LoroError>,
>)
    requires
        key_view(*list).container_type() == ContainerType::List,
    ensures
        r matches Some(Ok(_)) ==> !names_container(*v),
        list_stepped(
            *old(doc),
            *final(doc),
            key_view(*list),
            r is Some,
            refusal_of(r),
            insert_refusal(list_items(*old(doc), key_view(*list)).len(), pos as int, *v),
            list_items(*old(doc), key_view(*list)).insert(pos as int, Item::Value(*v)),
            ids_grown(
                list_ids(*old(doc), key_view(*list)),
                list_ids(*final(doc), key_view(*list)),
                pos as int,
            ),
        ),
{
    let l = doc.raw.try_get_list(&list.raw)?;
    Some(l.insert(pos, v.0.clone()))
}

/// `LoroDoc::try_get_list`, then `LoroList::push` of a copy of `v`.
#[verifier::external_body]
fn raw_push(doc: &mut DocHandle, list: &ContainerKey, v: &LoroValue) -> (r: Option<
    Result<(), loro::LoroError>,
>)
    requires
        key_view(*list).container_type() == ContainerType::List,
    ensures
        list_stepped(
            *old(doc),
            *final(doc),
            key_view(*list),
            r is Some,
            refusal_of(r),
            insert_refusal(
                list_items(*old(doc), key_view(*list)).len(),
                list_items(*old(doc), key_view(*list)).len() as int,
                *v,
            ),
            list_items(*old(doc), key_view(*list)).push(Item::Value(*v)),
            ids_grown(
                list_ids(*old(doc), key_view(*list)),
                list_ids(*final(doc), key_view(*list)),
                list_items(*old(doc), key_view(*list)).len() as int,
            ),
        ),
{
    let l = doc.raw.try_get_list(&list.raw)?;
    Some(l.push(v.0.clone()))
}

/// `LoroDoc::try_get_list`, then `LoroList::insert_container` of a new,
/// empty container of the kind that `kind` stands for. The container gets an
/// identifier of its own, named by the operation that inserted it, and the
/// document holds it from then on.
#[verifier::external_body]
fn raw_insert_container(doc: &mut DocHandle, list: &ContainerKey, pos: usize, kind: u8) -> (r:
    Option<Result<ContainerKey, loro::LoroError>>)
    requires
        key_view(*list).container_type() == ContainerType::List,
        kind < 6,
    ensures
        r matches Some(Ok(k)) ==> key_view(k) is Normal && key_view(k).container_type()
            == kind_of_code(kind),
        r matches Some(Ok(k)) ==> doc_holds(*final(doc), key_view(k)),
        list_stepped(
            *old(doc),
            *final(doc),
            key_view(*list),
            r is Some,
            refusal_of(r),
            insert_container_refusal(list_items(*old(doc), key_view(*list)).len(), pos as int),
            match r {
                Some(Ok(k)) => list_items(*old(doc), key_view(*list)).insert(
                    pos as int,
                    Item::Container(key_view(k)),
                ),
                _ => list_items(*old(doc), key_view(*list)),
            },
            ids_grown(
                list_ids(*old(doc), key_view(*list)),
                list_ids(*final(doc), key_view(*list)),
                pos as int,
            ),
        ),
{
    let l = doc.raw.try_get_list(&list.raw)?;
    let child = loro::Container::new(loro::ContainerType::try_from_u8(kind).unwrap());
    Some(l.insert_container(pos, child).map(|c| ContainerKey { raw: loro::ContainerTrait::id(&c) }))
}

/// `LoroDoc::try_get_list`, then `LoroList::delete` of `count` items from
/// `pos` on.
#[verifier::external_body]
fn raw_delete(doc: &mut DocHandle, list: &ContainerKey, pos: usize, count: usize) -> (r: Option<
    Result<(), loro::LoroError>,
>)
    requires
        key_view(*list).container_type() == ContainerType::List,
    ensures
        list_stepped(
            *old(doc),
            *final(doc),
            key_view(*list),
            r is Some,
            refusal_of(r),
            delete_refusal(list_items(*old(doc), key_view(*list)).len(), pos as int, count as int),
            if count == 0 {
                list_items(*old(doc), key_view(*list))
            } else {
                cut(list_items(*old(doc), key_view(*list)), pos as int, count as int)
            },
            list_ids(*final(doc), key_view(*list)) == if count == 0 {
                list_ids(*old(doc), key_view(*list))
            } else {
                cut(list_ids(*old(doc), key_view(*list)), pos as int, count as int)
            },
        ),
{
    let l = doc.raw.try_get_list(&list.raw)?;
    Some(l.delete(pos, count))
}

/// `LoroDoc::try_get_list`, then `LoroList::clear`: no item is left.
#[verifier::external_body]
fn raw_clear(doc: &mut DocHandle, list: &ContainerKey) -> (r: Option<Result<(), loro::LoroError>>)
    requires
        key_view(*list).container_type() == ContainerType::List,
    ensures
        list_stepped(
            *old(doc),
            *final(doc),
            key_view(*list),
            r is Some,
            refusal_of(r),
            None,
            Seq::empty(),
            list_ids(*final(doc), key_view(*list)).len() == 0,
        ),
{
    let l = doc.raw.try_get_list(&list.raw)?;
    Some(l.clear())
}

/// `LoroDoc::try_get_list`, then `LoroList::pop`: the last item leaves the
/// list and comes back as a value; `None` from an empty list.
#[verifier::external_body]
fn raw_pop(doc: &mut DocHandle, list: &ContainerKey) -> (r: Option<
    Result<Option<LoroValue>, loro::LoroError>,
>)
    requires
        key_view(*list).container_type() == ContainerType::List,
    ensures
        r matches Some(Ok(x)) ==> (x is Some <==> list_items(*old(doc), key_view(*list)).len() > 0),
        r matches Some(Ok(Some(v))) ==> (list_items(*old(doc), key_view(*list)).last() matches Item::Value(
            x,
        ) ==> v == x),
        list_stepped(
            *old(doc),
            *final(doc),
            key_view(*list),
            r is Some,
            refusal_of(r),
            None,
            if list_items(*old(doc), key_view(*list)).len() > 0 {
                list_items(*old(doc), key_view(*list)).drop_last()
            } else {
                list_items(*old(doc), key_view(*list))
            },
            list_ids(*final(doc), key_view(*list)) == if list_ids(*old(doc), key_view(*list)).len()
                > 0 {
                list_ids(*old(doc), key_view(*list)).drop_last()
            } else {
                list_ids(*old(doc), key_view(*list))
            },
        ),
{
    let l = doc.raw.try_get_list(&list.raw)?;
    Some(l.pop().map(|x| x.map(LoroValue)))
}

/// `LoroList::len`, of the list that `LoroDoc::try_get_list` finds: it finds
/// one exactly if the document holds the container.
#[verifier::external_body]
fn raw_len(doc: &DocHandle, list: &ContainerKey) -> (r: Option<usize>)
    requires
        key_view(*list).container_type() == ContainerType::List,
    ensures
        r is Some == doc_holds(*doc, key_view(*list)),
        plain_root(key_view(*list)) ==> r is Some,
        r matches Some(n) ==> n == list_items(*doc, key_view(*list)).len(),
{
    let l = doc.raw.try_get_list(&list.raw)?;
    Some(l.len())
}

/// `LoroList::get`: the item at `index`, if there is one.
#[verifier::external_body]
fn raw_get(doc: &DocHandle, list: &ContainerKey, index: usize) -> (r: Option<Option<RawItem>>)
    requires
        key_view(*list).container_type() == ContainerType::List,
    ensures
        plain_root(key_view(*list)) ==> r is Some,
        r matches Some(x) ==> (x is Some <==> index < list_items(*doc, key_view(*list)).len()),
        r matches Some(Some(x)) ==> x.item() == list_items(*doc, key_view(*list))[index as int],
{
    let l = doc.raw.try_get_list(&list.raw)?;
    Some(l.get(index).map(|x| match x {
        loro::ValueOrContainer::Value(v) => RawItem::Value(LoroValue(v)),
        loro::ValueOrContainer::Container(c) => RawItem::Container(ContainerKey {
            raw: loro::ContainerTrait::id(&c),
        }),
    }))
}

/// `LoroList::to_vec`: one value for each item, in order; an item that is a
/// value comes as it is.
#[verifier::external_body]
fn raw_to_vec(doc: &DocHandle, list: &ContainerKey) -> (r: Option<Vec<LoroValue>>)
    requires
        key_view(*list).container_type() == ContainerType::List,
    ensures
        plain_root(key_view(*list)) ==> r is Some,
        r matches Some(v) ==> v@.len() == list_items(*doc, key_view(*list)).len() && forall|i: int|
            0 <= i < v@.len() ==> (#[trigger] list_items(*doc, key_view(*list))[i] matches Item::Value(
                x,
            ) ==> v@[i] == x),
{
    let l = doc.raw.try_get_list(&list.raw)?;
    Some(l.to_vec().into_iter().map(LoroValue).collect())
}

/// `LoroList::get_id_at`: the operation that inserted the item at `pos`.
#[verifier::external_body]
fn raw_id_at(doc: &DocHandle, list: &ContainerKey, pos: usize) -> (r: Option<Option<ID>>)
    requires
        key_view(*list).container_type() == ContainerType::List,
    ensures
        plain_root(key_view(*list)) ==> r is Some,
        r matches Some(x) ==> (x is Some <==> pos < list_ids(*doc, key_view(*list)).len()),
        r matches Some(Some(x)) ==> x == list_ids(*doc, key_view(*list))[pos as int],
{
    let l = doc.raw.try_get_list(&list.raw)?;
    Some(l.get_id_at(pos).map(|x| ID { peer: x.peer, counter: x.counter }))
}

/// The side that a cursor at `pos` of a list of `len` items keeps to, asked
/// for with `side`.
pub open spec fn cursor_side_at(len: nat, pos: int, side: Side) -> Side {
    if len == 0 {
        if side == Side::Middle {
            Side::Left
        } else {
            side
        }
    } else if len <= pos {
        Side::Right
    } else {
        side
    }
}

/// `LoroList::get_cursor`: a cursor that holds on to the item at `pos` by
/// the operation that inserted it; at or behind the end, one that holds on to
/// no item.
#[verifier::external_body]
fn raw_cursor(doc: &DocHandle, list: &ContainerKey, pos: usize, side: Side) -> (r: Option<
    Option<Cursor>,
>)
    requires
        key_view(*list).container_type() == ContainerType::List,
    ensures
        plain_root(key_view(*list)) ==> r matches Some(Some(_)),
        r matches Some(Some(c)) ==> {
            &&& cursor_target(c) == key_view(*list)
            &&& cursor_side(c) == cursor_side_at(
                list_ids(*doc, key_view(*list)).len(),
                pos as int,
                side,
            )
            &&& cursor_anchor(c) == if pos < list_ids(*doc, key_view(*list)).len() {
                Some(list_ids(*doc, key_view(*list))[pos as int])
            } else {
                None
            }
        },
{
    let l = doc.raw.try_get_list(&list.raw)?;
    let side = match side {
        Side::Left => loro::cursor::Side::Left,
        Side::Middle => loro::cursor::Side::Middle,
        Side::Right => loro::cursor::Side::Right,
    };
    Some(l.get_cursor(pos, side).map(Cursor))
}

/// `LoroList::get_value`.
#[verifier::external_body]
fn raw_value(doc: &DocHandle, list: &ContainerKey) -> (r: Option<LoroValue>)
    requires
        key_view(*list).container_type() == ContainerType::List,
    ensures
        plain_root(key_view(*list)) ==> r is Some,
        r matches Some(v) ==> v == container_value(*doc, key_view(*list), false),
{
    let l = doc.raw.try_get_list(&list.raw)?;
    Some(LoroValue(l.get_value()))
}

/// `LoroList::get_deep_value`.
#[verifier::external_body]
fn raw_deep_value(doc: &DocHandle, list: &ContainerKey) -> (r: Option<LoroValue>)
    requires
        key_view(*list).container_type() == ContainerType::List,
    ensures
        plain_root(key_view(*list)) ==> r is Some,
        r matches Some(v) ==> v == container_value(*doc, key_view(*list), true),
{
    let l = doc.raw.try_get_list(&list.raw)?;
    Some(LoroValue(l.get_deep_value()))
}

/// A step of one list keeps the document well formed.
proof fn lemma_list_step_keeps_wf(before: DocHandle, after: DocHandle, list: ContainerIdView)
    requires
        trees_wf(before),
        lists_wf(before),
        trees_kept(before, after),
        other_lists_kept(before, after, list),
        list_ids(after, list).len() == list_items(after, list).len(),
        list_ids(after, list).no_duplicates(),
        counted(list_ids(after, list)),
    ensures
        trees_wf(after),
        lists_wf(after),
{
    assert forall|c: ContainerIdView| #[trigger] tree_model(after, c).wf() by {
        assert(tree_model(after, c) == tree_model(before, c));
        assert(tree_model(before, c).wf());
    }
    assert forall|c: ContainerIdView| #[trigger]
        list_ids(after, c).len() == list_items(after, c).len() && list_ids(
            after,
            c,
        ).no_duplicates() && counted(list_ids(after, c)) by {
        if c != list {
            assert(list_items(after, c) == list_items(before, c));
            assert(list_ids(before, c).len() == list_items(before, c).len());
            assert(counted(list_ids(before, c)));
        }
    }
}

/// A handle of a list of a document.
pub struct LoroList {
    pub(crate) key: ContainerKey,
}

impl LoroList {
    #[verifier::type_invariant]
    pub(crate) open spec fn inv(self) -> bool {
        key_view(self.key).container_type() == ContainerType::List
    }

    /// The container that the handle names.
    pub open(crate) spec fn cid(&self) -> ContainerIdView {
        key_view(self.key)
    }

    /// What a call that may change this list leaves behind. `error` is the error
    /// that the call returned, `rule` the reason for which the list's rules refuse
    /// the call, `items` the items that they ask for, `ids_fit` whether the
    /// inserting operations are as they ask. A call that returns an error changes
    /// nothing. One that succeeds is one that the rules accept, and leaves these
    /// items, and every other list and every tree and map as they were. On a root
    /// container the rules alone decide.
    pub open spec fn changed(
        &self,
        before: LoroDoc,
        after: LoroDoc,
        error: Option<ErrorKind>,
        rule: Option<ErrorKind>,
        items: Seq<Item>,
        ids_fit: bool,
    ) -> bool {
        &&& plain_root(self.cid()) ==> error == rule
        &&& error is Some ==> after == before
        &&& error is None ==> {
            &&& rule is None
            &&& after.list(self.cid()) == items
            &&& ids_fit
            &&& after.keeps_other_lists(before, self.cid())
            &&& after.keeps_trees(before)
            &&& after.keeps_maps(before)
        }
    }

    /// The handle of the root list named `name`.
    pub(crate) fn root(name: &str) -> (l: LoroList)
        ensures
            l.cid() == (ContainerIdView::Root { name: name@, container_type: ContainerType::List }),
    {
        LoroList { key: root_key(name, ContainerType::List) }
    }

    /// The identifier of the list.
    pub fn id(&self) -> (id: ContainerID)
        ensures
            id@ == self.cid(),
    {
        self.key.id()
    }

    /// Whether the document holds this list.
    pub fn is_attached(&self, doc: &LoroDoc) -> (r: bool)
        ensures
            r == doc.holds(self.cid()),
            plain_root(self.cid()) ==> r,
    {
        proof {
            use_type_invariant(self);
        }
        raw_len(&doc.inner, &self.key).is_some()
    }

    /// Inserts `v` at `pos`.
    pub fn insert(&self, doc: &mut LoroDoc, pos: usize, v: LoroValue) -> (r: Result<(), ErrorKind>)
        requires
            old(doc).wf(),
        ensures
            final(doc).wf(),
            self.changed(
                *old(doc),
                *final(doc),
                error_in(r),
                insert_refusal(old(doc).list(self.cid()).len(), pos as int, v),
                old(doc).list(self.cid()).insert(pos as int, Item::Value(v)),
                ids_grown(old(doc).list_ids(self.cid()), final(doc).list_ids(self.cid()), pos as int),
            ),
    {
        proof {
            use_type_invariant(self);
        }
        let ghost before = doc.inner;
        let raw = raw_insert(&mut doc.inner, &self.key, pos, &v);
        proof {
            if let Some(Ok(_)) = raw {
                lemma_grown(before, doc.inner, self.cid(), pos as int);
            }
        }
        settle(raw)
    }

    /// Puts `v` behind the last item.
    pub fn push(&self, doc: &mut LoroDoc, v: LoroValue) -> (r: Result<(), ErrorKind>)
        requires
            old(doc).wf(),
        ensures
            final(doc).wf(),
            self.changed(
                *old(doc),
                *final(doc),
                error_in(r),
                insert_refusal(
                    old(doc).list(self.cid()).len(),
                    old(doc).list(self.cid()).len() as int,
                    v,
                ),
                old(doc).list(self.cid()).push(Item::Value(v)),
                ids_grown(
                    old(doc).list_ids(self.cid()),
                    final(doc).list_ids(self.cid()),
                    old(doc).list(self.cid()).len() as int,
                ),
            ),
    {
        proof {
            use_type_invariant(self);
        }
        let ghost before = doc.inner;
        let raw = raw_push(&mut doc.inner, &self.key, &v);
        proof {
            if let Some(Ok(_)) = raw {
                assert(list_ids(before, self.cid()).len() == list_items(before, self.cid()).len());
                lemma_grown(before, doc.inner, self.cid(), list_items(before, self.cid()).len() as int);
            }
        }
        settle(raw)
    }

    /// Inserts a new, empty container of `kind` at `pos` and returns its
    /// handle. No container of an unknown kind can be made.
    pub fn insert_container(&self, doc: &mut LoroDoc, pos: usize, kind: ContainerType) -> (r:
        Result<Container, ErrorKind>)
        requires
            old(doc).wf(),
        ensures
            final(doc).wf(),
            kind is Unknown ==> r == Err::<Container, ErrorKind>(ErrorKind::InvalidValueType),
            r is Err ==> *final(doc) == *old(doc),
            r matches Ok(c) ==> c.cid() is Normal && c.fits(kind),
            r matches Ok(c) ==> final(doc).holds(c.cid()),
            !(kind is Unknown) ==> self.changed(
                *old(doc),
                *final(doc),
                error_in(r),
                insert_container_refusal(old(doc).list(self.cid()).len(), pos as int),
                match r {
                    Ok(c) => old(doc).list(self.cid()).insert(pos as int, Item::Container(c.cid())),
                    Err(_) => old(doc).list(self.cid()),
                },
                ids_grown(old(doc).list_ids(self.cid()), final(doc).list_ids(self.cid()), pos as int),
            ),
    {
        proof {
            use_type_invariant(self);
        }
        if let ContainerType::Unknown(_) = kind {
            return Err(ErrorKind::InvalidValueType);
        }
        let ghost before = doc.inner;
        let raw = raw_insert_container(&mut doc.inner, &self.key, pos, kind.code());
        proof {
            if let Some(Ok(_)) = raw {
                lemma_grown(before, doc.inner, self.cid(), pos as int);
            }
        }
        match settle(raw) {
            Ok(k) => Ok(Container::from_key(k)),
            Err(e) => Err(e),
        }
    }

    /// Puts a new, empty container of `kind` behind the last item and returns
    /// its handle.
    pub fn push_container(&self, doc: &mut LoroDoc, kind: ContainerType) -> (r: Result<
        Container,
        ErrorKind,
    >)
        requires
            old(doc).wf(),
        ensures
            final(doc).wf(),
            kind is Unknown ==> r == Err::<Container, ErrorKind>(ErrorKind::InvalidValueType),
            r is Err ==> *final(doc) == *old(doc),
            r matches Ok(c) ==> c.cid() is Normal && c.fits(kind),
            r matches Ok(c) ==> final(doc).holds(c.cid()),
            !(kind is Unknown) ==> self.changed(
                *old(doc),
                *final(doc),
                error_in(r),
                None,
                match r {
                    Ok(c) => old(doc).list(self.cid()).push(Item::Container(c.cid())),
                    Err(_) => old(doc).list(self.cid()),
                },
                ids_grown(
                    old(doc).list_ids(self.cid()),
                    final(doc).list_ids(self.cid()),
                    old(doc).list(self.cid()).len() as int,
                ),
            ),
    {
        proof {
            use_type_invariant(self);
        }
        if let ContainerType::Unknown(_) = kind {
            return Err(ErrorKind::InvalidValueType);
        }
        let len = match raw_len(&doc.inner, &self.key) {
            Some(n) => n,
            None => { return Err(ErrorKind::ContainerNotFound); },
        };
        let r = self.insert_container(doc, len, kind);
        proof {
            if r is Ok {
                let c = r->Ok_0;
                assert(old(doc).list(self.cid()).insert(len as int, Item::Container(c.cid()))
                    =~= old(doc).list(self.cid()).push(Item::Container(c.cid())));
            }
        }
        r
    }

    /// Deletes `len` items from `pos` on. To delete no item is always accepted.
    pub fn delete(&self, doc: &mut LoroDoc, pos: usize, len: usize) -> (r: Result<(), ErrorKind>)
        requires
            old(doc).wf(),
        ensures
            final(doc).wf(),
            self.changed(
                *old(doc),
                *final(doc),
                error_in(r),
                delete_refusal(old(doc).list(self.cid()).len(), pos as int, len as int),
                if len == 0 {
                    old(doc).list(self.cid())
                } else {
                    cut(old(doc).list(self.cid()), pos as int, len as int)
                },
                final(doc).list_ids(self.cid()) == if len == 0 {
                    old(doc).list_ids(self.cid())
                } else {
                    cut(old(doc).list_ids(self.cid()), pos as int, len as int)
                },
            ),
    {
        proof {
            use_type_invariant(self);
        }
        let ghost before = doc.inner;
        let raw = raw_delete(&mut doc.inner, &self.key, pos, len);
        proof {
            if let Some(Ok(_)) = raw {
                assert(list_ids(before, self.cid()).len() == list_items(before, self.cid()).len());
                assert(counted(list_ids(before, self.cid())));
                if len != 0 {
                    lemma_cut(list_ids(before, self.cid()), pos as int, len as int);
                    lemma_cut(list_items(before, self.cid()), pos as int, len as int);
                }
                lemma_list_step_keeps_wf(before, doc.inner, self.cid());
            }
        }
        settle(raw)
    }

    /// Deletes every item.
    pub fn clear(&self, doc: &mut LoroDoc) -> (r: Result<(), ErrorKind>)
        requires
            old(doc).wf(),
        ensures
            final(doc).wf(),
            self.changed(
                *old(doc),
                *final(doc),
                error_in(r),
                None,
                Seq::empty(),
                final(doc).list_ids(self.cid()).len() == 0,
            ),
    {
        proof {
            use_type_invariant(self);
        }
        let ghost before = doc.inner;
        let raw = raw_clear(&mut doc.inner, &self.key);
        proof {
            if let Some(Ok(_)) = raw {
                lemma_list_step_keeps_wf(before, doc.inner, self.cid());
            }
        }
        settle(raw)
    }

    /// Takes the last item out of the list and returns it as a value; `None`
    /// from an empty list.
    pub fn pop(&self, doc: &mut LoroDoc) -> (r: Result<Option<LoroValue>, ErrorKind>)
        requires
            old(doc).wf(),
        ensures
            final(doc).wf(),
            r matches Ok(x) ==> (x is Some <==> old(doc).list(self.cid()).len() > 0),
            r matches Ok(Some(v)) ==> (old(doc).list(self.cid()).last() matches Item::Value(x) ==> v
                == x),
            self.changed(
                *old(doc),
                *final(doc),
                error_in(r),
                None,
                if old(doc).list(self.cid()).len() > 0 {
                    old(doc).list(self.cid()).drop_last()
                } else {
                    old(doc).list(self.cid())
                },
                final(doc).list_ids(self.cid()) == if old(doc).list_ids(self.cid()).len() > 0 {
                    old(doc).list_ids(self.cid()).drop_last()
                } else {
                    old(doc).list_ids(self.cid())
                },
            ),
    {
        proof {
            use_type_invariant(self);
        }
        let ghost before = doc.inner;
        let raw = raw_pop(&mut doc.inner, &self.key);
        proof {
            if let Some(Ok(_)) = raw {
                assert(list_ids(before, self.cid()).len() == list_items(before, self.cid()).len());
                assert(list_ids(before, self.cid()).no_duplicates());
                assert(counted(list_ids(before, self.cid())));
                lemma_list_step_keeps_wf(before, doc.inner, self.cid());
            }
        }
        settle(raw)
    }

    /// The number of items.
    pub fn len(&self, doc: &LoroDoc) -> (n: usize)
        ensures
            plain_root(self.cid()) || n > 0 ==> n == doc.list(self.cid()).len(),
    {
        proof {
            use_type_invariant(self);
        }
        match raw_len(&doc.inner, &self.key) {
            Some(n) => n,
            None => 0,
        }
    }

    /// Whether the list holds no item.
    pub fn is_empty(&self, doc: &LoroDoc) -> (r: bool)
        ensures
            plain_root(self.cid()) ==> r == (doc.list(self.cid()).len() == 0),
    {
        self.len(doc) == 0
    }

    /// The item at `index`, if there is one.
    pub fn get(&self, doc: &LoroDoc, index: usize) -> (r: Option<ValueOrContainer>)
        ensures
            r matches Some(x) ==> index < doc.list(self.cid()).len() && x.item() == doc.list(
                self.cid(),
            )[index as int],
            plain_root(self.cid()) ==> (r is Some <==> index < doc.list(self.cid()).len()),
    {
        proof {
            use_type_invariant(self);
        }
        match raw_get(&doc.inner, &self.key, index) {
            Some(Some(x)) => Some(x.settle()),
            _ => None,
        }
    }

    /// Calls `f` with each item of the list, from the first to the last.
    pub fn for_each<F: Fn(ValueOrContainer)>(&self, doc: &LoroDoc, f: F)
        requires
            forall|x: ValueOrContainer| #[trigger] f.requires((x,)),
    {
        let len = self.len(doc);
        let mut i: usize = 0;
        while i < len
            invariant
                forall|x: ValueOrContainer| #[trigger] f.requires((x,)),
            decreases len - i,
        {
            match self.get(doc, i) {
                Some(x) => f(x),
                None => {},
            }
            i += 1;
        }
    }

    /// One value for each item, in order; an item that is a value comes as it
    /// is, a container as the value that names it.
    pub fn to_vec(&self, doc: &LoroDoc) -> (r: Vec<LoroValue>)
        ensures
            plain_root(self.cid()) || r@.len() > 0 ==> r@.len() == doc.list(self.cid()).len()
                && forall|i: int|
                0 <= i < r@.len() ==> (#[trigger] doc.list(self.cid())[i] matches Item::Value(x)
                    ==> r@[i] == x),
    {
        proof {
            use_type_invariant(self);
        }
        match raw_to_vec(&doc.inner, &self.key) {
            Some(v) => v,
            None => Vec::new(),
        }
    }

    /// The operation that inserted the item at `pos`, if there is one.
    pub fn get_id_at(&self, doc: &LoroDoc, pos: usize) -> (r: Option<ID>)
        ensures
            r matches Some(x) ==> pos < doc.list_ids(self.cid()).len() && x == doc.list_ids(
                self.cid(),
            )[pos as int],
            plain_root(self.cid()) ==> (r is Some <==> pos < doc.list_ids(self.cid()).len()),
    {
        proof {
            use_type_invariant(self);
        }
        match raw_id_at(&doc.inner, &self.key, pos) {
            Some(x) => x,
            None => None,
        }
    }

    /// A cursor for the place `pos`: it holds on to the item that stands there
    /// by the operation that inserted it, and at the end of the list to no
    /// item. `None` for a place beyond the end. As long as nothing is edited, the
    /// item that it holds on to is found at `pos`.
    pub fn get_cursor(&self, doc: &LoroDoc, pos: usize, side: Side) -> (r: Option<Cursor>)
        requires
            doc.wf(),
        ensures
            r matches Some(c) ==> {
                &&& pos <= doc.list_ids(self.cid()).len()
                &&& cursor_target(c) == self.cid()
                &&& cursor_target(c).container_type() == ContainerType::List
                &&& pos < doc.list_ids(self.cid()).len() ==> anchored(
                    doc.list_ids(self.cid()),
                    doc.list_ids(self.cid())[pos as int],
                ) == Some(pos as int)
                &&& cursor_side(c) == cursor_side_at(doc.list_ids(self.cid()).len(), pos as int, side)
                &&& cursor_anchor(c) == if pos < doc.list_ids(self.cid()).len() {
                    Some(doc.list_ids(self.cid())[pos as int])
                } else {
                    None
                }
            },
            plain_root(self.cid()) ==> (r is Some <==> pos <= doc.list_ids(self.cid()).len()),
    {
        proof {
            use_type_invariant(self);
        }
        proof {
            assert(list_ids(doc.inner, self.cid()).len() == list_items(doc.inner, self.cid()).len());
            if pos < list_ids(doc.inner, self.cid()).len() {
                lemma_anchor_at(list_ids(doc.inner, self.cid()), pos as int);
            }
        }
        let len = match raw_len(&doc.inner, &self.key) {
            Some(n) => n,
            None => { return None; },
        };
        if pos > len {
            return None;
        }
        match raw_cursor(&doc.inner, &self.key, pos, side) {
            Some(c) => c,
            None => None,
        }
    }

    /// The list as one value, its containers as the values that name them.
    pub fn get_value(&self, doc: &LoroDoc) -> (r: Option<LoroValue>)
        ensures
            plain_root(self.cid()) ==> r is Some,
            r matches Some(v) ==> v == doc.value_of(self.cid(), false),
    {
        proof {
            use_type_invariant(self);
        }
        raw_value(&doc.inner, &self.key)
    }

    /// The list as one value, its containers as the values that they hold.
    pub fn get_deep_value(&self, doc: &LoroDoc) -> (r: Option<LoroValue>)
        ensures
            plain_root(self.cid()) ==> r is Some,
            r matches Some(v) ==> v == doc.value_of(self.cid(), true),
    {
        proof {
            use_type_invariant(self);
        }
        raw_deep_value(&doc.inner, &self.key)
    }
}

/// Cursor stability. After an item was inserted into a list, an item that stood
/// at `i` before stands at `i + 1` if the new one went in at or before it, and
/// at `i` otherwise. A cursor that holds on to the item resolves to that place.
pub proof fn lemma_cursor_after_insert(
    list: LoroList,
    before: LoroDoc,
    after: LoroDoc,
    rule: Option<ErrorKind>,
    items: Seq<Item>,
    pos: int,
    i: int,
)
    requires
        before.wf(),
        0 <= pos <= before.list_ids(list.cid()).len(),
        0 <= i < before.list_ids(list.cid()).len(),
        list.changed(
            before,
            after,
            None,
            rule,
            items,
            ids_grown(before.list_ids(list.cid()), after.list_ids(list.cid()), pos),
        ),
    ensures
        anchored(after.list_ids(list.cid()), before.list_ids(list.cid())[i]) == Some(
            if pos <= i {
                i + 1
            } else {
                i
            },
        ),
{
    let ids = list_ids(before.inner, list.cid());
    assert(ids.no_duplicates());
    let new = choose|new: ID|
        !ids.contains(new) && after.list_ids(list.cid()) == #[trigger] ids.insert(pos, new);
    lemma_anchor_after_insert(ids, i, pos, new);
}

/// Cursor stability. After `count` items were deleted from a list from `pos`
/// on, an item that stood before them stands where it stood, one that stood
/// behind them stands `count` places further to the front, and one of them
/// stands nowhere in the list: a cursor that held on to it falls back to a
/// neighbour.
pub proof fn lemma_cursor_after_delete(
    list: LoroList,
    before: LoroDoc,
    after: LoroDoc,
    rule: Option<ErrorKind>,
    items: Seq<Item>,
    pos: int,
    count: int,
    i: int,
)
    requires
        before.wf(),
        0 <= pos,
        0 < count,
        pos + count <= before.list_ids(list.cid()).len(),
        0 <= i < before.list_ids(list.cid()).len(),
        list.changed(
            before,
            after,
            None,
            rule,
            items,
            after.list_ids(list.cid()) == cut(before.list_ids(list.cid()), pos, count),
        ),
    ensures
        anchored(after.list_ids(list.cid()), before.list_ids(list.cid())[i]) == if i < pos {
            Some(i)
        } else if i < pos + count {
            None
        } else {
            Some(i - count)
        },
{
    let ids = list_ids(before.inner, list.cid());
    assert(ids.no_duplicates());
    lemma_anchor_after_delete(ids, i, pos, count);
}

/// An insertion keeps the document well formed.
proof fn lemma_grown(before: DocHandle, after: DocHandle, list: ContainerIdView, pos: int)
    requires
        trees_wf(before),
        lists_wf(before),
        trees_kept(before, after),
        other_lists_kept(before, after, list),
        0 <= pos <= list_items(before, list).len(),
        list_items(after, list).len() == list_items(before, list).len() + 1,
        ids_grown(list_ids(before, list), list_ids(after, list), pos),
    ensures
        trees_wf(after),
        lists_wf(after),
{
    let ids = list_ids(before, list);
    assert(ids.len() == list_items(before, list).len());
    assert(ids.no_duplicates());
    let new = choose|new: ID| !ids.contains(new) && list_ids(after, list) == #[trigger] ids.insert(
        pos,
        new,
    );
    lemma_insert(ids, pos, new);
    ids.insert_ensures(pos, new);
    lemma_list_step_keeps_wf(before, after, list);
}

} // verus!
