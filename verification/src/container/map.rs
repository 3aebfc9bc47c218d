//! The map: entries under string keys that several peers set and delete.

use vstd::prelude::*;
use crate::container::holds_null;
use crate::container::is_null;
use crate::container::names_container;
use crate::container::Container;
use crate::container::Item;
use crate::container::RawItem;
use crate::container::ValueOrContainer;
use crate::doc::container_value;
use crate::doc::doc_holds;
use crate::doc::doc_sound;
use crate::doc::editor_in;
use crate::doc::map_editors;
use crate::doc::list_ids;
use crate::doc::list_items;
use crate::doc::lists_kept;
use crate::doc::lists_wf;
use crate::doc::map_entries;
use crate::doc::other_maps_kept;
use crate::doc::plain_root;
use crate::doc::tree_model;
use crate::doc::trees_kept;
use crate::doc::trees_wf;
use crate::doc::DocHandle;
use crate::doc::LoroDoc;
use crate::err::error_in;
use crate::err::refusal_of;
use crate::err::settle;
use crate::err::ErrorKind;
use crate::key::key_view;
use crate::key::kind_of_code;
use crate::key::root_key;
use crate::key::ContainerKey;
use crate::value::ContainerID;
use crate::value::ContainerIdView;
use crate::value::ContainerType;
use crate::value::LoroValue;
use crate::value::values_equal;
use crate::value::PeerID;

verus! {

/// Why a map does not take the value `v`.
pub open spec fn set_refusal(v: LoroValue) -> Option<ErrorKind> {
    if names_container(v) {
        Some(ErrorKind::InvalidValueType)
    } else {
        None
    }
}

/// Whether the map `map` reads `v`, under `key`, as the mark of a container of
/// its own and not as the value that it is: `loro` keeps such marks, bytes that
/// are bound to the map and the key, where it makes containers that peers can
/// make at once.
pub uninterp spec fn marks_child(map: ContainerIdView, key: Seq<char>, v: LoroValue) -> bool;

/// Why the map `map` does not take the value `v` under `key`: it names a
/// container, or the map would read it as the mark of one.
pub open spec fn put_refusal(map: ContainerIdView, key: Seq<char>, v: LoroValue) -> Option<
    ErrorKind,
> {
    if marks_child(map, key, v) {
        Some(ErrorKind::InvalidValueType)
    } else {
        set_refusal(v)
    }
}

/// `loro_common::parse_mergeable_marker`: whether the map of the key `map`
/// reads `v` under `key` as the mark of a container.
#[verifier::external_body]
fn raw_marks(map: &ContainerKey, key: &str, v: &LoroValue) -> (r: bool)
    ensures
        r == marks_child(key_view(*map), key@, *v),
{
    loro_internal::loro_common::parse_mergeable_marker(&map.raw, key, &v.0).is_some()
}

/// Whether a value that `loro` compares equal to `v` stands under `key`.
pub open spec fn stands(entries: Map<Seq<char>, Item>, key: Seq<char>, v: LoroValue) -> bool {
    entries.dom().contains(key) && (entries[key] matches Item::Value(w) && values_equal(w, v))
}

/// The entries after `key` was set to `v`. Where a value that compares equal to
/// `v` stands under `key` already, nothing is written and that value stays;
/// numbers that compare equal need not be written alike. Otherwise `v` stands
/// under `key`.
pub open spec fn set_entries(entries: Map<Seq<char>, Item>, key: Seq<char>, v: LoroValue) -> Map<
    Seq<char>,
    Item,
> {
    if stands(entries, key, v) {
        entries
    } else {
        entries.insert(key, Item::Value(v))
    }
}

/// Whether `get_or_create_container` hands out a container of `kind` for `key`:
/// one of that kind stands there, or nothing or the null value stands there
/// and a container of `kind` can be made.
pub open spec fn creates(entries: Map<Seq<char>, Item>, key: Seq<char>, kind: ContainerType) -> bool {
    if entries.dom().contains(key) {
        match entries[key] {
            Item::Container(c) => c.container_type() == kind,
            Item::Value(v) => holds_null(v) && !(kind is Unknown),
        }
    } else {
        !(kind is Unknown)
    }
}

/// What a call of `loro` that may change the map `map` leaves behind. `found`
/// says whether the document holds the map, `refused` why the call was refused,
/// `rule` why the map's rules refuse it, `entries` the entries that they ask
/// for. A refused call changes nothing. An accepted one is one that the rules
/// accept, and leaves these entries, every other map, and every tree and list
/// as they were. A map that is a root container is always found, and judged by
/// the rules alone.
pub open spec fn map_stepped(
    before: DocHandle,
    after: DocHandle,
    map: ContainerIdView,
    found: bool,
    refused: Option<ErrorKind>,
    rule: Option<ErrorKind>,
    entries: Map<Seq<char>, Item>,
) -> bool {
    &&& plain_root(map) ==> found && refused == rule
    &&& (!found || refused is Some) ==> after == before
    &&& (found && refused is None) ==> {
        &&& rule is None
        &&& map_entries(after, map) == entries
        &&& doc_sound(before) ==> doc_sound(after)
        &&& other_maps_kept(before, after, map)
        &&& trees_kept(before, after)
        &&& lists_kept(before, after)
    }
}

/// `LoroDoc::try_get_map`, then `LoroMap::insert` of a copy of `v` under
/// `key`, for a value that the map does not read as the mark of a container.
/// Where the value under `key` compares equal to `v`, `loro` writes nothing.
#[verifier::external_body]
fn raw_insert(doc: &mut DocHandle, map: &ContainerKey, key: &str, v: &LoroValue) -> (r: Option<
    Result<(), loro::LoroError>,
>)
    requires
        key_view(*map).container_type() == ContainerType::Mapping,
        !marks_child(key_view(*map), key@, *v),
    ensures
        map_stepped(
            *old(doc),
            *final(doc),
            key_view(*map),
            r is Some,
            refusal_of(r),
            set_refusal(*v),
            set_entries(map_entries(*old(doc), key_view(*map)), key@, *v),
        ),
{
    let m = doc.raw.try_get_map(&map.raw)?;
    Some(m.insert(key, v.0.clone()))
}

/// `LoroDoc::try_get_map`, then `LoroMap::insert_container` of a new, empty
/// container of the kind that `kind` stands for under `key`. The container gets
/// an identifier of its own, named by the operation that inserted it, and the
/// document holds it from then on.
#[verifier::external_body]
fn raw_insert_container(doc: &mut DocHandle, map: &ContainerKey, key: &str, kind: u8) -> (r:
    Option<Result<ContainerKey, loro::LoroError>>)
    requires
        key_view(*map).container_type() == ContainerType::Mapping,
        kind < 6,
    ensures
        r matches Some(Ok(k)) ==> key_view(k) is Normal && key_view(k).container_type()
            == kind_of_code(kind),
        r matches Some(Ok(k)) ==> doc_holds(*final(doc), key_view(k)),
        map_stepped(
            *old(doc),
            *final(doc),
            key_view(*map),
            r is Some,
            refusal_of(r),
            None,
            match r {
                Some(Ok(k)) => map_entries(*old(doc), key_view(*map)).insert(
                    key@,
                    Item::Container(key_view(k)),
                ),
                _ => map_entries(*old(doc), key_view(*map)),
            },
        ),
{
    let m = doc.raw.try_get_map(&map.raw)?;
    let child = loro::Container::new(loro::ContainerType::try_from_u8(kind).unwrap());
    Some(m.insert_container(key, child).map(|c| ContainerKey { raw: loro::ContainerTrait::id(&c) }))
}

/// `LoroDoc::try_get_map`, then `LoroMap::delete` of the entry under `key`.
#[verifier::external_body]
fn raw_delete(doc: &mut DocHandle, map: &ContainerKey, key: &str) -> (r: Option<
    Result<(), loro::LoroError>,
>)
    requires
        key_view(*map).container_type() == ContainerType::Mapping,
    ensures
        map_stepped(
            *old(doc),
            *final(doc),
            key_view(*map),
            r is Some,
            refusal_of(r),
            None,
            map_entries(*old(doc), key_view(*map)).remove(key@),
        ),
{
    let m = doc.raw.try_get_map(&map.raw)?;
    Some(m.delete(key))
}

/// `LoroDoc::try_get_map`, then `LoroMap::clear`: no entry is left.
#[verifier::external_body]
fn raw_clear(doc: &mut DocHandle, map: &ContainerKey) -> (r: Option<Result<(), loro::LoroError>>)
    requires
        key_view(*map).container_type() == ContainerType::Mapping,
    ensures
        map_stepped(
            *old(doc),
            *final(doc),
            key_view(*map),
            r is Some,
            refusal_of(r),
            None,
            Map::empty(),
        ),
{
    let m = doc.raw.try_get_map(&map.raw)?;
    Some(m.clear())
}

/// `LoroMap::len`: the number of entries, of which there are finitely many.
/// `LoroDoc::try_get_map` finds the map exactly if the document holds the
/// container.
#[verifier::external_body]
fn raw_len(doc: &DocHandle, map: &ContainerKey) -> (r: Option<usize>)
    requires
        key_view(*map).container_type() == ContainerType::Mapping,
    ensures
        r is Some == doc_holds(*doc, key_view(*map)),
        plain_root(key_view(*map)) ==> r is Some,
        r matches Some(n) ==> map_entries(*doc, key_view(*map)).dom().finite() && n == map_entries(
            *doc,
            key_view(*map),
        ).dom().len(),
{
    let m = doc.raw.try_get_map(&map.raw)?;
    Some(m.len())
}

/// `LoroMap::get`: the entry under `key`, if there is one.
#[verifier::external_body]
fn raw_get(doc: &DocHandle, map: &ContainerKey, key: &str) -> (r: Option<Option<RawItem>>)
    requires
        key_view(*map).container_type() == ContainerType::Mapping,
    ensures
        plain_root(key_view(*map)) ==> r is Some,
        r matches Some(x) ==> (x is Some <==> map_entries(*doc, key_view(*map)).dom().contains(
            key@,
        )),
        r matches Some(Some(x)) ==> x.item() == map_entries(*doc, key_view(*map))[key@],
{
    let m = doc.raw.try_get_map(&map.raw)?;
    Some(m.get(key).map(|x| match x {
        loro::ValueOrContainer::Value(v) => RawItem::Value(LoroValue(v)),
        loro::ValueOrContainer::Container(c) => RawItem::Container(ContainerKey {
            raw: loro::ContainerTrait::id(&c),
        }),
    }))
}

/// The keys in `v` are those of `entries`, each once.
pub open spec fn keys_of(entries: Map<Seq<char>, Item>, v: Seq<String>) -> bool {
    &&& forall|i: int, j: int| 0 <= i < j < v.len() ==> v[i]@ != v[j]@
    &&& forall|i: int| 0 <= i < v.len() ==> entries.dom().contains(#[trigger] v[i]@)
    &&& forall|k: Seq<char>| #[trigger]
        entries.dom().contains(k) ==> exists|i: int| 0 <= i < v.len() && v[i]@ == k
}

/// `LoroMap::keys`: the key of each entry, each once, in no stated order.
#[verifier::external_body]
fn raw_keys(doc: &DocHandle, map: &ContainerKey) -> (r: Option<Vec<String>>)
    requires
        key_view(*map).container_type() == ContainerType::Mapping,
    ensures
        plain_root(key_view(*map)) ==> r is Some,
        r matches Some(v) ==> keys_of(map_entries(*doc, key_view(*map)), v@),
{
    let m = doc.raw.try_get_map(&map.raw)?;
    Some(m.keys().map(|k| k.to_string()).collect())
}

/// `LoroMap::values`: what stands under each key, in no stated order.
#[verifier::external_body]
fn raw_values(doc: &DocHandle, map: &ContainerKey) -> (r: Option<Vec<RawItem>>)
    requires
        key_view(*map).container_type() == ContainerType::Mapping,
    ensures
        plain_root(key_view(*map)) ==> r is Some,
        r matches Some(v) ==> map_entries(*doc, key_view(*map)).dom().finite() && v@.len()
            == map_entries(*doc, key_view(*map)).dom().len() && forall|i: int|
            0 <= i < v@.len() ==> map_entries(*doc, key_view(*map)).contains_value(
                #[trigger] v@[i].item(),
            ),
{
    let m = doc.raw.try_get_map(&map.raw)?;
    Some(m.values().map(|x| match x {
        loro::ValueOrContainer::Value(v) => RawItem::Value(LoroValue(v)),
        loro::ValueOrContainer::Container(c) => RawItem::Container(ContainerKey {
            raw: loro::ContainerTrait::id(&c),
        }),
    }).collect())
}

/// `LoroMap::get_last_editor`, of the map that `LoroDoc::try_get_map` finds,
/// which it does exactly if the document holds the container: the peer that
/// last set or deleted the entry under `key`; there is one for every key that
/// has an entry.
#[verifier::external_body]
fn raw_last_editor(doc: &DocHandle, map: &ContainerKey, key: &str) -> (r: Option<Option<PeerID>>)
    requires
        key_view(*map).container_type() == ContainerType::Mapping,
    ensures
        r is Some == doc_holds(*doc, key_view(*map)),
        plain_root(key_view(*map)) ==> r is Some,
        r matches Some(None) ==> !map_entries(*doc, key_view(*map)).dom().contains(key@),
        r matches Some(x) ==> x == editor_in(map_editors(*doc, key_view(*map)), key@),
{
    let m = doc.raw.try_get_map(&map.raw)?;
    Some(m.get_last_editor(key))
}

/// `LoroMap::get_value`.
#[verifier::external_body]
fn raw_value(doc: &DocHandle, map: &ContainerKey) -> (r: Option<LoroValue>)
    requires
        key_view(*map).container_type() == ContainerType::Mapping,
    ensures
        plain_root(key_view(*map)) ==> r is Some,
        r matches Some(v) ==> v == container_value(*doc, key_view(*map), false),
{
    let m = doc.raw.try_get_map(&map.raw)?;
    Some(LoroValue(m.get_value()))
}

/// `LoroMap::get_deep_value`.
#[verifier::external_body]
fn raw_deep_value(doc: &DocHandle, map: &ContainerKey) -> (r: Option<LoroValue>)
    requires
        key_view(*map).container_type() == ContainerType::Mapping,
    ensures
        plain_root(key_view(*map)) ==> r is Some,
        r matches Some(v) ==> v == container_value(*doc, key_view(*map), true),
{
    let m = doc.raw.try_get_map(&map.raw)?;
    Some(LoroValue(m.get_deep_value()))
}

/// A step of one map keeps the document well formed.
proof fn lemma_map_step_keeps_wf(before: DocHandle, after: DocHandle)
    requires
        trees_wf(before),
        lists_wf(before),
        trees_kept(before, after),
        lists_kept(before, after),
    ensures
        trees_wf(after),
        lists_wf(after),
{
    assert forall|c: ContainerIdView| #[trigger] tree_model(after, c).wf() by {
        assert(tree_model(after, c) == tree_model(before, c));
        assert(tree_model(before, c).wf());
    }
    assert forall|c: ContainerIdView| #[trigger]
        list_ids(after, c).len() == list_items(after, c).len() && list_ids(
            after,
            c,
        ).no_duplicates() by {
        assert(list_items(after, c) == list_items(before, c));
        assert(list_ids(before, c).len() == list_items(before, c).len());
    }
}

/// A handle of a map of a document.
pub struct LoroMap {
    pub(crate) key: ContainerKey,
}

impl LoroMap {
    #[verifier::type_invariant]
    pub(crate) open spec fn inv(self) -> bool {
        key_view(self.key).container_type() == ContainerType::Mapping
    }

    /// The container that the handle names.
    pub open(crate) spec fn cid(&self) -> ContainerIdView {
        key_view(self.key)
    }

    /// What a call that may change this map leaves behind. `error` is the error
    /// that the call returned, `rule` the reason for which the map's rules refuse
    /// the call, `entries` the entries that they ask for. A call that returns an
    /// error changes nothing. One that succeeds is one that the rules accept, and
    /// leaves these entries, and every other map and every tree and list as they
    /// were. On a root container the rules alone decide.
    pub open spec fn changed(
        &self,
        before: LoroDoc,
        after: LoroDoc,
        error: Option<ErrorKind>,
        rule: Option<ErrorKind>,
        entries: Map<Seq<char>, Item>,
    ) -> bool {
        &&& plain_root(self.cid()) ==> error == rule
        &&& error is Some ==> after == before
        &&& error is None ==> {
            &&& rule is None
            &&& after.map(self.cid()) == entries
            &&& after.keeps_other_maps(before, self.cid())
            &&& after.keeps_trees(before)
            &&& after.keeps_lists(before)
        }
    }

    /// The handle of the root map named `name`.
    pub(crate) fn root(name: &str) -> (m: LoroMap)
        ensures
            m.cid() == (ContainerIdView::Root {
                name: name@,
                container_type: ContainerType::Mapping,
            }),
    {
        LoroMap { key: root_key(name, ContainerType::Mapping) }
    }

    /// The identifier of the map.
    pub fn id(&self) -> (id: ContainerID)
        ensures
            id@ == self.cid(),
    {
        self.key.id()
    }

    /// Whether the document holds this map.
    pub fn is_attached(&self, doc: &LoroDoc) -> (r: bool)
        ensures
            r == doc.holds(self.cid()),
            plain_root(self.cid()) ==> r,
    {
        proof {
            use_type_invariant(self);
        }
        raw_len(&doc.inner, &self.key).is_some()
    }

    /// Sets the entry under `key` to `value`. Where a value that compares equal
    /// to `value` stands there already, that value stays. A value that the map
    /// would read back as a container and not as itself is refused as one that
    /// names a container is.
    pub fn insert(&self, doc: &mut LoroDoc, key: &str, value: LoroValue) -> (r: Result<
        (),
        ErrorKind,
    >)
        requires
            old(doc).wf(),
        ensures
            final(doc).wf(),
            self.changed(
                *old(doc),
                *final(doc),
                error_in(r),
                put_refusal(self.cid(), key@, value),
                set_entries(old(doc).map(self.cid()), key@, value),
            ),
    {
        proof {
            use_type_invariant(self);
        }
        if raw_marks(&self.key, key, &value) {
            return Err(ErrorKind::InvalidValueType);
        }
        let ghost before = doc.inner;
        let raw = raw_insert(&mut doc.inner, &self.key, key, &value);
        proof {
            if let Some(Ok(_)) = raw {
                lemma_map_step_keeps_wf(before, doc.inner);
            }
        }
        settle(raw)
    }

    /// Puts a new, empty container of `kind` under `key` and returns its
    /// handle. No container of an unknown kind can be made.
    pub fn insert_container(&self, doc: &mut LoroDoc, key: &str, kind: ContainerType) -> (r:
        Result<Container, ErrorKind>)
        requires
            old(doc).wf(),
        ensures
            final(doc).wf(),
            kind is Unknown ==> r == Err::<Container, ErrorKind>(ErrorKind::InvalidValueType),
            r is Err ==> *final(doc) == *old(doc),
            r matches Ok(c) ==> c.cid() is Normal && c.fits(kind),
            r matches Ok(c) ==> final(doc).holds(c.cid()),
            !(kind is Unknown) ==> self.changed(
                *old(doc),
                *final(doc),
                error_in(r),
                None,
                match r {
                    Ok(c) => old(doc).map(self.cid()).insert(key@, Item::Container(c.cid())),
                    Err(_) => old(doc).map(self.cid()),
                },
            ),
    {
        proof {
            use_type_invariant(self);
        }
        if let ContainerType::Unknown(_) = kind {
            return Err(ErrorKind::InvalidValueType);
        }
        let ghost before = doc.inner;
        let raw = raw_insert_container(&mut doc.inner, &self.key, key, kind.code());
        proof {
            if let Some(Ok(_)) = raw {
                lemma_map_step_keeps_wf(before, doc.inner);
            }
        }
        match settle(raw) {
            Ok(k) => Ok(Container::from_key(k)),
            Err(e) => Err(e),
        }
    }

    /// The container under `key` if one of `kind` stands there; a new, empty one
    /// of `kind`, put under `key`, if nothing or the null value stands there.
    /// Where something else stands under `key`, `InvalidValueType`, and nothing
    /// changes.
    pub fn get_or_create_container(&self, doc: &mut LoroDoc, key: &str, kind: ContainerType) -> (r:
        Result<Container, ErrorKind>)
        requires
            old(doc).wf(),
        ensures
            final(doc).wf(),
            r matches Ok(c) ==> c.fits(kind) && final(doc).map(self.cid()) == old(doc).map(
                self.cid(),
            ).insert(key@, Item::Container(c.cid())),
            r matches Ok(c) ==> final(doc).keeps_other_maps(*old(doc), self.cid())
                && final(doc).keeps_trees(*old(doc)) && final(doc).keeps_lists(*old(doc)),
            r is Err ==> *final(doc) == *old(doc),
            plain_root(self.cid()) ==> (r is Ok <==> creates(old(doc).map(self.cid()), key@, kind)),
            plain_root(self.cid()) && r is Err ==> r == Err::<Container, ErrorKind>(
                ErrorKind::InvalidValueType,
            ),
            old(doc).map(self.cid()).dom().contains(key@) && old(doc).map(
                self.cid(),
            )[key@] is Container && r is Ok ==> *final(doc) == *old(doc),
    {
        proof {
            use_type_invariant(self);
        }
        match raw_get(&doc.inner, &self.key, key) {
            None => Err(ErrorKind::ContainerNotFound),
            Some(Some(RawItem::Container(k))) => {
                let found = Container::from_key(k);
                if found.get_type() == kind {
                    proof {
                        assert(doc.map(self.cid()).insert(key@, Item::Container(found.cid()))
                            =~= doc.map(self.cid()));
                    }
                    Ok(found)
                } else {
                    Err(ErrorKind::InvalidValueType)
                }
            },
            Some(Some(RawItem::Value(v))) => {
                if is_null(&v) {
                    self.insert_container(doc, key, kind)
                } else {
                    Err(ErrorKind::InvalidValueType)
                }
            },
            Some(None) => self.insert_container(doc, key, kind),
        }
    }

    /// Deletes the entry under `key`, if there is one.
    pub fn delete(&self, doc: &mut LoroDoc, key: &str) -> (r: Result<(), ErrorKind>)
        requires
            old(doc).wf(),
        ensures
            final(doc).wf(),
            self.changed(
                *old(doc),
                *final(doc),
                error_in(r),
                None,
                old(doc).map(self.cid()).remove(key@),
            ),
    {
        proof {
            use_type_invariant(self);
        }
        let ghost before = doc.inner;
        let raw = raw_delete(&mut doc.inner, &self.key, key);
        proof {
            if let Some(Ok(_)) = raw {
                lemma_map_step_keeps_wf(before, doc.inner);
            }
        }
        settle(raw)
    }

    /// Deletes every entry.
    pub fn clear(&self, doc: &mut LoroDoc) -> (r: Result<(), ErrorKind>)
        requires
            old(doc).wf(),
        ensures
            final(doc).wf(),
            self.changed(*old(doc), *final(doc), error_in(r), None, Map::empty()),
    {
        proof {
            use_type_invariant(self);
        }
        let ghost before = doc.inner;
        let raw = raw_clear(&mut doc.inner, &self.key);
        proof {
            if let Some(Ok(_)) = raw {
                lemma_map_step_keeps_wf(before, doc.inner);
            }
        }
        settle(raw)
    }

    /// The number of entries.
    pub fn len(&self, doc: &LoroDoc) -> (n: usize)
        ensures
            plain_root(self.cid()) || n > 0 ==> doc.map(self.cid()).dom().finite() && n == doc.map(
                self.cid(),
            ).dom().len(),
    {
        proof {
            use_type_invariant(self);
        }
        match raw_len(&doc.inner, &self.key) {
            Some(n) => n,
            None => 0,
        }
    }

    /// Whether the map has no entry.
    pub fn is_empty(&self, doc: &LoroDoc) -> (r: bool)
        ensures
            plain_root(self.cid()) ==> r == (doc.map(self.cid()).dom().len() == 0),
    {
        self.len(doc) == 0
    }

    /// What stands under `key`, if anything does.
    pub fn get(&self, doc: &LoroDoc, key: &str) -> (r: Option<ValueOrContainer>)
        ensures
            r matches Some(x) ==> doc.map(self.cid()).dom().contains(key@) && x.item() == doc.map(
                self.cid(),
            )[key@],
            plain_root(self.cid()) ==> (r is Some <==> doc.map(self.cid()).dom().contains(key@)),
    {
        proof {
            use_type_invariant(self);
        }
        match raw_get(&doc.inner, &self.key, key) {
            Some(Some(x)) => Some(x.settle()),
            _ => None,
        }
    }

    /// The keys of the map, each once, in no stated order.
    pub fn keys(&self, doc: &LoroDoc) -> (r: Vec<String>)
        ensures
            plain_root(self.cid()) || r@.len() > 0 ==> keys_of(doc.map(self.cid()), r@),
    {
        proof {
            use_type_invariant(self);
        }
        match raw_keys(&doc.inner, &self.key) {
            Some(v) => v,
            None => Vec::new(),
        }
    }

    /// What stands under each key, in no stated order.
    pub fn values(&self, doc: &LoroDoc) -> (r: Vec<ValueOrContainer>)
        ensures
            plain_root(self.cid()) || r@.len() > 0 ==> doc.map(self.cid()).dom().finite() && r@.len()
                == doc.map(self.cid()).dom().len(),
            forall|i: int|
                0 <= i < r@.len() ==> doc.map(self.cid()).contains_value(#[trigger] r@[i].item()),
    {
        proof {
            use_type_invariant(self);
        }
        let mut out: Vec<ValueOrContainer> = Vec::new();
        let raw = match raw_values(&doc.inner, &self.key) {
            Some(v) => v,
            None => { return out; },
        };
        let ghost all = raw@;
        let mut rest = raw;
        let mut back: Vec<ValueOrContainer> = Vec::new();
        while rest.len() > 0
            invariant
                rest@.len() + back@.len() == all.len(),
                forall|i: int| 0 <= i < rest@.len() ==> rest@[i] == all[i],
                forall|i: int|
                    0 <= i < back@.len() ==> (#[trigger] back@[i]).item() == all[all.len() - 1
                        - i].item(),
            decreases rest@.len(),
        {
            let x = rest.pop().unwrap();
            back.push(x.settle());
        }
        while back.len() > 0
            invariant
                out@.len() + back@.len() == all.len(),
                forall|i: int|
                    0 <= i < back@.len() ==> (#[trigger] back@[i]).item() == all[all.len() - 1
                        - i].item(),
                forall|i: int| 0 <= i < out@.len() ==> (#[trigger] out@[i]).item() == all[i].item(),
            decreases back@.len(),
        {
            let x = back.pop().unwrap();
            out.push(x);
        }
        out
    }

    /// The peer that last set or deleted the entry under `key`: `None` where
    /// none did, or where the document does not hold the map. Every key that
    /// has an entry has such a peer.
    pub fn get_last_editor(&self, doc: &LoroDoc, key: &str) -> (r: Option<PeerID>)
        ensures
            doc.holds(self.cid()) ==> r == doc.editor(self.cid(), key@),
            !doc.holds(self.cid()) ==> r is None,
            doc.holds(self.cid()) && doc.map(self.cid()).dom().contains(key@) ==> r is Some,
            plain_root(self.cid()) ==> doc.holds(self.cid()),
    {
        proof {
            use_type_invariant(self);
        }
        match raw_last_editor(&doc.inner, &self.key, key) {
            Some(x) => x,
            None => None,
        }
    }

    /// The map as one value, its containers as the values that name them.
    pub fn get_value(&self, doc: &LoroDoc) -> (r: Option<LoroValue>)
        ensures
            plain_root(self.cid()) ==> r is Some,
            r matches Some(v) ==> v == doc.value_of(self.cid(), false),
    {
        proof {
            use_type_invariant(self);
        }
        raw_value(&doc.inner, &self.key)
    }

    /// The map as one value, its containers as the values that they hold.
    pub fn get_deep_value(&self, doc: &LoroDoc) -> (r: Option<LoroValue>)
        ensures
            plain_root(self.cid()) ==> r is Some,
            r matches Some(v) ==> v == doc.value_of(self.cid(), true),
    {
        proof {
            use_type_invariant(self);
        }
        raw_deep_value(&doc.inner, &self.key)
    }
}

} // verus!
