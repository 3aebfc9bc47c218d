//! Cursors: references to a place in a list that stay meaningful while the
//! list is edited.

use vstd::prelude::*;
use crate::container::Container;
use crate::doc::counted;
use crate::doc::list_ids;
use crate::doc::plain_root;
use crate::doc::DocHandle;
use crate::doc::LoroDoc;
use crate::err::ErrorKind;
use crate::key::key_view;
use crate::key::ContainerKey;
use crate::value::ContainerID;
use crate::value::ContainerIdView;
use crate::value::ContainerType;
use crate::value::ID;
use crate::value::Side;

verus! {

/// A place in a list, held on to by the operation that inserted the item at
/// that place, so that the place can be found again after any edit. It is the
/// cursor of `loro`, carried as it is.
#[verifier::external_body]
pub struct Cursor(pub loro::cursor::Cursor);

/// The operation that inserted the item that the cursor holds on to; `None` for
/// a cursor at an end of its container.
pub uninterp spec fn cursor_anchor(c: Cursor) -> Option<ID>;

/// The side of its anchor that the cursor keeps to.
pub uninterp spec fn cursor_side(c: Cursor) -> Side;

/// The fields of the `loro::ContainerID` of the cursor's container, as
/// `key_parts` gives them.
pub uninterp spec fn cursor_container(c: Cursor) -> (bool, Seq<char>, u64, i32, ContainerType);

/// The container that the cursor points into.
pub open spec fn cursor_target(c: Cursor) -> ContainerIdView {
    crate::key::parts_view(cursor_container(c))
}

/// Reads the field `id` of a `loro::cursor::Cursor`.
#[verifier::external_body]
fn read_anchor(c: &Cursor) -> (r: Option<ID>)
    ensures
        r == cursor_anchor(*c),
{
    c.0.id.map(|x| ID { peer: x.peer, counter: x.counter })
}

/// Reads the field `side` of a `loro::cursor::Cursor`.
#[verifier::external_body]
fn read_side(c: &Cursor) -> (r: Side)
    ensures
        r == cursor_side(*c),
{
    match c.0.side {
        loro::cursor::Side::Left => Side::Left,
        loro::cursor::Side::Middle => Side::Middle,
        loro::cursor::Side::Right => Side::Right,
    }
}

/// Copies the field `container` of a `loro::cursor::Cursor`.
#[verifier::external_body]
fn read_container(c: &Cursor) -> (k: ContainerKey)
    ensures
        crate::key::key_parts(k) == cursor_container(*c),
{
    ContainerKey { raw: c.0.container.clone() }
}

/// `Clone::clone` of a `loro::cursor::Cursor`.
#[verifier::external_body]
fn copy_cursor(c: &Cursor) -> (r: Cursor)
    ensures
        r == *c,
{
    Cursor(c.0.clone())
}

impl Cursor {
    /// The operation that inserted the item that the cursor holds on to.
    pub fn id(&self) -> (r: Option<ID>)
        ensures
            r == cursor_anchor(*self),
    {
        read_anchor(self)
    }

    /// The side of its anchor that the cursor keeps to.
    pub fn side(&self) -> (r: Side)
        ensures
            r == cursor_side(*self),
    {
        read_side(self)
    }

    /// The container that the cursor points into.
    pub fn container(&self) -> (id: ContainerID)
        ensures
            id@ == cursor_target(*self),
    {
        let key = read_container(self);
        assert(key_view(key) == cursor_target(*self));
        key.id()
    }

    /// A second cursor for the same place.
    pub fn duplicate(&self) -> (r: Cursor)
        ensures
            r == *self,
    {
        copy_cursor(self)
    }
}

/// A position in a container, with the side of it that is meant.
#[derive(Clone, Copy, Debug, PartialEq, Eq, Structural)]
pub struct AbsolutePosition {
    pub pos: usize,
    pub side: Side,
}

/// Where a cursor points now.
pub struct PosQueryResult {
    /// A cursor to use from now on, where the anchor of the old one was
    /// deleted: it holds on to a neighbour that is still there.
    pub update: Option<Cursor>,
    /// The position now.
    pub current: AbsolutePosition,
}

/// Why `loro` finds no place for a cursor.
#[derive(Clone, Copy, Debug, PartialEq, Eq, Structural)]
pub enum CursorMiss {
    ContainerDeleted,
    HistoryCleared,
    IdNotFound,
    HistoryUnreadable,
    Other,
}

/// What resolving a cursor gives in a list with the inserting operations `ids`.
/// A cursor that holds on to no item points at the front if it keeps to the
/// left, else behind the end. One that holds on to an item of the list points
/// at that item, and no new cursor is handed out for it.
pub open spec fn resolved(
    ids: Seq<ID>,
    anchor: Option<ID>,
    side: Side,
    r: Result<PosQueryResult, CursorMiss>,
) -> bool {
    &&& anchor is None ==> r is Ok && r->Ok_0.current == (AbsolutePosition {
        pos: if side == Side::Left {
            0
        } else {
            ids.len() as usize
        },
        side,
    })
    &&& (anchor matches Some(id) && id.counter >= 0 && ids.contains(id)) ==> r is Ok
        && r->Ok_0.update is None && r->Ok_0.current.pos == ids.index_of(anchor->0)
        && r->Ok_0.current.side == side
}

/// Whether the cursor `update` holds on to the item at `pos` of the list
/// `list`, with the inserting operations `ids`, if it holds on to an item at
/// all.
pub open spec fn renewed(ids: Seq<ID>, list: ContainerIdView, update: Cursor, pos: usize) -> bool {
    &&& cursor_target(update) == list
    &&& cursor_anchor(update) matches Some(a) ==> anchored(ids, a) == Some(pos as int)
}

/// `LoroDoc::get_cursor_pos`, for a cursor into a list that is a root
/// container: the place of the item that the cursor holds on to, found among
/// the items of the list or, for an item that was deleted, in the history. A
/// new cursor, where one is handed out, is the one that `LoroList::get_cursor`
/// gives for the place that was found.
#[verifier::external_body]
fn raw_query_pos(doc: &DocHandle, cursor: &Cursor) -> (r: Result<PosQueryResult, CursorMiss>)
    ensures
        plain_root(cursor_target(*cursor)) && cursor_target(*cursor).container_type()
            == ContainerType::List ==> resolved(
            list_ids(*doc, cursor_target(*cursor)),
            cursor_anchor(*cursor),
            cursor_side(*cursor),
            r,
        ),
        r matches Ok(q) ==> plain_root(cursor_target(*cursor)) && cursor_target(
            *cursor,
        ).container_type() == ContainerType::List && q.update is Some ==> renewed(
            list_ids(*doc, cursor_target(*cursor)),
            cursor_target(*cursor),
            q.update->0,
            q.current.pos,
        ),
{
    match doc.raw.get_cursor_pos(&cursor.0) {
        Ok(q) => Ok(PosQueryResult {
            update: q.update.map(Cursor),
            current: AbsolutePosition { pos: q.current.pos, side: match q.current.side {
                loro::cursor::Side::Left => Side::Left,
                loro::cursor::Side::Middle => Side::Middle,
                loro::cursor::Side::Right => Side::Right,
            } },
        }),
        Err(loro::cursor::CannotFindRelativePosition::ContainerDeleted) => Err(CursorMiss::ContainerDeleted),
        Err(loro::cursor::CannotFindRelativePosition::HistoryCleared) => Err(CursorMiss::HistoryCleared),
        Err(loro::cursor::CannotFindRelativePosition::IdNotFound) => Err(CursorMiss::IdNotFound),
        Err(_) => Err(CursorMiss::Other),
    }
}

impl LoroDoc {
    /// Where `cursor` points now. A cursor whose item is still in its list points
    /// at that item, wherever edits have carried it: in a well-formed document
    /// every item was inserted by an operation that a cursor can hold on to. For
    /// one whose item was deleted, the history is searched for the nearest place
    /// that is left, and a new cursor for that place comes back in `update`:
    /// resolved in its turn, it gives the same place. A position in a list never
    /// lies behind the end of the list: one that would is brought back to the
    /// end.
    pub fn get_cursor_pos(&self, cursor: &Cursor) -> (r: Result<PosQueryResult, ErrorKind>)
        ensures
            r matches Err(e) ==> e == ErrorKind::ContainerNotFound || e == ErrorKind::Other,
            self.wf() && plain_root(cursor_target(*cursor)) && cursor_target(
                *cursor,
            ).container_type() == ContainerType::List ==> {
                let ids = self.list_ids(cursor_target(*cursor));
                &&& cursor_anchor(*cursor) is None ==> r is Ok && r->Ok_0.current == (
                AbsolutePosition {
                    pos: if cursor_side(*cursor) == Side::Left {
                        0
                    } else {
                        ids.len() as usize
                    },
                    side: cursor_side(*cursor),
                })
                &&& (cursor_anchor(*cursor) matches Some(id) && anchored(ids, id) is Some) ==> r is Ok
                    && r->Ok_0.update is None && Some(r->Ok_0.current.pos as int) == anchored(
                    ids,
                    cursor_anchor(*cursor)->0,
                ) && r->Ok_0.current.side == cursor_side(*cursor)
                &&& r matches Ok(q) ==> q.current.pos <= ids.len()
                &&& r matches Ok(q) ==> (q.update matches Some(u) ==> renewed(
                    ids,
                    cursor_target(*cursor),
                    u,
                    q.current.pos,
                ))
            },
    {
        proof {
            if self.wf() {
                let ids = list_ids(self.inner, cursor_target(*cursor));
                assert(counted(ids));
                assert(ids.len() == crate::doc::list_items(self.inner, cursor_target(*cursor)).len());
                if let Some(id) = cursor_anchor(*cursor) {
                    if ids.contains(id) {
                        lemma_counted_member(ids, id);
                    }
                }
            }
        }
        match raw_query_pos(&self.inner, cursor) {
            Ok(q) => {
                let pos = match Container::from_key(read_container(cursor)) {
                    Container::List(list) => {
                        let len = list.len(self);
                        if q.current.pos > len {
                            len
                        } else {
                            q.current.pos
                        }
                    },
                    _ => q.current.pos,
                };
                Ok(PosQueryResult {
                    update: q.update,
                    current: AbsolutePosition { pos, side: q.current.side },
                })
            },
            Err(CursorMiss::ContainerDeleted) => Err(ErrorKind::ContainerNotFound),
            Err(_) => Err(ErrorKind::Other),
        }
    }
}

/// An operation among such as have counters that operations can have has such
/// a counter.
pub proof fn lemma_counted_member(ids: Seq<ID>, id: ID)
    requires
        counted(ids),
        ids.contains(id),
    ensures
        id.counter >= 0,
{
    let i = choose|i: int| 0 <= i < ids.len() && ids[i] == id;
    assert(ids[i].counter >= 0);
}

/// Where the item that `anchor` inserted stands in a list with these inserting
/// operations, if it stands there.
pub open spec fn anchored(ids: Seq<ID>, anchor: ID) -> Option<int> {
    if ids.contains(anchor) {
        Some(ids.index_of(anchor))
    } else {
        None
    }
}

/// In a list in which no operation inserted two items, the item that stands at
/// `i` is found at `i` by the operation that inserted it.
pub proof fn lemma_anchor_at(ids: Seq<ID>, i: int)
    requires
        ids.no_duplicates(),
        0 <= i < ids.len(),
    ensures
        anchored(ids, ids[i]) == Some(i),
{
    assert(ids.contains(ids[i]));
}

/// Cursor stability: an item that stands at `i` stands at `i + 1` once another
/// item was inserted at or before it, and where it stood if the other was
/// inserted behind it. A cursor that holds on to the item finds it there.
pub proof fn lemma_anchor_after_insert(ids: Seq<ID>, i: int, pos: int, new: ID)
    requires
        ids.no_duplicates(),
        0 <= i < ids.len(),
        0 <= pos <= ids.len(),
        !ids.contains(new),
    ensures
        ids.insert(pos, new).no_duplicates(),
        anchored(ids.insert(pos, new), ids[i]) == Some(
            if pos <= i {
                i + 1
            } else {
                i
            },
        ),
{
    let after = ids.insert(pos, new);
    crate::seqs::lemma_insert(ids, pos, new);
    ids.insert_ensures(pos, new);
    let j = if pos <= i { i + 1 } else { i };
    assert(after[j] == ids[i]);
    assert(after.contains(ids[i]));
}

/// Cursor stability: an item that stands at `i` stands `len` places further to
/// the front once `len` items before it were deleted, and where it stood if
/// they were deleted behind it. A cursor that holds on to the item finds it
/// there; one that held on to a deleted item finds it nowhere in the list.
pub proof fn lemma_anchor_after_delete(ids: Seq<ID>, i: int, pos: int, len: int)
    requires
        ids.no_duplicates(),
        0 <= i < ids.len(),
        0 <= pos,
        0 <= len,
        pos + len <= ids.len(),
    ensures
        crate::seqs::cut(ids, pos, len).no_duplicates(),
        anchored(crate::seqs::cut(ids, pos, len), ids[i]) == if i < pos {
            Some(i)
        } else if i < pos + len {
            None
        } else {
            Some(i - len)
        },
{
    let after = crate::seqs::cut(ids, pos, len);
    crate::seqs::lemma_cut(ids, pos, len);
    if i < pos {
        assert(after[i] == ids[i]);
    } else if i >= pos + len {
        assert(after[i - len] == ids[i]);
    } else {
        if after.contains(ids[i]) {
            let k = choose|k: int| 0 <= k < after.len() && after[k] == ids[i];
            if k < pos {
                assert(after[k] == ids[k]);
            } else {
                assert(after[k] == ids[k + len]);
            }
        }
    }
}

} // verus!
