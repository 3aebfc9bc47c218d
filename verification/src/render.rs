//! The text form of events, for logs and messages.

use vstd::prelude::*;
use crate::container::Item;
use crate::container::ValueOrContainer;
use crate::event::attributes_of;
use crate::event::items_of;
use crate::event::slot;
use crate::event::ContainerDiff;
use crate::event::ContainerDiffView;
use crate::event::Diff;
use crate::event::DiffEvent;
use crate::event::DiffEventView;
use crate::event::DiffView;
use crate::event::EventTriggerKind;
use crate::event::Index;
use crate::event::IndexView;
use crate::event::ListDiffItem;
use crate::event::ListDiffItemView;
use crate::event::MapDelta;
use crate::event::PathItem;
use crate::event::PathItemView;
use crate::event::TextDelta;
use crate::event::TextDeltaView;
use crate::event::TreeDiff;
use crate::event::TreeDiffItem;
use crate::event::TreeDiffItemView;
use crate::event::TreeExternalDiff;
use crate::event::TreeExternalDiffView;
use crate::text::amount_text;
use crate::text::append_cid;
use crate::text::append_decimal;
use crate::text::append_id;
use crate::text::append_item;
use crate::text::append_parent;
use crate::text::bool_str;
use crate::text::bool_text;
use crate::text::cid_text;
use crate::text::decimal;
use crate::text::id_text;
use crate::text::item_text;
use crate::text::joined;
use crate::text::lemma_joined_push;
use crate::text::parent_text;
use crate::text::value_text;
use crate::value::LoroValue;

verus! {

/// One more part joined on to what was written.
proof fn lemma_join_step(start: Seq<char>, parts: Seq<Seq<char>>, i: int, sep: Seq<char>)
    requires
        0 <= i < parts.len(),
    ensures
        i == 0 ==> start + joined(parts.take(0), sep) + parts[0] == start + joined(
            parts.take(1),
            sep,
        ),
        i > 0 ==> start + joined(parts.take(i), sep) + sep + parts[i] == start + joined(
            parts.take(i + 1),
            sep,
        ),
{
    lemma_joined_push(parts.take(i), sep, parts[i]);
    assert(parts.take(i + 1) =~= parts.take(i).push(parts[i]));
    if i == 0 {
        assert(start + joined(parts.take(0), sep) + parts[0] =~= start + parts[0]);
    } else {
        assert(start + joined(parts.take(i), sep) + sep + parts[i] =~= start + (joined(
            parts.take(i),
            sep,
        ) + sep + parts[i]));
    }
}

/// Nothing joined on leaves what was written.
proof fn lemma_join_none(start: Seq<char>, parts: Seq<Seq<char>>, sep: Seq<char>)
    ensures
        start == start + joined(parts.take(0), sep),
        parts.take(parts.len() as int) == parts,
{
    assert(start =~= start + joined(parts.take(0), sep));
    assert(parts.take(parts.len() as int) =~= parts);
}

pub open spec fn trigger_text(k: EventTriggerKind) -> Seq<char> {
    match k {
        EventTriggerKind::Local => "Local"@,
        EventTriggerKind::Import => "Import"@,
        EventTriggerKind::Checkout => "Checkout"@,
    }
}

impl EventTriggerKind {
    /// `Local`, `Import` or `Checkout`.
    pub fn name(&self) -> (s: &'static str)
        ensures
            s@ == trigger_text(*self),
    {
        match self {
            EventTriggerKind::Local => "Local",
            EventTriggerKind::Import => "Import",
            EventTriggerKind::Checkout => "Checkout",
        }
    }

    pub fn to_string(&self) -> (s: String)
        ensures
            s@ == trigger_text(*self),
    {
        String::from_str(self.name())
    }
}

pub open spec fn index_text(x: IndexView) -> Seq<char> {
    match x {
        IndexView::Key(k) => "Key(key='"@ + k + "')"@,
        IndexView::Sequence(i) => "Seq(index="@ + decimal(i as nat) + ")"@,
        IndexView::Node(t) => "Node(target="@ + id_text(t.peer, t.counter) + ")"@,
    }
}

fn append_index(out: &mut String, x: &Index)
    ensures
        final(out)@ == old(out)@ + index_text(x@),
{
    match x {
        Index::Key(k) => {
            out.append("Key(key='");
            out.append(k.as_str());
            out.append("')");
            proof {
                assert(old(out)@ + "Key(key='"@ + k@ + "')"@ =~= old(out)@ + index_text(x@));
            }
        },
        Index::Sequence(i) => {
            out.append("Seq(index=");
            append_decimal(out, *i as u64);
            out.append(")");
            proof {
                assert(old(out)@ + "Seq(index="@ + decimal(*i as nat) + ")"@ =~= old(out)@
                    + index_text(x@));
            }
        },
        Index::Node(t) => {
            out.append("Node(target=");
            append_id(out, t.peer, t.counter);
            out.append(")");
            proof {
                assert(old(out)@ + "Node(target="@ + id_text(t.peer, t.counter) + ")"@ =~= old(out)@
                    + index_text(x@));
            }
        },
    }
}

pub open spec fn path_item_text(x: PathItemView) -> Seq<char> {
    "PathItem(container="@ + cid_text(x.container) + ", index="@ + index_text(x.index) + ")"@
}

fn append_path_item(out: &mut String, x: &PathItem)
    ensures
        final(out)@ == old(out)@ + path_item_text(x@),
{
    out.append("PathItem(container=");
    append_cid(out, &x.container);
    out.append(", index=");
    append_index(out, &x.index);
    out.append(")");
    proof {
        assert(old(out)@ + "PathItem(container="@ + cid_text(x.container@) + ", index="@
            + index_text(x.index@) + ")"@ =~= old(out)@ + path_item_text(x@));
    }
}

/// Items, each as text, with `, ` between them.
pub open spec fn items_text(items: Seq<Item>) -> Seq<char> {
    joined(items.map_values(|i: Item| item_text(i)), ", "@)
}

fn append_items(out: &mut String, v: &Vec<ValueOrContainer>)
    ensures
        final(out)@ == old(out)@ + items_text(items_of(v@)),
{
    let ghost start = out@;
    let ghost parts = items_of(v@).map_values(|i: Item| item_text(i));
    let mut i: usize = 0;
    proof {
        lemma_join_none(start, parts, ", "@);
    }
    while i < v.len()
        invariant
            i <= v.len(),
            parts == items_of(v@).map_values(|i: Item| item_text(i)),
            out@ == start + joined(parts.take(i as int), ", "@),
        decreases v.len() - i,
    {
        if i > 0 {
            out.append(", ");
        }
        append_item(out, &v[i]);
        proof {
            assert(parts[i as int] == item_text(v@[i as int].item()));
            lemma_join_step(start, parts, i as int, ", "@);
        }
        i += 1;
    }
    proof {
        lemma_join_none(start, parts, ", "@);
    }
}

pub open spec fn list_item_text(x: ListDiffItemView) -> Seq<char> {
    match x {
        ListDiffItemView::Insert { insert, is_move } => "Insert(insert=["@ + items_text(insert)
            + "], is_move="@ + bool_text(is_move) + ")"@,
        ListDiffItemView::Delete { delete } => "Delete(delete="@ + decimal(delete as nat) + ")"@,
        ListDiffItemView::Retain { retain } => "Retain(retain="@ + decimal(retain as nat) + ")"@,
    }
}

fn append_list_item(out: &mut String, x: &ListDiffItem)
    ensures
        final(out)@ == old(out)@ + list_item_text(x@),
{
    match x {
        ListDiffItem::Insert { insert, is_move } => {
            out.append("Insert(insert=[");
            append_items(out, insert);
            out.append("], is_move=");
            out.append(bool_str(*is_move));
            out.append(")");
            proof {
                assert(old(out)@ + "Insert(insert=["@ + items_text(items_of(insert@))
                    + "], is_move="@ + bool_text(*is_move) + ")"@ =~= old(out)@ + list_item_text(
                    x@,
                ));
            }
        },
        ListDiffItem::Delete { delete } => {
            out.append("Delete(delete=");
            append_decimal(out, *delete as u64);
            out.append(")");
            proof {
                assert(old(out)@ + "Delete(delete="@ + decimal(*delete as nat) + ")"@ =~= old(out)@
                    + list_item_text(x@));
            }
        },
        ListDiffItem::Retain { retain } => {
            out.append("Retain(retain=");
            append_decimal(out, *retain as u64);
            out.append(")");
            proof {
                assert(old(out)@ + "Retain(retain="@ + decimal(*retain as nat) + ")"@ =~= old(out)@
                    + list_item_text(x@));
            }
        },
    }
}

/// One formatting attribute as `'name': value`.
pub open spec fn attribute_text(p: (Seq<char>, LoroValue)) -> Seq<char> {
    "'"@ + p.0 + "': "@ + value_text(p.1)
}

/// Formatting attributes in braces, or `None`.
pub open spec fn attributes_text(a: Option<Seq<(Seq<char>, LoroValue)>>) -> Seq<char> {
    match a {
        None => "None"@,
        Some(v) => "{"@ + joined(v.map_values(|p: (Seq<char>, LoroValue)| attribute_text(p)), ", "@)
            + "}"@,
    }
}

fn append_attributes(out: &mut String, a: &Option<Vec<(String, LoroValue)>>)
    ensures
        final(out)@ == old(out)@ + attributes_text(attributes_of(*a)),
{
    match a {
        None => out.append("None"),
        Some(v) => {
            out.append("{");
            let ghost start = out@;
            let ghost view = attributes_of(*a)->0;
            let ghost parts = view.map_values(|p: (Seq<char>, LoroValue)| attribute_text(p));
            let mut i: usize = 0;
            proof {
                lemma_join_none(start, parts, ", "@);
            }
            while i < v.len()
                invariant
                    i <= v.len(),
                    view == v@.map_values(|p: (String, LoroValue)| (p.0@, p.1)),
                    parts == view.map_values(|p: (Seq<char>, LoroValue)| attribute_text(p)),
                    out@ == start + joined(parts.take(i as int), ", "@),
                decreases v.len() - i,
            {
                if i > 0 {
                    out.append(", ");
                }
                let ghost mid = out@;
                out.append("'");
                out.append(v[i].0.as_str());
                out.append("': ");
                let s = v[i].1.to_string();
                out.append(s.as_str());
                proof {
                    assert(parts[i as int] == attribute_text((v@[i as int].0@, v@[i as int].1)));
                    assert(out@ =~= mid + parts[i as int]);
                    lemma_join_step(start, parts, i as int, ", "@);
                }
                i += 1;
            }
            out.append("}");
            proof {
                lemma_join_none(start, parts, ", "@);
                assert(old(out)@ + "{"@ + joined(parts, ", "@) + "}"@ =~= old(out)@
                    + attributes_text(attributes_of(*a)));
            }
        },
    }
}

pub open spec fn text_delta_text(x: TextDeltaView) -> Seq<char> {
    match x {
        TextDeltaView::Retain { retain, attributes } => "Retain(retain="@ + decimal(retain as nat)
            + ", attributes="@ + attributes_text(attributes) + ")"@,
        TextDeltaView::Insert { insert, attributes } => "Insert(insert='"@ + insert
            + "', attributes="@ + attributes_text(attributes) + ")"@,
        TextDeltaView::Delete { delete } => "Delete(delete="@ + decimal(delete as nat) + ")"@,
    }
}

fn append_text_delta(out: &mut String, x: &TextDelta)
    ensures
        final(out)@ == old(out)@ + text_delta_text(x@),
{
    match x {
        TextDelta::Retain { retain, attributes } => {
            out.append("Retain(retain=");
            append_decimal(out, *retain as u64);
            out.append(", attributes=");
            append_attributes(out, attributes);
            out.append(")");
            proof {
                assert(old(out)@ + "Retain(retain="@ + decimal(*retain as nat) + ", attributes="@
                    + attributes_text(attributes_of(*attributes)) + ")"@ =~= old(out)@
                    + text_delta_text(x@));
            }
        },
        TextDelta::Insert { insert, attributes } => {
            out.append("Insert(insert='");
            out.append(insert.as_str());
            out.append("', attributes=");
            append_attributes(out, attributes);
            out.append(")");
            proof {
                assert(old(out)@ + "Insert(insert='"@ + insert@ + "', attributes="@
                    + attributes_text(attributes_of(*attributes)) + ")"@ =~= old(out)@
                    + text_delta_text(x@));
            }
        },
        TextDelta::Delete { delete } => {
            out.append("Delete(delete=");
            append_decimal(out, *delete as u64);
            out.append(")");
            proof {
                assert(old(out)@ + "Delete(delete="@ + decimal(*delete as nat) + ")"@ =~= old(out)@
                    + text_delta_text(x@));
            }
        },
    }
}

/// One changed key as `'key': item`, with `None` for a deleted entry.
pub open spec fn slot_text(p: (Seq<char>, Option<Item>)) -> Seq<char> {
    "'"@ + p.0 + "': "@ + match p.1 {
        Some(i) => item_text(i),
        None => "None"@,
    }
}

pub open spec fn map_delta_text(m: Seq<(Seq<char>, Option<Item>)>) -> Seq<char> {
    "MapDelta(updated={"@ + joined(
        m.map_values(|p: (Seq<char>, Option<Item>)| slot_text(p)),
        ", "@,
    ) + "})"@
}

fn append_map_delta(out: &mut String, m: &MapDelta)
    ensures
        final(out)@ == old(out)@ + map_delta_text(m@),
{
    out.append("MapDelta(updated={");
    let ghost start = out@;
    let ghost parts = m@.map_values(|p: (Seq<char>, Option<Item>)| slot_text(p));
    let mut i: usize = 0;
    proof {
        lemma_join_none(start, parts, ", "@);
    }
    while i < m.updated.len()
        invariant
            i <= m.updated.len(),
            parts == m@.map_values(|p: (Seq<char>, Option<Item>)| slot_text(p)),
            out@ == start + joined(parts.take(i as int), ", "@),
        decreases m.updated.len() - i,
    {
        if i > 0 {
            out.append(", ");
        }
        let ghost mid = out@;
        out.append("'");
        out.append(m.updated[i].0.as_str());
        out.append("': ");
        match &m.updated[i].1 {
            Some(x) => append_item(out, x),
            None => out.append("None"),
        }
        proof {
            assert(m@[i as int] == slot(m.updated@[i as int]));
            assert(parts[i as int] == slot_text(m@[i as int]));
            assert(out@ =~= mid + parts[i as int]);
            lemma_join_step(start, parts, i as int, ", "@);
        }
        i += 1;
    }
    out.append("})");
    proof {
        lemma_join_none(start, parts, ", "@);
        assert(old(out)@ + "MapDelta(updated={"@ + joined(parts, ", "@) + "})"@ =~= old(out)@
            + map_delta_text(m@));
    }
}

pub open spec fn tree_action_text(x: TreeExternalDiffView) -> Seq<char> {
    match x {
        TreeExternalDiffView::Create { parent, index, fractional_index } => "Create(parent="@
            + parent_text(parent) + ", index="@ + decimal(index as nat) + ", fractional_index='"@
            + fractional_index + "')"@,
        TreeExternalDiffView::Move { parent, index, fractional_index, old_parent, old_index } => {
            "Move(parent="@ + parent_text(parent) + ", index="@ + decimal(index as nat)
                + ", fractional_index='"@ + fractional_index + "', old_parent="@ + parent_text(
                old_parent,
            ) + ", old_index="@ + decimal(old_index as nat) + ")"@
        },
        TreeExternalDiffView::Delete { old_parent, old_index } => "Delete(old_parent="@
            + parent_text(old_parent) + ", old_index="@ + decimal(old_index as nat) + ")"@,
    }
}

fn append_tree_action(out: &mut String, x: &TreeExternalDiff)
    ensures
        final(out)@ == old(out)@ + tree_action_text(x@),
{
    match x {
        TreeExternalDiff::Create { parent, index, fractional_index } => {
            out.append("Create(parent=");
            append_parent(out, parent);
            out.append(", index=");
            append_decimal(out, *index as u64);
            out.append(", fractional_index='");
            out.append(fractional_index.as_str());
            out.append("')");
            proof {
                assert(old(out)@ + "Create(parent="@ + parent_text(*parent) + ", index="@ + decimal(
                    *index as nat,
                ) + ", fractional_index='"@ + fractional_index@ + "')"@ =~= old(out)@
                    + tree_action_text(x@));
            }
        },
        TreeExternalDiff::Move { parent, index, fractional_index, old_parent, old_index } => {
            out.append("Move(parent=");
            append_parent(out, parent);
            out.append(", index=");
            append_decimal(out, *index as u64);
            out.append(", fractional_index='");
            out.append(fractional_index.as_str());
            out.append("', old_parent=");
            append_parent(out, old_parent);
            out.append(", old_index=");
            append_decimal(out, *old_index as u64);
            out.append(")");
            proof {
                assert(old(out)@ + "Move(parent="@ + parent_text(*parent) + ", index="@ + decimal(
                    *index as nat,
                ) + ", fractional_index='"@ + fractional_index@ + "', old_parent="@ + parent_text(
                    *old_parent,
                ) + ", old_index="@ + decimal(*old_index as nat) + ")"@ =~= old(out)@
                    + tree_action_text(x@));
            }
        },
        TreeExternalDiff::Delete { old_parent, old_index } => {
            out.append("Delete(old_parent=");
            append_parent(out, old_parent);
            out.append(", old_index=");
            append_decimal(out, *old_index as u64);
            out.append(")");
            proof {
                assert(old(out)@ + "Delete(old_parent="@ + parent_text(*old_parent)
                    + ", old_index="@ + decimal(*old_index as nat) + ")"@ =~= old(out)@
                    + tree_action_text(x@));
            }
        },
    }
}

pub open spec fn tree_item_text(x: TreeDiffItemView) -> Seq<char> {
    "TreeDiffItem(target="@ + id_text(x.target.peer, x.target.counter) + ", action="@
        + tree_action_text(x.action) + ")"@
}

fn append_tree_item(out: &mut String, x: &TreeDiffItem)
    ensures
        final(out)@ == old(out)@ + tree_item_text(x@),
{
    out.append("TreeDiffItem(target=");
    append_id(out, x.target.peer, x.target.counter);
    out.append(", action=");
    append_tree_action(out, &x.action);
    out.append(")");
    proof {
        assert(old(out)@ + "TreeDiffItem(target="@ + id_text(x.target.peer, x.target.counter)
            + ", action="@ + tree_action_text(x.action@) + ")"@ =~= old(out)@ + tree_item_text(x@));
    }
}

pub open spec fn tree_diff_text(t: Seq<TreeDiffItemView>) -> Seq<char> {
    "TreeDiff(diff=["@ + joined(t.map_values(|x: TreeDiffItemView| tree_item_text(x)), ", "@)
        + "])"@
}

fn append_tree_diff(out: &mut String, t: &TreeDiff)
    ensures
        final(out)@ == old(out)@ + tree_diff_text(t@),
{
    out.append("TreeDiff(diff=[");
    let ghost start = out@;
    let ghost parts = t@.map_values(|x: TreeDiffItemView| tree_item_text(x));
    let mut i: usize = 0;
    proof {
        lemma_join_none(start, parts, ", "@);
    }
    while i < t.diff.len()
        invariant
            i <= t.diff.len(),
            parts == t@.map_values(|x: TreeDiffItemView| tree_item_text(x)),
            out@ == start + joined(parts.take(i as int), ", "@),
        decreases t.diff.len() - i,
    {
        if i > 0 {
            out.append(", ");
        }
        append_tree_item(out, &t.diff[i]);
        proof {
            assert(parts[i as int] == tree_item_text(t.diff@[i as int]@));
            lemma_join_step(start, parts, i as int, ", "@);
        }
        i += 1;
    }
    out.append("])");
    proof {
        lemma_join_none(start, parts, ", "@);
        assert(old(out)@ + "TreeDiff(diff=["@ + joined(parts, ", "@) + "])"@ =~= old(out)@
            + tree_diff_text(t@));
    }
}

pub open spec fn diff_text(d: DiffView) -> Seq<char> {
    match d {
        DiffView::List(v) => "List(["@ + joined(
            v.map_values(|x: ListDiffItemView| list_item_text(x)),
            ", "@,
        ) + "])"@,
        DiffView::Text(v) => "Text(["@ + joined(
            v.map_values(|x: TextDeltaView| text_delta_text(x)),
            ", "@,
        ) + "])"@,
        DiffView::Mapping(m) => "Map("@ + map_delta_text(m) + ")"@,
        DiffView::Tree(t) => "Tree("@ + tree_diff_text(t) + ")"@,
        DiffView::Counter(c) => "Counter("@ + amount_text(c) + ")"@,
        DiffView::Unknown => "Unknown()"@,
    }
}

fn append_diff(out: &mut String, d: &Diff)
    ensures
        final(out)@ == old(out)@ + diff_text(d@),
{
    match d {
        Diff::List(v) => {
            out.append("List([");
            let ghost start = out@;
            let ghost view = v@.map_values(|x: ListDiffItem| x@);
            let ghost parts = view.map_values(|x: ListDiffItemView| list_item_text(x));
            let mut i: usize = 0;
            proof {
                lemma_join_none(start, parts, ", "@);
            }
            while i < v.len()
                invariant
                    i <= v.len(),
                    view == v@.map_values(|x: ListDiffItem| x@),
                    parts == view.map_values(|x: ListDiffItemView| list_item_text(x)),
                    out@ == start + joined(parts.take(i as int), ", "@),
                decreases v.len() - i,
            {
                if i > 0 {
                    out.append(", ");
                }
                append_list_item(out, &v[i]);
                proof {
                    assert(parts[i as int] == list_item_text(v@[i as int]@));
                    lemma_join_step(start, parts, i as int, ", "@);
                }
                i += 1;
            }
            out.append("])");
            proof {
                lemma_join_none(start, parts, ", "@);
                assert(old(out)@ + "List(["@ + joined(parts, ", "@) + "])"@ =~= old(out)@
                    + diff_text(d@));
            }
        },
        Diff::Text(v) => {
            out.append("Text([");
            let ghost start = out@;
            let ghost view = v@.map_values(|x: TextDelta| x@);
            let ghost parts = view.map_values(|x: TextDeltaView| text_delta_text(x));
            let mut i: usize = 0;
            proof {
                lemma_join_none(start, parts, ", "@);
            }
            while i < v.len()
                invariant
                    i <= v.len(),
                    view == v@.map_values(|x: TextDelta| x@),
                    parts == view.map_values(|x: TextDeltaView| text_delta_text(x)),
                    out@ == start + joined(parts.take(i as int), ", "@),
                decreases v.len() - i,
            {
                if i > 0 {
                    out.append(", ");
                }
                append_text_delta(out, &v[i]);
                proof {
                    assert(parts[i as int] == text_delta_text(v@[i as int]@));
                    lemma_join_step(start, parts, i as int, ", "@);
                }
                i += 1;
            }
            out.append("])");
            proof {
                lemma_join_none(start, parts, ", "@);
                assert(old(out)@ + "Text(["@ + joined(parts, ", "@) + "])"@ =~= old(out)@
                    + diff_text(d@));
            }
        },
        Diff::Mapping(m) => {
            out.append("Map(");
            append_map_delta(out, m);
            out.append(")");
            proof {
                assert(old(out)@ + "Map("@ + map_delta_text(m@) + ")"@ =~= old(out)@ + diff_text(d@));
            }
        },
        Diff::Tree(t) => {
            out.append("Tree(");
            append_tree_diff(out, t);
            out.append(")");
            proof {
                assert(old(out)@ + "Tree("@ + tree_diff_text(t@) + ")"@ =~= old(out)@ + diff_text(
                    d@,
                ));
            }
        },
        Diff::Counter(c) => {
            out.append("Counter(");
            let s = c.amount_to_string();
            out.append(s.as_str());
            out.append(")");
            proof {
                assert(old(out)@ + "Counter("@ + amount_text(*c) + ")"@ =~= old(out)@ + diff_text(
                    d@,
                ));
            }
        },
        Diff::Unknown => out.append("Unknown()"),
    }
}

pub open spec fn container_diff_text(c: ContainerDiffView) -> Seq<char> {
    "ContainerDiff(target="@ + cid_text(c.target) + ", path=["@ + joined(
        c.path.map_values(|x: PathItemView| path_item_text(x)),
        ", "@,
    ) + "], is_unknown="@ + bool_text(c.is_unknown) + ", diff="@ + diff_text(c.diff) + ")"@
}

fn append_container_diff(out: &mut String, c: &ContainerDiff)
    ensures
        final(out)@ == old(out)@ + container_diff_text(c@),
{
    out.append("ContainerDiff(target=");
    append_cid(out, &c.target);
    out.append(", path=[");
    let ghost start = out@;
    let ghost parts = c@.path.map_values(|x: PathItemView| path_item_text(x));
    let mut i: usize = 0;
    proof {
        lemma_join_none(start, parts, ", "@);
    }
    while i < c.path.len()
        invariant
            i <= c.path.len(),
            parts == c@.path.map_values(|x: PathItemView| path_item_text(x)),
            out@ == start + joined(parts.take(i as int), ", "@),
        decreases c.path.len() - i,
    {
        if i > 0 {
            out.append(", ");
        }
        append_path_item(out, &c.path[i]);
        proof {
            assert(parts[i as int] == path_item_text(c.path@[i as int]@));
            lemma_join_step(start, parts, i as int, ", "@);
        }
        i += 1;
    }
    out.append("], is_unknown=");
    out.append(bool_str(c.is_unknown));
    out.append(", diff=");
    append_diff(out, &c.diff);
    out.append(")");
    proof {
        lemma_join_none(start, parts, ", "@);
        assert(old(out)@ + "ContainerDiff(target="@ + cid_text(c.target@) + ", path=["@ + joined(
            parts,
            ", "@,
        ) + "], is_unknown="@ + bool_text(c.is_unknown) + ", diff="@ + diff_text(c.diff@) + ")"@
            =~= old(out)@ + container_diff_text(c@));
    }
}

/// The text of an event up to its list of changes.
pub open spec fn event_head_text(e: DiffEventView) -> Seq<char> {
    "DiffEvent(triggered_by="@ + trigger_text(e.triggered_by) + ", origin='"@ + e.origin
        + "', current_target="@ + match e.current_target {
        Some(c) => cid_text(c),
        None => "None"@,
    } + ", events="@
}

pub open spec fn event_text(e: DiffEventView) -> Seq<char> {
    event_head_text(e) + joined(
        e.events.map_values(|x: ContainerDiffView| container_diff_text(x)),
        ", "@,
    ) + ")"@
}

fn append_event_head(out: &mut String, e: &DiffEvent)
    ensures
        final(out)@ == old(out)@ + event_head_text(e@),
{
    out.append("DiffEvent(triggered_by=");
    out.append(e.triggered_by.name());
    out.append(", origin='");
    out.append(e.origin.as_str());
    out.append("', current_target=");
    let ghost mid = out@;
    match &e.current_target {
        Some(c) => append_cid(out, c),
        None => out.append("None"),
    }
    let ghost target = match e@.current_target {
        Some(c) => cid_text(c),
        None => "None"@,
    };
    assert(out@ == mid + target);
    out.append(", events=");
    proof {
        assert(old(out)@ + "DiffEvent(triggered_by="@ + trigger_text(e.triggered_by)
            + ", origin='"@ + e.origin@ + "', current_target="@ + target + ", events="@ =~= old(
            out,
        )@ + event_head_text(e@));
    }
}

#[verifier::spinoff_prover]
#[verifier::rlimit(60)]
fn append_event(out: &mut String, e: &DiffEvent)
    ensures
        final(out)@ == old(out)@ + event_text(e@),
{
    append_event_head(out, e);
    let ghost start = out@;
    let ghost parts = e@.events.map_values(|x: ContainerDiffView| container_diff_text(x));
    let mut i: usize = 0;
    proof {
        lemma_join_none(start, parts, ", "@);
    }
    while i < e.events.len()
        invariant
            i <= e.events.len(),
            parts == e@.events.map_values(|x: ContainerDiffView| container_diff_text(x)),
            out@ == start + joined(parts.take(i as int), ", "@),
        decreases e.events.len() - i,
    {
        if i > 0 {
            out.append(", ");
        }
        append_container_diff(out, &e.events[i]);
        proof {
            assert(parts[i as int] == container_diff_text(e.events@[i as int]@));
            lemma_join_step(start, parts, i as int, ", "@);
        }
        i += 1;
    }
    out.append(")");
    proof {
        lemma_join_none(start, parts, ", "@);
        assert(old(out)@ + event_head_text(e@) + joined(parts, ", "@) + ")"@ =~= old(out)@
            + event_text(e@));
    }
}

/// What was appended to an empty text.
proof fn lemma_from_empty(s: Seq<char>)
    ensures
        Seq::<char>::empty() + s == s,
{
    assert(Seq::<char>::empty() + s =~= s);
}

impl Index {
    /// `Key(key='..')`, `Seq(index=..)` or `Node(target=..)`.
    pub fn to_string(&self) -> (s: String)
        ensures
            s@ == index_text(self@),
    {
        let mut out = String::new();
        append_index(&mut out, self);
        proof {
            lemma_from_empty(index_text(self@));
        }
        out
    }
}

impl PathItem {
    /// `PathItem(container=.., index=..)`.
    pub fn to_string(&self) -> (s: String)
        ensures
            s@ == path_item_text(self@),
    {
        let mut out = String::new();
        append_path_item(&mut out, self);
        proof {
            lemma_from_empty(path_item_text(self@));
        }
        out
    }
}

impl ListDiffItem {
    /// `Insert(insert=[..], is_move=..)`, `Delete(delete=..)` or
    /// `Retain(retain=..)`.
    pub fn to_string(&self) -> (s: String)
        ensures
            s@ == list_item_text(self@),
    {
        let mut out = String::new();
        append_list_item(&mut out, self);
        proof {
            lemma_from_empty(list_item_text(self@));
        }
        out
    }
}

impl TextDelta {
    /// `Retain(retain=.., attributes=..)`, `Insert(insert='..', attributes=..)`
    /// or `Delete(delete=..)`.
    pub fn to_string(&self) -> (s: String)
        ensures
            s@ == text_delta_text(self@),
    {
        let mut out = String::new();
        append_text_delta(&mut out, self);
        proof {
            lemma_from_empty(text_delta_text(self@));
        }
        out
    }
}

impl MapDelta {
    /// `MapDelta(updated={'key': item, ..})`.
    pub fn to_string(&self) -> (s: String)
        ensures
            s@ == map_delta_text(self@),
    {
        let mut out = String::new();
        append_map_delta(&mut out, self);
        proof {
            lemma_from_empty(map_delta_text(self@));
        }
        out
    }
}

impl TreeExternalDiff {
    /// `Create(..)`, `Move(..)` or `Delete(..)` with the fields of the variant.
    pub fn to_string(&self) -> (s: String)
        ensures
            s@ == tree_action_text(self@),
    {
        let mut out = String::new();
        append_tree_action(&mut out, self);
        proof {
            lemma_from_empty(tree_action_text(self@));
        }
        out
    }
}

impl TreeDiffItem {
    /// `TreeDiffItem(target=.., action=..)`.
    pub fn to_string(&self) -> (s: String)
        ensures
            s@ == tree_item_text(self@),
    {
        let mut out = String::new();
        append_tree_item(&mut out, self);
        proof {
            lemma_from_empty(tree_item_text(self@));
        }
        out
    }
}

impl TreeDiff {
    /// `TreeDiff(diff=[..])`.
    pub fn to_string(&self) -> (s: String)
        ensures
            s@ == tree_diff_text(self@),
    {
        let mut out = String::new();
        append_tree_diff(&mut out, self);
        proof {
            lemma_from_empty(tree_diff_text(self@));
        }
        out
    }
}

impl Diff {
    /// The change in the form of its kind: `List([..])`, `Text([..])`,
    /// `Map(..)`, `Tree(..)`, `Counter(..)` or `Unknown()`.
    pub fn to_string(&self) -> (s: String)
        ensures
            s@ == diff_text(self@),
    {
        let mut out = String::new();
        append_diff(&mut out, self);
        proof {
            lemma_from_empty(diff_text(self@));
        }
        out
    }
}

impl ContainerDiff {
    /// `ContainerDiff(target=.., path=[..], is_unknown=.., diff=..)`.
    pub fn to_string(&self) -> (s: String)
        ensures
            s@ == container_diff_text(self@),
    {
        let mut out = String::new();
        append_container_diff(&mut out, self);
        proof {
            lemma_from_empty(container_diff_text(self@));
        }
        out
    }
}

impl DiffEvent {
    /// `DiffEvent(triggered_by=.., origin='..', current_target=.., events=..)`.
    pub fn to_string(&self) -> (s: String)
        ensures
            s@ == event_text(self@),
    {
        let mut out = String::new();
        append_event(&mut out, self);
        proof {
            lemma_from_empty(event_text(self@));
        }
        out
    }
}

} // verus!
